//! The columns of the track table that searching and sorting refer to.
use vstd::prelude::*;

verus! {

/// Column to search in.
#[derive(Debug, Clone, Copy, PartialEq, Eq, Structural)]
pub enum SearchColumn {
    All,
    Name,
    Id,
    Size,
    Filename,
    Type,
}

/// Sortable column; `NoColumn` keeps the table order.
#[derive(Debug, Clone, Copy, PartialEq, Eq, Structural)]
pub enum SortColumn {
    Name,
    Id,
    Size,
    Filename,
    Type,
    NoColumn,
}

/// English label of a search column.
pub open spec fn search_label(c: SearchColumn) -> Seq<char> {
    match c {
        SearchColumn::All => "All Columns"@,
        SearchColumn::Name => "Name"@,
        SearchColumn::Id => "ID"@,
        SearchColumn::Size => "Size"@,
        SearchColumn::Filename => "Filename"@,
        SearchColumn::Type => "Type"@,
    }
}

/// Header label of a sort column (empty for `NoColumn`).
pub open spec fn sort_label(c: SortColumn) -> Seq<char> {
    match c {
        SortColumn::Name => "Name"@,
        SortColumn::Id => "ID"@,
        SortColumn::Size => "Size"@,
        SortColumn::Filename => "Filename"@,
        SortColumn::Type => "Type"@,
        SortColumn::NoColumn => ""@,
    }
}

impl SearchColumn {
    /// Label shown in the search-column selector.
    pub fn display_name(&self) -> (s: String)
        ensures
            s@ == search_label(*self),
    {
        let l: &str = match self {
            SearchColumn::All => "All Columns",
            SearchColumn::Name => "Name",
            SearchColumn::Id => "ID",
            SearchColumn::Size => "Size",
            SearchColumn::Filename => "Filename",
            SearchColumn::Type => "Type",
        };
        l.to_owned()
    }

    /// Every search column, in selector order.
    pub fn all_columns() -> (v: Vec<SearchColumn>)
        ensures
            v@ == seq![
                SearchColumn::All,
                SearchColumn::Name,
                SearchColumn::Id,
                SearchColumn::Size,
                SearchColumn::Filename,
                SearchColumn::Type,
            ],
    {
        let v = vec![
            SearchColumn::All,
            SearchColumn::Name,
            SearchColumn::Id,
            SearchColumn::Size,
            SearchColumn::Filename,
            SearchColumn::Type,
        ];
        assert(v@ =~= seq![
            SearchColumn::All,
            SearchColumn::Name,
            SearchColumn::Id,
            SearchColumn::Size,
            SearchColumn::Filename,
            SearchColumn::Type,
        ]);
        v
    }
}

impl SortColumn {
    /// Header label of the column.
    pub fn display_name(&self) -> (s: &'static str)
        ensures
            s@ == sort_label(*self),
    {
        match self {
            SortColumn::Name => "Name",
            SortColumn::Id => "ID",
            SortColumn::Size => "Size",
            SortColumn::Filename => "Filename",
            SortColumn::Type => "Type",
            SortColumn::NoColumn => "",
        }
    }
}

} // verus!
