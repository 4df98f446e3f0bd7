//! The list of opened sound files in the side panel.
use vstd::prelude::*;
use crate::confirm_modal::{initial_confirm, ConfirmModal};
use crate::paths::{file_name_of, path_file_name};
use crate::text::{contains_lower, has_sub, lower_chars, lowercase};

verus! {

/// One opened file.
pub struct FileItem {
    pub path: String,
    pub name: String,
    pub is_selected: bool,
}

/// A file entry as plain values.
pub struct FileItemView {
    pub path: Seq<char>,
    pub name: Seq<char>,
    pub is_selected: bool,
}

impl DeepView for FileItem {
    type V = FileItemView;

    open spec fn deep_view(&self) -> FileItemView {
        FileItemView { path: self.path@, name: self.name@, is_selected: self.is_selected }
    }
}

/// The opened files, the selected one, and the side panel's search text.
pub struct FileList {
    pub files: Vec<FileItem>,
    pub selected_file: Option<String>,
    pub search_query: String,
    pub confirm_clear_modal: ConfirmModal,
}

/// The name shown for a path: its final component, or "Unknown file".
pub open spec fn display_name_of(path: Seq<char>) -> Seq<char> {
    match path_file_name(path) {
        Some(n) => n,
        None => "Unknown file"@,
    }
}

/// Some entry has this path.
pub open spec fn has_path(files: Seq<FileItemView>, path: Seq<char>) -> bool {
    exists|i: int| 0 <= i < files.len() && (#[trigger] files[i]).path == path
}

/// Position of the first entry with this path.
pub open spec fn first_with_path(files: Seq<FileItemView>, path: Seq<char>) -> int {
    choose|i: int| 0 <= i < files.len() && (#[trigger] files[i]).path == path
        && forall|j: int| 0 <= j < i ==> files[j].path != path
}

/// The selected path as plain characters.
pub open spec fn selected_view(s: Option<String>) -> Option<Seq<char>> {
    match s {
        Some(p) => Some(p@),
        None => None,
    }
}

/// The entries with their selection marks set from the selected path.
pub open spec fn marked(files: Seq<FileItemView>, selected: Option<Seq<char>>) -> Seq<FileItemView> {
    files.map_values(|f: FileItemView| FileItemView { is_selected: selected == Some(f.path), ..f })
}

/// Entries whose name or path, lower-cased, contains the lower-cased query.
pub open spec fn file_hits(files: Seq<FileItemView>, q: Seq<char>) -> Seq<usize>
    decreases files.len(),
{
    if files.len() == 0 {
        Seq::empty()
    } else {
        let prev = file_hits(files.drop_last(), q);
        let f = files.last();
        if has_sub(lowercase(f.name), q) || has_sub(lowercase(f.path), q) {
            prev.push((files.len() - 1) as usize)
        } else {
            prev
        }
    }
}

impl FileList {
    /// The files as plain values.
    pub open spec fn files_view(&self) -> Seq<FileItemView> {
        self.files.deep_view()
    }

    /// An empty list with nothing selected.
    pub fn new() -> (l: Self)
        ensures
            l.files@.len() == 0,
            l.selected_file is None,
            l.search_query@.len() == 0,
            initial_confirm(l.confirm_clear_modal),
    {
        FileList { files: Vec::new(), selected_file: None, search_query: String::new(), confirm_clear_modal: ConfirmModal::new() }
    }

    /// Sets each entry's selection mark: selected exactly when its path is
    /// the selected path.
    pub fn update_selection(&mut self)
        ensures
            final(self).files_view() == marked(old(self).files_view(), selected_view(old(self).selected_file)),
            final(self).selected_file == old(self).selected_file,
            final(self).search_query == old(self).search_query,
            final(self).confirm_clear_modal == old(self).confirm_clear_modal,
    {
        let ghost before = self.files_view();
        let ghost sel = selected_view(self.selected_file);
        let mut i: usize = 0;
        while i < self.files.len()
            invariant
                i <= self.files.len(),
                self.files@.len() == before.len(),
                sel == selected_view(self.selected_file),
                self.selected_file == old(self).selected_file,
                self.search_query == old(self).search_query,
                self.confirm_clear_modal == old(self).confirm_clear_modal,
                forall|j: int| 0 <= j < i ==> (#[trigger] self.files@[j]).deep_view() == marked(before, sel)[j],
                forall|j: int| i <= j < before.len() ==> (#[trigger] self.files@[j]).deep_view() == before[j],
            decreases self.files.len() - i,
        {
            let is_sel = match &self.selected_file {
                Some(s) => self.files[i].path == *s,
                None => false,
            };
            let f = FileItem { path: self.files[i].path.clone(), name: self.files[i].name.clone(), is_selected: is_sel };
            self.files.set(i, f);
            i += 1;
        }
        assert(self.files_view() =~= marked(before, sel));
    }

    /// Adds a file, named after its final path component, and selects it;
    /// a path already in the list is ignored.
    pub fn add_file(&mut self, path: String)
        ensures
            final(self).search_query == old(self).search_query,
            final(self).confirm_clear_modal == old(self).confirm_clear_modal,
            has_path(old(self).files_view(), path@) ==> {
                &&& final(self).files == old(self).files
                &&& final(self).selected_file == old(self).selected_file
            },
            !has_path(old(self).files_view(), path@) ==> {
                &&& final(self).files_view() == marked(
                    old(self).files_view().push(FileItemView { path: path@, name: display_name_of(path@), is_selected: false }),
                    Some(path@),
                )
                &&& final(self).selected_file matches Some(s) && s@ == path@
            },
    {
        let mut i: usize = 0;
        while i < self.files.len()
            invariant
                i <= self.files.len(),
                forall|j: int| 0 <= j < i ==> (#[trigger] self.files_view()[j]).path != path@,
            decreases self.files.len() - i,
        {
            if self.files[i].path == path {
                assert(self.files_view()[i as int].path == path@);
                return;
            }
            i += 1;
        }
        let name = match file_name_of(path.as_str()) {
            Some(n) => n,
            None => "Unknown file".to_string(),
        };
        let ghost before = self.files_view();
        self.files.push(FileItem { path: path.clone(), name, is_selected: false });
        assert(self.files_view() =~= before.push(FileItemView { path: path@, name: display_name_of(path@), is_selected: false }));
        self.selected_file = Some(path);
        self.update_selection();
    }

    /// Removes the first entry with this path. When it was the selected
    /// one, the first remaining entry (if any) becomes selected.
    pub fn remove_file(&mut self, path: &str)
        ensures
            final(self).search_query == old(self).search_query,
            final(self).confirm_clear_modal == old(self).confirm_clear_modal,
            !has_path(old(self).files_view(), path@) ==> {
                &&& final(self).files == old(self).files
                &&& final(self).selected_file == old(self).selected_file
            },
            has_path(old(self).files_view(), path@) ==> {
                let rest = old(self).files_view().remove(first_with_path(old(self).files_view(), path@));
                let sel = if selected_view(old(self).selected_file) == Some(path@) {
                    if rest.len() == 0 { None } else { Some(rest[0].path) }
                } else {
                    selected_view(old(self).selected_file)
                };
                &&& selected_view(final(self).selected_file) == sel
                &&& final(self).files_view() == marked(rest, sel)
            },
    {
        let ghost v = self.files_view();
        let target = path.to_string();
        let mut i: usize = 0;
        while i < self.files.len()
            invariant
                i <= self.files.len(),
                target@ == path@,
                v == self.files_view(),
                self.files == old(self).files,
                self.selected_file == old(self).selected_file,
                self.search_query == old(self).search_query,
                self.confirm_clear_modal == old(self).confirm_clear_modal,
                forall|j: int| 0 <= j < i ==> (#[trigger] v[j]).path != path@,
            decreases self.files.len() - i,
        {
            if self.files[i].path == target {
                proof {
                    assert(v[i as int].path == path@);
                    let k = first_with_path(v, path@);
                    assert(0 <= k < v.len() && v[k].path == path@ && forall|j: int| 0 <= j < k ==> v[j].path != path@);
                    if k > i {
                        assert(v[i as int].path != path@);
                    }
                    assert(k == i);
                }
                let _ = self.files.remove(i);
                assert(self.files_view() =~= v.remove(i as int));
                let was_selected = match &self.selected_file {
                    Some(s) => *s == target,
                    None => false,
                };
                if was_selected {
                    self.selected_file = if self.files.len() == 0 {
                        None
                    } else {
                        Some(self.files[0].path.clone())
                    };
                }
                self.update_selection();
                return;
            }
            i += 1;
        }
    }

    /// Empties the list; nothing is selected.
    pub fn clear_all(&mut self)
        ensures
            final(self).files@.len() == 0,
            final(self).selected_file is None,
            final(self).search_query == old(self).search_query,
            final(self).confirm_clear_modal == old(self).confirm_clear_modal,
    {
        self.files = Vec::new();
        self.selected_file = None;
    }

    /// Positions of the entries the side panel shows: all when the search
    /// text is empty, else those whose name or path contains it, ignoring
    /// case.
    pub fn filtered_files(&self) -> (r: Vec<usize>)
        ensures
            r@ == (if self.search_query@.len() == 0 {
                Seq::new(self.files@.len(), |i: int| i as usize)
            } else {
                file_hits(self.files_view(), lowercase(self.search_query@))
            }),
    {
        let mut r: Vec<usize> = Vec::new();
        if self.search_query.unicode_len() == 0 {
            let mut i: usize = 0;
            while i < self.files.len()
                invariant
                    i <= self.files.len(),
                    r@ == Seq::new(i as nat, |k: int| k as usize),
                decreases self.files.len() - i,
            {
                r.push(i);
                i += 1;
                assert(r@ =~= Seq::new(i as nat, |k: int| k as usize));
            }
            return r;
        }
        let q = lower_chars(self.search_query.as_str());
        let ghost v = self.files_view();
        let mut i: usize = 0;
        while i < self.files.len()
            invariant
                i <= self.files.len(),
                v == self.files_view(),
                q@ == lowercase(self.search_query@),
                r@ == file_hits(v.take(i as int), q@),
            decreases self.files.len() - i,
        {
            proof {
                assert(v.take(i + 1).drop_last() =~= v.take(i as int));
                assert(v.take(i + 1).last() == v[i as int]);
            }
            if contains_lower(self.files[i].name.as_str(), &q) || contains_lower(self.files[i].path.as_str(), &q) {
                r.push(i);
            }
            i += 1;
        }
        assert(v.take(self.files.len() as int) =~= v);
        r
    }
}

/// What the user did in the side panel during one frame.
pub enum FileListEvent {
    /// The clear-all dialog was drawn; its answer, if any, is to be acted on.
    ConfirmChecked,
    /// Files were picked in the add dialog.
    AddFiles(Vec<String>),
    /// The clear-all button was pressed; the dialog's title and question.
    ClearAllClicked(String, String),
    /// The search text's clear button was pressed.
    ClearSearch,
    /// A row's remove button was pressed.
    RemoveClicked(String),
    /// A row was clicked outside its name.
    RowClicked(String),
}

/// The files and the selected path after adding a file (see `add_file`).
pub open spec fn after_add(st: (Seq<FileItemView>, Option<Seq<char>>), path: Seq<char>) -> (Seq<FileItemView>, Option<Seq<char>>) {
    if has_path(st.0, path) {
        st
    } else {
        (marked(st.0.push(FileItemView { path, name: display_name_of(path), is_selected: false }), Some(path)), Some(path))
    }
}

/// The files and the selected path after adding several files in order.
pub open spec fn after_adds(st: (Seq<FileItemView>, Option<Seq<char>>), paths: Seq<Seq<char>>) -> (Seq<FileItemView>, Option<Seq<char>>)
    decreases paths.len(),
{
    if paths.len() == 0 {
        st
    } else {
        after_add(after_adds(st, paths.drop_last()), paths.last())
    }
}

/// The files and the selected path after removing a file (see `remove_file`).
pub open spec fn after_remove(st: (Seq<FileItemView>, Option<Seq<char>>), path: Seq<char>) -> (Seq<FileItemView>, Option<Seq<char>>) {
    if !has_path(st.0, path) {
        st
    } else {
        let rest = st.0.remove(first_with_path(st.0, path));
        let sel = if st.1 == Some(path) {
            if rest.len() == 0 { None } else { Some(rest[0].path) }
        } else {
            st.1
        };
        (marked(rest, sel), sel)
    }
}

impl FileList {
    /// The files and the selected path.
    pub open spec fn list_state(&self) -> (Seq<FileItemView>, Option<Seq<char>>) {
        (self.files_view(), selected_view(self.selected_file))
    }

    /// Acts on one event of the side panel; the result says whether the
    /// file list or its selection changed. A confirmed clear-all empties
    /// the list, and any answer of the dialog is then forgotten; picked files
    /// are added in order; the clear-all button opens the dialog when the
    /// list is not empty; a row's remove button removes that file; a click on
    /// a row selects its file.
    pub fn on_event(&mut self, ev: FileListEvent) -> (changed: bool)
        ensures
            match ev {
                FileListEvent::ConfirmChecked => if old(self).confirm_clear_modal.confirmed {
                    &&& changed
                    &&& final(self).files@.len() == 0
                    &&& final(self).selected_file is None
                    &&& final(self).search_query == old(self).search_query
                    &&& !final(self).confirm_clear_modal.confirmed && !final(self).confirm_clear_modal.cancelled
                    &&& final(self).confirm_clear_modal.open == old(self).confirm_clear_modal.open
                } else {
                    &&& !changed
                    &&& final(self).files == old(self).files
                    &&& final(self).selected_file == old(self).selected_file
                    &&& final(self).search_query == old(self).search_query
                    &&& !final(self).confirm_clear_modal.confirmed && !final(self).confirm_clear_modal.cancelled
                    &&& final(self).confirm_clear_modal.open == old(self).confirm_clear_modal.open
                },
                FileListEvent::AddFiles(paths) => {
                    &&& changed
                    &&& final(self).list_state() == after_adds(old(self).list_state(), paths@.map_values(|p: String| p@))
                    &&& final(self).search_query == old(self).search_query
                    &&& final(self).confirm_clear_modal == old(self).confirm_clear_modal
                },
                FileListEvent::ClearAllClicked(title, message) => {
                    &&& !changed
                    &&& final(self).files == old(self).files
                    &&& final(self).selected_file == old(self).selected_file
                    &&& final(self).search_query == old(self).search_query
                    &&& if old(self).files@.len() > 0 {
                        &&& final(self).confirm_clear_modal.open
                        &&& final(self).confirm_clear_modal.title@ == title@
                        &&& final(self).confirm_clear_modal.message@ == message@
                        &&& !final(self).confirm_clear_modal.confirmed && !final(self).confirm_clear_modal.cancelled
                    } else {
                        final(self).confirm_clear_modal == old(self).confirm_clear_modal
                    }
                },
                FileListEvent::ClearSearch => {
                    &&& !changed
                    &&& final(self).files == old(self).files
                    &&& final(self).selected_file == old(self).selected_file
                    &&& final(self).search_query@.len() == 0
                    &&& final(self).confirm_clear_modal == old(self).confirm_clear_modal
                },
                FileListEvent::RemoveClicked(path) => {
                    &&& changed
                    &&& final(self).list_state() == after_remove(old(self).list_state(), path@)
                    &&& final(self).search_query == old(self).search_query
                    &&& final(self).confirm_clear_modal == old(self).confirm_clear_modal
                },
                FileListEvent::RowClicked(path) => {
                    &&& changed
                    &&& final(self).list_state() == (marked(old(self).files_view(), Some(path@)), Some(path@))
                    &&& final(self).search_query == old(self).search_query
                    &&& final(self).confirm_clear_modal == old(self).confirm_clear_modal
                },
            },
    {
        match ev {
            FileListEvent::ConfirmChecked => {
                if self.confirm_clear_modal.confirmed {
                    self.clear_all();
                    self.confirm_clear_modal.reset_state();
                    true
                } else {
                    if self.confirm_clear_modal.cancelled {
                        self.confirm_clear_modal.reset_state();
                    }
                    false
                }
            },
            FileListEvent::AddFiles(paths) => {
                let ghost ps = paths@.map_values(|p: String| p@);
                let ghost start = self.list_state();
                let mut i: usize = 0;
                while i < paths.len()
                    invariant
                        i <= paths.len(),
                        ps == paths@.map_values(|p: String| p@),
                        self.list_state() == after_adds(start, ps.take(i as int)),
                        self.search_query == old(self).search_query,
                        self.confirm_clear_modal == old(self).confirm_clear_modal,
                    decreases paths.len() - i,
                {
                    proof {
                        assert(ps.take(i + 1).drop_last() =~= ps.take(i as int));
                        assert(ps.take(i + 1).last() == paths@[i as int]@);
                    }
                    self.add_file(paths[i].clone());
                    i += 1;
                }
                assert(ps.take(paths.len() as int) =~= ps);
                true
            },
            FileListEvent::ClearAllClicked(title, message) => {
                if self.files.len() > 0 {
                    self.confirm_clear_modal.open(title.as_str(), message.as_str());
                }
                false
            },
            FileListEvent::ClearSearch => {
                self.search_query = String::new();
                false
            },
            FileListEvent::RemoveClicked(path) => {
                self.remove_file(path.as_str());
                true
            },
            FileListEvent::RowClicked(path) => {
                self.selected_file = Some(path);
                self.update_selection();
                true
            },
        }
    }
}

impl Default for FileList {
    fn default() -> (l: Self)
        ensures
            l.files@.len() == 0,
            l.selected_file is None,
            l.search_query@.len() == 0,
            initial_confirm(l.confirm_clear_modal),
    {
        FileList::new()
    }
}

/// Once a path is added it is listed, so adding it again changes nothing.
pub proof fn law_added_path_is_listed(files: Seq<FileItemView>, path: Seq<char>, sel: Option<Seq<char>>)
    ensures
        has_path(
            marked(files.push(FileItemView { path, name: display_name_of(path), is_selected: false }), sel),
            path,
        ),
{
    let l = marked(files.push(FileItemView { path, name: display_name_of(path), is_selected: false }), sel);
    assert(l[files.len() as int].path == path);
}

/// The side panel's search shows, in list order and once each, exactly the
/// positions of the files whose lower-cased name or path holds the query.
pub proof fn law_file_search_hits(files: Seq<FileItemView>, q: Seq<char>)
    requires
        files.len() <= usize::MAX,
    ensures
        forall|k: int|
            #![trigger file_hits(files, q)[k]]
            0 <= k < file_hits(files, q).len() ==> {
                let i = file_hits(files, q)[k] as int;
                &&& i < files.len()
                &&& has_sub(lowercase(files[i].name), q) || has_sub(lowercase(files[i].path), q)
            },
        forall|k: int, l: int|
            #![trigger file_hits(files, q)[k], file_hits(files, q)[l]]
            0 <= k < l < file_hits(files, q).len() ==> file_hits(files, q)[k] < file_hits(files, q)[l],
        forall|i: int|
            0 <= i < files.len() && (has_sub(lowercase(files[i].name), q) || has_sub(lowercase(files[i].path), q))
                ==> file_hits(files, q).contains(#[trigger] (i as usize)),
    decreases files.len(),
{
    if files.len() > 0 {
        let init = files.drop_last();
        law_file_search_hits(init, q);
        let prev = file_hits(init, q);
        let r = file_hits(files, q);
        let n = files.len() - 1;
        assert forall|k: int| #![trigger r[k]] 0 <= k < r.len() implies {
            let i = r[k] as int;
            &&& i < files.len()
            &&& has_sub(lowercase(files[i].name), q) || has_sub(lowercase(files[i].path), q)
        } by {
            if k < prev.len() {
                assert(r[k] == prev[k]);
                assert(init[prev[k] as int] == files[prev[k] as int]);
            }
        }
        assert forall|k: int, l: int| #![trigger r[k], r[l]] 0 <= k < l < r.len() implies r[k] < r[l] by {
            if l < prev.len() {
                assert(r[k] == prev[k] && r[l] == prev[l]);
            } else {
                assert(r[k] == prev[k]);
                assert(prev[k] < n);
            }
        }
        assert forall|i: int|
            0 <= i < files.len() && (has_sub(lowercase(files[i].name), q) || has_sub(lowercase(files[i].path), q))
                implies r.contains(#[trigger] (i as usize)) by {
            if i < n {
                assert(init[i] == files[i]);
                assert(prev.contains(i as usize));
                let k = choose|k: int| 0 <= k < prev.len() && prev[k] == i as usize;
                assert(r[k] == prev[k]);
            } else {
                assert(r[r.len() - 1] == i as usize);
            }
        }
    }
}

} // verus!
