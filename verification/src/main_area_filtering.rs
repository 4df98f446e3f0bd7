//! The rows the track table shows: the tracks matching the search query in
//! the chosen column, then stably sorted by the chosen column.
use vstd::prelude::*;
use crate::audio_file_info::{AudioFileInfo, AudioFileInfoView};
use crate::columns::{SearchColumn, SortColumn};
use crate::text::{contains_seq, has_sub, lower_chars, lowercase, parse_usize, parsed_unsigned};

verus! {

/// Lexicographic order of character sequences (-1, 0, 1); on strings this is
/// the standard string order, since UTF-8 byte order follows code points.
pub open spec fn lex_order(a: Seq<char>, b: Seq<char>) -> int
    decreases a.len(),
{
    if a.len() == 0 {
        if b.len() == 0 { 0 } else { -1 }
    } else if b.len() == 0 {
        1
    } else if a[0] < b[0] {
        -1
    } else if a[0] > b[0] {
        1
    } else {
        lex_order(a.subrange(1, a.len() as int), b.subrange(1, b.len() as int))
    }
}

/// Comparison of numbers (-1, 0, 1).
pub open spec fn num_order(x: int, y: int) -> int {
    if x < y { -1 } else if x > y { 1 } else { 0 }
}

/// ID order: IDs that parse as numbers compare numerically and come before
/// the others, which compare as lower-cased text.
pub open spec fn id_order(a: Seq<char>, b: Seq<char>) -> int {
    match (parsed_unsigned(a, usize::MAX as nat), parsed_unsigned(b, usize::MAX as nat)) {
        (Some(x), Some(y)) => num_order(x as int, y as int),
        (Some(_), None) => -1,
        (None, Some(_)) => 1,
        (None, None) => lex_order(lowercase(a), lowercase(b)),
    }
}

/// Comparison of two rows by a column (-1, 0, 1): text columns compare
/// lower-cased, sizes numerically, IDs as `id_order` says.
pub open spec fn column_order(a: AudioFileInfoView, b: AudioFileInfoView, col: SortColumn) -> int {
    match col {
        SortColumn::Name => lex_order(lowercase(a.name), lowercase(b.name)),
        SortColumn::Id => id_order(a.id, b.id),
        SortColumn::Size => num_order(a.size as int, b.size as int),
        SortColumn::Filename => lex_order(lowercase(a.filename), lowercase(b.filename)),
        SortColumn::Type => lex_order(lowercase(a.file_type), lowercase(b.file_type)),
        SortColumn::NoColumn => 0,
    }
}

/// Row `a` goes after row `b` in the chosen direction.
pub open spec fn sorts_after(a: AudioFileInfoView, b: AudioFileInfoView, col: SortColumn, ascending: bool) -> bool {
    if ascending { column_order(a, b, col) > 0 } else { column_order(a, b, col) < 0 }
}

/// First position from `j` on whose row goes after `x`, or the length.
pub open spec fn first_after_from(s: Seq<AudioFileInfoView>, x: AudioFileInfoView, col: SortColumn, ascending: bool, j: int) -> int
    decreases s.len() - j,
{
    if j < 0 || j >= s.len() {
        s.len() as int
    } else if sorts_after(s[j], x, col, ascending) {
        j
    } else {
        first_after_from(s, x, col, ascending, j + 1)
    }
}

/// Stable sort: each row in turn goes right before the first already placed
/// row that goes after it, so rows that compare equal keep their order.
pub open spec fn stable_sorted(s: Seq<AudioFileInfoView>, col: SortColumn, ascending: bool) -> Seq<AudioFileInfoView>
    decreases s.len(),
{
    if s.len() == 0 {
        s
    } else {
        let prev = stable_sorted(s.drop_last(), col, ascending);
        prev.insert(first_after_from(prev, s.last(), col, ascending, 0), s.last())
    }
}

/// A row matches the lower-cased query in the chosen column; `size_hit` says
/// whether its size, in the ways sizes are shown, matches.
pub open spec fn row_matches(f: AudioFileInfoView, ql: Seq<char>, col: SearchColumn, size_hit: bool) -> bool {
    match col {
        SearchColumn::All => has_sub(lowercase(f.name), ql) || has_sub(lowercase(f.id), ql) || size_hit
            || has_sub(lowercase(f.filename), ql) || has_sub(lowercase(f.file_type), ql),
        SearchColumn::Name => has_sub(lowercase(f.name), ql),
        SearchColumn::Id => has_sub(lowercase(f.id), ql),
        SearchColumn::Size => size_hit,
        SearchColumn::Filename => has_sub(lowercase(f.filename), ql),
        SearchColumn::Type => has_sub(lowercase(f.file_type), ql),
    }
}

/// The matching rows, in table order.
pub open spec fn matching_rows(files: Seq<AudioFileInfoView>, hits: Seq<bool>, ql: Seq<char>, col: SearchColumn) -> Seq<AudioFileInfoView>
    decreases files.len(),
{
    if files.len() == 0 {
        files
    } else {
        let prev = matching_rows(files.drop_last(), hits, ql, col);
        if row_matches(files.last(), ql, col, hits[files.len() - 1]) {
            prev.push(files.last())
        } else {
            prev
        }
    }
}

/// The table's rows: every track when the query is empty, else the matching
/// ones; then stably sorted unless no sort column is chosen.
pub open spec fn table_rows(
    files: Seq<AudioFileInfoView>,
    hits: Seq<bool>,
    query: Seq<char>,
    search: SearchColumn,
    sort: SortColumn,
    ascending: bool,
) -> Seq<AudioFileInfoView> {
    let f = if query.len() == 0 { files } else { matching_rows(files, hits, lowercase(query), search) };
    if sort == SortColumn::NoColumn { f } else { stable_sorted(f, sort, ascending) }
}

/// Lower-cased text fields and parsed ID of a row, computed once.
struct RowKey {
    name: Vec<char>,
    id: Vec<char>,
    id_num: Option<usize>,
    filename: Vec<char>,
    file_type: Vec<char>,
}

spec fn key_of(k: RowKey, f: AudioFileInfoView) -> bool {
    &&& k.name@ == lowercase(f.name)
    &&& k.id@ == lowercase(f.id)
    &&& k.filename@ == lowercase(f.filename)
    &&& k.file_type@ == lowercase(f.file_type)
    &&& match k.id_num {
        Some(v) => parsed_unsigned(f.id, usize::MAX as nat) == Some(v as nat),
        None => parsed_unsigned(f.id, usize::MAX as nat) is None,
    }
}

fn row_key(f: &AudioFileInfo) -> (k: RowKey)
    ensures
        key_of(k, f.deep_view()),
{
    RowKey {
        name: lower_chars(f.name.as_str()),
        id: lower_chars(f.id.as_str()),
        id_num: parse_usize(f.id.as_str()),
        filename: lower_chars(f.filename.as_str()),
        file_type: lower_chars(f.file_type.as_str()),
    }
}

fn lex_compare(a: &Vec<char>, b: &Vec<char>) -> (r: i8)
    ensures
        r as int == lex_order(a@, b@),
        -1 <= r <= 1,
{
    assert(a@.subrange(0, a.len() as int) =~= a@);
    assert(b@.subrange(0, b.len() as int) =~= b@);
    let mut i: usize = 0;
    while i < a.len() && i < b.len() && a[i] == b[i]
        invariant
            i <= a.len(),
            i <= b.len(),
            lex_order(a@, b@) == lex_order(a@.subrange(i as int, a.len() as int), b@.subrange(i as int, b.len() as int)),
        decreases a.len() - i,
    {
        proof {
            let sa = a@.subrange(i as int, a.len() as int);
            let sb = b@.subrange(i as int, b.len() as int);
            assert(sa.subrange(1, sa.len() as int) =~= a@.subrange(i + 1, a.len() as int));
            assert(sb.subrange(1, sb.len() as int) =~= b@.subrange(i + 1, b.len() as int));
        }
        i += 1;
    }
    let ghost sa = a@.subrange(i as int, a.len() as int);
    let ghost sb = b@.subrange(i as int, b.len() as int);
    if i == a.len() {
        if i == b.len() { 0 } else { -1 }
    } else if i == b.len() {
        1
    } else if a[i] < b[i] {
        assert(sa[0] == a@[i as int] && sb[0] == b@[i as int]);
        -1
    } else {
        assert(sa[0] == a@[i as int] && sb[0] == b@[i as int]);
        1
    }
}

fn num_compare(x: usize, y: usize) -> (r: i8)
    ensures
        r as int == num_order(x as int, y as int),
        -1 <= r <= 1,
{
    if x < y { -1 } else if x > y { 1 } else { 0 }
}

fn compare_rows(a: &RowKey, asize: usize, b: &RowKey, bsize: usize, col: SortColumn, Ghost(fa): Ghost<AudioFileInfoView>, Ghost(fb): Ghost<AudioFileInfoView>) -> (r: i8)
    requires
        key_of(*a, fa),
        key_of(*b, fb),
        fa.size == asize,
        fb.size == bsize,
    ensures
        r as int == column_order(fa, fb, col),
        -1 <= r <= 1,
{
    match col {
        SortColumn::Name => lex_compare(&a.name, &b.name),
        SortColumn::Id => match (a.id_num, b.id_num) {
            (Some(x), Some(y)) => num_compare(x, y),
            (Some(_), None) => -1,
            (None, Some(_)) => 1,
            (None, None) => lex_compare(&a.id, &b.id),
        },
        SortColumn::Size => num_compare(asize, bsize),
        SortColumn::Filename => lex_compare(&a.filename, &b.filename),
        SortColumn::Type => lex_compare(&a.file_type, &b.file_type),
        SortColumn::NoColumn => 0,
    }
}

fn row_matches_exec(f: &AudioFileInfo, k: &RowKey, ql: &Vec<char>, col: SearchColumn, size_hit: bool) -> (b: bool)
    requires
        key_of(*k, f.deep_view()),
    ensures
        b == row_matches(f.deep_view(), ql@, col, size_hit),
{
    match col {
        SearchColumn::All => contains_seq(&k.name, ql) || contains_seq(&k.id, ql) || size_hit || contains_seq(
            &k.filename,
            ql,
        ) || contains_seq(&k.file_type, ql),
        SearchColumn::Name => contains_seq(&k.name, ql),
        SearchColumn::Id => contains_seq(&k.id, ql),
        SearchColumn::Size => size_hit,
        SearchColumn::Filename => contains_seq(&k.filename, ql),
        SearchColumn::Type => contains_seq(&k.file_type, ql),
    }
}

spec fn rows_view(v: Seq<(AudioFileInfo, RowKey)>) -> Seq<AudioFileInfoView> {
    v.map_values(|r: (AudioFileInfo, RowKey)| r.0.deep_view())
}

spec fn rows_keyed(v: Seq<(AudioFileInfo, RowKey)>) -> bool {
    forall|i: int| 0 <= i < v.len() ==> key_of((#[trigger] v[i]).1, v[i].0.deep_view())
}

/// The rows the table shows (see `table_rows`). `size_hits[i]` says whether
/// the size of track `i` matches the query as the table displays sizes;
/// `None` means no file is loaded, giving no rows.
pub fn filtered_audio_files(
    audio_files: Option<&Vec<AudioFileInfo>>,
    search_query: &str,
    search_column: SearchColumn,
    sort_column: SortColumn,
    sort_ascending: bool,
    size_hits: &Vec<bool>,
) -> (r: Vec<AudioFileInfo>)
    requires
        audio_files matches Some(files) ==> size_hits@.len() == files@.len(),
    ensures
        r.deep_view() == match audio_files {
            Some(files) => table_rows(files.deep_view(), size_hits@, search_query@, search_column, sort_column, sort_ascending),
            None => Seq::<AudioFileInfoView>::empty(),
        },
{
    let files = match audio_files {
        Some(f) => f,
        None => {
            let r: Vec<AudioFileInfo> = Vec::new();
            assert(r.deep_view() =~= Seq::<AudioFileInfoView>::empty());
            return r;
        },
    };
    let ghost fv = files.deep_view();
    let query_empty = search_query.unicode_len() == 0;
    let ql = lower_chars(search_query);
    let ghost filtered = if search_query@.len() == 0 { fv } else { matching_rows(fv, size_hits@, ql@, search_column) };
    let mut rows: Vec<(AudioFileInfo, RowKey)> = Vec::new();
    let mut i: usize = 0;
    while i < files.len()
        invariant
            fv == files.deep_view(),
            size_hits@.len() == files@.len(),
            ql@ == lowercase(search_query@),
            i <= files.len(),
            rows_keyed(rows@),
            rows_view(rows@) == if query_empty { fv.take(i as int) } else { matching_rows(fv.take(i as int), size_hits@, ql@, search_column) },
        decreases files.len() - i,
    {
        let key = row_key(&files[i]);
        proof {
            assert(fv.take(i + 1).drop_last() =~= fv.take(i as int));
            assert(fv.take(i + 1).last() == fv[i as int]);
        }
        let keep = query_empty || row_matches_exec(&files[i], &key, &ql, search_column, size_hits[i]);
        let ghost before = rows@;
        if keep {
            rows.push((files[i].duplicate(), key));
        }
        assert(rows_view(rows@) =~= if query_empty { fv.take(i + 1) } else { matching_rows(fv.take(i + 1), size_hits@, ql@, search_column) });
        i += 1;
    }
    assert(fv.take(files.len() as int) =~= fv);
    assert(rows_view(rows@) == filtered);
    if sort_column == SortColumn::NoColumn {
        return unzip_rows(rows);
    }
    let after: i8 = if sort_ascending { 1 } else { -1 };
    let mut sorted: Vec<(AudioFileInfo, RowKey)> = Vec::new();
    let ghost src = rows_view(rows@);
    let ghost nrows = rows@.len();
    let mut k: usize = 0;
    let mut rest: Vec<(AudioFileInfo, RowKey)> = Vec::new();
    let mut rows = rows;
    let total: usize = rows.len();
    while rows.len() > 0
        invariant
            src.len() == nrows,
            nrows == total,
            rows@.len() + rest@.len() == nrows,
            rows_keyed(rows@),
            rows_keyed(rest@),
            forall|j: int| 0 <= j < rows@.len() ==> (#[trigger] rows@[j]).0.deep_view() == src[j],
            forall|j: int| 0 <= j < rest@.len() ==> (#[trigger] rest@[j]).0.deep_view() == src[nrows - 1 - j],
        decreases rows.len(),
    {
        let e = rows.pop().unwrap();
        rest.push(e);
    }
    assert(sorted@.len() == 0);
    assert(rows_view(sorted@) =~= stable_sorted(src.take(0), sort_column, sort_ascending));
    while rest.len() > 0
        invariant
            src.len() == nrows,
            nrows == total,
            after == (if sort_ascending { 1i8 } else { -1i8 }),
            k + rest@.len() == nrows,
            rows_keyed(rest@),
            rows_keyed(sorted@),
            forall|j: int| 0 <= j < rest@.len() ==> (#[trigger] rest@[j]).0.deep_view() == src[nrows - 1 - j],
            rows_view(sorted@) == stable_sorted(src.take(k as int), sort_column, sort_ascending),
        decreases rest.len(),
    {
        let x = rest.pop().unwrap();
        let ghost xv = x.0.deep_view();
        assert(xv == src[k as int]);
        let ghost sv = rows_view(sorted@);
        let mut p: usize = 0;
        while p < sorted.len() && compare_rows(&sorted[p].1, sorted[p].0.size, &x.1, x.0.size, sort_column, Ghost(sorted@[p as int].0.deep_view()), Ghost(xv)) != after
            invariant
                sv == rows_view(sorted@),
                rows_keyed(sorted@),
                key_of(x.1, xv),
                xv == x.0.deep_view(),
                after == (if sort_ascending { 1i8 } else { -1i8 }),
                p <= sorted.len(),
                first_after_from(sv, xv, sort_column, sort_ascending, 0) == first_after_from(sv, xv, sort_column, sort_ascending, p as int),
            decreases sorted.len() - p,
        {
            proof {
                assert(sv[p as int] == sorted@[p as int].0.deep_view());
            }
            p += 1;
        }
        proof {
            if p < sorted.len() {
                assert(sv[p as int] == sorted@[p as int].0.deep_view());
            }
            assert(first_after_from(sv, xv, sort_column, sort_ascending, p as int) == p);
            assert(src.take(k + 1).drop_last() =~= src.take(k as int));
            assert(src.take(k + 1).last() == src[k as int]);
        }
        sorted.insert(p, x);
        assert(rows_view(sorted@) =~= sv.insert(p as int, xv));
        k += 1;
    }
    assert(src.take(nrows as int) =~= src);
    unzip_rows(sorted)
}

fn unzip_rows(rows: Vec<(AudioFileInfo, RowKey)>) -> (r: Vec<AudioFileInfo>)
    ensures
        r.deep_view() == rows_view(rows@),
{
    let mut out: Vec<AudioFileInfo> = Vec::new();
    let mut i: usize = 0;
    while i < rows.len()
        invariant
            i <= rows.len(),
            out@.len() == i,
            forall|j: int| 0 <= j < i ==> (#[trigger] out@[j]).deep_view() == rows@[j].0.deep_view(),
        decreases rows.len() - i,
    {
        out.push(rows[i].0.duplicate());
        i += 1;
    }
    assert(out.deep_view() =~= rows_view(rows@));
    out
}

} // verus!

verus! {

/// `a` may stand before `b` in the chosen direction: not after it.
pub open spec fn goes_before(a: AudioFileInfoView, b: AudioFileInfoView, col: SortColumn, ascending: bool) -> bool {
    !sorts_after(a, b, col, ascending)
}

/// Every row stands before each later one in the chosen direction.
pub open spec fn sorted_by(s: Seq<AudioFileInfoView>, col: SortColumn, ascending: bool) -> bool {
    forall|i: int, j: int| 0 <= i < j < s.len() ==> goes_before(#[trigger] s[i], #[trigger] s[j], col, ascending)
}

proof fn lemma_lex_antisym(a: Seq<char>, b: Seq<char>)
    ensures
        lex_order(a, b) == -lex_order(b, a),
        -1 <= lex_order(a, b) <= 1,
    decreases a.len(),
{
    if a.len() > 0 && b.len() > 0 && a[0] == b[0] {
        lemma_lex_antisym(a.subrange(1, a.len() as int), b.subrange(1, b.len() as int));
    }
}

proof fn lemma_lex_trans(a: Seq<char>, b: Seq<char>, c: Seq<char>)
    requires
        lex_order(a, b) <= 0,
        lex_order(b, c) <= 0,
    ensures
        lex_order(a, c) <= 0,
    decreases a.len(),
{
    if a.len() > 0 && b.len() > 0 && c.len() > 0 && a[0] == b[0] && b[0] == c[0] {
        lemma_lex_trans(
            a.subrange(1, a.len() as int),
            b.subrange(1, b.len() as int),
            c.subrange(1, c.len() as int),
        );
    }
}

proof fn lemma_order_antisym(a: AudioFileInfoView, b: AudioFileInfoView, col: SortColumn)
    ensures
        column_order(a, b, col) == -column_order(b, a, col),
{
    lemma_lex_antisym(lowercase(a.name), lowercase(b.name));
    lemma_lex_antisym(lowercase(a.id), lowercase(b.id));
    lemma_lex_antisym(lowercase(a.filename), lowercase(b.filename));
    lemma_lex_antisym(lowercase(a.file_type), lowercase(b.file_type));
}

proof fn lemma_order_trans(a: AudioFileInfoView, b: AudioFileInfoView, c: AudioFileInfoView, col: SortColumn)
    requires
        column_order(a, b, col) <= 0,
        column_order(b, c, col) <= 0,
    ensures
        column_order(a, c, col) <= 0,
{
    match col {
        SortColumn::Name => lemma_lex_trans(lowercase(a.name), lowercase(b.name), lowercase(c.name)),
        SortColumn::Filename => lemma_lex_trans(lowercase(a.filename), lowercase(b.filename), lowercase(c.filename)),
        SortColumn::Type => lemma_lex_trans(lowercase(a.file_type), lowercase(b.file_type), lowercase(c.file_type)),
        SortColumn::Id => {
            let m = usize::MAX as nat;
            if parsed_unsigned(a.id, m) is None && parsed_unsigned(b.id, m) is None && parsed_unsigned(c.id, m) is None {
                lemma_lex_trans(lowercase(a.id), lowercase(b.id), lowercase(c.id));
            }
        },
        _ => {},
    }
}

/// The chosen direction orders rows totally: of two rows one may stand
/// before the other, and standing before is transitive.
proof fn lemma_goes_before_total(a: AudioFileInfoView, b: AudioFileInfoView, col: SortColumn, ascending: bool)
    ensures
        goes_before(a, b, col, ascending) || goes_before(b, a, col, ascending),
        sorts_after(a, b, col, ascending) ==> goes_before(b, a, col, ascending),
{
    lemma_order_antisym(a, b, col);
}

proof fn lemma_goes_before_trans(
    a: AudioFileInfoView,
    b: AudioFileInfoView,
    c: AudioFileInfoView,
    col: SortColumn,
    ascending: bool,
)
    requires
        goes_before(a, b, col, ascending),
        goes_before(b, c, col, ascending),
    ensures
        goes_before(a, c, col, ascending),
{
    if ascending {
        lemma_order_trans(a, b, c, col);
    } else {
        lemma_order_antisym(a, b, col);
        lemma_order_antisym(b, c, col);
        lemma_order_antisym(a, c, col);
        lemma_order_trans(c, b, a, col);
    }
}

proof fn lemma_first_after(s: Seq<AudioFileInfoView>, x: AudioFileInfoView, col: SortColumn, ascending: bool, j: int)
    requires
        0 <= j <= s.len(),
    ensures
        j <= first_after_from(s, x, col, ascending, j) <= s.len(),
        forall|k: int| j <= k < first_after_from(s, x, col, ascending, j) ==> goes_before(#[trigger] s[k], x, col, ascending),
        first_after_from(s, x, col, ascending, j) < s.len() ==> sorts_after(
            s[first_after_from(s, x, col, ascending, j)],
            x,
            col,
            ascending,
        ),
    decreases s.len() - j,
{
    if j < s.len() && !sorts_after(s[j], x, col, ascending) {
        lemma_first_after(s, x, col, ascending, j + 1);
    }
}

/// The stable sort of a list is sorted in the chosen direction and holds
/// exactly the rows of the list.
proof fn lemma_stable_sorted(s: Seq<AudioFileInfoView>, col: SortColumn, ascending: bool)
    ensures
        sorted_by(stable_sorted(s, col, ascending), col, ascending),
        stable_sorted(s, col, ascending).to_multiset() == s.to_multiset(),
    decreases s.len(),
{
    if s.len() > 0 {
        let prev = stable_sorted(s.drop_last(), col, ascending);
        let x = s.last();
        lemma_stable_sorted(s.drop_last(), col, ascending);
        lemma_first_after(prev, x, col, ascending, 0);
        let p = first_after_from(prev, x, col, ascending, 0);
        let out = prev.insert(p, x);
        assert forall|i: int, j: int| 0 <= i < j < out.len() implies goes_before(#[trigger] out[i], #[trigger] out[j], col, ascending) by {
            if j < p {
                assert(out[i] == prev[i] && out[j] == prev[j]);
            } else if j == p {
                assert(out[i] == prev[i] && out[j] == x);
            } else if i == p {
                assert(out[j] == prev[j - 1]);
                lemma_goes_before_total(prev[p], x, col, ascending);
                if j - 1 > p {
                    assert(goes_before(prev[p], prev[j - 1], col, ascending));
                    lemma_goes_before_trans(x, prev[p], prev[j - 1], col, ascending);
                }
            } else if i < p {
                assert(out[i] == prev[i] && out[j] == prev[j - 1]);
            } else {
                assert(out[i] == prev[i - 1] && out[j] == prev[j - 1]);
            }
        }
        vstd::seq_lib::to_multiset_insert(prev, p, x);
        assert(s =~= s.drop_last().push(x));
        vstd::seq_lib::lemma_multiset_commutative(s.drop_last(), seq![x]);
        assert(s.drop_last().push(x) =~= s.drop_last() + seq![x]);
        assert((seq![x]).to_multiset() =~= vstd::multiset::Multiset::<AudioFileInfoView>::empty().insert(x)) by {
            broadcast use vstd::seq_lib::group_to_multiset_ensures;
            assert(seq![x].drop_first() =~= Seq::<AudioFileInfoView>::empty());
        }
    }
}

/// Every row matching the query is a row of the file.
proof fn lemma_matching_rows_from_files(files: Seq<AudioFileInfoView>, hits: Seq<bool>, ql: Seq<char>, col: SearchColumn)
    ensures
        forall|x: AudioFileInfoView| #[trigger] matching_rows(files, hits, ql, col).contains(x) ==> files.contains(x),
    decreases files.len(),
{
    if files.len() > 0 {
        lemma_matching_rows_from_files(files.drop_last(), hits, ql, col);
        let prev = matching_rows(files.drop_last(), hits, ql, col);
        assert forall|x: AudioFileInfoView| #[trigger] matching_rows(files, hits, ql, col).contains(x) implies files.contains(x) by {
            if prev.contains(x) {
                let k = choose|k: int| 0 <= k < files.drop_last().len() && files.drop_last()[k] == x;
                assert(files[k] == x);
            } else {
                assert(files[files.len() - 1] == files.last());
            }
        }
    }
}

/// The table's rows: when a sort column is chosen they are sorted by it in
/// the chosen direction, and in any case they are exactly the rows that
/// match the query (all rows for an empty query), each a row of the file.
pub proof fn law_table_rows_sorted_permutation(
    files: Seq<AudioFileInfoView>,
    hits: Seq<bool>,
    query: Seq<char>,
    search: SearchColumn,
    sort: SortColumn,
    ascending: bool,
)
    ensures
        ({
            let matched = if query.len() == 0 { files } else { matching_rows(files, hits, lowercase(query), search) };
            let rows = table_rows(files, hits, query, search, sort, ascending);
            &&& rows.to_multiset() == matched.to_multiset()
            &&& sort != SortColumn::NoColumn ==> sorted_by(rows, sort, ascending)
            &&& forall|x: AudioFileInfoView| #[trigger] rows.contains(x) ==> files.contains(x)
        }),
{
    let matched = if query.len() == 0 { files } else { matching_rows(files, hits, lowercase(query), search) };
    let rows = table_rows(files, hits, query, search, sort, ascending);
    if sort != SortColumn::NoColumn {
        lemma_stable_sorted(matched, sort, ascending);
    }
    lemma_matching_rows_from_files(files, hits, lowercase(query), search);
    assert forall|x: AudioFileInfoView| #[trigger] rows.contains(x) implies files.contains(x) by {
        broadcast use vstd::seq_lib::group_to_multiset_ensures;
        if sort != SortColumn::NoColumn {
            assert(rows.to_multiset().count(x) > 0);
            assert(matched.to_multiset().count(x) > 0);
            assert(matched.contains(x));
        }
    }
}

/// The rows that rank equal to `x` in a column.
pub open spec fn ranks_with(x: AudioFileInfoView, col: SortColumn) -> spec_fn(AudioFileInfoView) -> bool {
    |y: AudioFileInfoView| column_order(y, x, col) == 0
}

proof fn lemma_filter_none(s: Seq<AudioFileInfoView>, pred: spec_fn(AudioFileInfoView) -> bool)
    requires
        forall|i: int| 0 <= i < s.len() ==> !pred(#[trigger] s[i]),
    ensures
        s.filter(pred) == Seq::<AudioFileInfoView>::empty(),
    decreases s.len(),
{
    reveal(Seq::filter);
    if s.len() > 0 {
        assert forall|i: int| 0 <= i < s.drop_last().len() implies !pred(#[trigger] s.drop_last()[i]) by {
            assert(s.drop_last()[i] == s[i]);
        }
        lemma_filter_none(s.drop_last(), pred);
        assert(!pred(s[s.len() - 1]));
    }
}

proof fn lemma_equal_rank_trans(a: AudioFileInfoView, b: AudioFileInfoView, x: AudioFileInfoView, col: SortColumn)
    requires
        column_order(a, x, col) == 0,
        column_order(b, x, col) == 0,
    ensures
        column_order(a, b, col) == 0,
{
    lemma_order_antisym(b, x, col);
    lemma_order_antisym(a, x, col);
    lemma_order_trans(a, x, b, col);
    lemma_order_trans(b, x, a, col);
    lemma_order_antisym(a, b, col);
}

/// The stable sort keeps the order of rows that rank equal: for every row
/// `x`, the rows ranking equal to it come out in the order they came in.
proof fn lemma_stable_sorted_keeps_ties(s: Seq<AudioFileInfoView>, col: SortColumn, ascending: bool, x: AudioFileInfoView)
    ensures
        stable_sorted(s, col, ascending).filter(ranks_with(x, col)) == s.filter(ranks_with(x, col)),
    decreases s.len(),
{
    reveal(Seq::filter);
    let pred = ranks_with(x, col);
    if s.len() > 0 {
        let prev = stable_sorted(s.drop_last(), col, ascending);
        let last = s.last();
        lemma_stable_sorted_keeps_ties(s.drop_last(), col, ascending, x);
        lemma_stable_sorted(s.drop_last(), col, ascending);
        lemma_first_after(prev, last, col, ascending, 0);
        let p = first_after_from(prev, last, col, ascending, 0);
        let front = prev.take(p);
        let back = prev.skip(p);
        let out = prev.insert(p, last);
        assert(out =~= front + seq![last] + back);
        assert(prev =~= front + back);
        Seq::filter_distributes_over_add(front + seq![last], back, pred);
        Seq::filter_distributes_over_add(front, seq![last], pred);
        Seq::filter_distributes_over_add(front, back, pred);
        assert(seq![last].drop_last() =~= Seq::<AudioFileInfoView>::empty());
        if pred(last) {
            assert forall|i: int| 0 <= i < back.len() implies !pred(#[trigger] back[i]) by {
                let j = p + i;
                assert(back[i] == prev[j]);
                assert(goes_before(prev[p], prev[j], col, ascending)) by {
                    if j > p {
                        assert(goes_before(prev[p], prev[j], col, ascending));
                    } else {
                        lemma_goes_before_total(prev[p], prev[p], col, ascending);
                    }
                }
                if goes_before(prev[j], last, col, ascending) {
                    lemma_goes_before_trans(prev[p], prev[j], last, col, ascending);
                }
                if pred(prev[j]) {
                    lemma_equal_rank_trans(prev[j], last, x, col);
                }
            }
            lemma_filter_none(back, pred);
            assert(back.filter(pred) =~= Seq::<AudioFileInfoView>::empty());
            assert(seq![last].filter(pred) =~= seq![last]);
            assert(out.filter(pred) =~= s.drop_last().filter(pred).push(last));
        } else {
            assert(seq![last].last() == last);
            assert(!pred(seq![last].last()));
            assert(seq![last].drop_last().filter(pred) =~= Seq::<AudioFileInfoView>::empty());
            assert(seq![last].filter(pred) =~= Seq::<AudioFileInfoView>::empty());
            assert(out.filter(pred) =~= prev.filter(pred));
        }
    }
}

/// Sorting the table is stable: rows that rank equal in the sort column
/// keep the order they have in the file.
pub proof fn law_sort_keeps_tie_order(rows: Seq<AudioFileInfoView>, sort: SortColumn, ascending: bool, x: AudioFileInfoView)
    ensures
        stable_sorted(rows, sort, ascending).filter(ranks_with(x, sort)) == rows.filter(ranks_with(x, sort)),
{
    lemma_stable_sorted_keeps_ties(rows, sort, ascending, x);
}

/// The rows kept by the search: each row that matches is kept, and each
/// kept row is one of the rows and matches.
proof fn lemma_matching_rows_members(files: Seq<AudioFileInfoView>, hits: Seq<bool>, ql: Seq<char>, col: SearchColumn)
    requires
        hits.len() == files.len(),
    ensures
        forall|i: int|
            0 <= i < files.len() && row_matches(#[trigger] files[i], ql, col, hits[i]) ==> matching_rows(
                files,
                hits,
                ql,
                col,
            ).contains(files[i]),
        forall|k: int|
            #![trigger matching_rows(files, hits, ql, col)[k]]
            0 <= k < matching_rows(files, hits, ql, col).len() ==> exists|i: int|
                #![trigger files[i]]
                0 <= i < files.len() && files[i] == matching_rows(files, hits, ql, col)[k] && row_matches(
                    files[i],
                    ql,
                    col,
                    hits[i],
                ),
    decreases files.len(),
{
    if files.len() > 0 {
        let init = files.drop_last();
        let hi = hits.drop_last();
        let n = files.len() - 1;
        lemma_matching_rows_prefix_hits(init, hits, hi, ql, col);
        lemma_matching_rows_members(init, hi, ql, col);
        let prev = matching_rows(init, hits, ql, col);
        let res = matching_rows(files, hits, ql, col);
        assert forall|i: int| 0 <= i < files.len() && row_matches(#[trigger] files[i], ql, col, hits[i]) implies res.contains(
            files[i],
        ) by {
            if i < n {
                assert(init[i] == files[i] && hi[i] == hits[i]);
                let k = choose|k: int| 0 <= k < prev.len() && prev[k] == files[i];
                if row_matches(files.last(), ql, col, hits[n]) {
                    assert(res[k] == files[i]);
                }
            } else {
                assert(res[res.len() - 1] == files[i]);
            }
        }
        assert forall|k: int| #![trigger res[k]] 0 <= k < res.len() implies exists|i: int|
            #![trigger files[i]]
            0 <= i < files.len() && files[i] == res[k] && row_matches(files[i], ql, col, hits[i]) by {
            if k < prev.len() {
                assert(res[k] == prev[k]);
                let i = choose|i: int| 0 <= i < init.len() && init[i] == prev[k] && row_matches(init[i], ql, col, hi[i]);
                assert(files[i] == init[i] && hits[i] == hi[i]);
                assert(0 <= i < files.len() && files[i] == res[k] && row_matches(files[i], ql, col, hits[i]));
            } else {
                assert(res[k] == files[n]);
                assert(row_matches(files[n], ql, col, hits[n]));
                assert(0 <= n < files.len() && files[n] == res[k] && row_matches(files[n], ql, col, hits[n]));
            }
        }
        assert(forall|k: int|
            #![trigger matching_rows(files, hits, ql, col)[k]]
            0 <= k < matching_rows(files, hits, ql, col).len() ==> exists|i: int|
                #![trigger files[i]]
                0 <= i < files.len() && files[i] == matching_rows(files, hits, ql, col)[k] && row_matches(
                    files[i],
                    ql,
                    col,
                    hits[i],
                ));
    } else {
        assert(matching_rows(files, hits, ql, col).len() == 0);
    }
}

/// The search only reads the hits of the rows it walks.
proof fn lemma_matching_rows_prefix_hits(
    files: Seq<AudioFileInfoView>,
    hits: Seq<bool>,
    hi: Seq<bool>,
    ql: Seq<char>,
    col: SearchColumn,
)
    requires
        files.len() <= hi.len(),
        files.len() <= hits.len(),
        forall|j: int| 0 <= j < files.len() ==> hits[j] == hi[j],
    ensures
        matching_rows(files, hits, ql, col) == matching_rows(files, hi, ql, col),
    decreases files.len(),
{
    if files.len() > 0 {
        lemma_matching_rows_prefix_hits(files.drop_last(), hits, hi, ql, col);
    }
}

/// The lower-cased `ql` occurs in the chosen column of row `f`, as the
/// search reads it: in the name, the ID, the file name or the type, each
/// lower-cased; for the size column the row's size hit; for all columns in
/// any of them.
pub open spec fn column_holds(f: AudioFileInfoView, size_hit: bool, ql: Seq<char>, col: SearchColumn) -> bool {
    &&& col == SearchColumn::All ==> (has_sub(lowercase(f.name), ql) || has_sub(lowercase(f.id), ql) || size_hit
        || has_sub(lowercase(f.filename), ql) || has_sub(lowercase(f.file_type), ql))
    &&& col == SearchColumn::Name ==> has_sub(lowercase(f.name), ql)
    &&& col == SearchColumn::Id ==> has_sub(lowercase(f.id), ql)
    &&& col == SearchColumn::Size ==> size_hit
    &&& col == SearchColumn::Filename ==> has_sub(lowercase(f.filename), ql)
    &&& col == SearchColumn::Type ==> has_sub(lowercase(f.file_type), ql)
}

/// With a query and no sort column, the table shows the rows whose chosen
/// column holds the lower-cased query (see `column_holds`): every such row
/// is shown, and every shown row is one of the rows and holds the query in
/// that column; the other columns play no part.
pub proof fn law_search_by_column(
    files: Seq<AudioFileInfoView>,
    hits: Seq<bool>,
    query: Seq<char>,
    col: SearchColumn,
    ascending: bool,
)
    requires
        hits.len() == files.len(),
        query.len() > 0,
    ensures
        forall|i: int|
            0 <= i < files.len() && column_holds(files[i], hits[i], lowercase(query), col) ==> table_rows(
                files,
                hits,
                query,
                col,
                SortColumn::NoColumn,
                ascending,
            ).contains(#[trigger] files[i]),
        forall|k: int|
            #![trigger table_rows(files, hits, query, col, SortColumn::NoColumn, ascending)[k]]
            0 <= k < table_rows(files, hits, query, col, SortColumn::NoColumn, ascending).len() ==> exists|i: int|
                #![trigger files[i]]
                0 <= i < files.len() && files[i] == table_rows(files, hits, query, col, SortColumn::NoColumn, ascending)[k]
                    && column_holds(files[i], hits[i], lowercase(query), col),
{
    let ql = lowercase(query);
    lemma_matching_rows_members(files, hits, ql, col);
    let rows = table_rows(files, hits, query, col, SortColumn::NoColumn, ascending);
    assert(rows == matching_rows(files, hits, ql, col));
    assert forall|i: int| 0 <= i < files.len() && column_holds(files[i], hits[i], ql, col) implies rows.contains(
        #[trigger] files[i],
    ) by {
        assert(row_matches(files[i], ql, col, hits[i]));
    }
    assert forall|k: int| #![trigger rows[k]] 0 <= k < rows.len() implies exists|i: int|
        #![trigger files[i]]
        0 <= i < files.len() && files[i] == rows[k] && column_holds(files[i], hits[i], ql, col) by {
        let i = choose|i: int|
            #![trigger files[i]]
            0 <= i < files.len() && files[i] == matching_rows(files, hits, ql, col)[k] && row_matches(files[i], ql, col, hits[i]);
        assert(0 <= i < files.len() && files[i] == rows[k] && column_holds(files[i], hits[i], ql, col));
    }
}

/// `a` comes no later than `b` in dictionary order of characters: after
/// their longest common beginning, `a` has ended, or its next character is
/// smaller than `b`'s.
pub open spec fn dictionary_le(a: Seq<char>, b: Seq<char>) -> bool {
    exists|k: int|
        0 <= k <= a.len() && k <= b.len() && #[trigger] a.take(k) == b.take(k) && (k == a.len() || (k < b.len() && a[k]
            < b[k]))
}

proof fn lemma_lex_order_le(a: Seq<char>, b: Seq<char>)
    requires
        lex_order(a, b) <= 0,
    ensures
        dictionary_le(a, b),
    decreases a.len(),
{
    if a.len() == 0 {
        assert(a.take(0) =~= b.take(0));
    } else if a[0] < b[0] {
        assert(a.take(0) =~= b.take(0));
    } else {
        let a1 = a.subrange(1, a.len() as int);
        let b1 = b.subrange(1, b.len() as int);
        lemma_lex_order_le(a1, b1);
        let k1 = choose|k: int|
            0 <= k <= a1.len() && k <= b1.len() && #[trigger] a1.take(k) == b1.take(k) && (k == a1.len() || (k < b1.len()
                && a1[k] < b1[k]));
        let k = k1 + 1;
        assert(a.take(k) =~= seq![a[0]] + a1.take(k1));
        assert(b.take(k) =~= seq![b[0]] + b1.take(k1));
        if k1 < a1.len() {
            assert(a[k] == a1[k1] && b[k] == b1[k1]);
        }
    }
}

/// What the sort columns mean for the rows the table shows: sorted by size,
/// sizes never decrease going down (never increase when descending); sorted
/// by name, file name or type, the lower-cased texts are in dictionary order
/// (reversed when descending); sorted by ID, IDs that read as numbers come
/// first in increasing order when ascending (last, decreasing, when
/// descending).
pub proof fn law_sort_columns_order_rows(
    files: Seq<AudioFileInfoView>,
    hits: Seq<bool>,
    query: Seq<char>,
    search: SearchColumn,
    sort: SortColumn,
    ascending: bool,
    rows: Seq<AudioFileInfoView>,
)
    requires
        rows == table_rows(files, hits, query, search, sort, ascending),
    ensures
        forall|i: int, j: int|
            #![trigger rows[i], rows[j]]
            0 <= i < j < rows.len() ==> {
                let a = rows[i];
                let b = rows[j];
                &&& sort == SortColumn::Size ==> if ascending { a.size <= b.size } else { a.size >= b.size }
                &&& sort == SortColumn::Name ==> if ascending {
                    dictionary_le(lowercase(a.name), lowercase(b.name))
                } else {
                    dictionary_le(lowercase(b.name), lowercase(a.name))
                }
                &&& sort == SortColumn::Filename ==> if ascending {
                    dictionary_le(lowercase(a.filename), lowercase(b.filename))
                } else {
                    dictionary_le(lowercase(b.filename), lowercase(a.filename))
                }
                &&& sort == SortColumn::Type ==> if ascending {
                    dictionary_le(lowercase(a.file_type), lowercase(b.file_type))
                } else {
                    dictionary_le(lowercase(b.file_type), lowercase(a.file_type))
                }
                &&& sort == SortColumn::Id ==> match (
                    parsed_unsigned(a.id, usize::MAX as nat),
                    parsed_unsigned(b.id, usize::MAX as nat),
                ) {
                    (Some(x), Some(y)) => if ascending { x <= y } else { x >= y },
                    (None, Some(_)) => !ascending,
                    (Some(_), None) => ascending,
                    (None, None) => true,
                }
            },
{
    law_table_rows_sorted_permutation(files, hits, query, search, sort, ascending);
    if sort != SortColumn::NoColumn {
        assert forall|i: int, j: int| #![trigger rows[i], rows[j]] 0 <= i < j < rows.len() implies {
            let a = rows[i];
            let b = rows[j];
            &&& sort == SortColumn::Size ==> if ascending { a.size <= b.size } else { a.size >= b.size }
            &&& sort == SortColumn::Name ==> if ascending {
                dictionary_le(lowercase(a.name), lowercase(b.name))
            } else {
                dictionary_le(lowercase(b.name), lowercase(a.name))
            }
            &&& sort == SortColumn::Filename ==> if ascending {
                dictionary_le(lowercase(a.filename), lowercase(b.filename))
            } else {
                dictionary_le(lowercase(b.filename), lowercase(a.filename))
            }
            &&& sort == SortColumn::Type ==> if ascending {
                dictionary_le(lowercase(a.file_type), lowercase(b.file_type))
            } else {
                dictionary_le(lowercase(b.file_type), lowercase(a.file_type))
            }
            &&& sort == SortColumn::Id ==> match (
                parsed_unsigned(a.id, usize::MAX as nat),
                parsed_unsigned(b.id, usize::MAX as nat),
            ) {
                (Some(x), Some(y)) => if ascending { x <= y } else { x >= y },
                (None, Some(_)) => !ascending,
                (Some(_), None) => ascending,
                (None, None) => true,
            }
        } by {
            let a = rows[i];
            let b = rows[j];
            assert(goes_before(a, b, sort, ascending));
            lemma_lex_antisym(lowercase(a.name), lowercase(b.name));
            lemma_lex_antisym(lowercase(a.filename), lowercase(b.filename));
            lemma_lex_antisym(lowercase(a.file_type), lowercase(b.file_type));
            if sort == SortColumn::Name {
                if ascending {
                    lemma_lex_order_le(lowercase(a.name), lowercase(b.name));
                } else {
                    lemma_lex_order_le(lowercase(b.name), lowercase(a.name));
                }
            }
            if sort == SortColumn::Filename {
                if ascending {
                    lemma_lex_order_le(lowercase(a.filename), lowercase(b.filename));
                } else {
                    lemma_lex_order_le(lowercase(b.filename), lowercase(a.filename));
                }
            }
            if sort == SortColumn::Type {
                if ascending {
                    lemma_lex_order_le(lowercase(a.file_type), lowercase(b.file_type));
                } else {
                    lemma_lex_order_le(lowercase(b.file_type), lowercase(a.file_type));
                }
            }
        }
    }
}

} // verus!
