//! File-name parts of paths, read as `std::path::Path` reads them on
//! Windows, where `/` and `\` both separate components. A drive prefix
//! such as `C:` that no separator follows is not told apart from a name.
use vstd::prelude::*;
use crate::text::{chars_of, string_of};

verus! {

/// `c` separates path components: `/` or `\`.
pub open spec fn is_separator(c: char) -> bool {
    c == '/' || c == '\\'
}

/// The characters after the last separator of `p`.
pub open spec fn last_segment(p: Seq<char>) -> Seq<char>
    decreases p.len(),
{
    if p.len() == 0 || is_separator(p.last()) {
        Seq::empty()
    } else {
        last_segment(p.drop_last()).push(p.last())
    }
}

/// Final component of a path (`Path::file_name`): trailing separators and
/// `.` components are skipped; a final `..`, or no component, gives none.
pub open spec fn path_file_name(p: Seq<char>) -> Option<Seq<char>>
    decreases p.len(),
{
    if p.len() == 0 {
        None
    } else if is_separator(p.last()) {
        path_file_name(p.drop_last())
    } else {
        let seg = last_segment(p);
        if seg == seq!['.'] {
            if seg.len() == p.len() { None } else { path_file_name(p.drop_last()) }
        } else if seg == seq!['.', '.'] {
            None
        } else {
            Some(seg)
        }
    }
}

proof fn lemma_last_segment_len(p: Seq<char>)
    ensures
        last_segment(p).len() <= p.len(),
        forall|i: int| 0 <= i < last_segment(p).len() ==> !is_separator(#[trigger] last_segment(p)[i]),
        last_segment(p) == p.subrange(p.len() - last_segment(p).len(), p.len() as int),
        last_segment(p).len() < p.len() ==> is_separator(p[p.len() - last_segment(p).len() - 1]),
    decreases p.len(),
{
    if p.len() == 0 || is_separator(p.last()) {
        assert(p.subrange(p.len() as int, p.len() as int) =~= Seq::<char>::empty());
    } else {
        lemma_last_segment_len(p.drop_last());
        let s = last_segment(p.drop_last());
        assert(last_segment(p) =~= p.subrange(p.len() - s.len() - 1, p.len() as int));
    }
}

/// Start of the last segment of `v[..end]`.
fn segment_start(v: &Vec<char>, end: usize) -> (s: usize)
    requires
        end <= v.len(),
    ensures
        s <= end,
        end > 0 && !is_separator(v@[end - 1]) ==> s < end,
        last_segment(v@.take(end as int)) == v@.subrange(s as int, end as int),
{
    let mut s = end;
    while s > 0 && !(v[s - 1] == '/' || v[s - 1] == '\\')
        invariant
            s <= end <= v.len(),
            last_segment(v@.take(end as int)) == last_segment(v@.take(s as int)) + v@.subrange(s as int, end as int),
        decreases s,
    {
        proof {
            let t = v@.take(s as int);
            assert(t.drop_last() =~= v@.take(s - 1));
            assert(t.last() == v@[s - 1]);
            assert(last_segment(v@.take(s - 1)) + v@.subrange(s - 1, end as int) =~= last_segment(v@.take(s - 1)).push(v@[s - 1]) + v@.subrange(s as int, end as int));
        }
        s -= 1;
    }
    proof {
        let t = v@.take(s as int);
        if s > 0 {
            assert(is_separator(t.last()));
        }
        assert(last_segment(t) =~= Seq::<char>::empty());
        assert(Seq::<char>::empty() + v@.subrange(s as int, end as int) =~= v@.subrange(s as int, end as int));
    }
    s
}

/// Final component of a path (see `path_file_name`).
pub fn file_name_of(path: &str) -> (r: Option<String>)
    ensures
        match r {
            Some(n) => path_file_name(path@) == Some(n@),
            None => path_file_name(path@) is None,
        },
{
    let v = chars_of(path);
    let mut end = v.len();
    assert(v@.take(end as int) =~= v@);
    while end > 0
        invariant
            end <= v.len(),
            v@ == path@,
            path_file_name(v@.take(end as int)) == path_file_name(path@),
        decreases end,
    {
        let t = Ghost(v@.take(end as int));
        if v[end - 1] == '/' || v[end - 1] == '\\' {
            assert(t@.drop_last() =~= v@.take(end - 1));
            end -= 1;
        } else {
            let s = segment_start(&v, end);
            let seg_len = end - s;
            if seg_len == 1 && v[s] == '.' {
                assert(v@.subrange(s as int, end as int) =~= seq!['.']);
                if s == 0 {
                    return None;
                }
                assert(t@.drop_last() =~= v@.take(end - 1));
                end -= 1;
            } else if seg_len == 2 && v[s] == '.' && v[s + 1] == '.' {
                assert(v@.subrange(s as int, end as int) =~= seq!['.', '.']);
                return None;
            } else {
                proof {
                    if v@.subrange(s as int, end as int) == seq!['.'] {
                        assert(v@.subrange(s as int, end as int)[0] == v@[s as int]);
                    }
                    if v@.subrange(s as int, end as int) == seq!['.', '.'] {
                        assert(v@.subrange(s as int, end as int)[0] == v@[s as int]);
                        assert(v@.subrange(s as int, end as int)[1] == v@[s + 1]);
                    }
                }
                let mut seg: Vec<char> = Vec::new();
                let mut k = s;
                while k < end
                    invariant
                        s <= k <= end <= v.len(),
                        seg@ == v@.subrange(s as int, k as int),
                    decreases end - k,
                {
                    seg.push(v[k]);
                    k += 1;
                    assert(seg@ =~= v@.subrange(s as int, k as int));
                }
                return Some(string_of(&seg));
            }
        }
    }
    assert(v@.take(0) =~= Seq::<char>::empty());
    None
}

/// Name without its extension (`Path::file_stem` on a file name): the part
/// before the last `.`, unless that dot is the first character or there is
/// none, in which case the whole name.
pub open spec fn name_stem(name: Seq<char>) -> Seq<char> {
    if name == seq!['.', '.'] {
        name
    } else if exists|k: int| 0 < k < name.len() && name[k] == '.' {
        let k = choose|k: int|
            0 < k < name.len() && name[k] == '.' && forall|j: int| k < j < name.len() ==> name[j] != '.';
        name.subrange(0, k)
    } else {
        name
    }
}

/// File stem of a path (`Path::file_stem`): the stem of its final component.
pub open spec fn path_file_stem(p: Seq<char>) -> Option<Seq<char>> {
    match path_file_name(p) {
        Some(n) => Some(name_stem(n)),
        None => None,
    }
}

/// File stem of a path (see `path_file_stem`).
pub fn file_stem_of(path: &str) -> (r: Option<String>)
    ensures
        match r {
            Some(n) => path_file_stem(path@) == Some(n@),
            None => path_file_stem(path@) is None,
        },
{
    match file_name_of(path) {
        None => None,
        Some(name) => {
            let v = chars_of(name.as_str());
            if v.len() == 2 && v[0] == '.' && v[1] == '.' {
                assert(v@ =~= seq!['.', '.']);
                return Some(name);
            }
            let mut k = v.len();
            while k > 1 && v[k - 1] != '.'
                invariant
                    k <= v.len(),
                    forall|j: int| k <= j < v.len() ==> v@[j] != '.',
                decreases k,
            {
                k -= 1;
            }
            if k > 1 {
                let dot = k - 1;
                proof {
                    let w = choose|w: int|
                        0 < w < v@.len() && v@[w] == '.' && forall|j: int| w < j < v@.len() ==> v@[j] != '.';
                    assert(0 < dot < v@.len() && v@[dot as int] == '.');
                    if w < dot {
                        assert(v@[dot as int] != '.');
                    } else if w > dot {
                        assert(v@[w] != '.');
                    }
                    assert(w == dot);
                    if v@ == seq!['.', '.'] {
                        assert(v@.len() == 2 && v@[0] == '.' && v@[1] == '.');
                    }
                }
                let mut out: Vec<char> = Vec::new();
                let mut i: usize = 0;
                while i < dot
                    invariant
                        i <= dot < v.len(),
                        out@ == v@.subrange(0, i as int),
                    decreases dot - i,
                {
                    out.push(v[i]);
                    i += 1;
                    assert(out@ =~= v@.subrange(0, i as int));
                }
                Some(string_of(&out))
            } else {
                proof {
                    assert forall|j: int| 0 < j < v@.len() implies v@[j] != '.' by {
                        if j >= k {
                        } else {
                            assert(j == 1 || j == 0 || k <= 1);
                        }
                    }
                    if v@ == seq!['.', '.'] {
                        assert(v@.len() == 2 && v@[0] == '.' && v@[1] == '.');
                    }
                }
                Some(name)
            }
        },
    }
}

} // verus!

verus! {

proof fn lemma_file_name_shape(p: Seq<char>)
    ensures
        path_file_name(p) matches Some(n) ==> {
            &&& n.len() > 0
            &&& forall|i: int| 0 <= i < n.len() ==> !is_separator(n[i])
            &&& n != seq!['.']
            &&& n != seq!['.', '.']
        },
    decreases p.len(),
{
    if p.len() == 0 {
    } else if is_separator(p.last()) {
        lemma_file_name_shape(p.drop_last());
    } else {
        let seg = last_segment(p);
        lemma_last_segment_len(p);
        assert(seg == last_segment(p.drop_last()).push(p.last()));
        if seg == seq!['.'] {
            if seg.len() != p.len() {
                lemma_file_name_shape(p.drop_last());
            }
        }
    }
}

/// A final path component read as a path names itself.
proof fn lemma_name_names_itself(n: Seq<char>)
    requires
        n.len() > 0,
        forall|i: int| 0 <= i < n.len() ==> !is_separator(n[i]),
        n != seq!['.'],
        n != seq!['.', '.'],
    ensures
        path_file_name(n) == Some(n),
{
    lemma_last_segment_len(n);
    let s = last_segment(n);
    if s.len() < n.len() {
        assert(is_separator(n[n.len() - s.len() - 1]));
    }
    assert(s =~= n.subrange(0, n.len() as int));
    assert(s =~= n);
}

/// The stem of a path's final component (the empty name when it has none),
/// read again as a path: the stem of that component, or nothing.
pub proof fn lemma_stem_of_name(p: Seq<char>)
    ensures
        ({
            let name = match path_file_name(p) {
                Some(n) => n,
                None => Seq::<char>::empty(),
            };
            path_file_stem(name) == (if path_file_name(p) is Some {
                Some(name_stem(name))
            } else {
                None::<Seq<char>>
            })
        }),
{
    lemma_file_name_shape(p);
    match path_file_name(p) {
        Some(n) => {
            lemma_name_names_itself(n);
        },
        None => {
            assert(path_file_name(Seq::<char>::empty()) is None);
        },
    }
}

/// The stem of a file name is the name cut at its last dot: a beginning of
/// the name, followed in the name by a dot and then no other dot; a dot in
/// first place does not count. A name without such a dot (or `..`) is its
/// own stem.
pub proof fn law_stem_cuts_at_last_dot(name: Seq<char>)
    ensures
        name.take(name_stem(name).len() as int) == name_stem(name),
        name_stem(name) != name ==> {
            let k = name_stem(name).len() as int;
            &&& 0 < k < name.len()
            &&& name[k] == '.'
            &&& forall|j: int| k < j < name.len() ==> name[j] != '.'
        },
        name_stem(name) == name ==> name == seq!['.', '.'] || forall|j: int| 0 < j < name.len() ==> name[j] != '.',
{
    if name == seq!['.', '.'] {
        assert(name.take(2) =~= name);
    } else if exists|k: int| 0 < k < name.len() && name[k] == '.' {
        let k = choose|k: int|
            0 < k < name.len() && name[k] == '.' && forall|j: int| k < j < name.len() ==> name[j] != '.';
        assert(exists|k: int| 0 < k < name.len() && name[k] == '.' && forall|j: int| k < j < name.len() ==> name[j] != '.') by {
            let w = choose|w: int| 0 < w < name.len() && name[w] == '.';
            lemma_last_dot(name, w);
        }
        assert(name.take(k) =~= name.subrange(0, k));
        assert(name_stem(name).len() < name.len());
    } else {
        assert(name.take(name.len() as int) =~= name);
    }
}

proof fn lemma_last_dot(name: Seq<char>, w: int)
    requires
        0 < w < name.len(),
        name[w] == '.',
    ensures
        exists|k: int| 0 < k < name.len() && name[k] == '.' && forall|j: int| k < j < name.len() ==> name[j] != '.',
    decreases name.len() - w,
{
    if exists|j: int| w < j < name.len() && name[j] == '.' {
        let j = choose|j: int| w < j < name.len() && name[j] == '.';
        lemma_last_dot(name, j);
    }
}

} // verus!
