//! State and edit operations of the group-name (GRP) editor. The window is
//! drawn by the front end; each change it makes goes through the methods
//! here.
use vstd::prelude::*;
use crate::bank::{GrpSection, Nus3bankFile};
use crate::grp_pending;
use crate::store::KeyedStore;
use crate::text::{
    chars_of, contains_lower, copy_strings, has_sub, lower_chars, lowercase, normalized_path, replace_all, replaced,
    string_of, trimmed, trimmed_chars,
};

verus! {

/// Why an edit of the group names did not go through.
#[derive(Debug)]
pub enum GrpError {
    /// "Replace in visible" was asked for with an empty find text.
    FindTextEmpty,
    /// No file is open in the editor.
    NoFileForEdit,
    /// The sound bank could not be opened; the reason is given.
    OpenFailed(String),
    /// The pending edits could not be recorded.
    Pending(String),
    /// The template list to load is empty.
    TemplateEmpty,
}

/// The GRP editor.
pub struct GrpListModal {
    pub open: bool,
    pub file_path: Option<String>,
    pub names: Vec<String>,
    pub search_query: String,
    pub find_text: String,
    pub replace_text: String,
    pub error: Option<GrpError>,
    pub dirty: bool,
    /// Positions of the names the list shows, as last computed.
    pub visible_indices_cache: Vec<usize>,
    /// The search query the cache was computed for.
    pub last_search_query: String,
}

/// Positions of `names` that, lower-cased, contain `needle`.
pub open spec fn group_hits(names: Seq<Seq<char>>, needle: Seq<char>) -> Seq<usize>
    decreases names.len(),
{
    if names.len() == 0 {
        Seq::empty()
    } else {
        let prev = group_hits(names.drop_last(), needle);
        if has_sub(lowercase(names.last()), needle) {
            prev.push((names.len() - 1) as usize)
        } else {
            prev
        }
    }
}

/// The positions the list shows for a query: all when the trimmed query is
/// empty, else the names containing it, ignoring case.
pub open spec fn visible_groups(names: Seq<Seq<char>>, query: Seq<char>) -> Seq<usize> {
    if trimmed(query).len() == 0 {
        Seq::new(names.len(), |i: int| i as usize)
    } else {
        group_hits(names, lowercase(trimmed(query)))
    }
}

/// The names after replacing `from` by `to` in each listed position, in
/// list order (positions past the end are skipped).
pub open spec fn replaced_at(names: Seq<Seq<char>>, idxs: Seq<usize>, from: Seq<char>, to: Seq<char>) -> Seq<Seq<char>>
    decreases idxs.len(),
{
    if idxs.len() == 0 {
        names
    } else {
        let prev = replaced_at(names, idxs.drop_last(), from, to);
        let i = idxs.last() as int;
        if i < prev.len() {
            prev.update(i, replaced(prev[i], from, to))
        } else {
            prev
        }
    }
}

/// The editor with no file open.
pub open spec fn fresh_grp_state(m: GrpListModal) -> bool {
    &&& !m.open
    &&& m.file_path is None
    &&& m.names@.len() == 0
    &&& m.search_query@.len() == 0
    &&& m.find_text@.len() == 0
    &&& m.replace_text@.len() == 0
    &&& m.error is None
    &&& !m.dirty
    &&& m.visible_indices_cache@.len() == 0
    &&& m.last_search_query@.len() == 0
}


/// Puts group names into a bank: an empty list removes the GRP section.
pub fn apply_grp_names_to_file(file: &mut Nus3bankFile, names: Vec<String>)
    ensures
        final(file).deep_view().grp == (if names@.len() == 0 {
            None::<Seq<Seq<char>>>
        } else {
            Some(names.deep_view())
        }),
        final(file).deep_view().dton == old(file).deep_view().dton,
        final(file).deep_view().prop == old(file).deep_view().prop,
{
    if names.len() == 0 {
        file.grp = None;
        return;
    }
    file.grp = Some(GrpSection { names });
}

impl GrpListModal {
    /// The pending group names of a file, if edits are waiting for it; the
    /// editor opens the file itself only when there are none.
    pub fn load_names_for_file(pending: &KeyedStore<Vec<String>>, file_path: &str) -> (r: Option<Vec<String>>)
        ensures
            r.deep_view() == (if pending@.contains_key(normalized_path(file_path@)) {
                Some(pending@[normalized_path(file_path@)].deep_view())
            } else {
                None::<Seq<Seq<char>>>
            }),
    {
        grp_pending::get(pending, file_path)
    }

    /// A closed editor with no file.
    pub fn new() -> (m: Self)
        ensures
            fresh_grp_state(m),
    {
        GrpListModal {
            open: false,
            file_path: None,
            names: Vec::new(),
            search_query: String::new(),
            find_text: String::new(),
            replace_text: String::new(),
            error: None,
            dirty: false,
            visible_indices_cache: Vec::new(),
            last_search_query: String::new(),
        }
    }

    /// Recomputes which names the list shows for the current query.
    pub fn update_visible_indices_cache(&mut self)
        ensures
            final(self).visible_indices_cache@ == visible_groups(old(self).names.deep_view(), old(self).search_query@),
            final(self).last_search_query@ == old(self).search_query@,
            final(self).names == old(self).names,
            final(self).search_query == old(self).search_query,
            final(self).file_path == old(self).file_path,
            final(self).error == old(self).error,
            final(self).dirty == old(self).dirty,
            final(self).open == old(self).open,
            final(self).find_text == old(self).find_text,
            final(self).replace_text == old(self).replace_text,
    {
        let q = trimmed_chars(self.search_query.as_str());
        let ghost nv = self.names.deep_view();
        let mut r: Vec<usize> = Vec::new();
        if q.len() == 0 {
            let mut i: usize = 0;
            while i < self.names.len()
                invariant
                    i <= self.names.len(),
                    r@ == Seq::new(i as nat, |k: int| k as usize),
                decreases self.names.len() - i,
            {
                r.push(i);
                i += 1;
                assert(r@ =~= Seq::new(i as nat, |k: int| k as usize));
            }
        } else {
            let qs = string_of(&q);
            let needle = lower_chars(qs.as_str());
            let mut i: usize = 0;
            while i < self.names.len()
                invariant
                    i <= self.names.len(),
                    nv == self.names.deep_view(),
                    needle@ == lowercase(trimmed(self.search_query@)),
                    r@ == group_hits(nv.take(i as int), needle@),
                decreases self.names.len() - i,
            {
                proof {
                    assert(nv.take(i + 1).drop_last() =~= nv.take(i as int));
                    assert(nv.take(i + 1).last() == nv[i as int]);
                }
                if contains_lower(self.names[i].as_str(), &needle) {
                    r.push(i);
                }
                i += 1;
            }
            assert(nv.take(self.names.len() as int) =~= nv);
        }
        self.visible_indices_cache = r;
        self.last_search_query = self.search_query.clone();
    }

    /// Opens the editor on a file. `loaded` is what loading gave: the
    /// pending names, or those of the bank on disk, or why the bank could
    /// not be opened. The search is reset.
    pub fn open_for_file(&mut self, file_path: &str, loaded: Result<Vec<String>, String>)
        ensures
            final(self).open,
            final(self).file_path matches Some(p) && p@ == file_path@,
            !final(self).dirty,
            final(self).search_query@.len() == 0,
            final(self).last_search_query@.len() == 0,
            match loaded {
                Ok(n) => {
                    &&& final(self).names.deep_view() == n.deep_view()
                    &&& final(self).visible_indices_cache@ == Seq::new(n@.len(), |i: int| i as usize)
                    &&& final(self).error is None
                },
                Err(e) => {
                    &&& final(self).names@.len() == 0
                    &&& final(self).visible_indices_cache@.len() == 0
                    &&& final(self).error == Some(GrpError::OpenFailed(e))
                },
            },
    {
        self.file_path = Some(file_path.to_string());
        self.error = None;
        self.dirty = false;
        self.search_query = String::new();
        self.last_search_query = String::new();
        self.visible_indices_cache = Vec::new();
        match loaded {
            Ok(names) => {
                self.names = names;
                proof {
                    assert(trimmed(self.search_query@) =~= Seq::<char>::empty()) by {
                        assert(self.search_query@ =~= Seq::<char>::empty());
                    }
                }
                self.update_visible_indices_cache();
            },
            Err(e) => {
                self.names = Vec::new();
                self.error = Some(GrpError::OpenFailed(e));
            },
        }
        self.open = true;
    }

    /// Appends an empty name.
    pub fn add_row(&mut self)
        ensures
            final(self).names.deep_view() == old(self).names.deep_view().push(Seq::empty()),
            final(self).visible_indices_cache@ == visible_groups(final(self).names.deep_view(), old(self).search_query@),
            final(self).dirty,
            final(self).error == old(self).error,
            final(self).file_path == old(self).file_path,
    {
        let ghost before = self.names.deep_view();
        self.names.push(String::new());
        assert(self.names.deep_view() =~= before.push(Seq::empty()));
        self.update_visible_indices_cache();
        self.dirty = true;
    }

    /// Removes the name at position `idx`, when there is one.
    pub fn remove_row(&mut self, idx: usize)
        ensures
            final(self).error == old(self).error,
            final(self).file_path == old(self).file_path,
            idx < old(self).names@.len() ==> {
                &&& final(self).names.deep_view() == old(self).names.deep_view().remove(idx as int)
                &&& final(self).visible_indices_cache@ == visible_groups(final(self).names.deep_view(), old(self).search_query@)
                &&& final(self).dirty
            },
            idx >= old(self).names@.len() ==> final(self).names == old(self).names && final(self).dirty == old(self).dirty,
    {
        if idx < self.names.len() {
            let ghost before = self.names.deep_view();
            let _ = self.names.remove(idx);
            assert(self.names.deep_view() =~= before.remove(idx as int));
            self.update_visible_indices_cache();
            self.dirty = true;
        }
    }

    /// Sets the name at position `idx` (an empty `text` clears it), when
    /// there is one.
    pub fn set_name(&mut self, idx: usize, text: String)
        ensures
            final(self).error == old(self).error,
            final(self).file_path == old(self).file_path,
            final(self).visible_indices_cache == old(self).visible_indices_cache,
            idx < old(self).names@.len() ==> {
                &&& final(self).names.deep_view() == old(self).names.deep_view().update(idx as int, text@)
                &&& final(self).dirty
            },
            idx >= old(self).names@.len() ==> final(self).names == old(self).names && final(self).dirty == old(self).dirty,
    {
        if idx < self.names.len() {
            let ghost before = self.names.deep_view();
            self.names.set(idx, text);
            assert(self.names.deep_view() =~= before.update(idx as int, text@));
            self.dirty = true;
        }
    }

    /// Replaces every occurrence of the find text by the replace text in
    /// the names the list shows, then refreshes the list.
    pub fn replace_in_visible(&mut self)
        ensures
            final(self).file_path == old(self).file_path,
            final(self).dirty == old(self).dirty,
            old(self).find_text@.len() == 0 ==> {
                &&& final(self).error == Some(GrpError::FindTextEmpty)
                &&& final(self).names == old(self).names
                &&& final(self).visible_indices_cache == old(self).visible_indices_cache
            },
            old(self).find_text@.len() > 0 ==> {
                &&& final(self).names.deep_view() == replaced_at(
                    old(self).names.deep_view(),
                    old(self).visible_indices_cache@,
                    old(self).find_text@,
                    old(self).replace_text@,
                )
                &&& final(self).visible_indices_cache@ == visible_groups(final(self).names.deep_view(), old(self).search_query@)
                &&& final(self).error is None
            },
    {
        let find = chars_of(self.find_text.as_str());
        if find.len() == 0 {
            self.error = Some(GrpError::FindTextEmpty);
            return;
        }
        let replace = chars_of(self.replace_text.as_str());
        let ghost n0 = self.names.deep_view();
        let mut k: usize = 0;
        while k < self.visible_indices_cache.len()
            invariant
                find@ == old(self).find_text@,
                replace@ == old(self).replace_text@,
                find@.len() > 0,
                k <= self.visible_indices_cache.len(),
                self.visible_indices_cache == old(self).visible_indices_cache,
                self.search_query == old(self).search_query,
                self.file_path == old(self).file_path,
                self.dirty == old(self).dirty,
                n0 == old(self).names.deep_view(),
                self.names.deep_view() == replaced_at(n0, self.visible_indices_cache@.take(k as int), find@, replace@),
            decreases self.visible_indices_cache.len() - k,
        {
            let i = self.visible_indices_cache[k];
            proof {
                assert(self.visible_indices_cache@.take(k + 1).drop_last() =~= self.visible_indices_cache@.take(k as int));
            }
            if i < self.names.len() {
                let cs = chars_of(self.names[i].as_str());
                let updated = replace_all(&cs, &find, &replace);
                let s = string_of(&updated);
                let ghost before = self.names.deep_view();
                self.names.set(i, s);
                assert(self.names.deep_view() =~= before.update(i as int, replaced(before[i as int], find@, replace@)));
            }
            k += 1;
        }
        assert(self.visible_indices_cache@.take(self.visible_indices_cache.len() as int) =~= self.visible_indices_cache@);
        self.update_visible_indices_cache();
        self.error = None;
    }

    /// Records the edited names as pending for the open file, when there is
    /// a change.
    pub fn flush_pending(&mut self, pending: &mut KeyedStore<Vec<String>>)
        ensures
            final(self).names == old(self).names,
            final(self).file_path == old(self).file_path,
            if !old(self).dirty {
                &&& final(pending)@ == old(pending)@
                &&& final(self).error == old(self).error
                &&& !final(self).dirty
            } else {
                match old(self).file_path {
                    None => {
                        &&& final(pending)@ == old(pending)@
                        &&& final(self).error == Some(GrpError::NoFileForEdit)
                        &&& final(self).dirty
                    },
                    Some(p) => {
                        &&& final(pending)@.dom() == old(pending)@.dom().insert(normalized_path(p@))
                        &&& final(pending)@[normalized_path(p@)].deep_view() == old(self).names.deep_view()
                        &&& forall|k: Seq<char>| k != normalized_path(p@) ==> #[trigger] final(pending)@.contains_key(k)
                            ==> final(pending)@[k] == old(pending)@[k]
                        &&& final(self).error is None
                        &&& !final(self).dirty
                    },
                }
            },
    {
        if !self.dirty {
            return;
        }
        match &self.file_path {
            None => {
                self.error = Some(GrpError::NoFileForEdit);
            },
            Some(path) => {
                let names = copy_strings(&self.names);
                assert(names.deep_view() =~= self.names.deep_view());
                match grp_pending::set(pending, path.as_str(), names) {
                    Ok(()) => {
                        self.error = None;
                        self.dirty = false;
                    },
                    Err(e) => {
                        self.error = Some(GrpError::Pending(e));
                    },
                }
            },
        }
    }

    /// Drops the pending edits of the open file and reloads its names from
    /// disk; `opened` is what opening the bank gave (its names, or why it
    /// failed).
    pub fn reload_from_file(&mut self, pending: &mut KeyedStore<Vec<String>>, opened: Result<Vec<String>, String>)
        ensures
            final(self).file_path == old(self).file_path,
            final(self).dirty == old(self).dirty,
            match old(self).file_path {
                None => {
                    &&& final(self).error == Some(GrpError::NoFileForEdit)
                    &&& final(pending)@ == old(pending)@
                    &&& final(self).names == old(self).names
                },
                Some(p) => {
                    &&& final(pending)@ == old(pending)@.remove(normalized_path(p@))
                    &&& match opened {
                        Ok(n) => {
                            &&& final(self).names.deep_view() == n.deep_view()
                            &&& final(self).visible_indices_cache@ == visible_groups(n.deep_view(), old(self).search_query@)
                            &&& final(self).error is None
                        },
                        Err(e) => {
                            &&& final(self).error == Some(GrpError::OpenFailed(e))
                            &&& final(self).names == old(self).names
                        },
                    }
                },
            },
    {
        let path = match &self.file_path {
            None => {
                self.error = Some(GrpError::NoFileForEdit);
                return;
            },
            Some(p) => p.clone(),
        };
        self.error = None;
        let _ = grp_pending::clear(pending, path.as_str());
        match opened {
            Ok(names) => {
                self.names = names;
                self.update_visible_indices_cache();
            },
            Err(e) => {
                self.error = Some(GrpError::OpenFailed(e));
            },
        }
    }

    /// Replaces the names by a template list; an empty template is refused.
    pub fn replace_with_template(&mut self, template: Vec<String>)
        ensures
            final(self).file_path == old(self).file_path,
            template@.len() == 0 ==> {
                &&& final(self).error == Some(GrpError::TemplateEmpty)
                &&& final(self).names == old(self).names
                &&& final(self).dirty == old(self).dirty
            },
            template@.len() > 0 ==> {
                &&& final(self).names.deep_view() == template.deep_view()
                &&& final(self).visible_indices_cache@ == visible_groups(template.deep_view(), old(self).search_query@)
                &&& final(self).error is None
                &&& final(self).dirty == old(self).dirty
            },
    {
        if template.len() == 0 {
            self.error = Some(GrpError::TemplateEmpty);
            return;
        }
        self.names = template;
        self.update_visible_indices_cache();
        self.error = None;
    }
}

/// Saving the editor's names as pending edits (the state `flush_pending`
/// leaves) makes loading the file, under any spelling of its path with the
/// same key, give back exactly those names.
pub proof fn law_flush_then_load(
    before: Map<Seq<char>, Vec<String>>,
    after: Map<Seq<char>, Vec<String>>,
    path: Seq<char>,
    other: Seq<char>,
    edited: Seq<Seq<char>>,
)
    requires
        after.dom() == before.dom().insert(normalized_path(path)),
        after[normalized_path(path)].deep_view() == edited,
        normalized_path(other) == normalized_path(path),
    ensures
        after.contains_key(normalized_path(other)),
        after[normalized_path(other)].deep_view() == edited,
{
}

/// The group search keeps, in list order and once each, exactly the
/// positions of the names that, lower-cased, hold the query.
pub proof fn law_group_search_hits(xs: Seq<Seq<char>>, q: Seq<char>)
    requires
        xs.len() <= usize::MAX,
    ensures
        forall|k: int|
            #![trigger group_hits(xs, q)[k]]
            0 <= k < group_hits(xs, q).len() ==> group_hits(xs, q)[k] < xs.len() && has_sub(
                lowercase(xs[group_hits(xs, q)[k] as int]),
                q,
            ),
        forall|k: int, l: int|
            #![trigger group_hits(xs, q)[k], group_hits(xs, q)[l]]
            0 <= k < l < group_hits(xs, q).len() ==> group_hits(xs, q)[k] < group_hits(xs, q)[l],
        forall|i: int|
            0 <= i < xs.len() && has_sub(lowercase(xs[i]), q) ==> group_hits(xs, q).contains(
                #[trigger] (i as usize),
            ),
    decreases xs.len(),
{
    if xs.len() > 0 {
        let init = xs.drop_last();
        law_group_search_hits(init, q);
        let prev = group_hits(init, q);
        let r = group_hits(xs, q);
        let n = xs.len() - 1;
        assert forall|k: int| #![trigger r[k]] 0 <= k < r.len() implies r[k] < xs.len() && has_sub(
            lowercase(xs[r[k] as int]),
            q,
        ) by {
            if k < prev.len() {
                assert(r[k] == prev[k]);
                assert(init[prev[k] as int] == xs[prev[k] as int]);
            }
        }
        assert forall|k: int, l: int| #![trigger r[k], r[l]] 0 <= k < l < r.len() implies r[k] < r[l] by {
            if l < prev.len() {
                assert(r[k] == prev[k] && r[l] == prev[l]);
            } else {
                assert(r[k] == prev[k]);
                assert(prev[k] < n);
            }
        }
        assert forall|i: int| 0 <= i < xs.len() && has_sub(lowercase(xs[i]), q) implies r.contains(
            #[trigger] (i as usize),
        ) by {
            if i < n {
                assert(init[i] == xs[i]);
                assert(prev.contains(i as usize));
                let k = choose|k: int| 0 <= k < prev.len() && prev[k] == i as usize;
                assert(r[k] == prev[k]);
            } else {
                assert(r[r.len() - 1] == i as usize);
            }
        }
    }
}

} // verus!
