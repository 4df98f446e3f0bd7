//! State and edit operations of the tone-descriptor (DTON) editor. The
//! window itself is drawn by the front end; every change it makes goes
//! through the methods here.
use vstd::prelude::*;
use crate::bank::{copy_tones, DtonSection, Nus3bankFile, ToneDes, ToneView};
use crate::dton_pending;
use crate::store::KeyedStore;
use crate::text::{contains_lower, has_sub, lower_chars, lowercase, normalized_path, trimmed, trimmed_chars};

verus! {

/// Why the values typed for a descriptor were not taken.
#[derive(Debug)]
pub enum DataTextError {
    /// The descriptor being edited no longer exists.
    IndexOutOfRange,
    /// The values were not all numbers; `index` counts the tokens from 0.
    BadToken { index: usize, token: String },
    /// "Keep original length" is on and the number of values differs.
    LengthMismatch { got: usize, expected: usize },
}

/// Why the editor could not load or store the descriptors.
#[derive(Debug)]
pub enum DtonError {
    /// No file is open in the editor.
    NoFileForEdit,
    /// The sound bank could not be opened; the reason is given.
    OpenFailed(String),
    /// The pending edits could not be recorded.
    Pending(String),
}

/// The DTON editor.
pub struct DtonTonesModal {
    pub open: bool,
    pub file_path: Option<String>,
    pub tones: Vec<ToneDes>,
    /// Number of values each descriptor had when it was loaded.
    pub original_data_lens: Vec<usize>,
    pub search_query: String,
    pub selected_index: Option<usize>,
    pub advanced_fields: bool,
    pub keep_original_length: bool,
    pub data_parse_error: Option<DataTextError>,
    pub error: Option<DtonError>,
    pub dirty: bool,
}

/// Positions of `tones` whose name, lower-cased, contains `needle`.
pub open spec fn name_hits(tones: Seq<ToneView>, needle: Seq<char>) -> Seq<usize>
    decreases tones.len(),
{
    if tones.len() == 0 {
        Seq::empty()
    } else {
        let prev = name_hits(tones.drop_last(), needle);
        if has_sub(lowercase(tones.last().name), needle) {
            prev.push((tones.len() - 1) as usize)
        } else {
            prev
        }
    }
}

/// The positions the descriptor list shows for a search query: all of them
/// when the trimmed query is empty, else those whose name contains it,
/// ignoring case.
pub open spec fn visible_positions(tones: Seq<ToneView>, query: Seq<char>) -> Seq<usize> {
    if trimmed(query).len() == 0 {
        Seq::new(tones.len(), |i: int| i as usize)
    } else {
        name_hits(tones, lowercase(trimmed(query)))
    }
}

/// Length of the value list a new descriptor gets: the loaded length of the
/// selected descriptor (or of the first one) when lengths are kept, else 0.
pub open spec fn new_tone_len(lens: Seq<usize>, selected: Option<usize>, keep: bool) -> usize {
    let at: int = match selected {
        Some(i) => i as int,
        None => 0,
    };
    if keep && 0 <= at < lens.len() {
        lens[at]
    } else {
        0
    }
}

/// A descriptor with no name and `n` zero values.
pub open spec fn blank_tone(n: usize) -> ToneView {
    ToneView {
        hash: 0,
        unk1: 0,
        name: Seq::empty(),
        data: Seq::new(n as nat, |i: int| 0u32),
        raw_data: Seq::new((4 * n) as nat, |i: int| 0u8),
        descriptor_words: Seq::empty(),
    }
}

/// A descriptor emptied in place: no name, values, raw bytes or words.
pub open spec fn emptied_tone(t: ToneView) -> ToneView {
    ToneView { name: Seq::empty(), data: Seq::empty(), raw_data: Seq::empty(), descriptor_words: Seq::empty(), ..t }
}

/// The selected position, if it names a descriptor.
pub open spec fn selected_in_range(sel: Option<usize>, n: nat) -> Option<usize> {
    match sel {
        Some(i) => if i < n { Some(i) } else { None },
        None => None,
    }
}

/// The editor with no file open.
pub open spec fn fresh_state(m: DtonTonesModal) -> bool {
    &&& !m.open
    &&& m.file_path is None
    &&& m.tones@.len() == 0
    &&& m.original_data_lens@.len() == 0
    &&& m.search_query@.len() == 0
    &&& m.selected_index is None
    &&& !m.advanced_fields
    &&& m.keep_original_length
    &&& m.data_parse_error is None
    &&& m.error is None
    &&& !m.dirty
}

fn vec_of_zeros_u32(n: usize) -> (v: Vec<u32>)
    ensures
        v@ == Seq::new(n as nat, |i: int| 0u32),
{
    let mut v: Vec<u32> = Vec::new();
    while v.len() < n
        invariant
            v.len() <= n,
            forall|i: int| 0 <= i < v.len() ==> v@[i] == 0u32,
        decreases n - v.len(),
    {
        v.push(0);
    }
    assert(v@ =~= Seq::new(n as nat, |i: int| 0u32));
    v
}

fn vec_of_zeros_u8(n: usize) -> (v: Vec<u8>)
    ensures
        v@ == Seq::new(n as nat, |i: int| 0u8),
{
    let mut v: Vec<u8> = Vec::new();
    while v.len() < n
        invariant
            v.len() <= n,
            forall|i: int| 0 <= i < v.len() ==> v@[i] == 0u8,
        decreases n - v.len(),
    {
        v.push(0);
    }
    assert(v@ =~= Seq::new(n as nat, |i: int| 0u8));
    v
}

fn data_lens(tones: &Vec<ToneDes>) -> (r: Vec<usize>)
    ensures
        r@.len() == tones@.len(),
        forall|i: int| 0 <= i < tones@.len() ==> r@[i] == tones@[i].data@.len(),
{
    let mut r: Vec<usize> = Vec::new();
    let mut i: usize = 0;
    while i < tones.len()
        invariant
            i <= tones.len(),
            r@.len() == i,
            forall|j: int| 0 <= j < i ==> r@[j] == tones@[j].data@.len(),
        decreases tones.len() - i,
    {
        r.push(tones[i].data.len());
        i += 1;
    }
    r
}


/// Puts a list of descriptors into a bank as its DTON section.
pub fn apply_dton_tones_to_file(file: &mut Nus3bankFile, tones: Vec<ToneDes>)
    ensures
        final(file).deep_view().dton == Some(tones.deep_view()),
        final(file).deep_view().grp == old(file).deep_view().grp,
        final(file).deep_view().prop == old(file).deep_view().prop,
{
    file.dton = Some(DtonSection { tones });
}

impl DtonTonesModal {
    /// The pending descriptors of a file, if edits are waiting for it; the
    /// editor opens the file itself only when there are none.
    pub fn load_tones_for_file(pending: &KeyedStore<Vec<ToneDes>>, file_path: &str) -> (r: Option<Vec<ToneDes>>)
        ensures
            r.deep_view() == (if pending@.contains_key(normalized_path(file_path@)) {
                Some(pending@[normalized_path(file_path@)].deep_view())
            } else {
                None::<Seq<ToneView>>
            }),
    {
        dton_pending::get(pending, file_path)
    }

    /// A closed editor with no file, keeping original lengths.
    pub fn new() -> (m: Self)
        ensures
            fresh_state(m),
    {
        DtonTonesModal {
            open: false,
            file_path: None,
            tones: Vec::new(),
            original_data_lens: Vec::new(),
            search_query: String::new(),
            selected_index: None,
            advanced_fields: false,
            keep_original_length: true,
            data_parse_error: None,
            error: None,
            dirty: false,
        }
    }

    /// Sets the loaded descriptors: lengths recorded, first one selected.
    fn take_loaded(&mut self, tones: Vec<ToneDes>)
        ensures
            final(self).tones.deep_view() == tones.deep_view(),
            final(self).original_data_lens@.len() == tones@.len(),
            forall|i: int| 0 <= i < tones@.len() ==> final(self).original_data_lens@[i] == tones@[i].data@.len(),
            final(self).selected_index == (if tones@.len() == 0 { None } else { Some(0usize) }),
            final(self).data_parse_error is None,
            final(self).open == old(self).open,
            final(self).file_path == old(self).file_path,
            final(self).error == old(self).error,
            final(self).dirty == old(self).dirty,
            final(self).search_query == old(self).search_query,
            final(self).keep_original_length == old(self).keep_original_length,
            final(self).advanced_fields == old(self).advanced_fields,
    {
        self.original_data_lens = data_lens(&tones);
        self.selected_index = if tones.len() == 0 { None } else { Some(0) };
        self.tones = tones;
        self.data_parse_error = None;
    }

    /// Opens the editor on a file. `loaded` is what loading gave: the
    /// pending descriptors, or those of the bank on disk, or why the bank
    /// could not be opened.
    pub fn open_for_file(&mut self, file_path: &str, loaded: Result<Vec<ToneDes>, String>)
        ensures
            final(self).open,
            final(self).file_path matches Some(p) && p@ == file_path@,
            !final(self).dirty,
            final(self).data_parse_error is None,
            final(self).search_query == old(self).search_query,
            final(self).keep_original_length == old(self).keep_original_length,
            final(self).advanced_fields == old(self).advanced_fields,
            match loaded {
                Ok(t) => {
                    &&& final(self).tones.deep_view() == t.deep_view()
                    &&& final(self).original_data_lens@.len() == t@.len()
                    &&& forall|i: int| 0 <= i < t@.len() ==> final(self).original_data_lens@[i] == t@[i].data@.len()
                    &&& final(self).selected_index == (if t@.len() == 0 { None } else { Some(0usize) })
                    &&& final(self).error is None
                },
                Err(e) => {
                    &&& final(self).tones@.len() == 0
                    &&& final(self).original_data_lens@.len() == 0
                    &&& final(self).selected_index is None
                    &&& final(self).error == Some(DtonError::OpenFailed(e))
                },
            },
    {
        self.file_path = Some(file_path.to_string());
        self.error = None;
        self.data_parse_error = None;
        self.dirty = false;
        match loaded {
            Ok(tones) => {
                self.take_loaded(tones);
            },
            Err(e) => {
                self.tones = Vec::new();
                self.original_data_lens = Vec::new();
                self.selected_index = None;
                self.error = Some(DtonError::OpenFailed(e));
            },
        }
        self.open = true;
    }

    /// Positions of the descriptors the list shows for the search query.
    pub fn visible_indices(&self) -> (r: Vec<usize>)
        ensures
            r@ == visible_positions(self.tones.deep_view(), self.search_query@),
    {
        let q = trimmed_chars(self.search_query.as_str());
        let ghost tv = self.tones.deep_view();
        let mut r: Vec<usize> = Vec::new();
        if q.len() == 0 {
            let mut i: usize = 0;
            while i < self.tones.len()
                invariant
                    i <= self.tones.len(),
                    r@ == Seq::new(i as nat, |k: int| k as usize),
                decreases self.tones.len() - i,
            {
                r.push(i);
                i += 1;
                assert(r@ =~= Seq::new(i as nat, |k: int| k as usize));
            }
            return r;
        }
        let qs = crate::text::string_of(&q);
        let needle = lower_chars(qs.as_str());
        let mut i: usize = 0;
        while i < self.tones.len()
            invariant
                i <= self.tones.len(),
                tv == self.tones.deep_view(),
                needle@ == lowercase(trimmed(self.search_query@)),
                r@ == name_hits(tv.take(i as int), needle@),
            decreases self.tones.len() - i,
        {
            proof {
                assert(tv.take(i + 1).drop_last() =~= tv.take(i as int));
                assert(tv.take(i + 1).last() == tv[i as int]);
            }
            if contains_lower(self.tones[i].name.as_str(), &needle) {
                r.push(i);
            }
            i += 1;
        }
        assert(tv.take(self.tones.len() as int) =~= tv);
        r
    }

    /// The values of the selected descriptor, for the value text box, and
    /// clears the value error; `None` (an empty box) when nothing valid is
    /// selected.
    pub fn sync_data_text_from_selected(&mut self) -> (r: Option<Vec<u32>>)
        ensures
            final(self).data_parse_error is None,
            final(self).tones == old(self).tones,
            final(self).original_data_lens == old(self).original_data_lens,
            final(self).selected_index == old(self).selected_index,
            final(self).error == old(self).error,
            final(self).dirty == old(self).dirty,
            final(self).file_path == old(self).file_path,
            final(self).open == old(self).open,
            final(self).keep_original_length == old(self).keep_original_length,
            match selected_in_range(old(self).selected_index, old(self).tones@.len()) {
                Some(i) => r matches Some(d) && d@ == old(self).tones@[i as int].data@,
                None => r is None,
            },
    {
        self.data_parse_error = None;
        match self.selected_index {
            Some(idx) => {
                if idx < self.tones.len() {
                    Some(crate::text::copy_vec(&self.tones[idx].data))
                } else {
                    None
                }
            },
            None => None,
        }
    }

    /// Takes the values typed for descriptor `idx`. `parsed` is the text
    /// read as 32-bit floats (their bit patterns), or the first token that
    /// is not one.
    pub fn try_apply_data_text(&mut self, idx: usize, parsed: Result<Vec<u32>, DataTextError>)
        ensures
            final(self).original_data_lens == old(self).original_data_lens,
            final(self).selected_index == old(self).selected_index,
            final(self).file_path == old(self).file_path,
            final(self).error == old(self).error,
            final(self).keep_original_length == old(self).keep_original_length,
            final(self).tones@.len() == old(self).tones@.len(),
            idx >= old(self).tones@.len() ==> {
                &&& final(self).data_parse_error == Some(DataTextError::IndexOutOfRange)
                &&& final(self).tones.deep_view() == old(self).tones.deep_view()
                &&& final(self).dirty == old(self).dirty
            },
            idx < old(self).tones@.len() ==> match parsed {
                Err(e) => {
                    &&& final(self).data_parse_error == Some(e)
                    &&& final(self).tones.deep_view() == old(self).tones.deep_view()
                    &&& final(self).dirty == old(self).dirty
                },
                Ok(values) => {
                    let expected: usize = if idx < old(self).original_data_lens@.len() {
                        old(self).original_data_lens@[idx as int]
                    } else {
                        values@.len() as usize
                    };
                    if old(self).keep_original_length && values@.len() != expected {
                        &&& final(self).data_parse_error == Some(
                            DataTextError::LengthMismatch { got: values@.len() as usize, expected },
                        )
                        &&& final(self).tones.deep_view() == old(self).tones.deep_view()
                        &&& final(self).dirty == old(self).dirty
                    } else {
                        &&& final(self).data_parse_error is None
                        &&& final(self).tones.deep_view() == old(self).tones.deep_view().update(
                            idx as int,
                            ToneView { data: values@, ..old(self).tones.deep_view()[idx as int] },
                        )
                        &&& final(self).dirty
                    }
                },
            },
    {
        if idx >= self.tones.len() {
            self.data_parse_error = Some(DataTextError::IndexOutOfRange);
            return;
        }
        match parsed {
            Ok(values) => {
                if self.keep_original_length {
                    let expected: usize = if idx < self.original_data_lens.len() {
                        self.original_data_lens[idx]
                    } else {
                        values.len()
                    };
                    if values.len() != expected {
                        self.data_parse_error = Some(DataTextError::LengthMismatch { got: values.len(), expected });
                        return;
                    }
                }
                let ghost before = self.tones.deep_view();
                let mut tone = self.tones[idx].duplicate();
                tone.data = values;
                self.tones.set(idx, tone);
                assert(self.tones.deep_view() =~= before.update(
                    idx as int,
                    ToneView { data: self.tones@[idx as int].data@, ..before[idx as int] },
                ));
                self.data_parse_error = None;
                self.dirty = true;
            },
            Err(e) => {
                self.data_parse_error = Some(e);
            },
        }
    }

    /// Appends a blank descriptor (zero values, as many as the selected one
    /// had when loaded if lengths are kept) and selects it.
    pub fn add_new_tone(&mut self)
        requires
            new_tone_len(old(self).original_data_lens@, old(self).selected_index, old(self).keep_original_length) * 4
                <= usize::MAX,
        ensures
            ({
                let n = new_tone_len(old(self).original_data_lens@, old(self).selected_index, old(self).keep_original_length);
                &&& final(self).tones.deep_view() == old(self).tones.deep_view().push(blank_tone(n))
                &&& final(self).original_data_lens@ == old(self).original_data_lens@.push(n)
            }),
            final(self).selected_index == Some((final(self).tones@.len() - 1) as usize),
            final(self).data_parse_error is None,
            final(self).dirty,
            final(self).error == old(self).error,
            final(self).file_path == old(self).file_path,
            final(self).keep_original_length == old(self).keep_original_length,
    {
        let at: usize = match self.selected_index {
            Some(i) => i,
            None => 0,
        };
        let base_len: usize = if self.keep_original_length && at < self.original_data_lens.len() {
            self.original_data_lens[at]
        } else {
            0
        };
        let tone = ToneDes {
            hash: 0,
            unk1: 0,
            name: String::new(),
            data: vec_of_zeros_u32(base_len),
            raw_data: vec_of_zeros_u8(base_len * 4),
            descriptor_words: Vec::new(),
        };
        let ghost before = self.tones.deep_view();
        self.tones.push(tone);
        assert(self.tones.deep_view() =~= before.push(blank_tone(base_len)));
        self.original_data_lens.push(base_len);
        self.selected_index = Some(self.tones.len() - 1);
        self.data_parse_error = None;
        self.dirty = true;
    }

    /// Appends a copy of the selected descriptor and selects it; nothing
    /// happens when no valid descriptor is selected.
    pub fn duplicate_selected(&mut self)
        ensures
            final(self).error == old(self).error,
            final(self).file_path == old(self).file_path,
            final(self).keep_original_length == old(self).keep_original_length,
            match selected_in_range(old(self).selected_index, old(self).tones@.len()) {
                Some(i) => {
                    &&& final(self).tones.deep_view() == old(self).tones.deep_view().push(
                        old(self).tones.deep_view()[i as int],
                    )
                    &&& final(self).original_data_lens@ == old(self).original_data_lens@.push(
                        if (i as int) < old(self).original_data_lens@.len() {
                            old(self).original_data_lens@[i as int]
                        } else {
                            old(self).tones@[i as int].data@.len() as usize
                        },
                    )
                    &&& final(self).selected_index == Some((final(self).tones@.len() - 1) as usize)
                    &&& final(self).data_parse_error is None
                    &&& final(self).dirty
                },
                None => {
                    &&& final(self).tones.deep_view() == old(self).tones.deep_view()
                    &&& final(self).original_data_lens == old(self).original_data_lens
                    &&& final(self).selected_index == old(self).selected_index
                    &&& final(self).data_parse_error == old(self).data_parse_error
                    &&& final(self).dirty == old(self).dirty
                },
            },
    {
        let idx = match self.selected_index {
            Some(i) => i,
            None => return,
        };
        if idx >= self.tones.len() {
            return;
        }
        let cloned = self.tones[idx].duplicate();
        let orig_len: usize = if idx < self.original_data_lens.len() {
            self.original_data_lens[idx]
        } else {
            cloned.data.len()
        };
        let ghost before = self.tones.deep_view();
        self.tones.push(cloned);
        assert(self.tones.deep_view() =~= before.push(before[idx as int]));
        self.original_data_lens.push(orig_len);
        self.selected_index = Some(self.tones.len() - 1);
        self.data_parse_error = None;
        self.dirty = true;
    }

    /// Empties the selected descriptor in place (its slot stays, so the
    /// positions of the others do not move); nothing happens when no valid
    /// descriptor is selected.
    pub fn delete_selected(&mut self)
        ensures
            final(self).error == old(self).error,
            final(self).file_path == old(self).file_path,
            final(self).selected_index == old(self).selected_index,
            match selected_in_range(old(self).selected_index, old(self).tones@.len()) {
                Some(i) => {
                    &&& final(self).tones.deep_view() == old(self).tones.deep_view().update(
                        i as int,
                        emptied_tone(old(self).tones.deep_view()[i as int]),
                    )
                    &&& final(self).original_data_lens@ == (if (i as int) < old(self).original_data_lens@.len() {
                        old(self).original_data_lens@.update(i as int, 0)
                    } else {
                        old(self).original_data_lens@
                    })
                    &&& final(self).data_parse_error is None
                    &&& final(self).dirty
                },
                None => {
                    &&& final(self).tones.deep_view() == old(self).tones.deep_view()
                    &&& final(self).original_data_lens == old(self).original_data_lens
                    &&& final(self).data_parse_error == old(self).data_parse_error
                    &&& final(self).dirty == old(self).dirty
                },
            },
    {
        let idx = match self.selected_index {
            Some(i) => i,
            None => return,
        };
        if idx >= self.tones.len() {
            return;
        }
        let ghost before = self.tones.deep_view();
        let old_tone = self.tones[idx].duplicate();
        let tone = ToneDes {
            hash: old_tone.hash,
            unk1: old_tone.unk1,
            name: String::new(),
            data: Vec::new(),
            raw_data: Vec::new(),
            descriptor_words: Vec::new(),
        };
        self.tones.set(idx, tone);
        assert(self.tones.deep_view() =~= before.update(idx as int, emptied_tone(before[idx as int])));
        if idx < self.original_data_lens.len() {
            self.original_data_lens.set(idx, 0);
        }
        self.data_parse_error = None;
        self.dirty = true;
    }

    /// Records the edited descriptors as pending for the open file. Nothing
    /// is recorded when there is no change or the value text is invalid.
    pub fn flush_pending(&mut self, pending: &mut KeyedStore<Vec<ToneDes>>)
        ensures
            final(self).tones.deep_view() == old(self).tones.deep_view(),
            final(self).file_path == old(self).file_path,
            final(self).data_parse_error == old(self).data_parse_error,
            if !old(self).dirty || old(self).data_parse_error is Some {
                &&& final(pending)@ == old(pending)@
                &&& final(self).error == old(self).error
                &&& final(self).dirty == old(self).dirty
            } else {
                match old(self).file_path {
                    None => {
                        &&& final(pending)@ == old(pending)@
                        &&& final(self).error == Some(DtonError::NoFileForEdit)
                        &&& final(self).dirty
                    },
                    Some(p) => {
                        &&& final(pending)@.dom() == old(pending)@.dom().insert(normalized_path(p@))
                        &&& final(pending)@[normalized_path(p@)].deep_view() == old(self).tones.deep_view()
                        &&& forall|k: Seq<char>| k != normalized_path(p@) ==> #[trigger] final(pending)@.contains_key(k)
                            ==> final(pending)@[k] == old(pending)@[k]
                        &&& final(self).error is None
                        &&& !final(self).dirty
                    },
                }
            },
    {
        if !self.dirty {
            return;
        }
        if self.data_parse_error.is_some() {
            return;
        }
        match &self.file_path {
            None => {
                self.error = Some(DtonError::NoFileForEdit);
            },
            Some(path) => {
                let tones = copy_tones(&self.tones);
                match dton_pending::set(pending, path.as_str(), tones) {
                    Ok(()) => {
                        self.error = None;
                        self.dirty = false;
                    },
                    Err(e) => {
                        self.error = Some(DtonError::Pending(e));
                    },
                }
            },
        }
    }

    /// Drops the pending edits of the open file and reloads its descriptors
    /// from disk; `opened` is what opening the bank gave (its descriptors,
    /// or why it failed).
    pub fn reload_from_file(&mut self, pending: &mut KeyedStore<Vec<ToneDes>>, opened: Result<Vec<ToneDes>, String>)
        ensures
            final(self).file_path == old(self).file_path,
            match old(self).file_path {
                None => {
                    &&& final(self).error == Some(DtonError::NoFileForEdit)
                    &&& final(pending)@ == old(pending)@
                    &&& final(self).tones.deep_view() == old(self).tones.deep_view()
                    &&& final(self).dirty == old(self).dirty
                },
                Some(p) => {
                    &&& final(pending)@ == old(pending)@.remove(normalized_path(p@))
                    &&& match opened {
                        Ok(t) => {
                            &&& final(self).tones.deep_view() == t.deep_view()
                            &&& final(self).original_data_lens@.len() == t@.len()
                            &&& forall|i: int| 0 <= i < t@.len() ==> final(self).original_data_lens@[i] == t@[i].data@.len()
                            &&& final(self).selected_index == (if t@.len() == 0 { None } else { Some(0usize) })
                            &&& final(self).error is None
                            &&& !final(self).dirty
                            &&& final(self).data_parse_error is None
                        },
                        Err(e) => {
                            &&& final(self).error == Some(DtonError::OpenFailed(e))
                            &&& final(self).tones.deep_view() == old(self).tones.deep_view()
                            &&& final(self).dirty == old(self).dirty
                        },
                    }
                },
            },
    {
        let path = match &self.file_path {
            None => {
                self.error = Some(DtonError::NoFileForEdit);
                return;
            },
            Some(p) => p.clone(),
        };
        self.error = None;
        let _ = dton_pending::clear(pending, path.as_str());
        match opened {
            Ok(tones) => {
                self.take_loaded(tones);
                self.dirty = false;
            },
            Err(e) => {
                self.error = Some(DtonError::OpenFailed(e));
            },
        }
    }
}

/// Saving the editor's descriptors as pending edits (the state `flush_pending`
/// leaves) makes loading the file, under any spelling of its path with the
/// same key, give back exactly those descriptors.
pub proof fn law_flush_then_load(
    before: Map<Seq<char>, Vec<ToneDes>>,
    after: Map<Seq<char>, Vec<ToneDes>>,
    path: Seq<char>,
    other: Seq<char>,
    edited: Seq<ToneView>,
)
    requires
        after.dom() == before.dom().insert(normalized_path(path)),
        after[normalized_path(path)].deep_view() == edited,
        normalized_path(other) == normalized_path(path),
    ensures
        after.contains_key(normalized_path(other)),
        after[normalized_path(other)].deep_view() == edited,
{
}

/// The descriptor search keeps, in list order and once each, exactly the
/// positions of the descriptors whose lower-cased name holds the query.
pub proof fn law_tone_search_hits(xs: Seq<ToneView>, q: Seq<char>)
    requires
        xs.len() <= usize::MAX,
    ensures
        forall|k: int|
            #![trigger name_hits(xs, q)[k]]
            0 <= k < name_hits(xs, q).len() ==> name_hits(xs, q)[k] < xs.len() && has_sub(
                lowercase(xs[name_hits(xs, q)[k] as int].name),
                q,
            ),
        forall|k: int, l: int|
            #![trigger name_hits(xs, q)[k], name_hits(xs, q)[l]]
            0 <= k < l < name_hits(xs, q).len() ==> name_hits(xs, q)[k] < name_hits(xs, q)[l],
        forall|i: int|
            0 <= i < xs.len() && has_sub(lowercase(xs[i].name), q) ==> name_hits(xs, q).contains(
                #[trigger] (i as usize),
            ),
    decreases xs.len(),
{
    if xs.len() > 0 {
        let init = xs.drop_last();
        law_tone_search_hits(init, q);
        let prev = name_hits(init, q);
        let r = name_hits(xs, q);
        let n = xs.len() - 1;
        assert forall|k: int| #![trigger r[k]] 0 <= k < r.len() implies r[k] < xs.len() && has_sub(
            lowercase(xs[r[k] as int].name),
            q,
        ) by {
            if k < prev.len() {
                assert(r[k] == prev[k]);
                assert(init[prev[k] as int] == xs[prev[k] as int]);
            }
        }
        assert forall|k: int, l: int| #![trigger r[k], r[l]] 0 <= k < l < r.len() implies r[k] < r[l] by {
            if l < prev.len() {
                assert(r[k] == prev[k] && r[l] == prev[l]);
            } else {
                assert(r[k] == prev[k]);
                assert(prev[k] < n);
            }
        }
        assert forall|i: int| 0 <= i < xs.len() && has_sub(lowercase(xs[i].name), q) implies r.contains(
            #[trigger] (i as usize),
        ) by {
            if i < n {
                assert(init[i] == xs[i]);
                assert(prev.contains(i as usize));
                let k = choose|k: int| 0 <= k < prev.len() && prev[k] == i as usize;
                assert(r[k] == prev[k]);
            } else {
                assert(r[r.len() - 1] == i as usize);
            }
        }
    }
}

} // verus!
