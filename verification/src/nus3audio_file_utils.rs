//! In-memory registry of track additions and removals for an opened
//! NUS3AUDIO file, and the track list that results from applying them.
use vstd::prelude::*;
use crate::audio_file_info::AudioFileInfo;
use crate::store::{has_key, keys_distinct, lemma_upserted, law_upsert_twice, upserted, KeyedStore};
use crate::text::{contains_char, has_char, joined, parsed_unsigned};

verus! {

/// A pending change to a file's track list.
pub enum FileChangeType {
    /// Added track: ID, name and audio data.
    Add(String, String, Vec<u8>),
    /// Removed track: ID and name.
    Remove(String, String),
}

/// A pending change as plain values.
pub enum ChangeView {
    Add(Seq<char>, Seq<char>, Seq<u8>),
    Remove(Seq<char>, Seq<char>),
}

impl DeepView for FileChangeType {
    type V = ChangeView;

    open spec fn deep_view(&self) -> ChangeView {
        match self {
            FileChangeType::Add(id, name, data) => ChangeView::Add(id@, name@, data@),
            FileChangeType::Remove(id, name) => ChangeView::Remove(id@, name@),
        }
    }
}

/// Key of a track in the registry: its name, a colon, its ID.
pub open spec fn track_key(name: Seq<char>, id: Seq<char>) -> Seq<char> {
    name + ":"@ + id
}

/// ID and name a change is about.
pub open spec fn change_pair(c: ChangeView) -> (Seq<char>, Seq<char>) {
    match c {
        ChangeView::Add(id, name, _) => (id, name),
        ChangeView::Remove(id, name) => (id, name),
    }
}

/// Neither the ID nor the name holds a colon (only such changes take part in
/// the effective list: their `id:name` key splits back into two parts).
pub open spec fn splits_cleanly(pair: (Seq<char>, Seq<char>)) -> bool {
    !has_char(pair.0, ':') && !has_char(pair.1, ':')
}

/// Keeps every pair except `p`.
pub open spec fn other_than(p: (Seq<char>, Seq<char>)) -> spec_fn((Seq<char>, Seq<char>)) -> bool {
    |q: (Seq<char>, Seq<char>)| q != p
}

/// `list` after one change: a removal drops every entry with that ID and
/// name, an addition appends the pair unless it is already listed.
pub open spec fn apply_change(list: Seq<(Seq<char>, Seq<char>)>, c: ChangeView) -> Seq<(Seq<char>, Seq<char>)> {
    let p = change_pair(c);
    if !splits_cleanly(p) {
        list
    } else {
        match c {
            ChangeView::Remove(_, _) => list.filter(other_than(p)),
            ChangeView::Add(_, _, _) => if list.contains(p) { list } else { list.push(p) },
        }
    }
}

/// `list` after the changes, applied in registry order.
pub open spec fn apply_changes(list: Seq<(Seq<char>, Seq<char>)>, cs: Seq<ChangeView>) -> Seq<(Seq<char>, Seq<char>)>
    decreases cs.len(),
{
    if cs.len() == 0 {
        list
    } else {
        apply_change(apply_changes(list, cs.drop_last()), cs.last())
    }
}

/// The registry as plain values: each key with its change, in registry order.
pub open spec fn registry_of(store: Seq<(Seq<char>, FileChangeType)>) -> Seq<(Seq<char>, ChangeView)> {
    store.map_values(|e: (Seq<char>, FileChangeType)| (e.0, e.1.deep_view()))
}

/// The registered changes in registry order.
pub open spec fn changes_of(store: Seq<(Seq<char>, FileChangeType)>) -> Seq<ChangeView> {
    registry_of(store).map_values(|e: (Seq<char>, ChangeView)| e.1)
}

/// Storing a change in the registry and then taking plain values is taking
/// plain values and then storing the change's plain value.
proof fn lemma_registry_upsert(store: Seq<(Seq<char>, FileChangeType)>, k: Seq<char>, c: FileChangeType)
    ensures
        registry_of(upserted(store, k, c)) == upserted(registry_of(store), k, c.deep_view()),
{
    let r = registry_of(store);
    if has_key(store, k) {
        let i = choose|i: int| 0 <= i < store.len() && (#[trigger] store[i]).0 == k;
        assert(r[i].0 == k);
        assert(registry_of(upserted(store, k, c)) =~= upserted(r, k, c.deep_view()));
    } else {
        assert(!has_key(r, k)) by {
            if has_key(r, k) {
                let i = choose|i: int| 0 <= i < r.len() && (#[trigger] r[i]).0 == k;
                assert(store[i].0 == k);
            }
        }
        assert(registry_of(upserted(store, k, c)) =~= upserted(r, k, c.deep_view()));
    }
}

/// Pending additions and removals of tracks, keyed by `name:id`.
pub struct Nus3audioFileUtils {
    pub changes: KeyedStore<FileChangeType>,
}

/// A copy of a byte vector.
fn copy_bytes(v: &Vec<u8>) -> (r: Vec<u8>)
    ensures
        r@ == v@,
{
    crate::text::copy_vec(v)
}

impl Nus3audioFileUtils {
    /// An empty registry.
    pub fn new() -> (r: Self)
        ensures
            r.changes@ == Map::<Seq<char>, FileChangeType>::empty(),
            r.changes.entries().len() == 0,
    {
        Nus3audioFileUtils { changes: KeyedStore::new() }
    }

    /// Registers the addition of a track (in memory only): the change is
    /// stored under the track's `name:id` key, in place of any change
    /// registered for that key before.
    pub fn register_add(&mut self, audio_info: &AudioFileInfo, data: Vec<u8>) -> (r: Result<(), String>)
        ensures
            r is Ok,
            registry_of(final(self).changes.entries()) == upserted(
                registry_of(old(self).changes.entries()),
                track_key(audio_info.name@, audio_info.id@),
                ChangeView::Add(audio_info.id@, audio_info.name@, data@),
            ),
            keyed_by_track(registry_of(old(self).changes.entries())) ==> keyed_by_track(
                registry_of(final(self).changes.entries()),
            ),
            keys_distinct(registry_of(final(self).changes.entries())),
            final(self).changes@.dom() == old(self).changes@.dom().insert(track_key(audio_info.name@, audio_info.id@)),
            final(self).changes@[track_key(audio_info.name@, audio_info.id@)].deep_view() == ChangeView::Add(
                audio_info.id@,
                audio_info.name@,
                data@,
            ),
            forall|k: Seq<char>| k != track_key(audio_info.name@, audio_info.id@) && old(self).changes@.contains_key(k)
                ==> #[trigger] final(self).changes@[k] == old(self).changes@[k],
    {
        let key = joined(audio_info.name.as_str(), ":", audio_info.id.as_str());
        let ghost before = self.changes.entries();
        let change = FileChangeType::Add(audio_info.id.clone(), audio_info.name.clone(), data);
        proof {
            lemma_registry_upsert(before, key@, change);
            if keyed_by_track(registry_of(before)) {
                lemma_keyed_upsert(registry_of(before), change.deep_view());
            }
        }
        self.changes.insert(key, change);
        proof { lemma_registry_keys(self.changes.entries()); }
        Ok(())
    }

    /// Registers the removal of a track (in memory only): the change is
    /// stored under the track's `name:id` key, in place of any change
    /// registered for that key before.
    pub fn register_remove(&mut self, audio_info: &AudioFileInfo) -> (r: Result<(), String>)
        ensures
            r is Ok,
            registry_of(final(self).changes.entries()) == upserted(
                registry_of(old(self).changes.entries()),
                track_key(audio_info.name@, audio_info.id@),
                ChangeView::Remove(audio_info.id@, audio_info.name@),
            ),
            keyed_by_track(registry_of(old(self).changes.entries())) ==> keyed_by_track(
                registry_of(final(self).changes.entries()),
            ),
            keys_distinct(registry_of(final(self).changes.entries())),
            final(self).changes@.dom() == old(self).changes@.dom().insert(track_key(audio_info.name@, audio_info.id@)),
            final(self).changes@[track_key(audio_info.name@, audio_info.id@)].deep_view() == ChangeView::Remove(
                audio_info.id@,
                audio_info.name@,
            ),
            forall|k: Seq<char>| k != track_key(audio_info.name@, audio_info.id@) && old(self).changes@.contains_key(k)
                ==> #[trigger] final(self).changes@[k] == old(self).changes@[k],
    {
        let key = joined(audio_info.name.as_str(), ":", audio_info.id.as_str());
        let ghost before = self.changes.entries();
        let change = FileChangeType::Remove(audio_info.id.clone(), audio_info.name.clone());
        proof {
            lemma_registry_upsert(before, key@, change);
            if keyed_by_track(registry_of(before)) {
                lemma_keyed_upsert(registry_of(before), change.deep_view());
            }
        }
        self.changes.insert(key, change);
        proof { lemma_registry_keys(self.changes.entries()); }
        Ok(())
    }

    /// Registers the addition of a track whose ID must be a decimal number.
    pub fn register_add_audio(&mut self, audio_info: &AudioFileInfo, audio_data: Vec<u8>) -> (r: Result<(), String>)
        ensures
            parsed_unsigned(audio_info.id@, u32::MAX as nat) is None ==> (r matches Err(e) && e@
                == "ID must be a valid number"@ && final(self).changes@ == old(self).changes@
                && final(self).changes.entries() == old(self).changes.entries()),
            parsed_unsigned(audio_info.id@, u32::MAX as nat) is Some ==> (r is Ok
                && registry_of(final(self).changes.entries()) == upserted(
                registry_of(old(self).changes.entries()),
                track_key(audio_info.name@, audio_info.id@),
                ChangeView::Add(audio_info.id@, audio_info.name@, audio_data@),
            )
                && final(self).changes@.dom() == old(self).changes@.dom().insert(track_key(audio_info.name@, audio_info.id@))
                && final(self).changes@[track_key(audio_info.name@, audio_info.id@)].deep_view() == ChangeView::Add(
                audio_info.id@,
                audio_info.name@,
                audio_data@,
            ) && forall|k: Seq<char>| k != track_key(audio_info.name@, audio_info.id@) && old(self).changes@.contains_key(k)
                ==> #[trigger] final(self).changes@[k] == old(self).changes@[k]),
    {
        match crate::text::parse_u32(audio_info.id.as_str()) {
            Some(_) => {},
            None => {
                return Err("ID must be a valid number".to_owned());
            },
        }
        self.register_add(audio_info, audio_data)
    }

    /// Forgets every pending change.
    pub fn clear_changes(&mut self)
        ensures
            final(self).changes@ == Map::<Seq<char>, FileChangeType>::empty(),
            final(self).changes.entries().len() == 0,
    {
        self.changes.clear();
    }

    /// Audio data of a pending addition of the track with that name and ID.
    pub fn get_pending_added_data(&self, audio_name: &str, audio_id: &str) -> (r: Option<Vec<u8>>)
        ensures
            match r {
                Some(d) => self.changes@.contains_key(track_key(audio_name@, audio_id@)) && (
                self.changes@[track_key(audio_name@, audio_id@)].deep_view() matches ChangeView::Add(_, _, data)
                    && d@ == data),
                None => !self.changes@.contains_key(track_key(audio_name@, audio_id@)) || (
                self.changes@[track_key(audio_name@, audio_id@)].deep_view() is Remove),
            },
    {
        let key = joined(audio_name, ":", audio_id);
        match self.changes.get(&key) {
            Some(FileChangeType::Add(_, _, data)) => Some(copy_bytes(data)),
            _ => None,
        }
    }

    /// Every pending addition as (ID, name, data), in registry order.
    pub fn get_pending_additions(&self) -> (r: Vec<(String, String, Vec<u8>)>)
        ensures
            r@.map_values(|t: (String, String, Vec<u8>)| ChangeView::Add(t.0@, t.1@, t.2@)) == changes_of(
                self.changes.entries(),
            ).filter(|c: ChangeView| c is Add),
    {
        let mut additions: Vec<(String, String, Vec<u8>)> = Vec::new();
        let n = self.changes.len();
        let ghost cs = changes_of(self.changes.entries());
        let mut i: usize = 0;
        while i < n
            invariant
                n == self.changes.entries().len(),
                cs == changes_of(self.changes.entries()),
                i <= n,
                additions@.map_values(|t: (String, String, Vec<u8>)| ChangeView::Add(t.0@, t.1@, t.2@))
                    == cs.take(i as int).filter(|c: ChangeView| c is Add),
            decreases n - i,
        {
            let ghost before = additions@;
            match self.changes.value_at(i) {
                FileChangeType::Add(id, name, data) => {
                    additions.push((id.clone(), name.clone(), copy_bytes(data)));
                },
                FileChangeType::Remove(_, _) => {},
            }
            proof {
                reveal_with_fuel(Seq::<_>::filter, 1);
                assert(cs.take(i + 1).drop_last() =~= cs.take(i as int));
                assert(cs.take(i + 1).last() == cs[i as int]);
                assert(additions@.map_values(|t: (String, String, Vec<u8>)| ChangeView::Add(t.0@, t.1@, t.2@))
                    =~= cs.take(i + 1).filter(|c: ChangeView| c is Add));
            }
            i += 1;
        }
        assert(cs.take(n as int) =~= cs);
        additions
    }

    /// Whether anything is pending: registered changes, or replaced audio data.
    pub fn has_pending_changes(&self, replacements: &crate::replace_utils::ReplaceUtils) -> (b: bool)
        ensures
            b == (self.changes.entries().len() > 0 || replacements.replaced_audio_data.entries().len() > 0),
    {
        !self.changes.is_empty() || replacements.has_replacement_data()
    }

    /// Number of registered changes plus number of replaced tracks (a sum
    /// past `usize::MAX`, which no memory can hold, stays at `usize::MAX`).
    pub fn get_pending_changes_count(&self, replacements: &crate::replace_utils::ReplaceUtils) -> (n: usize)
        ensures
            n == pending_count(self.changes.entries().len(), replacements.replaced_audio_data.entries().len()),
    {
        self.changes.len().saturating_add(replacements.get_replacement_count())
    }
}

/// The pending-change count for `changes` registered changes and
/// `replaced` replaced tracks.
pub open spec fn pending_count(changes: nat, replaced: nat) -> nat {
    if changes + replaced <= usize::MAX {
        changes + replaced
    } else {
        usize::MAX as nat
    }
}

/// A list of (ID, name) pairs as plain values.
pub open spec fn pairs_view(v: Seq<(String, String)>) -> Seq<(Seq<char>, Seq<char>)> {
    v.map_values(|p: (String, String)| (p.0@, p.1@))
}

/// The (ID, name) pairs of the tracks of a file, in order.
pub open spec fn info_pairs(files: Seq<crate::audio_file_info::AudioFileInfoView>) -> Seq<(Seq<char>, Seq<char>)> {
    files.map_values(|f: crate::audio_file_info::AudioFileInfoView| (f.id, f.name))
}

fn pair_listed(list: &Vec<(String, String)>, id: &String, name: &String) -> (b: bool)
    ensures
        b == pairs_view(list@).contains((id@, name@)),
{
    let mut i: usize = 0;
    while i < list.len()
        invariant
            i <= list.len(),
            forall|j: int| 0 <= j < i ==> pairs_view(list@)[j] != (id@, name@),
        decreases list.len() - i,
    {
        if list[i].0 == *id && list[i].1 == *name {
            assert(pairs_view(list@)[i as int] == (id@, name@));
            return true;
        }
        i += 1;
    }
    false
}

fn without_pair(list: &Vec<(String, String)>, id: &String, name: &String) -> (r: Vec<(String, String)>)
    ensures
        pairs_view(r@) == pairs_view(list@).filter(other_than((id@, name@))),
{
    let ghost p = (id@, name@);
    let ghost lv = pairs_view(list@);
    let mut r: Vec<(String, String)> = Vec::new();
    let mut i: usize = 0;
    while i < list.len()
        invariant
            i <= list.len(),
            p == (id@, name@),
            lv == pairs_view(list@),
            pairs_view(r@) == lv.take(i as int).filter(other_than(p)),
        decreases list.len() - i,
    {
        if !(list[i].0 == *id && list[i].1 == *name) {
            r.push((list[i].0.clone(), list[i].1.clone()));
        }
        proof {
            reveal_with_fuel(Seq::<_>::filter, 1);
            assert(lv.take(i + 1).drop_last() =~= lv.take(i as int));
            assert(lv.take(i + 1).last() == lv[i as int]);
            assert(pairs_view(r@) =~= lv.take(i + 1).filter(other_than(p)));
        }
        i += 1;
    }
    assert(lv.take(list.len() as int) =~= lv);
    r
}

impl Nus3audioFileUtils {
    /// (ID, name) pairs that will exist once the pending changes are applied:
    /// the existing tracks, then each registered change in registry order
    /// (see `apply_change`).
    pub fn get_effective_audio_list(&self, existing_files: Option<&Vec<AudioFileInfo>>) -> (r: Vec<(String, String)>)
        ensures
            pairs_view(r@) == apply_changes(
                match existing_files {
                    Some(files) => info_pairs(files.deep_view()),
                    None => Seq::<(Seq<char>, Seq<char>)>::empty(),
                },
                changes_of(self.changes.entries()),
            ),
    {
        let mut list: Vec<(String, String)> = Vec::new();
        let ghost start: Seq<(Seq<char>, Seq<char>)> = Seq::empty();
        match existing_files {
            Some(files) => {
                let mut k: usize = 0;
                while k < files.len()
                    invariant
                        k <= files.len(),
                        list@.len() == k,
                        forall|j: int| 0 <= j < k ==> (#[trigger] list@[j]).0@ == files@[j].id@ && list@[j].1@
                            == files@[j].name@,
                    decreases files.len() - k,
                {
                    list.push((files[k].id.clone(), files[k].name.clone()));
                    k += 1;
                }
                assert(pairs_view(list@) =~= info_pairs(files.deep_view()));
                proof { start = info_pairs(files.deep_view()); }
            },
            None => {
                assert(pairs_view(list@) =~= Seq::<(Seq<char>, Seq<char>)>::empty());
            },
        }
        let n = self.changes.len();
        let ghost cs = changes_of(self.changes.entries());
        let mut i: usize = 0;
        while i < n
            invariant
                n == self.changes.entries().len(),
                cs == changes_of(self.changes.entries()),
                i <= n,
                pairs_view(list@) == apply_changes(start, cs.take(i as int)),
            decreases n - i,
        {
            let change = self.changes.value_at(i);
            let (id, name) = match change {
                FileChangeType::Add(id, name, _) => (id, name),
                FileChangeType::Remove(id, name) => (id, name),
            };
            proof {
                assert(cs.take(i + 1).drop_last() =~= cs.take(i as int));
                assert(cs.take(i + 1).last() == cs[i as int]);
            }
            if !contains_char(id.as_str(), ':') && !contains_char(name.as_str(), ':') {
                match change {
                    FileChangeType::Remove(_, _) => {
                        list = without_pair(&list, id, name);
                    },
                    FileChangeType::Add(_, _, _) => {
                        if !pair_listed(&list, id, name) {
                            let ghost before = list@;
                            list.push((id.clone(), name.clone()));
                            assert(pairs_view(list@) =~= pairs_view(before).push((id@, name@)));
                        }
                    },
                }
            }
            i += 1;
        }
        assert(cs.take(n as int) =~= cs);
        list
    }
}

/// Some change in `cs` is an addition of pair `p`.
pub open spec fn adds(cs: Seq<ChangeView>, p: (Seq<char>, Seq<char>)) -> bool {
    exists|i: int| 0 <= i < cs.len() && cs[i] is Add && change_pair(cs[i]) == p
}

/// Some change in `cs` is a removal of pair `p`.
pub open spec fn removes(cs: Seq<ChangeView>, p: (Seq<char>, Seq<char>)) -> bool {
    exists|i: int| 0 <= i < cs.len() && cs[i] is Remove && change_pair(cs[i]) == p
}

/// When each track has at most one pending change, a track is in the
/// effective list exactly when it is added, or it exists and is not removed
/// (changes to IDs or names holding a colon are ignored).
pub proof fn law_effective_list_membership(
    list0: Seq<(Seq<char>, Seq<char>)>,
    cs: Seq<ChangeView>,
    p: (Seq<char>, Seq<char>),
)
    requires
        forall|i: int, j: int|
            0 <= i < cs.len() && 0 <= j < cs.len() && i != j ==> change_pair(#[trigger] cs[i]) != change_pair(#[trigger] cs[j]),
    ensures
        apply_changes(list0, cs).contains(p) == ((splits_cleanly(p) && adds(cs, p)) || (list0.contains(p) && !(
        splits_cleanly(p) && removes(cs, p)))),
    decreases cs.len(),
{
    if cs.len() == 0 {
    } else {
        let init = cs.drop_last();
        let c = cs.last();
        assert forall|i: int, j: int|
            0 <= i < init.len() && 0 <= j < init.len() && i != j implies change_pair(#[trigger] init[i])
            != change_pair(#[trigger] init[j]) by {
            assert(init[i] == cs[i] && init[j] == cs[j]);
        }
        law_effective_list_membership(list0, init, p);
        let prev = apply_changes(list0, init);
        assert(apply_changes(list0, cs) == apply_change(prev, c));
        let q = change_pair(c);
        let rhs = (splits_cleanly(p) && adds(cs, p)) || (list0.contains(p) && !(splits_cleanly(p) && removes(cs, p)));
        let rhs0 = (splits_cleanly(p) && adds(init, p)) || (list0.contains(p) && !(splits_cleanly(p) && removes(init, p)));
        assert(prev.contains(p) == rhs0);
        // changes before the last one are the same as in `init`
        assert(adds(cs, p) == (adds(init, p) || (c is Add && q == p))) by {
            if adds(cs, p) {
                let i = choose|i: int| 0 <= i < cs.len() && cs[i] is Add && change_pair(cs[i]) == p;
                if i < init.len() {
                    assert(init[i] == cs[i]);
                }
            }
            if adds(init, p) {
                let i = choose|i: int| 0 <= i < init.len() && init[i] is Add && change_pair(init[i]) == p;
                assert(cs[i] == init[i]);
            }
        }
        assert(removes(cs, p) == (removes(init, p) || (c is Remove && q == p))) by {
            if removes(cs, p) {
                let i = choose|i: int| 0 <= i < cs.len() && cs[i] is Remove && change_pair(cs[i]) == p;
                if i < init.len() {
                    assert(init[i] == cs[i]);
                }
            }
            if removes(init, p) {
                let i = choose|i: int| 0 <= i < init.len() && init[i] is Remove && change_pair(init[i]) == p;
                assert(cs[i] == init[i]);
            }
        }
        if q == p {
            // the last change is the only one about p
            assert(!adds(init, p)) by {
                if adds(init, p) {
                    let i = choose|i: int| 0 <= i < init.len() && init[i] is Add && change_pair(init[i]) == p;
                    assert(cs[i] == init[i]);
                    assert(change_pair(cs[i]) != change_pair(cs[cs.len() - 1]));
                }
            }
            assert(!removes(init, p)) by {
                if removes(init, p) {
                    let i = choose|i: int| 0 <= i < init.len() && init[i] is Remove && change_pair(init[i]) == p;
                    assert(cs[i] == init[i]);
                    assert(change_pair(cs[i]) != change_pair(cs[cs.len() - 1]));
                }
            }
            if splits_cleanly(q) {
                match c {
                    ChangeView::Remove(_, _) => {
                        let pred = other_than(q);
                        if prev.filter(pred).contains(p) {
                            let k = choose|k: int| 0 <= k < prev.filter(pred).len() && prev.filter(pred)[k] == p;
                            prev.lemma_filter_pred(pred, k);
                        }
                    },
                    ChangeView::Add(_, _, _) => {
                        if !prev.contains(q) {
                            assert(prev.push(q)[prev.len() as int] == q);
                        }
                    },
                }
            }
            assert(apply_change(prev, c).contains(p) == rhs);
        } else {
            if splits_cleanly(q) {
                match c {
                    ChangeView::Remove(_, _) => {
                        let pred = other_than(q);
                        if prev.filter(pred).contains(p) {
                            prev.lemma_filter_contains_rev(pred, p);
                        }
                        if prev.contains(p) {
                            let k = choose|k: int| 0 <= k < prev.len() && prev[k] == p;
                            assert(pred(prev[k]));
                            prev.lemma_filter_contains(pred, k);
                        }
                        assert(apply_change(prev, c) == prev.filter(pred));
                        assert(prev.filter(pred).contains(p) == prev.contains(p));
                    },
                    ChangeView::Add(_, _, _) => {
                        if !prev.contains(q) {
                            if prev.push(q).contains(p) {
                                let k = choose|k: int| 0 <= k < prev.push(q).len() && prev.push(q)[k] == p;
                                assert(k < prev.len());
                                assert(prev[k] == p);
                            }
                            if prev.contains(p) {
                                let k = choose|k: int| 0 <= k < prev.len() && prev[k] == p;
                                assert(prev.push(q)[k] == p);
                            }
                        }
                        assert(apply_change(prev, c).contains(p) == prev.contains(p));
                    },
                }
            } else {
                assert(apply_change(prev, c) == prev);
            }
            assert(apply_change(prev, c).contains(p) == prev.contains(p));
            assert(rhs == rhs0);
            assert(apply_change(prev, c).contains(p) == rhs);
        }
    }
}

/// Each change of the registry is stored under its track's `name:id` key,
/// as the registering functions store it.
pub open spec fn keyed_by_track(reg: Seq<(Seq<char>, ChangeView)>) -> bool {
    forall|i: int| 0 <= i < reg.len() ==> (#[trigger] reg[i]).0 == track_key(change_pair(reg[i].1).1, change_pair(reg[i].1).0)
}

/// Keys of the store are keys of the registry, in the same places.
proof fn lemma_registry_keys(store: Seq<(Seq<char>, FileChangeType)>)
    requires
        keys_distinct(store),
    ensures
        keys_distinct(registry_of(store)),
{
    let r = registry_of(store);
    assert forall|i: int, j: int| 0 <= i < r.len() && 0 <= j < r.len() && i != j implies (#[trigger] r[i]).0 != (#[trigger] r[j]).0 by {
        assert(r[i].0 == store[i].0 && r[j].0 == store[j].0);
    }
}

/// In a registry whose changes are stored under their tracks' distinct keys,
/// no two changes are about the same track (so the effective list follows
/// `law_effective_list_membership`).
pub proof fn law_registered_pairs_distinct(reg: Seq<(Seq<char>, ChangeView)>)
    requires
        keyed_by_track(reg),
        keys_distinct(reg),
    ensures
        forall|i: int, j: int|
            0 <= i < reg.len() && 0 <= j < reg.len() && i != j ==> change_pair(#[trigger] reg[i].1) != change_pair(
                #[trigger] reg[j].1,
            ),
{
    assert forall|i: int, j: int| 0 <= i < reg.len() && 0 <= j < reg.len() && i != j implies change_pair(
        #[trigger] reg[i].1,
    ) != change_pair(#[trigger] reg[j].1) by {
        assert(reg[i].0 != reg[j].0);
    }
}

/// Storing a change under its own track's key keeps every change under its
/// track's key.
proof fn lemma_keyed_upsert(reg: Seq<(Seq<char>, ChangeView)>, c: ChangeView)
    requires
        keyed_by_track(reg),
    ensures
        keyed_by_track(upserted(reg, track_key(change_pair(c).1, change_pair(c).0), c)),
{
    let k = track_key(change_pair(c).1, change_pair(c).0);
    let u = upserted(reg, k, c);
    lemma_upserted(reg, k, c);
    assert forall|i: int| 0 <= i < u.len() implies (#[trigger] u[i]).0 == track_key(change_pair(u[i].1).1, change_pair(u[i].1).0) by {
        if i < reg.len() {
            if reg[i].0 != k {
                assert(u[i] == reg[i]);
            } else {
                assert(u[i].1 == c);
            }
        } else {
            assert(u[i] == (k, c));
        }
    }
}

/// Registering a track's removal right after its addition leaves the
/// registry as registering the removal alone would: the number of changes
/// stays what it was after the addition, and no addition of that track is
/// left.
pub proof fn law_remove_after_add(reg: Seq<(Seq<char>, ChangeView)>, id: Seq<char>, name: Seq<char>, data: Seq<u8>)
    requires
        keyed_by_track(reg),
    ensures
        ({
            let k = track_key(name, id);
            let added = upserted(reg, k, ChangeView::Add(id, name, data));
            let removed = upserted(added, k, ChangeView::Remove(id, name));
            &&& removed == upserted(reg, k, ChangeView::Remove(id, name))
            &&& removed.len() == added.len()
            &&& keyed_by_track(removed)
            &&& forall|i: int| 0 <= i < removed.len() ==> !((#[trigger] removed[i]).1 is Add && change_pair(removed[i].1) == (id, name))
        }),
{
    let k = track_key(name, id);
    let add = ChangeView::Add(id, name, data);
    let rem = ChangeView::Remove(id, name);
    let added = upserted(reg, k, add);
    let removed = upserted(added, k, rem);
    law_upsert_twice(reg, k, add, rem);
    lemma_upserted(reg, k, add);
    lemma_upserted(reg, k, rem);
    lemma_upserted(added, k, rem);
    assert forall|i: int| 0 <= i < removed.len() implies (#[trigger] removed[i]).0 == track_key(
        change_pair(removed[i].1).1,
        change_pair(removed[i].1).0,
    ) by {
        if i < reg.len() {
            if reg[i].0 != k {
                assert(removed[i] == reg[i]);
            } else {
                assert(removed[i].1 == rem);
            }
        } else {
            assert(removed[i] == (k, rem));
        }
    }
    assert forall|i: int| 0 <= i < removed.len() implies !((#[trigger] removed[i]).1 is Add && change_pair(removed[i].1) == (id, name)) by {
        if removed[i].1 is Add && change_pair(removed[i].1) == (id, name) {
            assert(removed[i].0 == k);
            assert(removed[i].1 == rem);
        }
    }
}

/// Something is pending exactly when the pending-change count is positive.
pub proof fn law_pending_iff_count(u: &Nus3audioFileUtils, r: &crate::replace_utils::ReplaceUtils)
    ensures
        (u.changes.entries().len() > 0 || r.replaced_audio_data.entries().len() > 0) == (pending_count(
            u.changes.entries().len(),
            r.replaced_audio_data.entries().len(),
        ) > 0),
{
}

/// Keeps the pairs for which no removal in `cs` takes effect.
pub open spec fn not_removed(cs: Seq<ChangeView>) -> spec_fn((Seq<char>, Seq<char>)) -> bool {
    |q: (Seq<char>, Seq<char>)| !(splits_cleanly(q) && removes(cs, q))
}

/// The pairs of the additions in `cs` that take effect and are not already
/// among the existing pairs `list0`, in registry order.
pub open spec fn additions_after(list0: Seq<(Seq<char>, Seq<char>)>, cs: Seq<ChangeView>) -> Seq<(Seq<char>, Seq<char>)>
    decreases cs.len(),
{
    if cs.len() == 0 {
        Seq::empty()
    } else {
        let prev = additions_after(list0, cs.drop_last());
        let p = change_pair(cs.last());
        if cs.last() is Add && splits_cleanly(p) && !list0.contains(p) {
            prev.push(p)
        } else {
            prev
        }
    }
}

proof fn lemma_filter_same<T>(s: Seq<T>, f: spec_fn(T) -> bool, g: spec_fn(T) -> bool)
    requires
        forall|x: T| #[trigger] f(x) == g(x),
    ensures
        s.filter(f) == s.filter(g),
    decreases s.len(),
{
    reveal_with_fuel(Seq::<_>::filter, 1);
    if s.len() > 0 {
        lemma_filter_same(s.drop_last(), f, g);
    }
}

proof fn lemma_filter_twice<T>(s: Seq<T>, f: spec_fn(T) -> bool, g: spec_fn(T) -> bool, h: spec_fn(T) -> bool)
    requires
        forall|x: T| #[trigger] h(x) == (f(x) && g(x)),
    ensures
        s.filter(f).filter(g) == s.filter(h),
    decreases s.len(),
{
    reveal_with_fuel(Seq::<_>::filter, 1);
    if s.len() > 0 {
        let t = s.drop_last();
        lemma_filter_twice(t, f, g, h);
        if f(s.last()) {
            let u = t.filter(f).push(s.last());
            assert(u.drop_last() =~= t.filter(f));
            assert(u.last() == s.last());
        }
    }
}

proof fn lemma_filter_keeps_all<T>(s: Seq<T>, f: spec_fn(T) -> bool)
    requires
        forall|i: int| 0 <= i < s.len() ==> f(#[trigger] s[i]),
    ensures
        s.filter(f) == s,
    decreases s.len(),
{
    reveal_with_fuel(Seq::<_>::filter, 1);
    if s.len() > 0 {
        let t = s.drop_last();
        assert forall|i: int| 0 <= i < t.len() implies f(#[trigger] t[i]) by {
            assert(t[i] == s[i]);
        }
        lemma_filter_keeps_all(t, f);
        assert(f(s[s.len() - 1]));
        assert(t.push(s.last()) =~= s);
    }
}

/// Every pair that `additions_after` lists comes from an addition in `cs`.
proof fn lemma_additions_come_from(list0: Seq<(Seq<char>, Seq<char>)>, cs: Seq<ChangeView>, q: (Seq<char>, Seq<char>))
    ensures
        additions_after(list0, cs).contains(q) ==> adds(cs, q),
    decreases cs.len(),
{
    if cs.len() > 0 {
        let init = cs.drop_last();
        lemma_additions_come_from(list0, init, q);
        let prev = additions_after(list0, init);
        if additions_after(list0, cs).contains(q) {
            if prev.contains(q) {
                let i = choose|i: int| 0 <= i < init.len() && init[i] is Add && change_pair(init[i]) == q;
                assert(cs[i] == init[i]);
            } else {
                let k = choose|k: int| 0 <= k < additions_after(list0, cs).len() && additions_after(list0, cs)[k] == q;
                if cs.last() is Add && splits_cleanly(change_pair(cs.last())) && !list0.contains(change_pair(cs.last())) {
                    if k < prev.len() {
                        assert(prev[k] == q);
                    }
                    assert(cs[cs.len() - 1] is Add && change_pair(cs[cs.len() - 1]) == q);
                } else {
                    assert(prev[k] == q);
                }
            }
        }
    }
}

/// When each track has at most one pending change, the effective list is
/// the existing tracks in order, less those whose removal is registered,
/// followed by the registered additions of tracks not already there, in
/// registry order (changes to IDs or names holding a colon are ignored).
pub proof fn law_effective_list_shape(list0: Seq<(Seq<char>, Seq<char>)>, cs: Seq<ChangeView>)
    requires
        forall|i: int, j: int|
            0 <= i < cs.len() && 0 <= j < cs.len() && i != j ==> change_pair(#[trigger] cs[i]) != change_pair(#[trigger] cs[j]),
    ensures
        apply_changes(list0, cs) == list0.filter(not_removed(cs)) + additions_after(list0, cs),
    decreases cs.len(),
{
    if cs.len() == 0 {
        lemma_filter_keeps_all(list0, not_removed(cs));
        assert(list0 + Seq::<(Seq<char>, Seq<char>)>::empty() =~= list0);
    } else {
        let init = cs.drop_last();
        let c = cs.last();
        let p = change_pair(c);
        assert forall|i: int, j: int|
            0 <= i < init.len() && 0 <= j < init.len() && i != j implies change_pair(#[trigger] init[i])
            != change_pair(#[trigger] init[j]) by {
            assert(init[i] == cs[i] && init[j] == cs[j]);
        }
        law_effective_list_shape(list0, init);
        let kept0 = list0.filter(not_removed(init));
        let a0 = additions_after(list0, init);
        let prev = apply_changes(list0, init);
        assert(prev == kept0 + a0);
        assert(apply_changes(list0, cs) == apply_change(prev, c));
        // removals: the last change adds to those of `init` only for its own pair
        assert forall|q: (Seq<char>, Seq<char>)| #[trigger] removes(cs, q) == (removes(init, q) || (c is Remove && p == q)) by {
            if removes(cs, q) {
                let i = choose|i: int| 0 <= i < cs.len() && cs[i] is Remove && change_pair(cs[i]) == q;
                if i < init.len() {
                    assert(init[i] == cs[i]);
                }
            }
            if removes(init, q) {
                let i = choose|i: int| 0 <= i < init.len() && init[i] is Remove && change_pair(init[i]) == q;
                assert(cs[i] == init[i]);
            }
            if c is Remove && p == q {
                assert(cs[cs.len() - 1] == c);
            }
        }
        // no earlier change is about the last change's pair
        assert(!removes(init, p)) by {
            if removes(init, p) {
                let i = choose|i: int| 0 <= i < init.len() && init[i] is Remove && change_pair(init[i]) == p;
                assert(cs[i] == init[i]);
                assert(change_pair(cs[i]) != change_pair(cs[cs.len() - 1]));
            }
        }
        assert(!adds(init, p)) by {
            if adds(init, p) {
                let i = choose|i: int| 0 <= i < init.len() && init[i] is Add && change_pair(init[i]) == p;
                assert(cs[i] == init[i]);
                assert(change_pair(cs[i]) != change_pair(cs[cs.len() - 1]));
            }
        }
        lemma_additions_come_from(list0, init, p);
        assert(!a0.contains(p));
        if !splits_cleanly(p) {
            assert forall|q: (Seq<char>, Seq<char>)| #[trigger] not_removed(cs)(q) == not_removed(init)(q) by {}
            lemma_filter_same(list0, not_removed(cs), not_removed(init));
            assert(additions_after(list0, cs) == a0);
        } else {
            match c {
                ChangeView::Remove(_, _) => {
                    assert(apply_change(prev, c) == prev.filter(other_than(p)));
                    Seq::filter_distributes_over_add(kept0, a0, other_than(p));
                    assert forall|i: int| 0 <= i < a0.len() implies other_than(p)(#[trigger] a0[i]) by {
                        if a0[i] == p {
                            assert(a0.contains(p));
                        }
                    }
                    lemma_filter_keeps_all(a0, other_than(p));
                    assert forall|q: (Seq<char>, Seq<char>)| #[trigger] not_removed(cs)(q) == (not_removed(init)(q)
                        && other_than(p)(q)) by {}
                    lemma_filter_twice(list0, not_removed(init), other_than(p), not_removed(cs));
                    assert(additions_after(list0, cs) == a0);
                },
                ChangeView::Add(_, _, _) => {
                    assert forall|q: (Seq<char>, Seq<char>)| #[trigger] not_removed(cs)(q) == not_removed(init)(q) by {}
                    lemma_filter_same(list0, not_removed(cs), not_removed(init));
                    if prev.contains(p) {
                        assert(apply_change(prev, c) == prev);
                        let k = choose|k: int| 0 <= k < prev.len() && prev[k] == p;
                        if k < kept0.len() {
                            assert(kept0[k] == p);
                            list0.lemma_filter_contains_rev(not_removed(init), p);
                        } else {
                            assert(a0[k - kept0.len()] == p);
                        }
                        assert(list0.contains(p));
                        assert(additions_after(list0, cs) == a0);
                    } else {
                        assert(apply_change(prev, c) == prev.push(p));
                        assert(!list0.contains(p)) by {
                            if list0.contains(p) {
                                let k = choose|k: int| 0 <= k < list0.len() && list0[k] == p;
                                assert(not_removed(init)(list0[k]));
                                list0.lemma_filter_contains(not_removed(init), k);
                                let m = choose|m: int| 0 <= m < kept0.len() && kept0[m] == p;
                                assert(prev[m] == p);
                            }
                        }
                        assert(additions_after(list0, cs) == a0.push(p));
                        assert((kept0 + a0).push(p) =~= kept0 + a0.push(p));
                    }
                },
            }
        }
    }
}

/// The effective list of a registry built by the registering functions
/// (each change under its own track's key, keys distinct, as
/// `register_add` and `register_remove` ensure): the existing tracks in
/// order less those whose removal is registered, then the registered
/// additions of tracks not already there, in registry order.
pub proof fn law_registered_effective_list(store: Seq<(Seq<char>, FileChangeType)>, list0: Seq<(Seq<char>, Seq<char>)>)
    requires
        keyed_by_track(registry_of(store)),
        keys_distinct(registry_of(store)),
    ensures
        apply_changes(list0, changes_of(store)) == list0.filter(not_removed(changes_of(store))) + additions_after(
            list0,
            changes_of(store),
        ),
{
    let reg = registry_of(store);
    let cs = changes_of(store);
    law_registered_pairs_distinct(reg);
    assert forall|i: int, j: int| 0 <= i < cs.len() && 0 <= j < cs.len() && i != j implies change_pair(
        #[trigger] cs[i],
    ) != change_pair(#[trigger] cs[j]) by {
        assert(cs[i] == reg[i].1 && cs[j] == reg[j].1);
    }
    law_effective_list_shape(list0, cs);
}

} // verus!
