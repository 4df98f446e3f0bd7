//! What the track table does once an action is confirmed: removing one or
//! all selected tracks, replacing the selected tracks with silence, and
//! adding a new track. Each works on the table's rows, the selection (keys
//! `name:id`) and the pending-change registries.
use vstd::prelude::*;
use crate::audio_file_info::{AudioFileInfo, AudioFileInfoView};
use crate::nus3audio_file_utils::{track_key, ChangeView, FileChangeType, Nus3audioFileUtils};
use crate::replace_utils::{empty_wav_bytes, emptied, is_bank_path, is_nus3bank_path, replacement_key_of, ReplaceUtils};
use crate::store::KeyedStore;
use crate::text::{chars_of, parsed_unsigned, string_of};

verus! {

/// `s` split at its first colon (`str::split_once(':')`).
pub open spec fn first_colon_split(s: Seq<char>) -> Option<(Seq<char>, Seq<char>)> {
    if exists|i: int| 0 <= i < s.len() && s[i] == ':' {
        let i = choose|i: int| 0 <= i < s.len() && s[i] == ':' && forall|j: int| 0 <= j < i ==> s[j] != ':';
        Some((s.subrange(0, i), s.subrange(i + 1, s.len() as int)))
    } else {
        None
    }
}

/// Position of the first row from `i` on with that name and ID.
pub open spec fn first_track_from(files: Seq<AudioFileInfoView>, name: Seq<char>, id: Seq<char>, i: int) -> Option<int>
    decreases files.len() - i,
{
    if i < 0 || i >= files.len() {
        None
    } else if files[i].name == name && files[i].id == id {
        Some(i)
    } else {
        first_track_from(files, name, id, i + 1)
    }
}

/// Position of the first row with that name and ID.
pub open spec fn first_track(files: Seq<AudioFileInfoView>, name: Seq<char>, id: Seq<char>) -> Option<int> {
    first_track_from(files, name, id, 0)
}

/// Position of the last row before `i` whose key (`name:id`) is `key`.
pub open spec fn last_with_key_below(files: Seq<AudioFileInfoView>, key: Seq<char>, i: int) -> Option<int>
    decreases i,
{
    if i <= 0 || i > files.len() {
        None
    } else if track_key(files[i - 1].name, files[i - 1].id) == key {
        Some(i - 1)
    } else {
        last_with_key_below(files, key, i - 1)
    }
}

/// Position of the last row whose key (`name:id`) is `key`.
pub open spec fn last_with_key(files: Seq<AudioFileInfoView>, key: Seq<char>) -> Option<int> {
    last_with_key_below(files, key, files.len() as int)
}

/// One step of removing selected keys: a key that splits at its first
/// colon into a name and an ID present in the rows removes the first such
/// row, whose (ID, name) is recorded.
pub open spec fn removal_step(
    st: (Seq<AudioFileInfoView>, Seq<(Seq<char>, Seq<char>)>),
    key: Seq<char>,
) -> (Seq<AudioFileInfoView>, Seq<(Seq<char>, Seq<char>)>) {
    match first_colon_split(key) {
        None => st,
        Some((n, i)) => match first_track(st.0, n, i) {
            None => st,
            Some(p) => (st.0.remove(p), st.1.push((st.0[p].id, st.0[p].name))),
        },
    }
}

/// Removing the selected keys one by one (see `removal_step`): the rows
/// left and the (ID, name) of each removed row.
pub open spec fn removed_after(files: Seq<AudioFileInfoView>, keys: Seq<Seq<char>>) -> (Seq<AudioFileInfoView>, Seq<(Seq<char>, Seq<char>)>)
    decreases keys.len(),
{
    if keys.len() == 0 {
        (files, Seq::empty())
    } else {
        removal_step(removed_after(files, keys.drop_last()), keys.last())
    }
}

/// The registry after recording the removal of each listed (ID, name).
pub open spec fn with_removals(m: Map<Seq<char>, ChangeView>, rem: Seq<(Seq<char>, Seq<char>)>) -> Map<Seq<char>, ChangeView>
    decreases rem.len(),
{
    if rem.len() == 0 {
        m
    } else {
        with_removals(m, rem.drop_last()).insert(
            track_key(rem.last().1, rem.last().0),
            ChangeView::Remove(rem.last().0, rem.last().1),
        )
    }
}

/// The registry as plain values.
pub open spec fn changes_view(m: Map<Seq<char>, FileChangeType>) -> Map<Seq<char>, ChangeView> {
    m.map_values(|c: FileChangeType| c.deep_view())
}

/// Replaced audio as plain values.
pub open spec fn bytes_view(m: Map<Seq<char>, Vec<u8>>) -> Map<Seq<char>, Seq<u8>> {
    m.map_values(|v: Vec<u8>| v@)
}

/// One step of replacing selected keys with silence: the last row with that
/// key (among the rows as they were before the batch) is emptied and its
/// replacement becomes the empty WAV file; the count of keys found grows by
/// one.
pub open spec fn emptying_step(
    files: Seq<AudioFileInfoView>,
    st: (Seq<AudioFileInfoView>, Map<Seq<char>, Seq<u8>>, nat),
    key: Seq<char>,
) -> (Seq<AudioFileInfoView>, Map<Seq<char>, Seq<u8>>, nat) {
    match last_with_key(files, key) {
        None => st,
        Some(p) => (st.0.update(p, emptied(st.0[p])), st.1.insert(replacement_key_of(st.0[p]), empty_wav_bytes()), st.2 + 1),
    }
}

/// Replacing the selected keys with silence one by one (see
/// `emptying_step`): the rows, the replaced audio and how many keys were
/// found.
pub open spec fn emptied_after(
    files: Seq<AudioFileInfoView>,
    reps: Map<Seq<char>, Seq<u8>>,
    keys: Seq<Seq<char>>,
) -> (Seq<AudioFileInfoView>, Map<Seq<char>, Seq<u8>>, nat)
    decreases keys.len(),
{
    if keys.len() == 0 {
        (files, reps, 0)
    } else {
        emptying_step(files, emptied_after(files, reps, keys.drop_last()), keys.last())
    }
}

proof fn lemma_first_track_from(files: Seq<AudioFileInfoView>, name: Seq<char>, id: Seq<char>, i: int)
    ensures
        first_track_from(files, name, id, i) matches Some(p) ==> i <= p < files.len() && 0 <= p && files[p].name
            == name && files[p].id == id,
    decreases files.len() - i,
{
    if 0 <= i < files.len() && !(files[i].name == name && files[i].id == id) {
        lemma_first_track_from(files, name, id, i + 1);
    }
}

proof fn lemma_first_track(files: Seq<AudioFileInfoView>, name: Seq<char>, id: Seq<char>)
    ensures
        first_track(files, name, id) matches Some(p) ==> 0 <= p < files.len() && files[p].name == name && files[p].id == id,
{
    lemma_first_track_from(files, name, id, 0);
}

proof fn lemma_last_below(files: Seq<AudioFileInfoView>, key: Seq<char>, i: int)
    ensures
        last_with_key_below(files, key, i) matches Some(p) ==> 0 <= p < i && p < files.len() && track_key(
            files[p].name,
            files[p].id,
        ) == key,
    decreases i,
{
    if 0 < i <= files.len() && track_key(files[i - 1].name, files[i - 1].id) != key {
        lemma_last_below(files, key, i - 1);
    }
}

proof fn lemma_last_with_key(files: Seq<AudioFileInfoView>, key: Seq<char>)
    ensures
        last_with_key(files, key) matches Some(p) ==> 0 <= p < files.len() && track_key(files[p].name, files[p].id) == key,
{
    lemma_last_below(files, key, files.len() as int);
}

/// The rows as plain values.
pub open spec fn rows_of(v: Vec<AudioFileInfo>) -> Seq<AudioFileInfoView> {
    v.deep_view()
}

/// The keys of a selection, in its order.
pub open spec fn selection_keys(sel: KeyedStore<()>) -> Seq<Seq<char>> {
    sel.entries().map_values(|e: (Seq<char>, ())| e.0)
}

fn split_first_colon(s: &String) -> (r: Option<(String, String)>)
    ensures
        match r {
            Some((a, b)) => first_colon_split(s@) == Some((a@, b@)),
            None => first_colon_split(s@) is None,
        },
{
    let cs = chars_of(s.as_str());
    let mut i: usize = 0;
    while i < cs.len()
        invariant
            i <= cs.len(),
            cs@ == s@,
            forall|j: int| 0 <= j < i ==> cs@[j] != ':',
        decreases cs.len() - i,
    {
        if cs[i] == ':' {
            let mut a: Vec<char> = Vec::new();
            let mut k: usize = 0;
            while k < i
                invariant
                    k <= i < cs.len(),
                    a@ == cs@.subrange(0, k as int),
                decreases i - k,
            {
                a.push(cs[k]);
                k += 1;
                assert(a@ =~= cs@.subrange(0, k as int));
            }
            let mut b: Vec<char> = Vec::new();
            let mut m: usize = i + 1;
            while m < cs.len()
                invariant
                    i + 1 <= m <= cs.len(),
                    b@ == cs@.subrange(i + 1, m as int),
                decreases cs.len() - m,
            {
                b.push(cs[m]);
                m += 1;
                assert(b@ =~= cs@.subrange(i + 1, m as int));
            }
            proof {
                let w = choose|w: int| 0 <= w < s@.len() && s@[w] == ':' && forall|j: int| 0 <= j < w ==> s@[j] != ':';
                if w < i {
                    assert(cs@[w] != ':');
                }
                if w > i {
                    assert(s@[i as int] != ':');
                }
                assert(w == i);
            }
            return Some((string_of(&a), string_of(&b)));
        }
        i += 1;
    }
    None
}

fn find_first_track(files: &Vec<AudioFileInfo>, name: &String, id: &String) -> (r: Option<usize>)
    ensures
        match r {
            Some(p) => first_track(rows_of(*files), name@, id@) == Some(p as int),
            None => first_track(rows_of(*files), name@, id@) is None,
        },
{
    let ghost v = rows_of(*files);
    let mut i: usize = 0;
    while i < files.len()
        invariant
            i <= files.len(),
            v == rows_of(*files),
            first_track(v, name@, id@) == first_track_from(v, name@, id@, i as int),
        decreases files.len() - i,
    {
        if files[i].name == *name && files[i].id == *id {
            assert(v[i as int].name == name@ && v[i as int].id == id@);
            return Some(i);
        }
        assert(!(v[i as int].name == name@ && v[i as int].id == id@));
        i += 1;
    }
    None
}

fn find_last_key(files: &Vec<AudioFileInfo>, key: &String) -> (r: Option<usize>)
    ensures
        match r {
            Some(p) => last_with_key(rows_of(*files), key@) == Some(p as int),
            None => last_with_key(rows_of(*files), key@) is None,
        },
{
    let ghost v = rows_of(*files);
    let mut i: usize = files.len();
    while i > 0
        invariant
            i <= files.len(),
            v == rows_of(*files),
            last_with_key(v, key@) == last_with_key_below(v, key@, i as int),
        decreases i,
    {
        let k = crate::table_renderer::row_key(&files[i - 1]);
        if k == *key {
            assert(track_key(v[i - 1].name, v[i - 1].id) == key@);
            return Some(i - 1);
        }
        assert(track_key(v[i - 1].name, v[i - 1].id) != key@);
        i -= 1;
    }
    None
}

/// Removes one confirmed track: its removal is registered, its first row
/// (same name and ID) leaves the table, and its key leaves the selection.
/// The result says whether a row was removed.
pub fn remove_one(
    audio_files: &mut Vec<AudioFileInfo>,
    selected: &mut KeyedStore<()>,
    changes: &mut Nus3audioFileUtils,
    audio_info: &AudioFileInfo,
) -> (removed: bool)
    ensures
        changes_view(final(changes).changes@) == changes_view(old(changes).changes@).insert(
            track_key(audio_info.name@, audio_info.id@),
            ChangeView::Remove(audio_info.id@, audio_info.name@),
        ),
        match first_track(rows_of(*old(audio_files)), audio_info.name@, audio_info.id@) {
            Some(p) => {
                &&& removed
                &&& rows_of(*final(audio_files)) == rows_of(*old(audio_files)).remove(p)
                &&& final(selected)@ == old(selected)@.remove(track_key(audio_info.name@, audio_info.id@))
            },
            None => {
                &&& !removed
                &&& rows_of(*final(audio_files)) == rows_of(*old(audio_files))
                &&& final(selected)@ == old(selected)@
            },
        },
{
    let ghost before = changes.changes@;
    let _ = changes.register_remove(audio_info);
    proof {
        lemma_changes_insert(
            before,
            changes.changes@,
            track_key(audio_info.name@, audio_info.id@),
            ChangeView::Remove(audio_info.id@, audio_info.name@),
        );
    }
    let found = find_first_track(audio_files, &audio_info.name, &audio_info.id);
    proof {
        lemma_first_track(rows_of(*audio_files), audio_info.name@, audio_info.id@);
    }
    match found {
        Some(p) => {
            let ghost rows = rows_of(*audio_files);
            let _ = audio_files.remove(p);
            assert(rows_of(*audio_files) =~= rows.remove(p as int));
            let key = crate::table_renderer::row_key(audio_info);
            let _ = selected.remove(&key);
            true
        },
        None => false,
    }
}

/// Removes every selected track that is in the table (see `removed_after`,
/// taking the selection in its order): each removal is registered and the
/// removed keys leave the selection. The result is how many were removed.
pub fn remove_selected(
    audio_files: &mut Vec<AudioFileInfo>,
    selected: &mut KeyedStore<()>,
    changes: &mut Nus3audioFileUtils,
) -> (count: usize)
    ensures
        rows_of(*final(audio_files)) == removed_after(rows_of(*old(audio_files)), selection_keys(*old(selected))).0,
        count == removed_after(rows_of(*old(audio_files)), selection_keys(*old(selected))).1.len(),
        changes_view(final(changes).changes@) == with_removals(
            changes_view(old(changes).changes@),
            removed_after(rows_of(*old(audio_files)), selection_keys(*old(selected))).1,
        ),
        forall|k: Seq<char>| #[trigger] final(selected)@.contains_key(k) == (old(selected)@.contains_key(k) && !keys_of_removed(
            removed_after(rows_of(*old(audio_files)), selection_keys(*old(selected))).1,
        ).contains(k)),
{
    let n = selected.len();
    let ghost keys = selection_keys(*selected);
    let ghost rows0 = rows_of(*audio_files);
    let ghost changes0 = changes_view(changes.changes@);
    let mut removed_keys: Vec<String> = Vec::new();
    let mut count: usize = 0;
    let mut i: usize = 0;
    while i < n
        invariant
            n == keys.len(),
            keys == selection_keys(*selected),
            *selected == *old(selected),
            i <= n,
            count <= i,
            rows_of(*audio_files) == removed_after(rows0, keys.take(i as int)).0,
            count == removed_after(rows0, keys.take(i as int)).1.len(),
            strings_view(removed_keys@) == keys_of_removed(removed_after(rows0, keys.take(i as int)).1),
            changes_view(changes.changes@) == with_removals(changes0, removed_after(rows0, keys.take(i as int)).1),
        decreases n - i,
    {
        let key = selected.key_at(i).clone();
        let ghost st = removed_after(rows0, keys.take(i as int));
        proof {
            assert(keys.take(i + 1).drop_last() =~= keys.take(i as int));
            assert(keys.take(i + 1).last() == key@);
            assert(removed_after(rows0, keys.take(i + 1)) == removal_step(st, key@));
        }
        match split_first_colon(&key) {
            None => {},
            Some((name, id)) => {
                let found = find_first_track(audio_files, &name, &id);
                proof {
                    lemma_first_track(rows_of(*audio_files), name@, id@);
                }
                match found {
                    None => {},
                    Some(p) => {
                        let info = audio_files[p].duplicate();
                        let ghost cbefore = changes.changes@;
                        let _ = changes.register_remove(&info);
                        proof {
                            lemma_changes_insert(
                                cbefore,
                                changes.changes@,
                                track_key(info.name@, info.id@),
                                ChangeView::Remove(info.id@, info.name@),
                            );
                        }
                        let ghost rows = rows_of(*audio_files);
                        let _ = audio_files.remove(p);
                        assert(rows_of(*audio_files) =~= rows.remove(p as int));
                        let rk = crate::table_renderer::row_key(&info);
                        let ghost rk_before = removed_keys@;
                        removed_keys.push(rk);
                        count += 1;
                        proof {
                            let rem2 = st.1.push((info.id@, info.name@));
                            assert(rem2.drop_last() =~= st.1);
                            assert(strings_view(removed_keys@) =~= strings_view(rk_before).push(rk@));
                        }
                    },
                }
            },
        }
        i += 1;
    }
    assert(keys.take(n as int) =~= keys);
    let ghost rk = keys_of_removed(removed_after(rows0, keys).1);
    let mut k: usize = 0;
    while k < removed_keys.len()
        invariant
            k <= removed_keys.len(),
            strings_view(removed_keys@) == rk,
            forall|x: Seq<char>| #[trigger] selected@.contains_key(x) == (old(selected)@.contains_key(x)
                && !rk.take(k as int).contains(x)),
        decreases removed_keys.len() - k,
    {
        let _ = selected.remove(&removed_keys[k]);
        proof {
            let t1 = rk.take(k + 1);
            let t0 = rk.take(k as int);
            assert(rk[k as int] == removed_keys@[k as int]@);
            assert forall|x: Seq<char>| t1.contains(x) == (t0.contains(x) || x == rk[k as int]) by {
                if t1.contains(x) {
                    let j = choose|j: int| 0 <= j < t1.len() && #[trigger] t1[j] == x;
                    if j < k {
                        assert(t0[j] == x);
                    }
                }
                if t0.contains(x) {
                    let j = choose|j: int| 0 <= j < t0.len() && #[trigger] t0[j] == x;
                    assert(t1[j] == x);
                }
                if x == rk[k as int] {
                    assert(t1[k as int] == x);
                }
            }
        }
        k += 1;
    }
    assert(rk.take(removed_keys.len() as int) =~= rk);
    count
}

/// Replaces every selected track in the table with silence (see
/// `emptied_after`, taking the selection in its order); when any was
/// replaced the selection is cleared. The result is how many were replaced.
pub fn replace_selected_with_empty_wav(
    audio_files: &mut Vec<AudioFileInfo>,
    selected: &mut KeyedStore<()>,
    replacements: &mut ReplaceUtils,
) -> (count: usize)
    ensures
        rows_of(*final(audio_files)) == emptied_after(
            rows_of(*old(audio_files)),
            bytes_view(old(replacements).replaced_audio_data@),
            selection_keys(*old(selected)),
        ).0,
        bytes_view(final(replacements).replaced_audio_data@) == emptied_after(
            rows_of(*old(audio_files)),
            bytes_view(old(replacements).replaced_audio_data@),
            selection_keys(*old(selected)),
        ).1,
        count == emptied_after(
            rows_of(*old(audio_files)),
            bytes_view(old(replacements).replaced_audio_data@),
            selection_keys(*old(selected)),
        ).2,
        final(replacements).replacement_file_paths@ == old(replacements).replacement_file_paths@,
        final(selected)@ == (if count > 0 { Map::<Seq<char>, ()>::empty() } else { old(selected)@ }),
{
    let n = selected.len();
    let ghost keys = selection_keys(*selected);
    let ghost rows0 = rows_of(*audio_files);
    let ghost reps0 = bytes_view(replacements.replaced_audio_data@);
    let mut count: usize = 0;
    let mut i: usize = 0;
    while i < n
        invariant
            n == keys.len(),
            keys == selection_keys(*selected),
            *selected == *old(selected),
            i <= n,
            count <= i,
            same_keys(rows0, rows_of(*audio_files)),
            rows_of(*audio_files) == emptied_after(rows0, reps0, keys.take(i as int)).0,
            bytes_view(replacements.replaced_audio_data@) == emptied_after(rows0, reps0, keys.take(i as int)).1,
            count == emptied_after(rows0, reps0, keys.take(i as int)).2,
            replacements.replacement_file_paths@ == old(replacements).replacement_file_paths@,
        decreases n - i,
    {
        let key = selected.key_at(i).clone();
        let ghost st = emptied_after(rows0, reps0, keys.take(i as int));
        proof {
            assert(keys.take(i + 1).drop_last() =~= keys.take(i as int));
            assert(keys.take(i + 1).last() == key@);
            assert(emptied_after(rows0, reps0, keys.take(i + 1)) == emptying_step(rows0, st, key@));
            lemma_same_keys_last(rows0, rows_of(*audio_files), key@);
            lemma_last_with_key(rows0, key@);
            lemma_last_with_key(rows_of(*audio_files), key@);
        }
        let found = find_last_key(audio_files, &key);
        match found {
            None => {},
            Some(p) => {
                let info = audio_files[p].duplicate();
                let ghost rbefore = bytes_view(replacements.replaced_audio_data@);
                let new_info = replacements.replace_with_empty_wav_in_memory(&info, "");
                assert(bytes_view(replacements.replaced_audio_data@) =~= rbefore.insert(
                    replacement_key_of(info.deep_view()),
                    empty_wav_bytes(),
                ));
                match new_info {
                    Ok(ni) => {
                        let ghost rows = rows_of(*audio_files);
                        audio_files.set(p, ni);
                        assert(rows_of(*audio_files) =~= rows.update(p as int, emptied(rows[p as int])));
                    },
                    Err(_) => {},
                }
                count += 1;
            },
        }
        i += 1;
    }
    assert(keys.take(n as int) =~= keys);
    if count > 0 {
        selected.clear();
    }
    count
}

/// Two row lists have the same length and the same name and ID in each
/// place.
pub open spec fn same_keys(a: Seq<AudioFileInfoView>, b: Seq<AudioFileInfoView>) -> bool {
    &&& a.len() == b.len()
    &&& forall|j: int| 0 <= j < a.len() ==> (#[trigger] b[j]).name == a[j].name && b[j].id == a[j].id
}

proof fn lemma_same_keys_below(a: Seq<AudioFileInfoView>, b: Seq<AudioFileInfoView>, key: Seq<char>, i: int)
    requires
        same_keys(a, b),
    ensures
        last_with_key_below(a, key, i) == last_with_key_below(b, key, i),
    decreases i,
{
    if 0 < i <= a.len() {
        assert(b[i - 1].name == a[i - 1].name && b[i - 1].id == a[i - 1].id);
        lemma_same_keys_below(a, b, key, i - 1);
    }
}

proof fn lemma_same_keys_last(a: Seq<AudioFileInfoView>, b: Seq<AudioFileInfoView>, key: Seq<char>)
    requires
        same_keys(a, b),
    ensures
        last_with_key(a, key) == last_with_key(b, key),
{
    lemma_same_keys_below(a, b, key, a.len() as int);
}

/// Recording a change under `k` (the registry's `insert`) as plain values.
proof fn lemma_changes_insert(
    before: Map<Seq<char>, FileChangeType>,
    after: Map<Seq<char>, FileChangeType>,
    k: Seq<char>,
    c: ChangeView,
)
    requires
        after.dom() == before.dom().insert(k),
        after[k].deep_view() == c,
        forall|x: Seq<char>| x != k && before.contains_key(x) ==> #[trigger] after[x] == before[x],
    ensures
        changes_view(after) == changes_view(before).insert(k, c),
{
    assert(changes_view(after) =~= changes_view(before).insert(k, c));
}

/// The keys (`name:id`) of removed rows given as (ID, name).
pub open spec fn keys_of_removed(rem: Seq<(Seq<char>, Seq<char>)>) -> Seq<Seq<char>> {
    rem.map_values(|p: (Seq<char>, Seq<char>)| track_key(p.1, p.0))
}

/// Strings as plain characters.
pub open spec fn strings_view(v: Seq<String>) -> Seq<Seq<char>> {
    v.map_values(|s: String| s@)
}

/// Adds a confirmed new track: its addition is registered (its ID must be a
/// number) and, when that succeeds, its row joins the table.
pub fn add_confirmed_audio(
    audio_files: &mut Vec<AudioFileInfo>,
    changes: &mut Nus3audioFileUtils,
    new_info: AudioFileInfo,
    data: Vec<u8>,
) -> (r: Result<(), String>)
    ensures
        parsed_unsigned(new_info.id@, u32::MAX as nat) is None ==> {
            &&& r matches Err(e) && e@ == "ID must be a valid number"@
            &&& rows_of(*final(audio_files)) == rows_of(*old(audio_files))
            &&& final(changes).changes@ == old(changes).changes@
        },
        parsed_unsigned(new_info.id@, u32::MAX as nat) is Some ==> {
            &&& r is Ok
            &&& rows_of(*final(audio_files)) == rows_of(*old(audio_files)).push(new_info.deep_view())
            &&& changes_view(final(changes).changes@) == changes_view(old(changes).changes@).insert(
                track_key(new_info.name@, new_info.id@),
                ChangeView::Add(new_info.id@, new_info.name@, data@),
            )
        },
{
    let ghost before = changes.changes@;
    let ghost d = data@;
    match changes.register_add_audio(&new_info, data) {
        Ok(()) => {
            proof {
                lemma_changes_insert(
                    before,
                    changes.changes@,
                    track_key(new_info.name@, new_info.id@),
                    ChangeView::Add(new_info.id@, new_info.name@, d),
                );
            }
            let ghost rows = rows_of(*audio_files);
            audio_files.push(new_info);
            assert(rows_of(*audio_files) =~= rows.push(audio_files@[rows.len() as int].deep_view()));
            Ok(())
        },
        Err(e) => Err(e),
    }
}

/// Actions waiting for the confirmation dialog's answer. Several can be
/// set; they are answered one at a time, in the order of the fields.
pub struct PendingConfirm {
    pub export_all: bool,
    pub replace_empty: bool,
    pub debug_convert_all_wav: bool,
    pub remove_selected: bool,
    pub remove_audio: Option<AudioFileInfo>,
}

/// The action a "yes" starts.
#[derive(Debug)]
pub enum ConfirmedAction {
    ExportAll,
    ReplaceEmpty,
    DebugConvertAllWav,
    RemoveSelected,
    RemoveAudio(AudioFileInfo),
    Nothing,
}

impl PendingConfirm {
    /// Nothing waiting.
    pub fn new() -> (p: Self)
        ensures
            !p.export_all && !p.replace_empty && !p.debug_convert_all_wav && !p.remove_selected && p.remove_audio is None,
    {
        PendingConfirm {
            export_all: false,
            replace_empty: false,
            debug_convert_all_wav: false,
            remove_selected: false,
            remove_audio: None,
        }
    }

    /// The dialog was answered "yes": the first waiting action is taken off
    /// and returned. Removing one track waits until a file is selected.
    pub fn take_confirmed(&mut self, file_selected: bool) -> (a: ConfirmedAction)
        ensures
            old(self).export_all ==> a is ExportAll && !final(self).export_all && final(self).replace_empty
                == old(self).replace_empty && final(self).debug_convert_all_wav == old(self).debug_convert_all_wav
                && final(self).remove_selected == old(self).remove_selected && final(self).remove_audio
                == old(self).remove_audio,
            !old(self).export_all && old(self).replace_empty ==> a is ReplaceEmpty && !final(self).replace_empty
                && final(self).debug_convert_all_wav == old(self).debug_convert_all_wav && final(self).remove_selected
                == old(self).remove_selected && final(self).remove_audio == old(self).remove_audio
                && !final(self).export_all,
            !old(self).export_all && !old(self).replace_empty && old(self).debug_convert_all_wav ==> a is DebugConvertAllWav
                && !final(self).debug_convert_all_wav && final(self).remove_selected == old(self).remove_selected
                && final(self).remove_audio == old(self).remove_audio && !final(self).export_all
                && !final(self).replace_empty,
            !old(self).export_all && !old(self).replace_empty && !old(self).debug_convert_all_wav
                && old(self).remove_selected ==> a is RemoveSelected && !final(self).remove_selected
                && final(self).remove_audio == old(self).remove_audio && !final(self).export_all
                && !final(self).replace_empty && !final(self).debug_convert_all_wav,
            !old(self).export_all && !old(self).replace_empty && !old(self).debug_convert_all_wav
                && !old(self).remove_selected ==> {
                &&& !final(self).export_all && !final(self).replace_empty && !final(self).debug_convert_all_wav
                    && !final(self).remove_selected
                &&& match old(self).remove_audio {
                    Some(info) => if file_selected {
                        a == ConfirmedAction::RemoveAudio(info) && final(self).remove_audio is None
                    } else {
                        a is Nothing && final(self).remove_audio == old(self).remove_audio
                    },
                    None => a is Nothing && final(self).remove_audio is None,
                }
            },
    {
        if self.export_all {
            self.export_all = false;
            ConfirmedAction::ExportAll
        } else if self.replace_empty {
            self.replace_empty = false;
            ConfirmedAction::ReplaceEmpty
        } else if self.debug_convert_all_wav {
            self.debug_convert_all_wav = false;
            ConfirmedAction::DebugConvertAllWav
        } else if self.remove_selected {
            self.remove_selected = false;
            ConfirmedAction::RemoveSelected
        } else if file_selected {
            match self.remove_audio.take() {
                Some(info) => ConfirmedAction::RemoveAudio(info),
                None => ConfirmedAction::Nothing,
            }
        } else {
            ConfirmedAction::Nothing
        }
    }

    /// The dialog was answered "no": the first waiting action is dropped.
    pub fn cancel(&mut self)
        ensures
            old(self).export_all ==> !final(self).export_all && final(self).replace_empty == old(self).replace_empty
                && final(self).debug_convert_all_wav == old(self).debug_convert_all_wav && final(self).remove_selected
                == old(self).remove_selected && final(self).remove_audio == old(self).remove_audio,
            !old(self).export_all && old(self).replace_empty ==> !final(self).replace_empty
                && final(self).debug_convert_all_wav == old(self).debug_convert_all_wav && final(self).remove_selected
                == old(self).remove_selected && final(self).remove_audio == old(self).remove_audio,
            !old(self).export_all && !old(self).replace_empty && old(self).debug_convert_all_wav
                ==> !final(self).debug_convert_all_wav && final(self).remove_selected == old(self).remove_selected
                && final(self).remove_audio == old(self).remove_audio,
            !old(self).export_all && !old(self).replace_empty && !old(self).debug_convert_all_wav
                && old(self).remove_selected ==> !final(self).remove_selected && final(self).remove_audio
                == old(self).remove_audio,
            !old(self).export_all && !old(self).replace_empty && !old(self).debug_convert_all_wav
                && !old(self).remove_selected ==> final(self).remove_audio is None,
            !old(self).export_all ==> !final(self).export_all,
            !old(self).replace_empty ==> !final(self).replace_empty,
            !old(self).debug_convert_all_wav ==> !final(self).debug_convert_all_wav,
            !old(self).remove_selected ==> !final(self).remove_selected,
    {
        if self.export_all {
            self.export_all = false;
        } else if self.replace_empty {
            self.replace_empty = false;
        } else if self.debug_convert_all_wav {
            self.debug_convert_all_wav = false;
        } else if self.remove_selected {
            self.remove_selected = false;
        } else {
            self.remove_audio = None;
        }
    }
}

/// What a sound-bank tool of the toolbar (the GRP list, DTON tone and PROP
/// editors, and the debug conversion of every track to WAV) does with the
/// selected file.
pub enum BankToolTarget {
    /// The tool opens on this NUS3BANK file.
    Open(String),
    /// No file is selected.
    NoFileSelected,
    /// The selected file is not a NUS3BANK file; the tool works on those only.
    BankOnly,
}

/// The bank tools open only on a selected file whose name ends in
/// `.nus3bank`, ignoring case.
pub fn bank_tool_target(selected_file: &Option<String>) -> (r: BankToolTarget)
    ensures
        match selected_file {
            None => r is NoFileSelected,
            Some(p) => if is_bank_path(p@) {
                r matches BankToolTarget::Open(q) && q@ == p@
            } else {
                r is BankOnly
            },
        },
{
    match selected_file {
        None => BankToolTarget::NoFileSelected,
        Some(p) => if is_nus3bank_path(p.as_str()) {
            BankToolTarget::Open(p.clone())
        } else {
            BankToolTarget::BankOnly
        },
    }
}

proof fn lemma_first_track_exact(files: Seq<AudioFileInfoView>, name: Seq<char>, id: Seq<char>, i: int)
    requires
        0 <= i,
    ensures
        first_track_from(files, name, id, i) matches Some(p) ==> {
            &&& i <= p < files.len()
            &&& files[p].name == name && files[p].id == id
            &&& forall|j: int| i <= j < p ==> !(files[j].name == name && files[j].id == id)
        },
        first_track_from(files, name, id, i) is None ==> forall|j: int|
            i <= j < files.len() ==> !(files[j].name == name && files[j].id == id),
    decreases files.len() - i,
{
    if i < files.len() && !(files[i].name == name && files[i].id == id) {
        lemma_first_track_exact(files, name, id, i + 1);
    }
}

proof fn lemma_last_below_exact(files: Seq<AudioFileInfoView>, key: Seq<char>, i: int)
    requires
        i <= files.len(),
    ensures
        last_with_key_below(files, key, i) matches Some(p) ==> {
            &&& 0 <= p < i
            &&& track_key(files[p].name, files[p].id) == key
            &&& forall|j: int| p < j < i ==> track_key(files[j].name, files[j].id) != key
        },
        last_with_key_below(files, key, i) is None ==> forall|j: int|
            0 <= j < i ==> track_key(files[j].name, files[j].id) != key,
    decreases i,
{
    if 0 < i && track_key(files[i - 1].name, files[i - 1].id) != key {
        lemma_last_below_exact(files, key, i - 1);
    }
}

/// Removing a confirmed track removes the first row with its name and ID;
/// emptying a selected track acts on the last row with its `name:id` key;
/// a selection key is read as the name before its first colon and the ID
/// after it.
pub proof fn law_rows_acted_on(files: Seq<AudioFileInfoView>, name: Seq<char>, id: Seq<char>, key: Seq<char>)
    ensures
        first_track(files, name, id) matches Some(p) ==> {
            &&& 0 <= p < files.len()
            &&& files[p].name == name && files[p].id == id
            &&& forall|j: int| 0 <= j < p ==> !(files[j].name == name && files[j].id == id)
        },
        first_track(files, name, id) is None ==> forall|j: int|
            0 <= j < files.len() ==> !(files[j].name == name && files[j].id == id),
        last_with_key(files, key) matches Some(p) ==> {
            &&& 0 <= p < files.len()
            &&& track_key(files[p].name, files[p].id) == key
            &&& forall|j: int| p < j < files.len() ==> track_key(files[j].name, files[j].id) != key
        },
        last_with_key(files, key) is None ==> forall|j: int|
            0 <= j < files.len() ==> track_key(files[j].name, files[j].id) != key,
        first_colon_split(key) matches Some((a, b)) ==> key == a + ":"@ + b && !crate::text::has_char(a, ':'),
        first_colon_split(key) is None <==> !crate::text::has_char(key, ':'),
{
    lemma_first_track_exact(files, name, id, 0);
    lemma_last_below_exact(files, key, files.len() as int);
    reveal_strlit(":");
    if exists|i: int| 0 <= i < key.len() && key[i] == ':' {
        let w = choose|w: int| 0 <= w < key.len() && key[w] == ':';
        lemma_first_colon(key, w);
        let i = choose|i: int| 0 <= i < key.len() && key[i] == ':' && forall|j: int| 0 <= j < i ==> key[j] != ':';
        assert(key =~= key.subrange(0, i) + ":"@ + key.subrange(i + 1, key.len() as int));
        assert(!crate::text::has_char(key.subrange(0, i), ':')) by {
            if crate::text::has_char(key.subrange(0, i), ':') {
                let j = choose|j: int| 0 <= j < i && key.subrange(0, i)[j] == ':';
                assert(key[j] == ':');
            }
        }
        assert(crate::text::has_char(key, ':')) by {
            assert(key[i] == ':');
        }
    } else {
        assert(!crate::text::has_char(key, ':'));
    }
}

proof fn lemma_first_colon(s: Seq<char>, w: int)
    requires
        0 <= w < s.len(),
        s[w] == ':',
    ensures
        exists|i: int| 0 <= i < s.len() && s[i] == ':' && forall|j: int| 0 <= j < i ==> s[j] != ':',
    decreases w,
{
    if exists|j: int| 0 <= j < w && s[j] == ':' {
        let j = choose|j: int| 0 <= j < w && s[j] == ':';
        lemma_first_colon(s, j);
    }
}

} // verus!
