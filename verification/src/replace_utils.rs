//! In-memory replacement of track audio: replaced data and the chosen
//! replacement files, keyed per track, until the file is saved.
use vstd::prelude::*;
use crate::audio_file_info::{AudioFileInfo, copy_opt_string, effective_id_of};
use crate::nus3audio_check::{nus3audio_parser_returns, parser_returns};
use crate::store::{has_key, upserted, KeyedStore};
use crate::audio_file_info::AudioFileInfoView;
use crate::nus3audio_model::{AudioEntry, entries_view, encodable, nus3audio_bytes, nus3audio_parse, parse_nus3audio, write_nus3audio};
use crate::paths::{file_name_of, path_file_name};
use crate::text::{copy_vec, has_prefix, joined, lowercase, has_suffix, parsed_unsigned, split_once_colon,
    split_single_colon, parse_u32, starts_with_seq, ends_with_seq, chars_of, lower_chars};

verus! {

/// Registry key of a track's replacement: `hex_id:name` for a NUS3BANK track
/// (its ID when it has no hex ID), `name:id` otherwise.
pub open spec fn replacement_key_of(info: crate::audio_file_info::AudioFileInfoView) -> Seq<char> {
    if info.is_nus3bank {
        effective_id_of(info) + ":"@ + info.name
    } else {
        info.name + ":"@ + info.id
    }
}

/// The replacement data registry as plain values: each key with its bytes,
/// in registry order.
pub open spec fn data_registry(es: Seq<(Seq<char>, Vec<u8>)>) -> Seq<(Seq<char>, Seq<u8>)> {
    es.map_values(|e: (Seq<char>, Vec<u8>)| (e.0, e.1@))
}

/// Storing bytes in the data registry and then taking plain values is taking
/// plain values and then storing the bytes' view.
proof fn lemma_data_registry_upsert(es: Seq<(Seq<char>, Vec<u8>)>, k: Seq<char>, v: Vec<u8>)
    ensures
        data_registry(upserted(es, k, v)) == upserted(data_registry(es), k, v@),
{
    let r = data_registry(es);
    if has_key(es, k) {
        let i = choose|i: int| 0 <= i < es.len() && (#[trigger] es[i]).0 == k;
        assert(r[i].0 == k);
        assert(data_registry(upserted(es, k, v)) =~= upserted(r, k, v@));
    } else {
        assert(!has_key(r, k)) by {
            if has_key(r, k) {
                let i = choose|i: int| 0 <= i < r.len() && (#[trigger] r[i]).0 == k;
                assert(es[i].0 == k);
            }
        }
        assert(data_registry(upserted(es, k, v)) =~= upserted(r, k, v@));
    }
}

/// The replacement path registry as plain values.
pub open spec fn path_registry(es: Seq<(Seq<char>, String)>) -> Seq<(Seq<char>, Seq<char>)> {
    es.map_values(|e: (Seq<char>, String)| (e.0, e.1@))
}

/// As `lemma_data_registry_upsert`, for the path registry.
proof fn lemma_path_registry_upsert(es: Seq<(Seq<char>, String)>, k: Seq<char>, v: String)
    ensures
        path_registry(upserted(es, k, v)) == upserted(path_registry(es), k, v@),
{
    let r = path_registry(es);
    if has_key(es, k) {
        let i = choose|i: int| 0 <= i < es.len() && (#[trigger] es[i]).0 == k;
        assert(r[i].0 == k);
        assert(path_registry(upserted(es, k, v)) =~= upserted(r, k, v@));
    } else {
        assert(!has_key(r, k)) by {
            if has_key(r, k) {
                let i = choose|i: int| 0 <= i < r.len() && (#[trigger] r[i]).0 == k;
                assert(es[i].0 == k);
            }
        }
        assert(path_registry(upserted(es, k, v)) =~= upserted(r, k, v@));
    }
}

/// Replaced audio data and chosen replacement file paths, per track.
pub struct ReplaceUtils {
    /// Replacement audio bytes, keyed as `replacement_key_of` says.
    pub replaced_audio_data: KeyedStore<Vec<u8>>,
    /// Replacement file paths, keyed the same way.
    pub replacement_file_paths: KeyedStore<String>,
}

/// The registry key of a track's replacement (see `replacement_key_of`).
pub fn replacement_key(info: &AudioFileInfo) -> (k: String)
    ensures
        k@ == replacement_key_of(info.deep_view()),
{
    if info.is_nus3bank {
        joined(info.effective_id(), ":", info.name.as_str())
    } else {
        joined(info.name.as_str(), ":", info.id.as_str())
    }
}

impl ReplaceUtils {
    /// Nothing replaced.
    pub fn new() -> (r: Self)
        ensures
            r.replaced_audio_data@ == Map::<Seq<char>, Vec<u8>>::empty(),
            r.replacement_file_paths@ == Map::<Seq<char>, String>::empty(),
            r.replaced_audio_data.entries().len() == 0,
            r.replacement_file_paths.entries().len() == 0,
    {
        ReplaceUtils { replaced_audio_data: KeyedStore::new(), replacement_file_paths: KeyedStore::new() }
    }

    /// Whether some track has replacement data.
    pub fn has_replacement_data(&self) -> (b: bool)
        ensures
            b == (self.replaced_audio_data.entries().len() > 0),
    {
        !self.replaced_audio_data.is_empty()
    }

    /// Number of tracks with replacement data.
    pub fn get_replacement_count(&self) -> (n: usize)
        ensures
            n == self.replaced_audio_data.entries().len(),
    {
        self.replaced_audio_data.len()
    }
}

/// A minimal 44-byte WAV file with no samples (PCM, mono, 8 kHz, 16-bit).
pub open spec fn empty_wav_bytes() -> Seq<u8> {
    seq![
        0x52u8, 0x49, 0x46, 0x46, 0x24, 0x00, 0x00, 0x00, 0x57, 0x41, 0x56, 0x45,
        0x66, 0x6d, 0x74, 0x20, 0x10, 0x00, 0x00, 0x00, 0x01, 0x00, 0x01, 0x00,
        0x40, 0x1f, 0x00, 0x00, 0x80, 0x3e, 0x00, 0x00, 0x02, 0x00, 0x10, 0x00,
        0x64, 0x61, 0x74, 0x61, 0x00, 0x00, 0x00, 0x00,
    ]
}

/// The empty WAV file (see `empty_wav_bytes`).
pub fn empty_wav_header() -> (v: Vec<u8>)
    ensures
        v@ == empty_wav_bytes(),
{
    let v: Vec<u8> = vec![
        0x52u8, 0x49, 0x46, 0x46, 0x24, 0x00, 0x00, 0x00, 0x57, 0x41, 0x56, 0x45,
        0x66, 0x6d, 0x74, 0x20, 0x10, 0x00, 0x00, 0x00, 0x01, 0x00, 0x01, 0x00,
        0x40, 0x1f, 0x00, 0x00, 0x80, 0x3e, 0x00, 0x00, 0x02, 0x00, 0x10, 0x00,
        0x64, 0x61, 0x74, 0x61, 0x00, 0x00, 0x00, 0x00,
    ];
    assert(v@ =~= empty_wav_bytes());
    v
}

/// `info` with a new size and file name; everything else kept.
pub open spec fn resized(info: AudioFileInfoView, size: usize, filename: Seq<char>) -> AudioFileInfoView {
    AudioFileInfoView { size, filename, ..info }
}

/// The row of a track replaced by the empty WAV file: 44 bytes,
/// `<filename>_empty.wav`, type `WAV Audio`.
pub open spec fn emptied(info: AudioFileInfoView) -> AudioFileInfoView {
    AudioFileInfoView { size: 44, filename: info.filename + "_empty.wav"@, file_type: "WAV Audio"@, ..info }
}

/// Replacement key under which newly added NUS3BANK audio is stored:
/// `ADD_hex_id:name` (the ID when there is no hex ID).
pub open spec fn added_key_of(info: AudioFileInfoView) -> Seq<char> {
    "ADD_"@ + effective_id_of(info) + ":"@ + info.name
}

/// Tracks after one replacement: a key that splits into exactly two parts at
/// `:` names (first part) the track whose data is replaced; the first track
/// with that name takes the data, keeping its ID and name.
pub open spec fn apply_replacement(es: Seq<(u32, Seq<char>, Seq<u8>)>, key: Seq<char>, data: Seq<u8>) -> Seq<(u32, Seq<char>, Seq<u8>)> {
    match split_once_colon(key) {
        Some((name, _)) => match first_named(es, name) {
            Some(i) => es.update(i, (es[i].0, es[i].1, data)),
            None => es,
        },
        None => es,
    }
}

/// Position of the first track called `name`.
pub open spec fn first_named(es: Seq<(u32, Seq<char>, Seq<u8>)>, name: Seq<char>) -> Option<int> {
    if exists|i: int| 0 <= i < es.len() && es[i].1 == name {
        Some(choose|i: int| 0 <= i < es.len() && es[i].1 == name && forall|j: int| 0 <= j < i ==> es[j].1 != name)
    } else {
        None
    }
}

/// Tracks after every replacement, in registry order.
pub open spec fn apply_replacements_to(es: Seq<(u32, Seq<char>, Seq<u8>)>, reps: Seq<(Seq<char>, Seq<u8>)>) -> Seq<(u32, Seq<char>, Seq<u8>)>
    decreases reps.len(),
{
    if reps.len() == 0 {
        es
    } else {
        apply_replacement(apply_replacements_to(es, reps.drop_last()), reps.last().0, reps.last().1)
    }
}

/// Tracks after the pending additions (ID, name, data): each one whose ID is
/// a decimal `u32` is appended; the others are skipped.
pub open spec fn apply_additions(es: Seq<(u32, Seq<char>, Seq<u8>)>, adds: Seq<(Seq<char>, Seq<char>, Seq<u8>)>) -> Seq<(u32, Seq<char>, Seq<u8>)>
    decreases adds.len(),
{
    if adds.len() == 0 {
        es
    } else {
        let prev = apply_additions(es, adds.drop_last());
        match parsed_unsigned(adds.last().0, u32::MAX as nat) {
            Some(v) => prev.push((v as u32, adds.last().1, adds.last().2)),
            None => prev,
        }
    }
}

/// Hex ID of a NUS3BANK replacement key: keys starting with `ADD_` are left
/// to the add operations; of the two parts around a single colon the first
/// starting with `0x` is the hex ID.
pub open spec fn bank_hex_id(key: Seq<char>) -> Option<Seq<char>> {
    if has_prefix(key, "ADD_"@) {
        None
    } else {
        match split_once_colon(key) {
            Some((left, right)) => if has_prefix(left, "0x"@) {
                Some(left)
            } else if has_prefix(right, "0x"@) {
                Some(right)
            } else {
                None
            },
            None => None,
        }
    }
}

/// The path names a NUS3BANK file: lower-cased, it ends with `.nus3bank`.
pub open spec fn is_bank_path(p: Seq<char>) -> bool {
    has_suffix(lowercase(p), ".nus3bank"@)
}

/// Whether the path names a NUS3BANK file (see `is_bank_path`).
pub fn is_nus3bank_path(path: &str) -> (b: bool)
    ensures
        b == is_bank_path(path@),
{
    let l = lower_chars(path);
    let suffix = chars_of(".nus3bank");
    ends_with_seq(&l, &suffix)
}

fn first_named_index(es: &Vec<AudioEntry>, name: &String) -> (r: Option<usize>)
    ensures
        match r {
            Some(i) => i < es@.len() && first_named(entries_view(es@), name@) == Some(i as int),
            None => first_named(entries_view(es@), name@) is None,
        },
{
    let ghost v = entries_view(es@);
    let mut i: usize = 0;
    while i < es.len()
        invariant
            v == entries_view(es@),
            i <= es.len(),
            forall|j: int| 0 <= j < i ==> v[j].1 != name@,
        decreases es.len() - i,
    {
        if es[i].name == *name {
            proof {
                assert(v[i as int].1 == name@);
                let k = choose|k: int| 0 <= k < v.len() && v[k].1 == name@ && forall|j: int| 0 <= j < k ==> v[j].1 != name@;
                if k > i {
                    assert(v[i as int].1 != name@);
                }
                assert(k == i);
            }
            return Some(i);
        }
        i += 1;
    }
    None
}

impl ReplaceUtils {
    /// Replaces a track's audio in memory: the data and the file it came from
    /// are stored under the track's replacement key, and the returned row
    /// shows the new size and file name.
    pub fn replace_in_memory(&mut self, audio_file_info: &AudioFileInfo, replacement_file_path: &str, replacement_data: Vec<u8>) -> (r: Result<AudioFileInfo, String>)
        ensures
            final(self).replaced_audio_data@ == old(self).replaced_audio_data@.insert(replacement_key_of(audio_file_info.deep_view()), replacement_data),
            final(self).replaced_audio_data.entries() == upserted(
                old(self).replaced_audio_data.entries(),
                replacement_key_of(audio_file_info.deep_view()),
                replacement_data,
            ),
            path_registry(final(self).replacement_file_paths.entries()) == upserted(
                path_registry(old(self).replacement_file_paths.entries()),
                replacement_key_of(audio_file_info.deep_view()),
                replacement_file_path@,
            ),
            final(self).replacement_file_paths@.dom() == old(self).replacement_file_paths@.dom().insert(replacement_key_of(audio_file_info.deep_view())),
            final(self).replacement_file_paths@[replacement_key_of(audio_file_info.deep_view())]@ == replacement_file_path@,
            r matches Ok(info) && info.deep_view() == resized(
                audio_file_info.deep_view(),
                replacement_data@.len() as usize,
                match path_file_name(replacement_file_path@) { Some(n) => n, None => Seq::<char>::empty() },
            ),
    {
        let key = replacement_key(audio_file_info);
        let size = replacement_data.len();
        self.replaced_audio_data.insert(key.clone(), replacement_data);
        let owned_path = replacement_file_path.to_owned();
        proof { lemma_path_registry_upsert(self.replacement_file_paths.entries(), key@, owned_path); }
        self.replacement_file_paths.insert(key, owned_path);
        let filename = match file_name_of(replacement_file_path) {
            Some(n) => n,
            None => String::new(),
        };
        Ok(AudioFileInfo {
            name: audio_file_info.name.clone(),
            id: audio_file_info.id.clone(),
            size,
            filename,
            file_type: audio_file_info.file_type.clone(),
            hex_id: copy_opt_string(&audio_file_info.hex_id),
            is_nus3bank: audio_file_info.is_nus3bank,
        })
    }

    /// Records the file chosen to replace a track (under `name:id`), without
    /// replacing anything yet; the returned row shows the chosen file name.
    pub fn register_replacement_path(&mut self, audio_file_info: &AudioFileInfo, selected_path: &str) -> (r: AudioFileInfo)
        ensures
            final(self).replacement_file_paths@.dom() == old(self).replacement_file_paths@.dom().insert(
                audio_file_info.name@ + ":"@ + audio_file_info.id@),
            final(self).replacement_file_paths@[audio_file_info.name@ + ":"@ + audio_file_info.id@]@ == selected_path@,
            path_registry(final(self).replacement_file_paths.entries()) == upserted(
                path_registry(old(self).replacement_file_paths.entries()),
                audio_file_info.name@ + ":"@ + audio_file_info.id@,
                selected_path@,
            ),
            final(self).replaced_audio_data@ == old(self).replaced_audio_data@,
            final(self).replaced_audio_data.entries() == old(self).replaced_audio_data.entries(),
            r.deep_view() == resized(
                audio_file_info.deep_view(),
                audio_file_info.size,
                match path_file_name(selected_path@) { Some(n) => n, None => "unknown"@ },
            ),
    {
        let key = joined(audio_file_info.name.as_str(), ":", audio_file_info.id.as_str());
        let owned_path = selected_path.to_owned();
        proof { lemma_path_registry_upsert(self.replacement_file_paths.entries(), key@, owned_path); }
        self.replacement_file_paths.insert(key, owned_path);
        let filename = match file_name_of(selected_path) {
            Some(n) => n,
            None => "unknown".to_owned(),
        };
        AudioFileInfo {
            name: audio_file_info.name.clone(),
            id: audio_file_info.id.clone(),
            size: audio_file_info.size,
            filename,
            file_type: audio_file_info.file_type.clone(),
            hex_id: copy_opt_string(&audio_file_info.hex_id),
            is_nus3bank: audio_file_info.is_nus3bank,
        }
    }

    /// The replacement file path stored for `name:id`, if any.
    pub fn get_replacement_path(&self, audio_name: &str, audio_id: &str) -> (r: Option<String>)
        ensures
            match r {
                Some(p) => self.replacement_file_paths@.contains_key(audio_name@ + ":"@ + audio_id@)
                    && p@ == self.replacement_file_paths@[audio_name@ + ":"@ + audio_id@]@,
                None => !self.replacement_file_paths@.contains_key(audio_name@ + ":"@ + audio_id@),
            },
    {
        let key = joined(audio_name, ":", audio_id);
        match self.replacement_file_paths.get(&key) {
            Some(p) => Some(p.clone()),
            None => None,
        }
    }

    /// The replacement data stored for `name:id`, if any.
    pub fn get_replacement_data(&self, audio_name: &str, audio_id: &str) -> (r: Option<Vec<u8>>)
        ensures
            match r {
                Some(d) => self.replaced_audio_data@.contains_key(audio_name@ + ":"@ + audio_id@)
                    && d@ == self.replaced_audio_data@[audio_name@ + ":"@ + audio_id@]@,
                None => !self.replaced_audio_data@.contains_key(audio_name@ + ":"@ + audio_id@),
            },
    {
        let key = joined(audio_name, ":", audio_id);
        match self.replaced_audio_data.get(&key) {
            Some(d) => Some(copy_vec(d)),
            None => None,
        }
    }

    /// The replacement data of a track: under its replacement key, or for a
    /// NUS3BANK track also under its `ADD_` key.
    pub fn get_replacement_data_unified(&self, audio_file_info: &AudioFileInfo) -> (r: Option<Vec<u8>>)
        ensures
            ({
                let m = self.replaced_audio_data@;
                let k = replacement_key_of(audio_file_info.deep_view());
                let k2 = if audio_file_info.is_nus3bank { added_key_of(audio_file_info.deep_view()) } else { k };
                match r {
                    Some(d) => if m.contains_key(k) { d@ == m[k]@ } else { m.contains_key(k2) && d@ == m[k2]@ },
                    None => !m.contains_key(k) && !m.contains_key(k2),
                }
            }),
    {
        let key = replacement_key(audio_file_info);
        let add_key = if audio_file_info.is_nus3bank {
            let mut k = "ADD_".to_owned();
            k.append(audio_file_info.effective_id());
            k.append(":");
            k.append(audio_file_info.name.as_str());
            k
        } else {
            key.clone()
        };
        match self.replaced_audio_data.get(&key) {
            Some(d) => Some(copy_vec(d)),
            None => match self.replaced_audio_data.get(&add_key) {
                Some(d) => Some(copy_vec(d)),
                None => None,
            },
        }
    }

    /// Stores audio bytes under an explicit key (used for newly added
    /// NUS3BANK tracks so they can be played before saving).
    pub fn store_audio_data_for_playback(&mut self, key: String, audio_data: Vec<u8>) -> (r: Result<(), String>)
        ensures
            r is Ok,
            final(self).replaced_audio_data@ == old(self).replaced_audio_data@.insert(key@, audio_data),
            final(self).replaced_audio_data.entries() == upserted(old(self).replaced_audio_data.entries(), key@, audio_data),
            final(self).replacement_file_paths@ == old(self).replacement_file_paths@,
            final(self).replacement_file_paths.entries() == old(self).replacement_file_paths.entries(),
    {
        self.replaced_audio_data.insert(key, audio_data);
        Ok(())
    }

    /// Replaces a track in memory with an empty WAV file, keeping its name and
    /// ID; the returned row shows the 44-byte size, `<filename>_empty.wav` and
    /// the type `WAV Audio`.
    pub fn replace_with_empty_wav_in_memory(&mut self, audio_file_info: &AudioFileInfo, _nus3_path: &str) -> (r: Result<AudioFileInfo, String>)
        ensures
            final(self).replaced_audio_data@.dom() == old(self).replaced_audio_data@.dom().insert(replacement_key_of(audio_file_info.deep_view())),
            final(self).replaced_audio_data@[replacement_key_of(audio_file_info.deep_view())]@ == empty_wav_bytes(),
            forall|k: Seq<char>| k != replacement_key_of(audio_file_info.deep_view()) && old(self).replaced_audio_data@.contains_key(k)
                ==> #[trigger] final(self).replaced_audio_data@[k] == old(self).replaced_audio_data@[k],
            data_registry(final(self).replaced_audio_data.entries()) == upserted(
                data_registry(old(self).replaced_audio_data.entries()),
                replacement_key_of(audio_file_info.deep_view()),
                empty_wav_bytes(),
            ),
            final(self).replacement_file_paths@ == old(self).replacement_file_paths@,
            final(self).replacement_file_paths.entries() == old(self).replacement_file_paths.entries(),
            r matches Ok(info) && info.deep_view() == emptied(audio_file_info.deep_view()),
    {
        let data = empty_wav_header();
        let key = replacement_key(audio_file_info);
        proof { lemma_data_registry_upsert(self.replaced_audio_data.entries(), key@, data); }
        self.replaced_audio_data.insert(key, data);
        let mut filename = audio_file_info.filename.clone();
        filename.append("_empty.wav");
        Ok(AudioFileInfo {
            name: audio_file_info.name.clone(),
            id: audio_file_info.id.clone(),
            size: 44,
            filename,
            file_type: "WAV Audio".to_owned(),
            hex_id: copy_opt_string(&audio_file_info.hex_id),
            is_nus3bank: audio_file_info.is_nus3bank,
        })
    }

    /// Forgets every replacement and every chosen replacement file.
    pub fn clear_replacements(&mut self)
        ensures
            final(self).replaced_audio_data@ == Map::<Seq<char>, Vec<u8>>::empty(),
            final(self).replacement_file_paths@ == Map::<Seq<char>, String>::empty(),
            final(self).replaced_audio_data.entries().len() == 0,
            final(self).replacement_file_paths.entries().len() == 0,
    {
        self.replaced_audio_data.clear();
        self.replacement_file_paths.clear();
    }

    /// Applies every replacement to the track list (see `apply_replacement`),
    /// then appends the pending additions (see `apply_additions`).
    pub fn apply_replacements(&self, entries: &mut Vec<AudioEntry>, additions: &Vec<(String, String, Vec<u8>)>)
        ensures
            entries_view(final(entries)@) == apply_additions(
                apply_replacements_to(entries_view(old(entries)@), data_registry(self.replaced_audio_data.entries())),
                additions@.map_values(|t: (String, String, Vec<u8>)| (t.0@, t.1@, t.2@)),
            ),
    {
        let ghost reps = data_registry(self.replaced_audio_data.entries());
        let n = self.replaced_audio_data.len();
        let mut i: usize = 0;
        while i < n
            invariant
                n == reps.len(),
                reps == data_registry(self.replaced_audio_data.entries()),
                i <= n,
                entries_view(entries@) == apply_replacements_to(entries_view(old(entries)@), reps.take(i as int)),
            decreases n - i,
        {
            let key = self.replaced_audio_data.key_at(i);
            let data = self.replaced_audio_data.value_at(i);
            proof {
                assert(reps.take(i + 1).drop_last() =~= reps.take(i as int));
                assert(reps.take(i + 1).last() == reps[i as int]);
            }
            match split_single_colon(key.as_str()) {
                Some((name, _)) => {
                    match first_named_index(entries, &name) {
                        Some(t) => {
                            let ghost before = entries_view(entries@);
                            let id = entries[t].id;
                            let nm = entries[t].name.clone();
                            entries.set(t, AudioEntry { id, name: nm, data: copy_vec(data) });
                            assert(entries_view(entries@) =~= before.update(t as int, (before[t as int].0, before[t as int].1, data@)));
                        },
                        None => {},
                    }
                },
                None => {},
            }
            i += 1;
        }
        assert(reps.take(n as int) =~= reps);
        let ghost base = entries_view(entries@);
        let ghost adds = additions@.map_values(|t: (String, String, Vec<u8>)| (t.0@, t.1@, t.2@));
        let mut k: usize = 0;
        while k < additions.len()
            invariant
                k <= additions.len(),
                adds == additions@.map_values(|t: (String, String, Vec<u8>)| (t.0@, t.1@, t.2@)),
                entries_view(entries@) == apply_additions(base, adds.take(k as int)),
            decreases additions.len() - k,
        {
            proof {
                assert(adds.take(k + 1).drop_last() =~= adds.take(k as int));
                assert(adds.take(k + 1).last() == adds[k as int]);
            }
            match parse_u32(additions[k].0.as_str()) {
                Some(id_val) => {
                    let ghost before = entries_view(entries@);
                    entries.push(AudioEntry { id: id_val, name: additions[k].1.clone(), data: copy_vec(&additions[k].2) });
                    assert(entries_view(entries@) =~= before.push((id_val, additions@[k as int].1@, additions@[k as int].2@)));
                },
                None => {},
            }
            k += 1;
        }
        assert(adds.take(additions.len() as int) =~= adds);
    }

    /// The bytes of the saved NUS3AUDIO file: the track list with every
    /// replacement and pending addition applied, encoded by `nus3audio`.
    pub fn apply_replacements_and_save(&self, entries: Vec<AudioEntry>, additions: &Vec<(String, String, Vec<u8>)>) -> (r: Option<Vec<u8>>)
        ensures
            ({
                let applied = apply_additions(
                    apply_replacements_to(entries_view(entries@), data_registry(self.replaced_audio_data.entries())),
                    additions@.map_values(|t: (String, String, Vec<u8>)| (t.0@, t.1@, t.2@)),
                );
                match r {
                    Some(bytes) => encodable(applied) && bytes@ == nus3audio_bytes(applied),
                    None => !encodable(applied),
                }
            }),
    {
        let mut es = entries;
        self.apply_replacements(&mut es, additions);
        if !crate::nus3audio_model::fits_encoding(&es) {
            return None;
        }
        Some(write_nus3audio(&es))
    }

    /// `apply_replacements_and_save` on the tracks read from the bytes of the
    /// original NUS3AUDIO file; bytes that are not such a file, and a result
    /// too large to encode, give an error saying so.
    pub fn apply_replacements_to_file(&self, data: &[u8], additions: &Vec<(String, String, Vec<u8>)>) -> (r: Result<Vec<u8>, String>)
        ensures
            !parser_returns(data@) ==> (r matches Err(e) && e@ == "Failed to open NUS3AUDIO file: invalid NUS3AUDIO data"@),
            parser_returns(data@) ==> match nus3audio_parse(data@) {
                None => r matches Err(e) && e@ == "Failed to open NUS3AUDIO file: invalid NUS3AUDIO data"@,
                Some(es) => {
                    let applied = apply_additions(
                        apply_replacements_to(es, data_registry(self.replaced_audio_data.entries())),
                        additions@.map_values(|t: (String, String, Vec<u8>)| (t.0@, t.1@, t.2@)),
                    );
                    match r {
                        Ok(bytes) => encodable(applied) && bytes@ == nus3audio_bytes(applied),
                        Err(e) => !encodable(applied) && e@ == "NUS3AUDIO file too large to write"@,
                    }
                },
            },
    {
        if !nus3audio_parser_returns(data) {
            return Err("Failed to open NUS3AUDIO file: invalid NUS3AUDIO data".to_string());
        }
        match parse_nus3audio(data) {
            None => Err("Failed to open NUS3AUDIO file: invalid NUS3AUDIO data".to_string()),
            Some(entries) => match self.apply_replacements_and_save(entries, additions) {
                Some(bytes) => Ok(bytes),
                None => Err("NUS3AUDIO file too large to write".to_string()),
            },
        }
    }

    /// For a NUS3BANK file: every replaced track's hex ID with its new data,
    /// in registry order (see `bank_hex_id`; other keys are skipped).
    pub fn nus3bank_replacement_targets(&self) -> (r: Vec<(String, Vec<u8>)>)
        ensures
            r@.map_values(|t: (String, Vec<u8>)| (t.0@, t.1@)) == bank_targets(data_registry(self.replaced_audio_data.entries())),
    {
        let ghost reps = data_registry(self.replaced_audio_data.entries());
        let n = self.replaced_audio_data.len();
        let mut out: Vec<(String, Vec<u8>)> = Vec::new();
        let mut i: usize = 0;
        let add_prefix = chars_of("ADD_");
        let hex_prefix = chars_of("0x");
        while i < n
            invariant
                n == reps.len(),
                reps == data_registry(self.replaced_audio_data.entries()),
                add_prefix@ == "ADD_"@,
                hex_prefix@ == "0x"@,
                i <= n,
                out@.map_values(|t: (String, Vec<u8>)| (t.0@, t.1@)) == bank_targets(reps.take(i as int)),
            decreases n - i,
        {
            let key = self.replaced_audio_data.key_at(i);
            let data = self.replaced_audio_data.value_at(i);
            proof {
                assert(reps.take(i + 1).drop_last() =~= reps.take(i as int));
                assert(reps.take(i + 1).last() == reps[i as int]);
            }
            let kc = chars_of(key.as_str());
            let ghost before = out@.map_values(|t: (String, Vec<u8>)| (t.0@, t.1@));
            if !starts_with_seq(&kc, &add_prefix) {
                match split_single_colon(key.as_str()) {
                    Some((left, right)) => {
                        let lc = chars_of(left.as_str());
                        let rc = chars_of(right.as_str());
                        if starts_with_seq(&lc, &hex_prefix) {
                            out.push((left, copy_vec(data)));
                        } else if starts_with_seq(&rc, &hex_prefix) {
                            out.push((right, copy_vec(data)));
                        }
                    },
                    None => {},
                }
            }
            assert(out@.map_values(|t: (String, Vec<u8>)| (t.0@, t.1@)) =~= bank_targets(reps.take(i + 1)));
            i += 1;
        }
        assert(reps.take(n as int) =~= reps);
        out
    }
}

/// The (hex ID, data) pairs that NUS3BANK replacements stand for, in order.
pub open spec fn bank_targets(reps: Seq<(Seq<char>, Seq<u8>)>) -> Seq<(Seq<char>, Seq<u8>)>
    decreases reps.len(),
{
    if reps.len() == 0 {
        Seq::empty()
    } else {
        let prev = bank_targets(reps.drop_last());
        match bank_hex_id(reps.last().0) {
            Some(h) => prev.push((h, reps.last().1)),
            None => prev,
        }
    }
}

/// Replacing a track's audio in memory and then reading the track's
/// replacement data gives back exactly the new data; the other tracks'
/// replacements are untouched.
pub proof fn law_replace_then_read(m: Map<Seq<char>, Vec<u8>>, info: AudioFileInfoView, other: Seq<char>, data: Vec<u8>)
    requires
        other != replacement_key_of(info),
    ensures
        m.insert(replacement_key_of(info), data).contains_key(replacement_key_of(info)),
        m.insert(replacement_key_of(info), data)[replacement_key_of(info)]@ == data@,
        m.insert(replacement_key_of(info), data).contains_key(other) == m.contains_key(other),
        m.contains_key(other) ==> m.insert(replacement_key_of(info), data)[other] == m[other],
{
}

/// A `name:id` key (neither part holding a colon) splits back into its name
/// and ID.
proof fn lemma_key_splits(name: Seq<char>, id: Seq<char>)
    requires
        !crate::text::has_char(name, ':'),
        !crate::text::has_char(id, ':'),
    ensures
        split_once_colon(name + ":"@ + id) == Some((name, id)),
{
    let k = name + ":"@ + id;
    let p = name.len() as int;
    reveal_strlit(":");
    assert(k[p] == ':');
    assert forall|j: int| 0 <= j < k.len() && j != p implies k[j] != ':' by {
        if j < p {
            assert(k[j] == name[j]);
        } else {
            assert(k[j] == id[j - p - 1]);
        }
    }
    assert(crate::text::single_colon_at(k, p));
    let i = choose|i: int| crate::text::single_colon_at(k, i);
    assert(i == p);
    assert(k.subrange(0, p) =~= name);
    assert(k.subrange(p + 1, k.len() as int) =~= id);
}

proof fn lemma_some_first_named(es: Seq<(u32, Seq<char>, Seq<u8>)>, name: Seq<char>, t: int)
    requires
        0 <= t < es.len(),
        es[t].1 == name,
    ensures
        exists|i: int| 0 <= i < es.len() && es[i].1 == name && forall|j: int| 0 <= j < i ==> es[j].1 != name,
    decreases t,
{
    if exists|j: int| 0 <= j < t && es[j].1 == name {
        let j = choose|j: int| 0 <= j < t && es[j].1 == name;
        lemma_some_first_named(es, name, j);
    } else {
        assert(forall|j: int| 0 <= j < t ==> es[j].1 != name);
    }
}

/// Saving applies a replacement stored under `name:id` to the first track
/// called `name` (whatever its ID): that track takes the new data and keeps
/// its ID and name, and every other track is left as it was; when no track
/// has that name nothing changes.
pub proof fn law_replacement_hits_first_named(
    es: Seq<(u32, Seq<char>, Seq<u8>)>,
    name: Seq<char>,
    id: Seq<char>,
    data: Seq<u8>,
)
    requires
        !crate::text::has_char(name, ':'),
        !crate::text::has_char(id, ':'),
    ensures
        apply_replacement(es, name + ":"@ + id, data).len() == es.len(),
        (forall|t: int| 0 <= t < es.len() ==> es[t].1 != name) ==> apply_replacement(es, name + ":"@ + id, data) == es,
        (exists|t: int| 0 <= t < es.len() && es[t].1 == name) ==> exists|i: int|
            #![trigger es[i]]
            0 <= i < es.len() && es[i].1 == name && (forall|j: int| 0 <= j < i ==> es[j].1 != name) && apply_replacement(
                es,
                name + ":"@ + id,
                data,
            )[i] == (es[i].0, es[i].1, data) && forall|j: int|
                0 <= j < es.len() && j != i ==> apply_replacement(es, name + ":"@ + id, data)[j] == es[j],
{
    lemma_key_splits(name, id);
    let r = apply_replacement(es, name + ":"@ + id, data);
    if exists|t: int| 0 <= t < es.len() && es[t].1 == name {
        let t = choose|t: int| 0 <= t < es.len() && es[t].1 == name;
        lemma_some_first_named(es, name, t);
        let i = first_named(es, name)->0;
        assert(0 <= i < es.len() && es[i].1 == name && (forall|j: int| 0 <= j < i ==> es[j].1 != name));
        assert(r == es.update(i, (es[i].0, es[i].1, data)));
        assert(r[i] == (es[i].0, es[i].1, data));
    }
}

} // verus!
