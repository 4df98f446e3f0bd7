//! The track list of a NUS3AUDIO file as plain values, and its encoding by
//! the `nus3audio` crate.
use vstd::prelude::*;
use vstd::string::StringSliceAdditionalSpecFns;
use crate::audio_file_info::AudioFileInfo;
use crate::text::{decimal, decimal_string, joined};
use crate::wav::tag_at;
use crate::nus3audio_check::parser_returns;

verus! {

/// One track of a NUS3AUDIO file.
pub struct AudioEntry {
    pub id: u32,
    pub name: String,
    pub data: Vec<u8>,
}

/// A track as plain values: ID, name, audio bytes.
pub open spec fn entry_view(e: AudioEntry) -> (u32, Seq<char>, Seq<u8>) {
    (e.id, e.name@, e.data@)
}

/// A track list as plain values.
pub open spec fn entries_view(v: Seq<AudioEntry>) -> Seq<(u32, Seq<char>, Seq<u8>)> {
    v.map_values(|e: AudioEntry| entry_view(e))
}

/// The bytes of the NUS3AUDIO file that `nus3audio::Nus3audioFile::write`
/// produces for a track list.
pub uninterp spec fn nus3audio_bytes(entries: Seq<(u32, Seq<char>, Seq<u8>)>) -> Seq<u8>;

/// Bytes of the name table of a track list: each name in UTF-8 and its
/// terminating zero.
pub open spec fn names_size(v: Seq<(u32, Seq<char>, Seq<u8>)>) -> nat
    decreases v.len(),
{
    if v.len() == 0 {
        0
    } else {
        names_size(v.drop_last()) + vstd::utf8::encode_utf8(v.last().1).len() + 1
    }
}

/// Bytes of the audio data of a track list, each track padded to 16 bytes.
pub open spec fn pack_size(v: Seq<(u32, Seq<char>, Seq<u8>)>) -> nat
    decreases v.len(),
{
    if v.len() == 0 {
        0
    } else {
        pack_size(v.drop_last()) + 16 * ((v.last().2.len() + 15) / 16)
    }
}

/// The file size `nus3audio::Nus3audioFile::write` computes for a track
/// list when no two tracks share their data: 72 bytes of section headers,
/// 16 per track for its ID, name offset and data offset and size, the name
/// table, the padding that aligns the data, and the padded data.
pub open spec fn encoded_size(v: Seq<(u32, Seq<char>, Seq<u8>)>) -> int {
    let s = names_size(v) as int;
    72 + 16 * v.len() + s + (24 - s % 16) % 16 + pack_size(v)
}

/// The encoder's 32-bit offsets and sizes do not overflow on this list.
pub open spec fn encodable(v: Seq<(u32, Seq<char>, Seq<u8>)>) -> bool {
    encoded_size(v) <= 0xFFFF_FFFF
}

/// Encodes a track list as a NUS3AUDIO file (`nus3audio::Nus3audioFile::write`).
/// The crate computes every offset and section size with `u32` arithmetic,
/// which overflows (a panic where overflow checks are on) once the file size
/// it computes passes `u32::MAX`; each of them is at most `encoded_size`,
/// which counts the data of every track (the crate stores tracks with equal
/// data once, so it may compute less). The result is named
/// `nus3audio_bytes`; no further property of the encoding is stated.
#[verifier::external_body]
pub(crate) fn write_nus3audio(entries: &Vec<AudioEntry>) -> (r: Vec<u8>)
    requires
        encodable(entries_view(entries@)),
    ensures
        r@ == nus3audio_bytes(entries_view(entries@)),
{
    let file = nus3audio::Nus3audioFile {
        files: entries.iter().map(|e| nus3audio::AudioFile { id: e.id, name: e.name.clone(), data: e.data.clone() }).collect(),
    };
    let mut out: Vec<u8> = Vec::new();
    file.write(&mut out);
    out
}

/// The track list that `nus3audio::Nus3audioFile::try_from_bytes` reads from
/// the bytes of a file, or `None` where it refuses them.
pub uninterp spec fn nus3audio_parse(data: Seq<u8>) -> Option<Seq<(u32, Seq<char>, Seq<u8>)>>;

/// Reads the tracks of a NUS3AUDIO file from its bytes
/// (`nus3audio::Nus3audioFile::try_from_bytes`): each track's ID, name and
/// data, in file order, or `None` where the bytes are refused. The result is
/// named `nus3audio_parse`. The crate's reader panics on some malformed
/// files, so it is called only on bytes where it returns (`parser_returns`).
#[verifier::external_body]
pub(crate) fn parse_nus3audio(data: &[u8]) -> (r: Option<Vec<AudioEntry>>)
    requires
        parser_returns(data@),
    ensures
        match r {
            Some(es) => nus3audio_parse(data@) == Some(entries_view(es@)),
            None => nus3audio_parse(data@) is None,
        },
{
    nus3audio::Nus3audioFile::try_from_bytes(data)
        .map(|f| f.files.into_iter().map(|a| AudioEntry { id: a.id, name: a.name, data: a.data }).collect())
}

/// Extension `nus3audio::AudioFile::filename` appends: `.lopus` for OPUS data,
/// `.idsp` for IDSP data, `.bin` otherwise.
pub open spec fn entry_extension(data: Seq<u8>) -> Seq<char> {
    if data.len() >= 4 && tag_at(data, 0, seq![0x4fu8, 0x50, 0x55, 0x53]) {
        ".lopus"@
    } else if data.len() >= 4 && tag_at(data, 0, seq![0x49u8, 0x44, 0x53, 0x50]) {
        ".idsp"@
    } else {
        ".bin"@
    }
}

/// File name of a track (`nus3audio::AudioFile::filename`): its name followed
/// by the extension of its format.
#[verifier::external_body]
fn entry_filename(entry: &AudioEntry) -> (r: String)
    ensures
        r@ == entry.name@ + entry_extension(entry.data@),
{
    nus3audio::AudioFile { id: entry.id, name: entry.name.clone(), data: entry.data.clone() }.filename()
}

/// Format label of NUS3AUDIO track data, from its first four bytes.
pub open spec fn nus3audio_type_label(data: Seq<u8>) -> Seq<char> {
    if data.len() >= 4 {
        if tag_at(data, 0, seq![0x4fu8, 0x50, 0x55, 0x53]) {
            "OPUS"@
        } else if tag_at(data, 0, seq![0x49u8, 0x44, 0x53, 0x50]) {
            "IDSP"@
        } else if tag_at(data, 0, seq![0x52u8, 0x49, 0x46, 0x46]) {
            "WAV"@
        } else if tag_at(data, 0, seq![0x42u8, 0x4e, 0x53, 0x46]) {
            "BNSF"@
        } else {
            "Unknown"@
        }
    } else {
        "Unknown"@
    }
}

fn starts_with_tag(d: &Vec<u8>, a: u8, b: u8, c: u8, e: u8) -> (r: bool)
    requires
        d@.len() >= 4,
    ensures
        r == tag_at(d@, 0, seq![a, b, c, e]),
{
    let r = d[0] == a && d[1] == b && d[2] == c && d[3] == e;
    proof {
        if r {
            assert(d@.subrange(0, 4) =~= seq![a, b, c, e]);
        } else if d@.subrange(0, 4) == seq![a, b, c, e] {
            assert(d@.subrange(0, 4)[0] == a);
            assert(d@.subrange(0, 4)[1] == b);
            assert(d@.subrange(0, 4)[2] == c);
            assert(d@.subrange(0, 4)[3] == e);
        }
    }
    r
}

/// The table row describing a NUS3AUDIO track: its name, decimal ID, data
/// size, file name and format label.
pub fn track_info_from_entry(entry: &AudioEntry) -> (r: AudioFileInfo)
    ensures
        r.name@ == entry.name@,
        r.id@ == decimal(entry.id as nat),
        r.size == entry.data@.len(),
        r.filename@ == entry.name@ + entry_extension(entry.data@),
        r.file_type@ == nus3audio_type_label(entry.data@),
        r.hex_id is None,
        !r.is_nus3bank,
{
    let file_type: &str = if entry.data.len() >= 4 {
        if starts_with_tag(&entry.data, 0x4f, 0x50, 0x55, 0x53) {
            "OPUS"
        } else if starts_with_tag(&entry.data, 0x49, 0x44, 0x53, 0x50) {
            "IDSP"
        } else if starts_with_tag(&entry.data, 0x52, 0x49, 0x46, 0x46) {
            "WAV"
        } else if starts_with_tag(&entry.data, 0x42, 0x4e, 0x53, 0x46) {
            "BNSF"
        } else {
            "Unknown"
        }
    } else {
        "Unknown"
    };
    AudioFileInfo::from_nus3audio(
        entry.name.clone(),
        decimal_string(entry.id as u64),
        entry.data.len(),
        entry_filename(entry),
        file_type.to_owned(),
    )
}

/// Position of the first track with that name whose decimal ID is `id`.
pub open spec fn removal_target(v: Seq<(u32, Seq<char>, Seq<u8>)>, name: Seq<char>, id: Seq<char>) -> Option<int> {
    if exists|i: int| 0 <= i < v.len() && v[i].1 == name && decimal(v[i].0 as nat) == id {
        Some(choose|i: int|
            0 <= i < v.len() && v[i].1 == name && decimal(v[i].0 as nat) == id && forall|j: int|
                0 <= j < i ==> !(v[j].1 == name && decimal(v[j].0 as nat) == id))
    } else {
        None
    }
}

proof fn lemma_some_first_match(v: Seq<(u32, Seq<char>, Seq<u8>)>, name: Seq<char>, id: Seq<char>, t: int)
    requires
        0 <= t < v.len(),
        v[t].1 == name && decimal(v[t].0 as nat) == id,
    ensures
        exists|i: int|
            0 <= i < v.len() && v[i].1 == name && decimal(v[i].0 as nat) == id && forall|j: int|
                0 <= j < i ==> !(v[j].1 == name && decimal(v[j].0 as nat) == id),
    decreases t,
{
    if exists|j: int| 0 <= j < t && v[j].1 == name && decimal(v[j].0 as nat) == id {
        let j = choose|j: int| 0 <= j < t && v[j].1 == name && decimal(v[j].0 as nat) == id;
        lemma_some_first_match(v, name, id, j);
    }
}

/// Removing a track removes the first track whose name is the given name
/// and whose ID, written in decimal, is the given ID; there is none exactly
/// when no track has both.
pub proof fn law_removal_targets_first_match(v: Seq<(u32, Seq<char>, Seq<u8>)>, name: Seq<char>, id: Seq<char>)
    ensures
        removal_target(v, name, id) matches Some(i) ==> {
            &&& 0 <= i < v.len()
            &&& v[i].1 == name
            &&& decimal(v[i].0 as nat) == id
            &&& forall|j: int| 0 <= j < i ==> !(v[j].1 == name && decimal(v[j].0 as nat) == id)
        },
        removal_target(v, name, id) is None <==> forall|j: int|
            0 <= j < v.len() ==> !(v[j].1 == name && decimal(v[j].0 as nat) == id),
{
    if exists|t: int| 0 <= t < v.len() && v[t].1 == name && decimal(v[t].0 as nat) == id {
        let t = choose|t: int| 0 <= t < v.len() && v[t].1 == name && decimal(v[t].0 as nat) == id;
        lemma_some_first_match(v, name, id, t);
    }
}

/// Removes from the track list the first track with the name and ID of
/// `info`; when there is none the list is kept and the error names the track.
pub fn remove_audio_entry(entries: &mut Vec<AudioEntry>, info: &AudioFileInfo) -> (r: Result<(), String>)
    ensures
        match removal_target(entries_view(old(entries)@), info.name@, info.id@) {
            Some(i) => r is Ok && entries_view(final(entries)@) == entries_view(old(entries)@).remove(i),
            None => (r matches Err(e) && e@ == "Audio file '"@ + info.name@ + "' not found in NUS3AUDIO file"@)
                && final(entries)@ == old(entries)@,
        },
{
    let ghost v = entries_view(entries@);
    let mut i: usize = 0;
    while i < entries.len()
        invariant
            v == entries_view(entries@),
            entries@ == old(entries)@,
            i <= entries.len(),
            forall|j: int| 0 <= j < i ==> !(v[j].1 == info.name@ && decimal(v[j].0 as nat) == info.id@),
        decreases entries.len() - i,
    {
        if entries[i].name == info.name && decimal_string(entries[i].id as u64) == info.id {
            proof {
                assert(v[i as int].1 == info.name@ && decimal(v[i as int].0 as nat) == info.id@);
                let k = choose|k: int|
                    0 <= k < v.len() && v[k].1 == info.name@ && decimal(v[k].0 as nat) == info.id@ && forall|j: int|
                        0 <= j < k ==> !(v[j].1 == info.name@ && decimal(v[j].0 as nat) == info.id@);
                if k > i {
                    assert(!(v[i as int].1 == info.name@ && decimal(v[i as int].0 as nat) == info.id@));
                }
                assert(k == i);
            }
            entries.remove(i);
            assert(entries_view(entries@) =~= v.remove(i as int));
            return Ok(());
        }
        i += 1;
    }
    let msg = joined("Audio file '", info.name.as_str(), "' not found in NUS3AUDIO file");
    Err(msg)
}

} // verus!

verus! {

/// Whether the track list is small enough for `write_nus3audio` (see
/// `encodable`).
pub fn fits_encoding(entries: &Vec<AudioEntry>) -> (b: bool)
    ensures
        b == encodable(entries_view(entries@)),
{
    let ghost v = entries_view(entries@);
    let mut names: u64 = 0;
    let mut pack: u64 = 0;
    let mut i: usize = 0;
    while i < entries.len()
        invariant
            v == entries_view(entries@),
            i <= entries.len(),
            names as nat == names_size(v.take(i as int)),
            pack as nat == pack_size(v.take(i as int)),
            72 + 16 * i + names + pack <= 0xFFFF_FFFF,
        decreases entries.len() - i,
    {
        proof {
            assert(v.take(i + 1).drop_last() =~= v.take(i as int));
            assert(v.take(i + 1).last() == v[i as int]);
        }
        let name_bytes = entries[i].name.as_str().as_bytes().len() as u64;
        let data_len = entries[i].data.len() as u64;
        if name_bytes >= 0x1_0000_0000 || data_len >= 0x1_0000_0000 {
            proof { lemma_sizes_monotone(v, i as int + 1); }
            return false;
        }
        names = names + name_bytes + 1;
        pack = pack + 16 * ((data_len + 15) / 16);
        if 72 + 16 * (i as u64 + 1) + names + pack > 0xFFFF_FFFF {
            proof { lemma_sizes_monotone(v, i as int + 1); }
            return false;
        }
        i += 1;
    }
    assert(v.take(entries.len() as int) =~= v);
    let total = 72 + 16 * (entries.len() as u64) + names + (24 - names % 16) % 16 + pack;
    total <= 0xFFFF_FFFF
}

proof fn lemma_sizes_monotone(v: Seq<(u32, Seq<char>, Seq<u8>)>, k: int)
    requires
        0 <= k <= v.len(),
    ensures
        names_size(v.take(k)) <= names_size(v),
        pack_size(v.take(k)) <= pack_size(v),
    decreases v.len() - k,
{
    if k < v.len() {
        lemma_sizes_monotone(v, k + 1);
        assert(v.take(k + 1).drop_last() =~= v.take(k));
    } else {
        assert(v.take(k) =~= v);
    }
}

} // verus!
