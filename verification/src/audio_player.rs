//! Where the player takes a track's audio from: replaced audio first, then
//! audio registered to be added, else the track in the file itself.
use vstd::prelude::*;
use crate::audio_file_info::{AudioFileInfo, AudioFileInfoView};
use crate::nus3audio_file_utils::{track_key, ChangeView, FileChangeType, Nus3audioFileUtils};
use crate::nus3audio_model::{entries_view, AudioEntry};
use crate::replace_utils::{added_key_of, replacement_key_of, ReplaceUtils};
use crate::text::{copy_vec, joined};

verus! {

/// The audio the player plays for a track.
#[derive(Debug)]
pub enum PlaybackSource {
    /// Audio that replaces the track, held in memory.
    Replacement(Vec<u8>),
    /// Audio of a track registered to be added, held in memory.
    PendingAddition(Vec<u8>),
    /// The track as stored in the opened file.
    FromFile,
}

/// The replaced audio of a track: under its replacement key, else (for a
/// sound-bank track) under its `ADD_` key.
pub open spec fn replacement_data_of(m: Map<Seq<char>, Vec<u8>>, info: AudioFileInfoView) -> Option<Seq<u8>> {
    let k = replacement_key_of(info);
    let k2 = if info.is_nus3bank { added_key_of(info) } else { k };
    if m.contains_key(k) {
        Some(m[k]@)
    } else if m.contains_key(k2) {
        Some(m[k2]@)
    } else {
        None
    }
}

/// The audio of a pending addition of the track with that name and ID.
pub open spec fn pending_data_of(c: Map<Seq<char>, FileChangeType>, name: Seq<char>, id: Seq<char>) -> Option<Seq<u8>> {
    if c.contains_key(track_key(name, id)) {
        match c[track_key(name, id)].deep_view() {
            ChangeView::Add(_, _, d) => Some(d),
            ChangeView::Remove(_, _) => None,
        }
    } else {
        None
    }
}

/// Position of the first track named `name`.
pub open spec fn first_named(v: Seq<(u32, Seq<char>, Seq<u8>)>, name: Seq<char>) -> Option<int> {
    if exists|i: int| 0 <= i < v.len() && v[i].1 == name {
        Some(choose|i: int| 0 <= i < v.len() && v[i].1 == name && forall|j: int| 0 <= j < i ==> v[j].1 != name)
    } else {
        None
    }
}

/// What the player plays for a track: replaced audio if there is any, else
/// the audio of a pending addition of it, else the file's own track.
pub fn playback_source(replacements: &ReplaceUtils, changes: &Nus3audioFileUtils, info: &AudioFileInfo) -> (r: PlaybackSource)
    ensures
        match replacement_data_of(replacements.replaced_audio_data@, info.deep_view()) {
            Some(d) => r matches PlaybackSource::Replacement(x) && x@ == d,
            None => match pending_data_of(changes.changes@, info.name@, info.id@) {
                Some(d) => r matches PlaybackSource::PendingAddition(x) && x@ == d,
                None => r is FromFile,
            },
        },
{
    match replacements.get_replacement_data_unified(info) {
        Some(d) => PlaybackSource::Replacement(d),
        None => match changes.get_pending_added_data(info.name.as_str(), info.id.as_str()) {
            Some(d) => PlaybackSource::PendingAddition(d),
            None => PlaybackSource::FromFile,
        },
    }
}

/// When a track cannot be converted for playback, its raw data: that of the
/// first track of the file with its name, or the message that there is none.
pub fn fallback_track_data(entries: &Vec<AudioEntry>, name: &str) -> (r: Result<Vec<u8>, String>)
    ensures
        match first_named(entries_view(entries@), name@) {
            Some(i) => r matches Ok(d) && d@ == entries@[i].data@,
            None => r matches Err(e) && e@ == "Audio file '"@ + name@ + "' not found in NUS3AUDIO file"@,
        },
{
    let ghost v = entries_view(entries@);
    let target = name.to_string();
    let mut i: usize = 0;
    while i < entries.len()
        invariant
            i <= entries.len(),
            target@ == name@,
            v == entries_view(entries@),
            forall|j: int| 0 <= j < i ==> v[j].1 != name@,
        decreases entries.len() - i,
    {
        if entries[i].name == target {
            proof {
                assert(v[i as int].1 == name@);
                let k = choose|k: int| 0 <= k < v.len() && v[k].1 == name@ && forall|j: int| 0 <= j < k ==> v[j].1 != name@;
                if k > i {
                    assert(v[i as int].1 != name@);
                }
                assert(k == i);
            }
            return Ok(copy_vec(&entries[i].data));
        }
        i += 1;
    }
    Err(joined("Audio file '", name, "' not found in NUS3AUDIO file"))
}

proof fn lemma_some_first_named(v: Seq<(u32, Seq<char>, Seq<u8>)>, name: Seq<char>, t: int)
    requires
        0 <= t < v.len(),
        v[t].1 == name,
    ensures
        exists|i: int| 0 <= i < v.len() && v[i].1 == name && forall|j: int| 0 <= j < i ==> v[j].1 != name,
    decreases t,
{
    if exists|j: int| 0 <= j < t && v[j].1 == name {
        let j = choose|j: int| 0 <= j < t && v[j].1 == name;
        lemma_some_first_named(v, name, j);
    }
}

/// The fallback plays the data of the first track with the name asked for;
/// there is none exactly when no track has that name.
pub proof fn law_fallback_uses_first_named(v: Seq<(u32, Seq<char>, Seq<u8>)>, name: Seq<char>)
    ensures
        first_named(v, name) matches Some(i) ==> {
            &&& 0 <= i < v.len()
            &&& v[i].1 == name
            &&& forall|j: int| 0 <= j < i ==> v[j].1 != name
        },
        first_named(v, name) is None <==> forall|j: int| 0 <= j < v.len() ==> v[j].1 != name,
{
    if exists|t: int| 0 <= t < v.len() && v[t].1 == name {
        let t = choose|t: int| 0 <= t < v.len() && v[t].1 == name;
        lemma_some_first_named(v, name, t);
    }
}

/// Replaced audio stored under a track's own replacement key is what the
/// track plays; a NUS3AUDIO track with nothing under its key has no
/// replaced audio.
pub proof fn law_replacement_found_under_key(m: Map<Seq<char>, Vec<u8>>, info: AudioFileInfoView)
    ensures
        m.contains_key(replacement_key_of(info)) ==> replacement_data_of(m, info) == Some(m[replacement_key_of(info)]@),
        !info.is_nus3bank && !m.contains_key(replacement_key_of(info)) ==> replacement_data_of(m, info) is None,
        info.is_nus3bank && !m.contains_key(replacement_key_of(info)) && m.contains_key(added_key_of(info))
            ==> replacement_data_of(m, info) == Some(m[added_key_of(info)]@),
{
}

} // verus!
