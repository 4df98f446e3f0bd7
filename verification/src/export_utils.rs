//! Decisions behind exporting and converting tracks with vgmstream: which
//! stream number a track has, which file extension a blob of audio gets,
//! which exporter a file needs, and the caches that avoid repeated work.
use vstd::prelude::*;
use crate::audio_file_info::AudioFileInfo;
use crate::replace_utils::{is_bank_path, is_nus3bank_path};
use crate::store::KeyedStore;
use crate::text::{chars_of, concat, decimal, decimal_string, has_prefix, joined, parse_u32, parsed_unsigned};
use crate::wav::{audio_extension, detect_audio_extension};

verus! {

/// Export and conversion helpers.
pub struct ExportUtils;

/// Which exporter a file or track goes to.
#[derive(Clone, Copy, Debug, PartialEq, Eq, Structural)]
pub enum ExportRoute {
    /// A track of a NUS3BANK sound bank.
    Nus3bank,
    /// A track of a NUS3AUDIO file.
    Nus3audio,
}

/// Some track ID is 0 (the file numbers its tracks from 0).
pub open spec fn has_zero(ids: Seq<u32>) -> bool {
    exists|i: int| 0 <= i < ids.len() && ids[i] == 0
}

/// Whether a file's tracks are numbered from 0, as far as the cache and a
/// scan of its track IDs tell: the cached answer if there is one, else the
/// scan's, or why it could not be had.
pub open spec fn indexing_pattern(
    cache: Map<Seq<char>, bool>,
    path: Seq<char>,
    scanned: Option<Result<Seq<u32>, Seq<char>>>,
) -> Result<bool, Seq<char>> {
    if cache.contains_key(path) {
        Ok(cache[path])
    } else {
        match scanned {
            Some(Ok(ids)) => if ids.len() == 0 {
                Err("No audio files found in nus3audio file"@)
            } else {
                Ok(has_zero(ids))
            },
            Some(Err(e)) => Err("Failed to open nus3audio file: "@ + e),
            None => Err(Seq::empty()),
        }
    }
}

/// The vgmstream stream number (1-based) of a NUS3AUDIO track ID.
pub open spec fn vgmstream_index_of(
    id: Seq<char>,
    cache: Map<Seq<char>, bool>,
    path: Seq<char>,
    scanned: Option<Result<Seq<u32>, Seq<char>>>,
) -> Result<Seq<char>, Seq<char>> {
    match parsed_unsigned(id, u32::MAX as nat) {
        None => Err("Invalid audio file ID: "@ + id),
        Some(n) => match indexing_pattern(cache, path, scanned) {
            Err(e) => Err(e),
            Ok(zero_based) => Ok(decimal(if zero_based { n + 1 } else { n })),
        },
    }
}

/// The scan as plain values.
pub open spec fn scan_view(s: Option<Result<Vec<u32>, String>>) -> Option<Result<Seq<u32>, Seq<char>>> {
    match s {
        Some(Ok(v)) => Some(Ok(v@)),
        Some(Err(e)) => Some(Err(e@)),
        None => None,
    }
}

/// The indexing cache after a stream-number lookup: a scan of a file not
/// yet cached, that found tracks, is recorded when the ID was a number.
pub open spec fn cache_after_lookup(
    id: Seq<char>,
    cache: Map<Seq<char>, bool>,
    path: Seq<char>,
    scanned: Option<Result<Seq<u32>, Seq<char>>>,
) -> Map<Seq<char>, bool> {
    match scanned {
        Some(Ok(ids)) => if parsed_unsigned(id, u32::MAX as nat) is Some && !cache.contains_key(path) && ids.len() > 0 {
            cache.insert(path, has_zero(ids))
        } else {
            cache
        },
        _ => cache,
    }
}

/// The key of a converted track in the WAV conversion cache.
pub open spec fn wav_cache_key_of(path: Seq<char>, name: Seq<char>, id: Seq<char>) -> Seq<char> {
    path + "::"@ + name + "::"@ + id
}

fn has_zero_id(ids: &Vec<u32>) -> (b: bool)
    ensures
        b == has_zero(ids@),
{
    let mut i: usize = 0;
    while i < ids.len()
        invariant
            i <= ids.len(),
            forall|j: int| 0 <= j < i ==> ids@[j] != 0,
        decreases ids.len() - i,
    {
        if ids[i] == 0 {
            return true;
        }
        i += 1;
    }
    false
}

impl ExportUtils {
    /// File extension for a blob of audio by its header: wav, ogg, flac, mp3
    /// or bin.
    pub fn detect_audio_extension(data: &[u8]) -> (r: &'static str)
        ensures
            r@ == audio_extension(data@),
    {
        detect_audio_extension(data)
    }

    /// Records, from the track IDs of a freshly opened file, whether it
    /// numbers its tracks from 0; an empty list records nothing.
    pub fn prime_indexing_cache(cache: &mut KeyedStore<bool>, file_path: &str, track_ids: &Vec<u32>)
        ensures
            final(cache)@ == (if track_ids@.len() == 0 {
                old(cache)@
            } else {
                old(cache)@.insert(file_path@, has_zero(track_ids@))
            }),
    {
        if track_ids.len() == 0 {
            return;
        }
        let starts_from_zero = has_zero_id(track_ids);
        cache.insert(file_path.to_string(), starts_from_zero);
    }

    /// The vgmstream stream number of a NUS3AUDIO track: its ID, plus one
    /// when the file numbers its tracks from 0. Whether it does comes from
    /// `cache`, or, for a file not in it, from `scanned`: the file's track
    /// IDs as read from disk (or why it could not be read), which is then
    /// cached when it has tracks.
    pub fn get_vgmstream_index(
        audio_file_id: &str,
        original_file_path: &str,
        cache: &mut KeyedStore<bool>,
        scanned: Option<Result<Vec<u32>, String>>,
    ) -> (r: Result<String, String>)
        requires
            !old(cache)@.contains_key(original_file_path@) ==> scanned is Some,
            indexing_pattern(old(cache)@, original_file_path@, scan_view(scanned)) == Ok::<bool, Seq<char>>(true)
                ==> parsed_unsigned(audio_file_id@, u32::MAX as nat) != Some(u32::MAX as nat),
        ensures
            match r {
                Ok(s) => vgmstream_index_of(audio_file_id@, old(cache)@, original_file_path@, scan_view(scanned)) == Ok::<
                    Seq<char>,
                    Seq<char>,
                >(s@),
                Err(e) => vgmstream_index_of(audio_file_id@, old(cache)@, original_file_path@, scan_view(scanned)) == Err::<
                    Seq<char>,
                    Seq<char>,
                >(e@),
            },
            final(cache)@ == cache_after_lookup(audio_file_id@, old(cache)@, original_file_path@, scan_view(scanned)),
    {
        let id_num = match parse_u32(audio_file_id) {
            Some(n) => n,
            None => return Err(concat("Invalid audio file ID: ", audio_file_id)),
        };
        let key = original_file_path.to_string();
        let starts_from_zero = match cache.get(&key) {
            Some(z) => *z,
            None => match scanned {
                Some(Ok(ids)) => {
                    if ids.len() == 0 {
                        return Err("No audio files found in nus3audio file".to_string());
                    }
                    let z = has_zero_id(&ids);
                    cache.insert(key, z);
                    z
                },
                Some(Err(e)) => return Err(concat("Failed to open nus3audio file: ", e.as_str())),
                None => return Err(String::new()),
            },
        };
        if starts_from_zero {
            Ok(decimal_string((id_num + 1) as u64))
        } else {
            Ok(decimal_string(id_num as u64))
        }
    }

    /// Whether the stream number of a track would pass `u32::MAX`: its ID is
    /// `u32::MAX` and the number is the ID plus one (a NUS3BANK track, or a
    /// file numbering its tracks from 0). `vgmstream_stream_index_for` is
    /// for the other tracks.
    pub fn stream_index_overflows(
        audio_file_info: &AudioFileInfo,
        original_file_path: &str,
        cache: &KeyedStore<bool>,
        scanned: &Option<Result<Vec<u32>, String>>,
    ) -> (b: bool)
        ensures
            b == (parsed_unsigned(audio_file_info.id@, u32::MAX as nat) == Some(u32::MAX as nat) && (
            audio_file_info.is_nus3bank || indexing_pattern(cache@, original_file_path@, scan_view(*scanned))
                == Ok::<bool, Seq<char>>(true))),
    {
        match parse_u32(audio_file_info.id.as_str()) {
            Some(n) => if n != u32::MAX {
                return false;
            },
            None => return false,
        }
        if audio_file_info.is_nus3bank {
            return true;
        }
        match cache.get(&original_file_path.to_string()) {
            Some(z) => *z,
            None => match scanned {
                Some(Ok(ids)) => ids.len() > 0 && has_zero_id(ids),
                _ => false,
            },
        }
    }

    /// The vgmstream stream number of any track: for a NUS3BANK track its
    /// numeric ID plus one (none when the ID is not a number), else as
    /// `get_vgmstream_index` gives it (none on error).
    pub fn vgmstream_stream_index_for(
        audio_file_info: &AudioFileInfo,
        original_file_path: &str,
        cache: &mut KeyedStore<bool>,
        scanned: Option<Result<Vec<u32>, String>>,
    ) -> (r: Option<String>)
        requires
            audio_file_info.is_nus3bank ==> parsed_unsigned(audio_file_info.id@, u32::MAX as nat) != Some(
                u32::MAX as nat,
            ),
            !audio_file_info.is_nus3bank ==> (!old(cache)@.contains_key(original_file_path@) ==> scanned is Some),
            !audio_file_info.is_nus3bank ==> (indexing_pattern(old(cache)@, original_file_path@, scan_view(scanned))
                == Ok::<bool, Seq<char>>(true) ==> parsed_unsigned(audio_file_info.id@, u32::MAX as nat) != Some(
                u32::MAX as nat,
            )),
        ensures
            audio_file_info.is_nus3bank ==> {
                &&& final(cache)@ == old(cache)@
                &&& match parsed_unsigned(audio_file_info.id@, u32::MAX as nat) {
                    Some(n) => r matches Some(s) && s@ == decimal(n + 1),
                    None => r is None,
                }
            },
            !audio_file_info.is_nus3bank ==> match vgmstream_index_of(
                audio_file_info.id@,
                old(cache)@,
                original_file_path@,
                scan_view(scanned),
            ) {
                Ok(s) => r matches Some(x) && x@ == s,
                Err(_) => r is None,
            },
    {
        if audio_file_info.is_nus3bank {
            match parse_u32(audio_file_info.id.as_str()) {
                Some(n) => Some(decimal_string((n + 1) as u64)),
                None => None,
            }
        } else {
            match Self::get_vgmstream_index(audio_file_info.id.as_str(), original_file_path, cache, scanned) {
                Ok(s) => Some(s),
                Err(_) => None,
            }
        }
    }

    /// The WAV conversion cache key of a track: file path, name and ID,
    /// joined by `::`.
    pub fn wav_cache_key(original_file_path: &str, audio_file_info: &AudioFileInfo) -> (r: String)
        ensures
            r@ == wav_cache_key_of(original_file_path@, audio_file_info.name@, audio_file_info.id@),
    {
        let a = joined(original_file_path, "::", audio_file_info.name.as_str());
        let r = joined(a.as_str(), "::", audio_file_info.id.as_str());
        r
    }

    /// Forgets the converted WAV files of every track of a file (every key
    /// beginning with its path followed by `::`), after the file changed on
    /// disk; the entries of every other file stay, also those of a file whose
    /// path merely begins with this one.
    pub fn clear_wav_cache_for_file(cache: &mut KeyedStore<String>, file_path: &str)
        ensures
            final(cache)@ == old(cache)@.restrict(
                old(cache)@.dom().filter(|k: Seq<char>| !has_prefix(k, file_path@ + "::"@)),
            ),
    {
        let owned = concat(file_path, "::");
        let prefix = chars_of(owned.as_str());
        cache.remove_keys_with_prefix(&prefix);
    }

    /// The exporter for one track: by whether it belongs to a sound bank.
    pub fn export_to_wav_with_custom_dir_unified(audio_file_info: &AudioFileInfo) -> (r: ExportRoute)
        ensures
            r == (if audio_file_info.is_nus3bank { ExportRoute::Nus3bank } else { ExportRoute::Nus3audio }),
    {
        if audio_file_info.is_nus3bank {
            ExportRoute::Nus3bank
        } else {
            ExportRoute::Nus3audio
        }
    }

    /// The exporter for a whole file: by its name ending in `.nus3bank`,
    /// ignoring case.
    pub fn export_all_to_wav_unified(original_file_path: &str) -> (r: ExportRoute)
        ensures
            r == (if is_bank_path(original_file_path@) { ExportRoute::Nus3bank } else { ExportRoute::Nus3audio }),
    {
        if is_nus3bank_path(original_file_path) {
            ExportRoute::Nus3bank
        } else {
            ExportRoute::Nus3audio
        }
    }

    /// The name a track gets when a whole file is exported: its own, or
    /// `audio_<id>` when it has none.
    pub fn export_track_name(name: &str, id: u32) -> (r: String)
        ensures
            r@ == (if name@.len() == 0 { "audio_"@ + decimal(id as nat) } else { name@ }),
    {
        if name.unicode_len() == 0 {
            let d = decimal_string(id as u64);
            concat("audio_", d.as_str())
        } else {
            name.to_string()
        }
    }
}

/// vgmstream numbers the streams of a NUS3AUDIO file from 1: for a track
/// whose ID reads as the number `n`, the stream number is `n + 1` in a file
/// whose track IDs start at 0 (some track has ID 0) and `n` itself in a
/// file whose IDs start at 1, whether the numbering comes from the file's
/// IDs or from the cache.
pub proof fn law_stream_numbers_count_from_one(
    id: Seq<char>,
    cache: Map<Seq<char>, bool>,
    path: Seq<char>,
    ids: Seq<u32>,
    n: nat,
)
    requires
        parsed_unsigned(id, u32::MAX as nat) == Some(n),
        ids.len() > 0,
        !cache.contains_key(path),
    ensures
        (exists|i: int| 0 <= i < ids.len() && ids[i] == 0) ==> vgmstream_index_of(id, cache, path, Some(Ok(ids)))
            == Ok::<Seq<char>, Seq<char>>(decimal(n + 1)),
        (forall|i: int| 0 <= i < ids.len() ==> ids[i] != 0) ==> vgmstream_index_of(id, cache, path, Some(Ok(ids)))
            == Ok::<Seq<char>, Seq<char>>(decimal(n)),
        vgmstream_index_of(id, cache.insert(path, true), path, None) == Ok::<Seq<char>, Seq<char>>(decimal(n + 1)),
        vgmstream_index_of(id, cache.insert(path, false), path, None) == Ok::<Seq<char>, Seq<char>>(decimal(n)),
{
}

} // verus!
