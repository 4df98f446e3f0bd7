//! Removing a track from a NUS3AUDIO file.
use vstd::prelude::*;
use crate::audio_file_info::AudioFileInfo;
use crate::nus3audio_check::{nus3audio_parser_returns, parser_returns};
use crate::nus3audio_model::{
    encodable, entries_view, fits_encoding, nus3audio_bytes, nus3audio_parse, parse_nus3audio,
    remove_audio_entry, removal_target, write_nus3audio, AudioEntry,
};

verus! {

/// Track removal.
pub struct RemoveUtils;

impl RemoveUtils {
    /// Removal in memory only: the file on disk is left alone and the caller
    /// drops the track from its list, so this always succeeds.
    pub fn remove_in_memory(audio_file_info: &AudioFileInfo) -> (r: Result<(), String>)
        ensures
            r is Ok,
    {
        Ok(())
    }

    /// The bytes of the NUS3AUDIO file `entries` with the first track of
    /// that name and ID removed. When there is no such track the error names
    /// it; when the remaining tracks are too large to encode the error says
    /// so.
    pub fn remove_audio(audio_file_info: &AudioFileInfo, entries: Vec<AudioEntry>) -> (r: Result<Vec<u8>, String>)
        ensures
            match removal_target(entries_view(entries@), audio_file_info.name@, audio_file_info.id@) {
                Some(i) => {
                    let rest = entries_view(entries@).remove(i);
                    match r {
                        Ok(bytes) => encodable(rest) && bytes@ == nus3audio_bytes(rest),
                        Err(e) => !encodable(rest) && e@ == "NUS3AUDIO file too large to write"@,
                    }
                },
                None => r matches Err(e) && e@ == "Audio file '"@ + audio_file_info.name@
                    + "' not found in NUS3AUDIO file"@,
            },
    {
        let mut es = entries;
        match remove_audio_entry(&mut es, audio_file_info) {
            Ok(()) => {},
            Err(e) => return Err(e),
        }
        if !fits_encoding(&es) {
            return Err("NUS3AUDIO file too large to write".to_string());
        }
        Ok(write_nus3audio(&es))
    }

    /// `remove_audio` on the tracks read from the bytes of a NUS3AUDIO file;
    /// bytes that are not such a file give an error saying so.
    pub fn remove_audio_from_file(audio_file_info: &AudioFileInfo, data: &[u8]) -> (r: Result<Vec<u8>, String>)
        ensures
            !parser_returns(data@) ==> (r matches Err(e) && e@ == "Failed to open NUS3AUDIO file: invalid NUS3AUDIO data"@),
            parser_returns(data@) ==> match nus3audio_parse(data@) {
                None => r matches Err(e) && e@ == "Failed to open NUS3AUDIO file: invalid NUS3AUDIO data"@,
                Some(es) => match removal_target(es, audio_file_info.name@, audio_file_info.id@) {
                    Some(i) => match r {
                        Ok(bytes) => encodable(es.remove(i)) && bytes@ == nus3audio_bytes(es.remove(i)),
                        Err(e) => !encodable(es.remove(i)) && e@ == "NUS3AUDIO file too large to write"@,
                    },
                    None => r matches Err(e) && e@ == "Audio file '"@ + audio_file_info.name@
                        + "' not found in NUS3AUDIO file"@,
                },
            },
    {
        if !nus3audio_parser_returns(data) {
            return Err("Failed to open NUS3AUDIO file: invalid NUS3AUDIO data".to_string());
        }
        match parse_nus3audio(data) {
            None => Err("Failed to open NUS3AUDIO file: invalid NUS3AUDIO data".to_string()),
            Some(entries) => RemoveUtils::remove_audio(audio_file_info, entries),
        }
    }
}

} // verus!
