//! Loading the selected sound file into the track table: which loader a
//! path needs, what a loaded NUS3AUDIO or NUS3BANK file contributes, and
//! how the table's state follows selection changes and finished loads.
use vstd::prelude::*;
use crate::audio_file_info::{AudioFileInfo, AudioFileInfoView};
use crate::export_utils::{has_zero, ExportUtils};
use crate::nus3audio_model::{entries_view, entry_extension, nus3audio_parse, nus3audio_type_label, parse_nus3audio, track_info_from_entry, AudioEntry};
use crate::nus3audio_check::{nus3audio_parser_returns, parser_returns};
use crate::replace_utils::ReplaceUtils;
use crate::store::KeyedStore;
use crate::text::{chars_of, concat, decimal, ends_with_seq, has_suffix, lower_chars, lowercase};
use crate::wav::{riff_tag, tag_at, wave_tag};

verus! {

/// The sound file formats the editor opens.
#[derive(Clone, Copy, Debug, PartialEq, Eq, Structural)]
pub enum FileKind {
    Nus3audio,
    Nus3bank,
}

/// What loading a file in the background gave.
#[derive(Debug)]
pub enum FileLoadResult {
    /// A NUS3AUDIO file: its track count, table rows and track IDs.
    Nus3audio { file_name: String, file_count: usize, audio_files: Vec<AudioFileInfo>, track_ids: Vec<u32> },
    /// A NUS3BANK file: its track count and table rows.
    Nus3bank { file_count: usize, audio_files: Vec<AudioFileInfo> },
    /// The file could not be loaded; the message says why.
    Error(String),
}

/// The loader a path needs, by its lower-cased extension.
pub open spec fn file_kind_of(path: Seq<char>) -> Option<FileKind> {
    if has_suffix(lowercase(path), ".nus3audio"@) {
        Some(FileKind::Nus3audio)
    } else if has_suffix(lowercase(path), ".nus3bank"@) {
        Some(FileKind::Nus3bank)
    } else {
        None
    }
}

/// The format label of a NUS3BANK track by its data: BNSF, a RIFF/WAVE
/// file, or unknown.
pub open spec fn bank_type_label(data: Seq<u8>) -> Seq<char> {
    if data.len() >= 4 && tag_at(data, 0, seq![0x42u8, 0x4e, 0x53, 0x46]) {
        "BNSF"@
    } else if data.len() >= 12 && tag_at(data, 0, riff_tag()) && tag_at(data, 8, wave_tag()) {
        "WAV"@
    } else {
        "Unknown"@
    }
}

/// The table row of a NUS3AUDIO track.
pub open spec fn entry_row(id: u32, name: Seq<char>, data: Seq<u8>) -> AudioFileInfoView {
    AudioFileInfoView {
        name,
        id: decimal(id as nat),
        size: data.len() as usize,
        filename: name + entry_extension(data),
        file_type: nus3audio_type_label(data),
        hex_id: None,
        is_nus3bank: false,
    }
}

/// The table rows as plain values.
pub open spec fn rows_view(r: Option<Vec<AudioFileInfo>>) -> Option<Seq<AudioFileInfoView>> {
    match r {
        Some(v) => Some(v.deep_view()),
        None => None,
    }
}

/// The loader for a path, or the message for a format the editor does not
/// open.
pub fn file_kind(path: &str) -> (r: Result<FileKind, String>)
    ensures
        match file_kind_of(path@) {
            Some(k) => r == Ok::<FileKind, String>(k),
            None => r matches Err(e) && e@ == "Unsupported file format: "@ + path@,
        },
{
    let lower = lower_chars(path);
    if ends_with_seq(&lower, &chars_of(".nus3audio")) {
        Ok(FileKind::Nus3audio)
    } else if ends_with_seq(&lower, &chars_of(".nus3bank")) {
        Ok(FileKind::Nus3bank)
    } else {
        Err(concat("Unsupported file format: ", path))
    }
}

/// The format label of a NUS3BANK track (see `bank_type_label`); a track
/// without data is unknown.
pub fn nus3bank_track_type(data: Option<&Vec<u8>>) -> (r: &'static str)
    ensures
        r@ == bank_type_label(match data {
            Some(d) => d@,
            None => Seq::<u8>::empty(),
        }),
{
    let d = match data {
        Some(d) => d,
        None => return "Unknown",
    };
    if d.len() >= 4 && tag_is(d, 0, 0x42, 0x4e, 0x53, 0x46) {
        "BNSF"
    } else if d.len() >= 12 && tag_is(d, 0, 0x52, 0x49, 0x46, 0x46) && tag_is(d, 8, 0x57, 0x41, 0x56, 0x45) {
        "WAV"
    } else {
        "Unknown"
    }
}

fn tag_is(d: &Vec<u8>, i: usize, a: u8, b: u8, c: u8, e: u8) -> (r: bool)
    requires
        i + 4 <= d.len(),
    ensures
        r == tag_at(d@, i as int, seq![a, b, c, e]),
{
    let r = d[i] == a && d[i + 1] == b && d[i + 2] == c && d[i + 3] == e;
    proof {
        let t = d@.subrange(i as int, i + 4);
        if r {
            assert(t =~= seq![a, b, c, e]);
        } else if t == seq![a, b, c, e] {
            assert(t[0] == a && t[1] == b && t[2] == c && t[3] == e);
        }
    }
    r
}

/// What a freshly opened NUS3AUDIO file gives the table: one row per track
/// (see `entry_row`), its track count and its track IDs, in file order.
pub fn nus3audio_load_result(file_name: &str, entries: &Vec<AudioEntry>) -> (r: FileLoadResult)
    ensures
        r matches FileLoadResult::Nus3audio { file_name: f, file_count, audio_files, track_ids } && {
            &&& f@ == file_name@
            &&& file_count == entries@.len()
            &&& track_ids@ == entries@.map_values(|e: AudioEntry| e.id)
            &&& audio_files.deep_view() == entries@.map_values(|e: AudioEntry| entry_row(e.id, e.name@, e.data@))
        },
{
    let mut audio_files: Vec<AudioFileInfo> = Vec::new();
    let mut track_ids: Vec<u32> = Vec::new();
    let mut i: usize = 0;
    while i < entries.len()
        invariant
            i <= entries.len(),
            audio_files@.len() == i,
            track_ids@ == entries@.take(i as int).map_values(|e: AudioEntry| e.id),
            forall|j: int| 0 <= j < i ==> (#[trigger] audio_files@[j]).deep_view() == entry_row(
                entries@[j].id,
                entries@[j].name@,
                entries@[j].data@,
            ),
        decreases entries.len() - i,
    {
        let info = track_info_from_entry(&entries[i]);
        audio_files.push(info);
        track_ids.push(entries[i].id);
        assert(track_ids@ =~= entries@.take(i + 1).map_values(|e: AudioEntry| e.id));
        i += 1;
    }
    assert(entries@.take(entries.len() as int) =~= entries@);
    assert(audio_files.deep_view() =~= entries@.map_values(|e: AudioEntry| entry_row(e.id, e.name@, e.data@)));
    FileLoadResult::Nus3audio { file_name: file_name.to_string(), file_count: entries.len(), audio_files, track_ids }
}

/// Loads the track table of a NUS3AUDIO file from the file's bytes: what
/// `nus3audio_load_result` gives for the tracks read from them, or an error
/// where the bytes are not a NUS3AUDIO file the reader can read.
pub fn load_nus3audio_bytes(file_name: &str, data: &[u8]) -> (r: FileLoadResult)
    ensures
        !parser_returns(data@) ==> (r matches FileLoadResult::Error(e) && e@
            == "Error loading NUS3AUDIO file: invalid NUS3AUDIO data"@),
        parser_returns(data@) ==> match nus3audio_parse(data@) {
            None => r matches FileLoadResult::Error(e) && e@ == "Error loading NUS3AUDIO file: invalid NUS3AUDIO data"@,
            Some(es) => r matches FileLoadResult::Nus3audio { file_name: f, file_count, audio_files, track_ids } && {
                &&& f@ == file_name@
                &&& file_count == es.len()
                &&& track_ids@ == es.map_values(|e: (u32, Seq<char>, Seq<u8>)| e.0)
                &&& audio_files.deep_view() == es.map_values(|e: (u32, Seq<char>, Seq<u8>)| entry_row(e.0, e.1, e.2))
            },
        },
{
    if !nus3audio_parser_returns(data) {
        return FileLoadResult::Error("Error loading NUS3AUDIO file: invalid NUS3AUDIO data".to_string());
    }
    match parse_nus3audio(data) {
        None => FileLoadResult::Error("Error loading NUS3AUDIO file: invalid NUS3AUDIO data".to_string()),
        Some(entries) => {
            let r = nus3audio_load_result(file_name, &entries);
            proof {
                let es = entries_view(entries@);
                assert(es.map_values(|e: (u32, Seq<char>, Seq<u8>)| e.0) =~= entries@.map_values(|e: AudioEntry| e.id));
                assert(es.map_values(|e: (u32, Seq<char>, Seq<u8>)| entry_row(e.0, e.1, e.2))
                    =~= entries@.map_values(|e: AudioEntry| entry_row(e.id, e.name@, e.data@)));
            }
            r
        },
    }
}

/// The track table's file state: the selected file, and what loading it
/// gave so far.
pub struct MainAreaFileState {
    pub selected_file: Option<String>,
    pub file_count: Option<usize>,
    pub audio_files: Option<Vec<AudioFileInfo>>,
    pub error_message: Option<String>,
}

/// The selected path as plain characters.
pub open spec fn path_view(p: Option<String>) -> Option<Seq<char>> {
    match p {
        Some(s) => Some(s@),
        None => None,
    }
}

impl MainAreaFileState {
    /// Nothing selected or loaded.
    pub fn new() -> (s: Self)
        ensures
            s.selected_file is None && s.file_count is None && s.audio_files is None && s.error_message is None,
    {
        MainAreaFileState { selected_file: None, file_count: None, audio_files: None, error_message: None }
    }

    /// Selects a file. Selecting the file already shown changes nothing;
    /// otherwise every replacement is dropped, the table is emptied, and the
    /// result is the path to load in the background (if any).
    pub fn update_selected_file(&mut self, file_path: Option<String>, replacements: &mut ReplaceUtils) -> (load: Option<
        String,
    >)
        ensures
            if path_view(file_path) == path_view(old(self).selected_file) && old(self).audio_files is Some {
                &&& load is None
                &&& *final(self) == *old(self)
                &&& *final(replacements) == *old(replacements)
            } else {
                &&& path_view(final(self).selected_file) == path_view(file_path)
                &&& path_view(load) == path_view(file_path)
                &&& final(self).file_count is None
                &&& final(self).audio_files is None
                &&& final(self).error_message is None
                &&& final(replacements).replaced_audio_data@ == Map::<Seq<char>, Vec<u8>>::empty()
                &&& final(replacements).replacement_file_paths@ == Map::<Seq<char>, String>::empty()
                &&& final(replacements).replaced_audio_data.entries().len() == 0
                &&& final(replacements).replacement_file_paths.entries().len() == 0
            },
    {
        let same = match (&file_path, &self.selected_file) {
            (Some(a), Some(b)) => *a == *b,
            (None, None) => true,
            _ => false,
        };
        if same && self.audio_files.is_some() {
            proof {
                if file_path is Some {
                    assert(file_path->0@ == old(self).selected_file->0@);
                }
            }
            return None;
        }
        replacements.clear_replacements();
        self.selected_file = file_path;
        self.file_count = None;
        self.audio_files = None;
        self.error_message = None;
        match &self.selected_file {
            Some(p) => Some(p.clone()),
            None => None,
        }
    }

    /// Reloads the selected file from scratch: replacements dropped, table
    /// emptied; the result is the path to load (if a file is selected).
    pub fn force_reload_selected_file(&mut self, replacements: &mut ReplaceUtils) -> (load: Option<String>)
        ensures
            final(self).selected_file == old(self).selected_file,
            path_view(load) == path_view(old(self).selected_file),
            final(self).file_count is None,
            final(self).audio_files is None,
            final(self).error_message is None,
            final(replacements).replaced_audio_data@ == Map::<Seq<char>, Vec<u8>>::empty(),
            final(replacements).replacement_file_paths@ == Map::<Seq<char>, String>::empty(),
            final(replacements).replaced_audio_data.entries().len() == 0,
            final(replacements).replacement_file_paths.entries().len() == 0,
    {
        replacements.clear_replacements();
        self.file_count = None;
        self.audio_files = None;
        self.error_message = None;
        match &self.selected_file {
            Some(p) => Some(p.clone()),
            None => None,
        }
    }

    /// Takes a finished background load: its rows and track count, or its
    /// error message. A NUS3AUDIO load also records in `index_cache` whether
    /// the file numbers its tracks from 0.
    pub fn apply_file_load(&mut self, result: FileLoadResult, index_cache: &mut KeyedStore<bool>)
        ensures
            final(self).selected_file == old(self).selected_file,
            match result {
                FileLoadResult::Nus3audio { file_name, file_count, audio_files, track_ids } => {
                    &&& final(self).file_count == Some(file_count)
                    &&& rows_view(final(self).audio_files) == Some(audio_files.deep_view())
                    &&& final(self).error_message == old(self).error_message
                    &&& final(index_cache)@ == (if track_ids@.len() == 0 {
                        old(index_cache)@
                    } else {
                        old(index_cache)@.insert(file_name@, has_zero(track_ids@))
                    })
                },
                FileLoadResult::Nus3bank { file_count, audio_files } => {
                    &&& final(self).file_count == Some(file_count)
                    &&& rows_view(final(self).audio_files) == Some(audio_files.deep_view())
                    &&& final(self).error_message == old(self).error_message
                    &&& final(index_cache)@ == old(index_cache)@
                },
                FileLoadResult::Error(msg) => {
                    &&& final(self).file_count == old(self).file_count
                    &&& final(self).audio_files == old(self).audio_files
                    &&& final(self).error_message == Some(msg)
                    &&& final(index_cache)@ == old(index_cache)@
                },
            },
    {
        match result {
            FileLoadResult::Nus3audio { file_name, file_count, audio_files, track_ids } => {
                ExportUtils::prime_indexing_cache(index_cache, file_name.as_str(), &track_ids);
                self.file_count = Some(file_count);
                self.audio_files = Some(audio_files);
            },
            FileLoadResult::Nus3bank { file_count, audio_files } => {
                self.file_count = Some(file_count);
                self.audio_files = Some(audio_files);
            },
            FileLoadResult::Error(msg) => {
                self.error_message = Some(msg);
            },
        }
    }
}

} // verus!
