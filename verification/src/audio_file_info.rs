//! Description of one track of an opened NUS3AUDIO or NUS3BANK file.
use vstd::prelude::*;
use crate::text::{decimal, decimal_string};

verus! {

/// One track of an opened sound file, as the table lists it.
#[derive(Debug)]
pub struct AudioFileInfo {
    pub name: String,
    pub id: String,
    pub size: usize,
    pub filename: String,
    pub file_type: String,
    /// Hex ID of a NUS3BANK track.
    pub hex_id: Option<String>,
    /// The track belongs to a NUS3BANK file.
    pub is_nus3bank: bool,
}

/// A track description as plain values.
pub struct AudioFileInfoView {
    pub name: Seq<char>,
    pub id: Seq<char>,
    pub size: usize,
    pub filename: Seq<char>,
    pub file_type: Seq<char>,
    pub hex_id: Option<Seq<char>>,
    pub is_nus3bank: bool,
}

impl DeepView for AudioFileInfo {
    type V = AudioFileInfoView;

    open spec fn deep_view(&self) -> AudioFileInfoView {
        AudioFileInfoView {
            name: self.name@,
            id: self.id@,
            size: self.size,
            filename: self.filename@,
            file_type: self.file_type@,
            hex_id: match &self.hex_id {
                Some(h) => Some(h@),
                None => None,
            },
            is_nus3bank: self.is_nus3bank,
        }
    }
}

/// The ID a track is addressed by: its hex ID when it has one, else its ID.
pub open spec fn effective_id_of(v: AudioFileInfoView) -> Seq<char> {
    match v.hex_id {
        Some(h) => h,
        None => v.id,
    }
}

/// A copy of an optional string.
pub fn copy_opt_string(s: &Option<String>) -> (r: Option<String>)
    ensures
        r.deep_view() == s.deep_view(),
{
    match s {
        Some(x) => Some(x.clone()),
        None => None,
    }
}

impl AudioFileInfo {
    /// Track of a NUS3AUDIO file.
    pub fn from_nus3audio(name: String, id: String, size: usize, filename: String, file_type: String) -> (r: Self)
        ensures
            r.name == name && r.id == id && r.size == size && r.filename == filename && r.file_type
                == file_type && r.hex_id is None && !r.is_nus3bank,
    {
        AudioFileInfo { name, id, size, filename, file_type, hex_id: None, is_nus3bank: false }
    }

    /// Track of a NUS3BANK file; its ID is its 0-based track index in decimal,
    /// its type WAV.
    pub fn from_nus3bank_track(name: String, index: u32, hex_id: String, size: usize, filename: String) -> (r: Self)
        ensures
            r.name == name && r.id@ == decimal(index as nat) && r.size == size && r.filename == filename
                && r.file_type@ == "WAV"@ && r.hex_id == Some(hex_id) && r.is_nus3bank,
    {
        AudioFileInfo {
            name,
            id: decimal_string(index as u64),
            size,
            filename,
            file_type: "WAV".to_owned(),
            hex_id: Some(hex_id),
            is_nus3bank: true,
        }
    }

    /// The hex ID for a NUS3BANK track, the ID otherwise.
    pub fn effective_id(&self) -> (r: &str)
        ensures
            r@ == effective_id_of(self.deep_view()),
    {
        match &self.hex_id {
            Some(h) => h.as_str(),
            None => self.id.as_str(),
        }
    }

    /// A field-by-field copy.
    pub fn duplicate(&self) -> (r: Self)
        ensures
            r.deep_view() == self.deep_view(),
    {
        AudioFileInfo {
            name: self.name.clone(),
            id: self.id.clone(),
            size: self.size,
            filename: self.filename.clone(),
            file_type: self.file_type.clone(),
            hex_id: copy_opt_string(&self.hex_id),
            is_nus3bank: self.is_nus3bank,
        }
    }
}

/// A copy of a list of track descriptions.
pub fn copy_infos(v: &Vec<AudioFileInfo>) -> (r: Vec<AudioFileInfo>)
    ensures
        r.deep_view() == v.deep_view(),
{
    let mut r: Vec<AudioFileInfo> = Vec::new();
    let mut i: usize = 0;
    while i < v.len()
        invariant
            i <= v.len(),
            r.len() == i,
            forall|j: int| 0 <= j < i ==> (#[trigger] r@[j]).deep_view() == v@[j].deep_view(),
        decreases v.len() - i,
    {
        r.push(v[i].duplicate());
        i += 1;
    }
    assert(r.deep_view() =~= v.deep_view());
    r
}

} // verus!
