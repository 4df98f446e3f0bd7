//! Adding a new track: the ID suggested for it and the description the
//! track list gets once the dialog is confirmed.
use vstd::prelude::*;
use crate::audio_file_info::{AudioFileInfo, AudioFileInfoView};
use crate::paths::{file_name_of, file_stem_of, name_stem, path_file_name, path_file_stem};
use crate::text::{concat, decimal, decimal_string, parse_i32, parse_u32, parsed_i32, parsed_unsigned};

verus! {

/// Adding tracks.
pub struct AddAudioUtils;

/// Why a new track could not be added.
#[derive(Debug)]
pub enum AddAudioError {
    /// No audio file was chosen.
    NoAudioPath,
    /// The audio data could not be had (converting or reading it failed).
    Data(String),
    /// The name or the ID is empty.
    NameAndIdRequired,
    /// The ID is not a number that fits in 32 bits.
    IdMustBeValidNumber,
}

/// The largest positive ID among the IDs that read as 32-bit signed
/// numbers, or 0 when none is positive.
pub open spec fn max_positive_id(ids: Seq<Seq<char>>) -> int
    decreases ids.len(),
{
    if ids.len() == 0 {
        0
    } else {
        let prev = max_positive_id(ids.drop_last());
        match parsed_i32(ids.last()) {
            Some(v) => if v > prev { v } else { prev },
            None => prev,
        }
    }
}

/// The ID suggested for a new track: one more than the largest positive ID,
/// or 1000 when there is none.
pub open spec fn suggested_id_of(ids: Seq<Seq<char>>) -> Seq<char> {
    if max_positive_id(ids) > 0 {
        decimal((max_positive_id(ids) + 1) as nat)
    } else {
        "1000"@
    }
}

/// The file name a new track gets: the stem of the chosen file's name
/// (empty when the path has none) with `.wav`.
pub open spec fn added_filename(file_path: Seq<char>) -> Seq<char> {
    let name = match path_file_name(file_path) {
        Some(n) => n,
        None => Seq::empty(),
    };
    name_stem(name) + ".wav"@
}

proof fn lemma_max_positive_id_bounds(ids: Seq<Seq<char>>)
    ensures
        0 <= max_positive_id(ids) <= i32::MAX,
    decreases ids.len(),
{
    if ids.len() > 0 {
        lemma_max_positive_id_bounds(ids.drop_last());
        match parsed_i32(ids.last()) {
            Some(v) => {
                assert(v <= 0x7fff_ffff);
            },
            None => {},
        }
    }
}

impl AddAudioUtils {
    /// The ID suggested for a new track, from the (ID, name) pairs the file
    /// will hold once pending changes are applied.
    pub fn suggested_id(effective: &Vec<(String, String)>) -> (r: String)
        requires
            max_positive_id(effective@.map_values(|p: (String, String)| p.0@)) < i32::MAX,
        ensures
            r@ == suggested_id_of(effective@.map_values(|p: (String, String)| p.0@)),
    {
        let ghost ids = effective@.map_values(|p: (String, String)| p.0@);
        let mut max_id: i32 = 0;
        let mut i: usize = 0;
        while i < effective.len()
            invariant
                i <= effective.len(),
                ids == effective@.map_values(|p: (String, String)| p.0@),
                max_id as int == max_positive_id(ids.take(i as int)),
            decreases effective.len() - i,
        {
            proof {
                assert(ids.take(i + 1).drop_last() =~= ids.take(i as int));
                assert(ids.take(i + 1).last() == effective@[i as int].0@);
            }
            match parse_i32(effective[i].0.as_str()) {
                Some(v) => {
                    if v > max_id {
                        max_id = v;
                    }
                },
                None => {},
            }
            i += 1;
        }
        assert(ids.take(effective.len() as int) =~= ids);
        if max_id > 0 {
            decimal_string((max_id + 1) as u64)
        } else {
            "1000".to_string()
        }
    }

    /// The name a chosen file suggests for the new track: its stem, or
    /// nothing.
    pub fn default_name(file_path: &str) -> (r: String)
        ensures
            r@ == match path_file_stem(file_path@) {
                Some(s) => s,
                None => Seq::empty(),
            },
    {
        match file_stem_of(file_path) {
            Some(s) => s,
            None => String::new(),
        }
    }

    /// The new track once the dialog is confirmed: `file_path` is the chosen
    /// file, `name` and `id` what was typed, `data` the audio (converted to
    /// WAV and with the gain applied) or why it could not be had. The
    /// track's ID is the typed number written plainly, its size that of the
    /// data, its file name the chosen file's stem with `.wav`.
    pub fn process_new_audio(
        file_path: Option<&str>,
        name: &str,
        id: &str,
        is_nus3bank: bool,
        data: Result<Vec<u8>, String>,
    ) -> (r: Result<(AudioFileInfo, Vec<u8>), AddAudioError>)
        ensures
            match file_path {
                None => r == Err::<(AudioFileInfo, Vec<u8>), AddAudioError>(AddAudioError::NoAudioPath),
                Some(p) => match data {
                    Err(e) => r == Err::<(AudioFileInfo, Vec<u8>), AddAudioError>(AddAudioError::Data(e)),
                    Ok(d) => if name@.len() == 0 || id@.len() == 0 {
                        r == Err::<(AudioFileInfo, Vec<u8>), AddAudioError>(AddAudioError::NameAndIdRequired)
                    } else {
                        match parsed_unsigned(id@, u32::MAX as nat) {
                            None => r == Err::<(AudioFileInfo, Vec<u8>), AddAudioError>(
                                AddAudioError::IdMustBeValidNumber,
                            ),
                            Some(n) => r matches Ok((info, bytes)) && bytes == d && info.deep_view() == (AudioFileInfoView {
                                name: name@,
                                id: decimal(n),
                                size: d@.len() as usize,
                                filename: added_filename(p@),
                                file_type: "WAV Audio"@,
                                hex_id: None,
                                is_nus3bank,
                            }),
                        }
                    },
                },
            },
    {
        let path = match file_path {
            Some(p) => p,
            None => return Err(AddAudioError::NoAudioPath),
        };
        let bytes = match data {
            Ok(d) => d,
            Err(e) => return Err(AddAudioError::Data(e)),
        };
        if name.unicode_len() == 0 || id.unicode_len() == 0 {
            return Err(AddAudioError::NameAndIdRequired);
        }
        let id_val = match parse_u32(id) {
            Some(v) => v,
            None => return Err(AddAudioError::IdMustBeValidNumber),
        };
        let file_name = match file_name_of(path) {
            Some(n) => n,
            None => String::new(),
        };
        let stem = match file_stem_of(file_name.as_str()) {
            Some(s) => s,
            None => String::new(),
        };
        proof {
            crate::paths::lemma_stem_of_name(path@);
        }
        let filename = concat(stem.as_str(), ".wav");
        assert(filename@ == added_filename(path@));
        let info = AudioFileInfo {
            name: name.to_string(),
            id: decimal_string(id_val as u64),
            size: bytes.len(),
            filename,
            file_type: "WAV Audio".to_string(),
            hex_id: None,
            is_nus3bank,
        };
        Ok((info, bytes))
    }
}

/// `max_positive_id` is an upper bound of the positive IDs and, when
/// positive, one of them.
proof fn lemma_max_positive_id_is_max(ids: Seq<Seq<char>>)
    ensures
        forall|i: int| 0 <= i < ids.len() && (parsed_i32(#[trigger] ids[i]) matches Some(v) && v > 0) ==> parsed_i32(
            ids[i],
        )->0 <= max_positive_id(ids),
        max_positive_id(ids) > 0 ==> exists|i: int| 0 <= i < ids.len() && parsed_i32(#[trigger] ids[i]) == Some(
            max_positive_id(ids),
        ),
        max_positive_id(ids) >= 0,
    decreases ids.len(),
{
    if ids.len() > 0 {
        let init = ids.drop_last();
        lemma_max_positive_id_is_max(init);
        assert forall|i: int| 0 <= i < ids.len() && (parsed_i32(#[trigger] ids[i]) matches Some(v) && v > 0) implies parsed_i32(
            ids[i],
        )->0 <= max_positive_id(ids) by {
            if i < init.len() {
                assert(init[i] == ids[i]);
            }
        }
        if max_positive_id(ids) > 0 {
            if max_positive_id(ids) == max_positive_id(init) {
                let i = choose|i: int| 0 <= i < init.len() && parsed_i32(#[trigger] init[i]) == Some(max_positive_id(init));
                assert(ids[i] == init[i]);
            } else {
                assert(parsed_i32(ids[ids.len() - 1]) == Some(max_positive_id(ids)));
            }
        }
    }
}

/// The suggested ID is one more than the largest ID that reads as a
/// positive 32-bit signed number, whichever place that ID has in the list;
/// with no positive ID it is 1000. So, read as a number, it is larger than
/// every positive ID.
pub proof fn law_suggested_id_exceeds_all(ids: Seq<Seq<char>>)
    ensures
        forall|m: int|
            #![trigger decimal((m + 1) as nat)]
            m > 0 && (exists|i: int| 0 <= i < ids.len() && parsed_i32(#[trigger] ids[i]) == Some(m)) && (forall|j: int|
                0 <= j < ids.len() && (parsed_i32(#[trigger] ids[j]) matches Some(w) && w > 0) ==> parsed_i32(ids[j])->0
                    <= m) ==> suggested_id_of(ids) == decimal((m + 1) as nat),
        (forall|j: int| 0 <= j < ids.len() ==> !(parsed_i32(#[trigger] ids[j]) matches Some(w) && w > 0))
            ==> suggested_id_of(ids) == "1000"@,
        exists|n: nat|
            suggested_id_of(ids) == decimal(n) && forall|j: int|
                0 <= j < ids.len() && (parsed_i32(#[trigger] ids[j]) matches Some(w) && w > 0) ==> parsed_i32(ids[j])->0
                    < n,
{
    lemma_max_positive_id_is_max(ids);
    assert forall|m: int|
        #![trigger decimal((m + 1) as nat)]
        m > 0 && (exists|i: int| 0 <= i < ids.len() && parsed_i32(#[trigger] ids[i]) == Some(m)) && (forall|j: int|
            0 <= j < ids.len() && (parsed_i32(#[trigger] ids[j]) matches Some(w) && w > 0) ==> parsed_i32(ids[j])->0
                <= m) implies suggested_id_of(ids) == decimal((m + 1) as nat) by {
        let i = choose|i: int| 0 <= i < ids.len() && parsed_i32(#[trigger] ids[i]) == Some(m);
        assert(m <= max_positive_id(ids));
        if max_positive_id(ids) > 0 {
            let k = choose|k: int| 0 <= k < ids.len() && parsed_i32(#[trigger] ids[k]) == Some(max_positive_id(ids));
            assert(max_positive_id(ids) <= m);
        }
    }
    if max_positive_id(ids) > 0 {
        assert(suggested_id_of(ids) == decimal((max_positive_id(ids) + 1) as nat));
    } else {
        assert("1000"@ == decimal(1000)) by {
            reveal_strlit("1000");
            reveal_with_fuel(decimal, 4);
            assert(decimal(1000) =~= "1000"@);
        }
    }
    if forall|j: int| 0 <= j < ids.len() ==> !(parsed_i32(#[trigger] ids[j]) matches Some(w) && w > 0) {
        if max_positive_id(ids) > 0 {
            let k = choose|k: int| 0 <= k < ids.len() && parsed_i32(#[trigger] ids[k]) == Some(max_positive_id(ids));
            assert(!(parsed_i32(ids[k]) matches Some(w) && w > 0));
        }
    }
}

} // verus!
