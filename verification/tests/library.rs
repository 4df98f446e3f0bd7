use nus3edit::audio_file_info::AudioFileInfo;
use nus3edit::audio_player::{fallback_track_data, playback_source, PlaybackSource};
use nus3edit::nus3audio_file_utils::Nus3audioFileUtils;
use nus3edit::nus3audio_model::AudioEntry;
use nus3edit::paths::{file_name_of, file_stem_of};
use nus3edit::replace_utils::ReplaceUtils;
use nus3edit::text::{is_whitespace_char, parse_i32, parse_u32, parse_usize, split_single_colon, trimmed_chars};
use nus3edit::wav::{get_wav_sample_rate, get_wav_total_samples, modify_wav_smpl_chunk};

fn info(name: &str, id: &str) -> AudioFileInfo {
    AudioFileInfo {
        name: name.into(),
        id: id.into(),
        size: 4,
        filename: format!("{name}.lopus"),
        file_type: "OPUS".into(),
        is_nus3bank: false,
        hex_id: None,
    }
}

fn wav(channels: u16, bits: u16, rate: u32, data_len: u32) -> Vec<u8> {
    let mut v = Vec::new();
    v.extend_from_slice(b"RIFF");
    v.extend_from_slice(&(36 + data_len).to_le_bytes());
    v.extend_from_slice(b"WAVEfmt ");
    v.extend_from_slice(&16u32.to_le_bytes());
    v.extend_from_slice(&1u16.to_le_bytes());
    v.extend_from_slice(&channels.to_le_bytes());
    v.extend_from_slice(&rate.to_le_bytes());
    v.extend_from_slice(&(rate * channels as u32 * (bits as u32 / 8)).to_le_bytes());
    v.extend_from_slice(&(channels * bits / 8).to_le_bytes());
    v.extend_from_slice(&bits.to_le_bytes());
    v.extend_from_slice(b"data");
    v.extend_from_slice(&data_len.to_le_bytes());
    v.extend(std::iter::repeat(0u8).take(data_len as usize));
    v
}

#[test]
fn wav_sample_rate_and_total_samples() {
    let w = wav(2, 16, 48000, 400);
    assert_eq!(get_wav_sample_rate(&w), Ok(48000));
    assert_eq!(get_wav_total_samples(&w), Ok(100));
    let mono = wav(1, 8, 8000, 10);
    assert_eq!(get_wav_total_samples(&mono), Ok(10));
}

#[test]
fn wav_header_errors() {
    assert_eq!(get_wav_sample_rate(b"RIFF").unwrap_err(), "Invalid WAV file: missing RIFF header");
    let mut w = wav(1, 16, 8000, 0);
    w[8..12].copy_from_slice(b"AVI ");
    assert_eq!(get_wav_sample_rate(&w).unwrap_err(), "Invalid WAV file: not WAVE format");
    let mut w = wav(1, 16, 8000, 0);
    w[12..16].copy_from_slice(b"junk");
    w[16..20].copy_from_slice(&100u32.to_le_bytes());
    assert_eq!(get_wav_sample_rate(&w).unwrap_err(), "Could not find fmt chunk in WAV file");
    assert_eq!(get_wav_total_samples(&[0u8; 50]).unwrap_err(), "Invalid WAV file: missing RIFF header");
}

#[test]
fn smpl_patch_writes_loop_points() {
    let mut w = vec![0u8; 0x60];
    w[0..4].copy_from_slice(b"RIFF");
    w[0x24..0x28].copy_from_slice(b"smpl");
    modify_wav_smpl_chunk(&mut w, 1000, 0x01020304).unwrap();
    assert_eq!(&w[0x58..0x5C], &1000u32.to_le_bytes());
    assert_eq!(&w[0x5C..0x60], &[4, 3, 2, 1]);
}

#[test]
fn smpl_patch_refuses_files_without_room() {
    let mut w = vec![0u8; 0x40];
    w[0..4].copy_from_slice(b"RIFF");
    assert_eq!(modify_wav_smpl_chunk(&mut w, 1, 2).unwrap_err(), "smpl chunk not found at expected position 0x24");
    w[0x24..0x28].copy_from_slice(b"smpl");
    let before = w.clone();
    assert_eq!(modify_wav_smpl_chunk(&mut w, 1, 2).unwrap_err(), "WAV file too small to contain loop point data");
    assert_eq!(w, before);
    let mut tiny = b"RIFF0000WAVE".to_vec();
    assert_eq!(modify_wav_smpl_chunk(&mut tiny, 1, 2).unwrap_err(), "WAV file too small to contain smpl chunk");
    let mut bad = vec![0u8; 20];
    assert_eq!(modify_wav_smpl_chunk(&mut bad, 1, 2).unwrap_err(), "Invalid WAV file: missing RIFF header");
}

#[test]
fn replace_then_read_back() {
    let mut r = ReplaceUtils::new();
    assert!(!r.has_replacement_data());
    let updated = r.replace_in_memory(&info("bgm", "3"), "/new/Loop Mix.wav", vec![9, 8, 7]).unwrap();
    assert_eq!(updated.size, 3);
    assert_eq!(updated.filename, "Loop Mix.wav");
    assert_eq!(r.get_replacement_data("bgm", "3"), Some(vec![9, 8, 7]));
    assert_eq!(r.get_replacement_path("bgm", "3").as_deref(), Some("/new/Loop Mix.wav"));
    assert_eq!(r.get_replacement_data_unified(&info("bgm", "3")), Some(vec![9, 8, 7]));
    assert_eq!(r.get_replacement_count(), 1);
    r.clear_replacements();
    assert!(r.get_replacement_data("bgm", "3").is_none());
}

#[test]
fn empty_wav_replacement_is_valid_wav() {
    let mut r = ReplaceUtils::new();
    let updated = r.replace_with_empty_wav_in_memory(&info("se", "1"), "x.nus3audio").unwrap();
    assert_eq!(updated.size, 44);
    let data = r.get_replacement_data("se", "1").unwrap();
    assert_eq!(data.len(), 44);
    assert_eq!(get_wav_sample_rate(&data), Ok(8000));
    assert_eq!(get_wav_total_samples(&data), Ok(0));
}

#[test]
fn save_applies_replacements_and_additions() {
    let mut r = ReplaceUtils::new();
    r.replace_in_memory(&info("a", "0"), "a.wav", b"RIFFnew!".to_vec()).unwrap();
    let entries = vec![
        AudioEntry { id: 0, name: "a".to_string(), data: b"OPUSold1".to_vec() },
        AudioEntry { id: 1, name: "b".to_string(), data: b"IDSPold2".to_vec() },
    ];
    let additions = vec![("7".to_string(), "c".to_string(), b"RIFFadd!".to_vec())];
    let bytes = r.apply_replacements_and_save(entries, &additions).unwrap();
    let parsed = nus3audio::Nus3audioFile::from_bytes(&bytes);
    assert_eq!(parsed.files.len(), 3);
    assert_eq!(parsed.files[0].data, b"RIFFnew!".to_vec());
    assert_eq!(parsed.files[1].data, b"IDSPold2".to_vec());
    assert_eq!(parsed.files[2].name, "c");
    assert_eq!(parsed.files[2].id, 7);
}

#[test]
fn pending_changes_and_effective_list() {
    let mut u = Nus3audioFileUtils::new();
    let reps = ReplaceUtils::new();
    assert!(!u.has_pending_changes(&reps));
    assert_eq!(u.register_add_audio(&info("new", "x"), vec![1]).unwrap_err(), "ID must be a valid number");
    u.register_add_audio(&info("new", "9"), vec![1, 2]).unwrap();
    u.register_remove(&info("old", "1")).unwrap();
    assert!(u.has_pending_changes(&reps));
    assert_eq!(u.get_pending_changes_count(&reps), 2);
    assert_eq!(u.get_pending_added_data("new", "9"), Some(vec![1, 2]));
    assert_eq!(u.get_pending_added_data("old", "1"), None);
    let existing = vec![info("old", "1"), info("keep", "2")];
    let list = u.get_effective_audio_list(Some(&existing));
    assert_eq!(list, vec![("2".to_string(), "keep".to_string()), ("9".to_string(), "new".to_string())]);
    assert_eq!(u.get_pending_additions().len(), 1);
    u.clear_changes();
    assert!(!u.has_pending_changes(&reps));
}

#[test]
fn remove_after_add_replaces_the_addition() {
    let mut u = Nus3audioFileUtils::new();
    let reps = ReplaceUtils::new();
    u.register_add(&info("a", "1"), vec![3]).unwrap();
    let count = u.get_pending_changes_count(&reps);
    assert_eq!(u.register_remove(&info("a", "1")), Ok(()));
    assert_eq!(u.get_pending_changes_count(&reps), count);
    assert_eq!(u.get_pending_added_data("a", "1"), None);
    assert!(u.get_pending_additions().is_empty());
}

#[test]
fn effective_list_removes_then_adds() {
    let mut u = Nus3audioFileUtils::new();
    u.clear_changes();
    u.register_remove(&info("a", "1")).unwrap();
    u.register_add(&info("c", "3"), vec![7]).unwrap();
    let existing = vec![info("a", "1"), info("b", "2")];
    assert_eq!(
        u.get_effective_audio_list(Some(&existing)),
        vec![("2".to_string(), "b".to_string()), ("3".to_string(), "c".to_string())]
    );
    assert_eq!(u.get_effective_audio_list(None), vec![("3".to_string(), "c".to_string())]);
}

#[test]
fn pending_count_matches_pending_flag() {
    let mut u = Nus3audioFileUtils::new();
    let mut reps = ReplaceUtils::new();
    assert_eq!(u.has_pending_changes(&reps), u.get_pending_changes_count(&reps) > 0);
    reps.replace_in_memory(&info("a", "1"), "r.wav", vec![6]).unwrap();
    assert_eq!(u.has_pending_changes(&reps), u.get_pending_changes_count(&reps) > 0);
    u.register_add(&info("b", "2"), vec![1]).unwrap();
    assert_eq!(u.get_pending_changes_count(&reps), 2);
    assert!(u.has_pending_changes(&reps));
}

#[test]
fn playback_prefers_replacement_then_addition() {
    let mut reps = ReplaceUtils::new();
    let mut changes = Nus3audioFileUtils::new();
    assert!(matches!(playback_source(&reps, &changes, &info("a", "1")), PlaybackSource::FromFile));
    changes.register_add(&info("a", "1"), vec![5]).unwrap();
    assert!(matches!(playback_source(&reps, &changes, &info("a", "1")), PlaybackSource::PendingAddition(ref d) if *d == vec![5]));
    reps.replace_in_memory(&info("a", "1"), "r.wav", vec![6]).unwrap();
    assert!(matches!(playback_source(&reps, &changes, &info("a", "1")), PlaybackSource::Replacement(ref d) if *d == vec![6]));
}

#[test]
fn fallback_data_by_name() {
    let entries = vec![
        AudioEntry { id: 0, name: "a".to_string(), data: vec![1] },
        AudioEntry { id: 1, name: "a".to_string(), data: vec![2] },
    ];
    assert_eq!(fallback_track_data(&entries, "a"), Ok(vec![1]));
    assert_eq!(fallback_track_data(&entries, "z").unwrap_err(), "Audio file 'z' not found in NUS3AUDIO file");
}

#[test]
fn number_parsing_follows_std() {
    assert_eq!(parse_u32("42"), Some(42));
    assert_eq!(parse_u32("+42"), Some(42));
    assert_eq!(parse_u32("4294967296"), None);
    assert_eq!(parse_u32(""), None);
    assert_eq!(parse_u32("-1"), None);
    assert_eq!(parse_usize("007"), Some(7));
    assert_eq!(parse_i32("-2147483648"), Some(i32::MIN));
    assert_eq!(parse_i32("2147483648"), None);
    assert_eq!(parse_i32("-"), None);
}

#[test]
fn colon_split_needs_exactly_one_colon() {
    assert_eq!(split_single_colon("a:b"), Some(("a".to_string(), "b".to_string())));
    assert_eq!(split_single_colon("a:b:c"), None);
    assert_eq!(split_single_colon("ab"), None);
}

#[test]
fn trim_drops_outer_whitespace() {
    assert_eq!(trimmed_chars("  a b \t\n").into_iter().collect::<String>(), "a b");
    assert!(trimmed_chars(" \u{3000} ").is_empty());
}

#[test]
fn path_names_and_stems() {
    assert_eq!(file_name_of("/a/b/song.wav").as_deref(), Some("song.wav"));
    assert_eq!(file_name_of("/a/b/").as_deref(), Some("b"));
    assert_eq!(file_name_of("/a/.."), None);
    assert_eq!(file_name_of(""), None);
    assert_eq!(file_stem_of("/a/archive.tar.gz").as_deref(), Some("archive.tar"));
    assert_eq!(file_stem_of("/a/.hidden").as_deref(), Some(".hidden"));
    assert_eq!(file_stem_of("/a/noext").as_deref(), Some("noext"));
    assert_eq!(file_name_of("E:\\Songs\\bgm.wav").as_deref(), Some("bgm.wav"));
    assert_eq!(file_name_of("E:\\Songs/mixed\\").as_deref(), Some("mixed"));
    assert_eq!(file_stem_of("C:\\x\\a.b.nus3audio").as_deref(), Some("a.b"));
}

#[test]
fn whitespace_agrees_with_std() {
    for u in 0u32..0x11000 {
        if let Some(c) = char::from_u32(u) {
            assert_eq!(is_whitespace_char(c), c.is_whitespace(), "U+{:04X}", u);
        }
    }
    let trimmed: String = trimmed_chars("\u{3000} x y\u{85}\t").into_iter().collect();
    assert_eq!(trimmed, "x y");
}
