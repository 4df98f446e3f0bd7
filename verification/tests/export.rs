use nus3edit::audio_file_info::AudioFileInfo;
use nus3edit::export_utils::{ExportRoute, ExportUtils};
use nus3edit::store::KeyedStore;

fn info(id: &str, bank: bool) -> AudioFileInfo {
    AudioFileInfo {
        name: "track".into(),
        id: id.into(),
        size: 4,
        filename: "track.lopus".into(),
        file_type: "OPUS".into(),
        is_nus3bank: bank,
        hex_id: None,
    }
}

#[test]
fn clear_wav_cache_for_file_removes_only_matching_entries() {
    let mut c: KeyedStore<String> = KeyedStore::new();
    c.insert("myfile.nus3audio::track_a::0".to_string(), "/tmp/a.wav".to_string());
    c.insert("myfile.nus3audio::track_b::1".to_string(), "/tmp/b.wav".to_string());
    c.insert("otherfile.nus3audio::track_c::0".to_string(), "/tmp/c.wav".to_string());

    ExportUtils::clear_wav_cache_for_file(&mut c, "myfile.nus3audio");

    assert!(!c.contains_key(&"myfile.nus3audio::track_a::0".to_string()), "cleared");
    assert!(!c.contains_key(&"myfile.nus3audio::track_b::1".to_string()), "cleared");
    assert!(c.contains_key(&"otherfile.nus3audio::track_c::0".to_string()), "unrelated entry must survive");
}

#[test]
fn clear_wav_cache_keeps_files_sharing_a_path_prefix() {
    let mut c: KeyedStore<String> = KeyedStore::new();
    c.insert("x.nus3audio::a::0".to_string(), "/tmp/a.wav".to_string());
    c.insert("x.nus3audio.bak::a::0".to_string(), "/tmp/b.wav".to_string());
    ExportUtils::clear_wav_cache_for_file(&mut c, "x.nus3audio");
    assert!(!c.contains_key(&"x.nus3audio::a::0".to_string()));
    assert_eq!(c.get(&"x.nus3audio.bak::a::0".to_string()), Some(&"/tmp/b.wav".to_string()));
    assert_eq!(c.len(), 1);
}

#[test]
fn prime_indexing_cache_zero_based() {
    let mut cache: KeyedStore<bool> = KeyedStore::new();
    ExportUtils::prime_indexing_cache(&mut cache, "test_zero_idx.nus3audio", &vec![0, 1, 2]);
    assert_eq!(cache.get(&"test_zero_idx.nus3audio".to_string()).copied(), Some(true));
}

#[test]
fn prime_indexing_cache_one_based() {
    let mut cache: KeyedStore<bool> = KeyedStore::new();
    ExportUtils::prime_indexing_cache(&mut cache, "test_one_idx.nus3audio", &vec![1, 2, 3]);
    assert_eq!(cache.get(&"test_one_idx.nus3audio".to_string()).copied(), Some(false));
}

#[test]
fn prime_indexing_cache_ignores_empty_list() {
    let mut cache: KeyedStore<bool> = KeyedStore::new();
    ExportUtils::prime_indexing_cache(&mut cache, "empty.nus3audio", &Vec::new());
    assert!(cache.is_empty());
}

#[test]
fn vgmstream_index_shifts_zero_based_ids() {
    let mut cache: KeyedStore<bool> = KeyedStore::new();
    ExportUtils::prime_indexing_cache(&mut cache, "z.nus3audio", &vec![0, 1]);
    ExportUtils::prime_indexing_cache(&mut cache, "o.nus3audio", &vec![1, 2]);
    assert_eq!(ExportUtils::get_vgmstream_index("0", "z.nus3audio", &mut cache, None).unwrap(), "1");
    assert_eq!(ExportUtils::get_vgmstream_index("7", "z.nus3audio", &mut cache, None).unwrap(), "8");
    assert_eq!(ExportUtils::get_vgmstream_index("7", "o.nus3audio", &mut cache, None).unwrap(), "7");
}

#[test]
fn vgmstream_index_scans_and_caches_unknown_file() {
    let mut cache: KeyedStore<bool> = KeyedStore::new();
    let r = ExportUtils::get_vgmstream_index("3", "new.nus3audio", &mut cache, Some(Ok(vec![2, 0, 1])));
    assert_eq!(r.unwrap(), "4");
    assert_eq!(cache.get(&"new.nus3audio".to_string()).copied(), Some(true));
}

#[test]
fn vgmstream_index_errors() {
    let mut cache: KeyedStore<bool> = KeyedStore::new();
    assert_eq!(
        ExportUtils::get_vgmstream_index("abc", "x.nus3audio", &mut cache, Some(Ok(vec![1]))).unwrap_err(),
        "Invalid audio file ID: abc"
    );
    assert_eq!(
        ExportUtils::get_vgmstream_index("1", "x.nus3audio", &mut cache, Some(Ok(Vec::new()))).unwrap_err(),
        "No audio files found in nus3audio file"
    );
    assert_eq!(
        ExportUtils::get_vgmstream_index("1", "x.nus3audio", &mut cache, Some(Err("gone".to_string()))).unwrap_err(),
        "Failed to open nus3audio file: gone"
    );
    assert!(cache.is_empty());
}

#[test]
fn stream_index_for_bank_tracks_is_id_plus_one() {
    let mut cache: KeyedStore<bool> = KeyedStore::new();
    assert_eq!(ExportUtils::vgmstream_stream_index_for(&info("4", true), "b.nus3bank", &mut cache, None), Some("5".to_string()));
    assert_eq!(ExportUtils::vgmstream_stream_index_for(&info("x", true), "b.nus3bank", &mut cache, None), None);
    assert_eq!(
        ExportUtils::vgmstream_stream_index_for(&info("4", false), "a.nus3audio", &mut cache, Some(Ok(vec![1, 2]))),
        Some("4".to_string())
    );
}

#[test]
fn detect_audio_extension_by_header() {
    assert_eq!(ExportUtils::detect_audio_extension(b"RIFF\0\0\0\0WAVEfmt "), "wav");
    assert_eq!(ExportUtils::detect_audio_extension(b"OggS...."), "ogg");
    assert_eq!(ExportUtils::detect_audio_extension(b"fLaC...."), "flac");
    assert_eq!(ExportUtils::detect_audio_extension(b"ID3\x03"), "mp3");
    assert_eq!(ExportUtils::detect_audio_extension(&[0xFF, 0xFB, 0x90]), "mp3");
    assert_eq!(ExportUtils::detect_audio_extension(b"RIFF\0\0\0\0AVI "), "bin");
    assert_eq!(ExportUtils::detect_audio_extension(b""), "bin");
}

#[test]
fn export_routes_follow_file_type() {
    assert_eq!(ExportUtils::export_all_to_wav_unified("C:/x/Song.NUS3BANK"), ExportRoute::Nus3bank);
    assert_eq!(ExportUtils::export_all_to_wav_unified("song.nus3audio"), ExportRoute::Nus3audio);
    assert_eq!(ExportUtils::export_to_wav_with_custom_dir_unified(&info("1", true)), ExportRoute::Nus3bank);
    assert_eq!(ExportUtils::export_to_wav_with_custom_dir_unified(&info("1", false)), ExportRoute::Nus3audio);
}

#[test]
fn wav_cache_key_joins_path_name_id() {
    assert_eq!(ExportUtils::wav_cache_key("myfile.nus3audio", &info("0", false)), "myfile.nus3audio::track::0");
}

#[test]
fn export_track_name_falls_back_to_id() {
    assert_eq!(ExportUtils::export_track_name("", 12), "audio_12");
    assert_eq!(ExportUtils::export_track_name("bgm", 12), "bgm");
}

#[test]
fn stream_index_overflow_only_when_one_is_added() {
    let mut cache: KeyedStore<bool> = KeyedStore::new();
    let max = "4294967295";
    assert!(ExportUtils::stream_index_overflows(&info(max, true), "b.nus3bank", &cache, &None));
    assert!(!ExportUtils::stream_index_overflows(&info("7", true), "b.nus3bank", &cache, &None));
    assert!(ExportUtils::stream_index_overflows(&info(max, false), "z.nus3audio", &cache, &Some(Ok(vec![0, 1]))));
    assert!(!ExportUtils::stream_index_overflows(&info(max, false), "o.nus3audio", &cache, &Some(Ok(vec![1, 2]))));
    cache.insert("o.nus3audio".to_string(), false);
    assert!(!ExportUtils::stream_index_overflows(&info(max, false), "o.nus3audio", &cache, &None));
    assert_eq!(
        ExportUtils::vgmstream_stream_index_for(&info(max, false), "o.nus3audio", &mut cache, None),
        Some(max.to_string())
    );
}
