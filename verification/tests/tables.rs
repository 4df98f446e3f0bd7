use nus3edit::nus3audio_check::nus3audio_parser_returns;
use nus3edit::add_audio_utils::{AddAudioError, AddAudioUtils};
use nus3edit::audio_controls::elide_middle;
use nus3edit::audio_file_info::AudioFileInfo;
use nus3edit::columns::{SearchColumn, SortColumn};
use nus3edit::confirm_modal::ConfirmModal;
use nus3edit::file_list::{FileList, FileListEvent};
use nus3edit::main_area_core::{file_kind, load_nus3audio_bytes, nus3audio_load_result, nus3bank_track_type, FileKind, FileLoadResult, MainAreaFileState};
use nus3edit::main_area_filtering::filtered_audio_files;
use nus3edit::nus3audio_model::AudioEntry;
use nus3edit::remove_utils::RemoveUtils;
use nus3edit::replace_utils::ReplaceUtils;
use nus3edit::store::KeyedStore;

fn row(name: &str, id: &str, size: usize, ty: &str) -> AudioFileInfo {
    AudioFileInfo {
        name: name.into(),
        id: id.into(),
        size,
        filename: format!("{name}.lopus"),
        file_type: ty.into(),
        is_nus3bank: false,
        hex_id: None,
    }
}

fn names(v: &[AudioFileInfo]) -> Vec<&str> {
    v.iter().map(|r| r.name.as_str()).collect()
}

#[test]
fn filtering_keeps_order_without_query_or_sort() {
    let files = vec![row("b", "2", 10, "OPUS"), row("a", "1", 5, "IDSP")];
    let hits = vec![false, false];
    let r = filtered_audio_files(Some(&files), "", SearchColumn::All, SortColumn::NoColumn, true, &hits);
    assert_eq!(names(&r), vec!["b", "a"]);
    let r = filtered_audio_files(None, "", SearchColumn::All, SortColumn::Name, true, &Vec::new());
    assert!(r.is_empty());
}

#[test]
fn filtering_matches_column_ignoring_case() {
    let files = vec![row("BGM_Title", "10", 1, "OPUS"), row("se_hit", "2", 1, "IDSP"), row("bgm_end", "3", 1, "OPUS")];
    let hits = vec![false, false, false];
    let r = filtered_audio_files(Some(&files), "bgm", SearchColumn::Name, SortColumn::NoColumn, true, &hits);
    assert_eq!(names(&r), vec!["BGM_Title", "bgm_end"]);
    let r = filtered_audio_files(Some(&files), "idsp", SearchColumn::Type, SortColumn::NoColumn, true, &hits);
    assert_eq!(names(&r), vec!["se_hit"]);
    let r = filtered_audio_files(Some(&files), "1", SearchColumn::Id, SortColumn::NoColumn, true, &hits);
    assert_eq!(names(&r), vec!["BGM_Title"]);
    let size_hits = vec![false, true, false];
    let r = filtered_audio_files(Some(&files), "zzz", SearchColumn::Size, SortColumn::NoColumn, true, &size_hits);
    assert_eq!(names(&r), vec!["se_hit"]);
}

#[test]
fn sorting_ids_numbers_first_then_text() {
    let files = vec![row("a", "10", 1, "x"), row("b", "beta", 1, "x"), row("c", "9", 1, "x"), row("d", "Alpha", 1, "x")];
    let hits = vec![false; 4];
    let r = filtered_audio_files(Some(&files), "", SearchColumn::All, SortColumn::Id, true, &hits);
    assert_eq!(names(&r), vec!["c", "a", "d", "b"]);
    let r = filtered_audio_files(Some(&files), "", SearchColumn::All, SortColumn::Id, false, &hits);
    assert_eq!(names(&r), vec!["b", "d", "a", "c"]);
}

#[test]
fn sorting_is_stable_for_equal_keys() {
    let files = vec![row("x", "1", 5, "t"), row("y", "2", 3, "t"), row("z", "3", 5, "t")];
    let hits = vec![false; 3];
    let r = filtered_audio_files(Some(&files), "", SearchColumn::All, SortColumn::Size, true, &hits);
    assert_eq!(names(&r), vec!["y", "x", "z"]);
    let r = filtered_audio_files(Some(&files), "", SearchColumn::All, SortColumn::Size, false, &hits);
    assert_eq!(names(&r), vec!["x", "z", "y"]);
    let r = filtered_audio_files(Some(&files), "", SearchColumn::All, SortColumn::Type, true, &hits);
    assert_eq!(names(&r), vec!["x", "y", "z"]);
}

#[test]
fn sorting_names_ignores_case() {
    let files = vec![row("beta", "1", 1, "t"), row("Alpha", "2", 1, "t"), row("alpha2", "3", 1, "t")];
    let hits = vec![false; 3];
    let r = filtered_audio_files(Some(&files), "", SearchColumn::All, SortColumn::Name, true, &hits);
    assert_eq!(names(&r), vec!["Alpha", "alpha2", "beta"]);
}

#[test]
fn column_labels() {
    assert_eq!(SearchColumn::All.display_name(), "All Columns");
    assert_eq!(SearchColumn::all_columns().len(), 6);
    assert_eq!(SortColumn::Filename.display_name(), "Filename");
    assert_eq!(SortColumn::NoColumn.display_name(), "");
}

#[test]
fn file_list_add_select_remove() {
    let mut l = FileList::new();
    l.add_file("/music/a.nus3audio".to_string());
    l.add_file("/music/b.nus3bank".to_string());
    assert_eq!(l.files.len(), 2);
    assert_eq!(l.files[1].name, "b.nus3bank");
    assert_eq!(l.selected_file.as_deref(), Some("/music/b.nus3bank"));
    assert!(l.files[1].is_selected && !l.files[0].is_selected);
    l.add_file("/music/a.nus3audio".to_string());
    assert_eq!(l.files.len(), 2, "a path already listed is not added twice");
    assert_eq!(l.selected_file.as_deref(), Some("/music/b.nus3bank"));
    l.remove_file("/music/b.nus3bank");
    assert_eq!(l.files.len(), 1);
    assert_eq!(l.selected_file.as_deref(), Some("/music/a.nus3audio"));
    assert!(l.files[0].is_selected);
    l.remove_file("/missing");
    assert_eq!(l.files.len(), 1);
    l.clear_all();
    assert!(l.files.is_empty() && l.selected_file.is_none());
}

#[test]
fn file_list_unknown_name_and_filter() {
    let mut l = FileList::new();
    l.add_file("/".to_string());
    assert_eq!(l.files[0].name, "Unknown file");
    l.add_file("/x/Voice.nus3bank".to_string());
    l.search_query = "VOICE".to_string();
    assert_eq!(l.filtered_files(), vec![1]);
    l.search_query = String::new();
    assert_eq!(l.filtered_files(), vec![0, 1]);
}

#[test]
fn confirm_modal_lifecycle() {
    let mut c = ConfirmModal::new();
    assert_eq!(c.title, "Confirm");
    assert_eq!(c.message, "Are you sure you want to perform this action?");
    c.open("Clear", "Remove all?");
    assert!(c.open && !c.confirmed && !c.cancelled);
    assert_eq!(c.title, "Clear");
    c.confirmed = true;
    c.close();
    assert!(!c.open && c.confirmed);
    c.reset_state();
    assert!(!c.confirmed && !c.cancelled);
}

#[test]
fn elide_middle_shapes() {
    assert_eq!(elide_middle("short", 10), "short");
    assert_eq!(elide_middle("abcdefghij", 5), "abcde");
    assert_eq!(elide_middle("abcdefghijklmnop", 9), "abcd\u{2026}mnop");
    assert_eq!(elide_middle("abcdefghijklmnop", 10), "abcd\u{2026}lmnop");
    assert_eq!(elide_middle("abcdefghijklmnop", 10).chars().count(), 10);
}

#[test]
fn add_audio_suggests_next_id() {
    let list = vec![("5".to_string(), "a".to_string()), ("abc".to_string(), "b".to_string()), ("12".to_string(), "c".to_string())];
    assert_eq!(AddAudioUtils::suggested_id(&list), "13");
    assert_eq!(AddAudioUtils::suggested_id(&Vec::new()), "1000");
    let neg = vec![("-4".to_string(), "a".to_string()), ("0".to_string(), "b".to_string())];
    assert_eq!(AddAudioUtils::suggested_id(&neg), "1000");
}

#[test]
fn add_audio_builds_track_info() {
    let (info, data) = AddAudioUtils::process_new_audio(Some("/in/My Song.mp3"), "song", "+007", false, Ok(vec![1, 2, 3])).unwrap();
    assert_eq!(info.name, "song");
    assert_eq!(info.id, "7");
    assert_eq!(info.size, 3);
    assert_eq!(info.filename, "My Song.wav");
    assert_eq!(info.file_type, "WAV Audio");
    assert_eq!(data, vec![1, 2, 3]);
    assert_eq!(AddAudioUtils::default_name("/in/My Song.mp3"), "My Song");
}

#[test]
fn add_audio_errors() {
    assert!(matches!(AddAudioUtils::process_new_audio(None, "a", "1", false, Ok(vec![])), Err(AddAudioError::NoAudioPath)));
    assert!(matches!(
        AddAudioUtils::process_new_audio(Some("x.wav"), "a", "1", false, Err("no data".to_string())),
        Err(AddAudioError::Data(ref e)) if e == "no data"
    ));
    assert!(matches!(AddAudioUtils::process_new_audio(Some("x.wav"), "", "1", false, Ok(vec![])), Err(AddAudioError::NameAndIdRequired)));
    assert!(matches!(AddAudioUtils::process_new_audio(Some("x.wav"), "a", "-1", false, Ok(vec![])), Err(AddAudioError::IdMustBeValidNumber)));
}

#[test]
fn remove_audio_reports_missing_track() {
    let entries = vec![AudioEntry { id: 1, name: "a".to_string(), data: vec![1, 2, 3, 4] }];
    assert!(RemoveUtils::remove_in_memory(&row("a", "1", 4, "x")).is_ok());
    let e = RemoveUtils::remove_audio(&row("b", "1", 4, "x"), entries).unwrap_err();
    assert_eq!(e, "Audio file 'b' not found in NUS3AUDIO file");
}

#[test]
fn remove_audio_writes_remaining_tracks() {
    let entries = vec![
        AudioEntry { id: 0, name: "a".to_string(), data: b"OPUSdata".to_vec() },
        AudioEntry { id: 1, name: "b".to_string(), data: b"IDSPdata".to_vec() },
    ];
    let bytes = RemoveUtils::remove_audio(&row("a", "0", 8, "x"), entries).unwrap();
    let parsed = nus3audio::Nus3audioFile::from_bytes(&bytes);
    assert_eq!(parsed.files.len(), 1);
    assert_eq!(parsed.files[0].name, "b");
    assert_eq!(parsed.files[0].id, 1);
}

#[test]
fn file_kind_by_extension() {
    assert_eq!(file_kind("C:/a/B.NUS3AUDIO").unwrap(), FileKind::Nus3audio);
    assert_eq!(file_kind("b.nus3bank").unwrap(), FileKind::Nus3bank);
    assert_eq!(file_kind("x.wav").unwrap_err(), "Unsupported file format: x.wav");
}

#[test]
fn bank_track_type_labels() {
    assert_eq!(nus3bank_track_type(Some(&b"BNSF....".to_vec())), "BNSF");
    assert_eq!(nus3bank_track_type(Some(&b"RIFF\0\0\0\0WAVE".to_vec())), "WAV");
    assert_eq!(nus3bank_track_type(Some(&b"RIFF\0\0\0\0AVI ".to_vec())), "Unknown");
    assert_eq!(nus3bank_track_type(None), "Unknown");
}

#[test]
fn load_result_rows_follow_tracks() {
    let entries = vec![
        AudioEntry { id: 0, name: "bgm".to_string(), data: b"OPUS1234".to_vec() },
        AudioEntry { id: 5, name: "se".to_string(), data: b"ID".to_vec() },
    ];
    match nus3audio_load_result("f.nus3audio", &entries) {
        FileLoadResult::Nus3audio { file_name, file_count, audio_files, track_ids } => {
            assert_eq!(file_name, "f.nus3audio");
            assert_eq!(file_count, 2);
            assert_eq!(track_ids, vec![0, 5]);
            assert_eq!(audio_files[0].filename, "bgm.lopus");
            assert_eq!(audio_files[0].file_type, "OPUS");
            assert_eq!(audio_files[1].id, "5");
            assert_eq!(audio_files[1].file_type, "Unknown");
        },
        other => panic!("unexpected {:?}", other),
    }
}

#[test]
fn selection_reload_rules() {
    let mut st = MainAreaFileState::new();
    let mut reps = ReplaceUtils::new();
    let mut cache: KeyedStore<bool> = KeyedStore::new();
    assert_eq!(st.update_selected_file(Some("a.nus3audio".to_string()), &mut reps), Some("a.nus3audio".to_string()));
    let entries = vec![AudioEntry { id: 0, name: "bgm".to_string(), data: b"OPUS".to_vec() }];
    st.apply_file_load(nus3audio_load_result("a.nus3audio", &entries), &mut cache);
    assert_eq!(st.file_count, Some(1));
    assert_eq!(cache.get(&"a.nus3audio".to_string()).copied(), Some(true));
    assert_eq!(st.update_selected_file(Some("a.nus3audio".to_string()), &mut reps), None, "same file is not reloaded");
    assert_eq!(st.force_reload_selected_file(&mut reps), Some("a.nus3audio".to_string()));
    assert!(st.audio_files.is_none());
    st.apply_file_load(FileLoadResult::Error("broken".to_string()), &mut cache);
    assert_eq!(st.error_message.as_deref(), Some("broken"));
}

fn file_bytes(tracks: &[(u32, &str, &[u8])]) -> Vec<u8> {
    let file = nus3audio::Nus3audioFile {
        files: tracks
            .iter()
            .map(|(id, name, data)| nus3audio::AudioFile { id: *id, name: name.to_string(), data: data.to_vec() })
            .collect(),
    };
    let mut out = Vec::new();
    file.write(&mut out);
    out
}

#[test]
fn load_from_bytes_reads_tracks() {
    let bytes = file_bytes(&[(0, "bgm", &b"OPUS1234"[..]), (5, "se", &b"IDSP5678"[..])]);
    match load_nus3audio_bytes("f.nus3audio", &bytes) {
        FileLoadResult::Nus3audio { file_name, file_count, audio_files, track_ids } => {
            assert_eq!(file_name, "f.nus3audio");
            assert_eq!(file_count, 2);
            assert_eq!(track_ids, vec![0, 5]);
            assert_eq!(audio_files[0].name, "bgm");
            assert_eq!(audio_files[1].filename, "se.idsp");
        },
        other => panic!("unexpected {:?}", other),
    }
}

#[test]
fn load_from_bytes_refuses_other_data() {
    match load_nus3audio_bytes("f.nus3audio", b"RIFF\0\0\0\0WAVE") {
        FileLoadResult::Error(e) => assert_eq!(e, "Error loading NUS3AUDIO file: invalid NUS3AUDIO data"),
        other => panic!("unexpected {:?}", other),
    }
}

#[test]
fn remove_audio_from_file_bytes() {
    let bytes = file_bytes(&[(0, "a", &b"OPUSdata"[..]), (1, "b", &b"IDSPdata"[..])]);
    let out = RemoveUtils::remove_audio_from_file(&row("a", "0", 8, "x"), &bytes).unwrap();
    let parsed = nus3audio::Nus3audioFile::from_bytes(&out);
    assert_eq!(parsed.files.len(), 1);
    assert_eq!(parsed.files[0].name, "b");
    assert_eq!(
        RemoveUtils::remove_audio_from_file(&row("z", "9", 8, "x"), &bytes).unwrap_err(),
        "Audio file 'z' not found in NUS3AUDIO file"
    );
    assert_eq!(
        RemoveUtils::remove_audio_from_file(&row("a", "0", 8, "x"), b"nothing").unwrap_err(),
        "Failed to open NUS3AUDIO file: invalid NUS3AUDIO data"
    );
}

#[test]
fn apply_replacements_to_file_bytes() {
    let bytes = file_bytes(&[(0, "a", &b"OPUSold1"[..]), (1, "b", &b"IDSPold2"[..])]);
    let mut r = ReplaceUtils::new();
    r.replace_in_memory(&row("b", "1", 8, "x"), "b.wav", b"RIFFnew!".to_vec()).unwrap();
    let out = r.apply_replacements_to_file(&bytes, &vec![]).unwrap();
    let parsed = nus3audio::Nus3audioFile::from_bytes(&out);
    assert_eq!(parsed.files.len(), 2);
    assert_eq!(parsed.files[0].data, b"OPUSold1".to_vec());
    assert_eq!(parsed.files[1].data, b"RIFFnew!".to_vec());
    assert_eq!(parsed.files[1].id, 1);
    assert_eq!(
        r.apply_replacements_to_file(b"nothing", &vec![]).unwrap_err(),
        "Failed to open NUS3AUDIO file: invalid NUS3AUDIO data"
    );
}

#[test]
fn file_list_events() {
    let mut l = FileList::new();
    assert!(!l.on_event(FileListEvent::ClearAllClicked("Clear".to_string(), "Remove 0?".to_string())));
    assert!(!l.confirm_clear_modal.open, "nothing to clear");
    assert!(l.on_event(FileListEvent::AddFiles(vec!["/m/a.nus3audio".to_string(), "/m/b.nus3bank".to_string()])));
    assert_eq!(l.files.len(), 2);
    assert_eq!(l.selected_file.as_deref(), Some("/m/b.nus3bank"));
    assert!(l.on_event(FileListEvent::RowClicked("/m/a.nus3audio".to_string())));
    assert!(l.files[0].is_selected && !l.files[1].is_selected);
    assert!(l.on_event(FileListEvent::RemoveClicked("/m/a.nus3audio".to_string())));
    assert_eq!(l.selected_file.as_deref(), Some("/m/b.nus3bank"));
    l.search_query = "x".to_string();
    assert!(!l.on_event(FileListEvent::ClearSearch));
    assert!(l.search_query.is_empty());
    assert!(!l.on_event(FileListEvent::ClearAllClicked("Clear".to_string(), "Remove 1?".to_string())));
    assert!(l.confirm_clear_modal.open);
    assert_eq!(l.confirm_clear_modal.message, "Remove 1?");
    l.confirm_clear_modal.cancelled = true;
    assert!(!l.on_event(FileListEvent::ConfirmChecked));
    assert_eq!(l.files.len(), 1, "a cancelled dialog keeps the files");
    assert!(!l.confirm_clear_modal.cancelled);
    l.confirm_clear_modal.confirmed = true;
    assert!(l.on_event(FileListEvent::ConfirmChecked));
    assert!(l.files.is_empty() && l.selected_file.is_none());
    assert!(!l.confirm_clear_modal.confirmed);
}

#[test]
fn reader_check_refuses_bodies_the_reader_cannot_read() {
    let empty_body = b"NUS3\0\0\0\0";
    assert!(!nus3audio_parser_returns(empty_body));
    match load_nus3audio_bytes("f.nus3audio", empty_body) {
        FileLoadResult::Error(e) => assert_eq!(e, "Error loading NUS3AUDIO file: invalid NUS3AUDIO data"),
        other => panic!("unexpected {:?}", other),
    }
    assert!(nus3audio_parser_returns(b"RIFF0000WAVE"));
    assert!(nus3audio_parser_returns(b"NUS3\x64\0\0\0short"));
    let good = file_bytes(&[(0, "bgm", &b"OPUS1234"[..]), (5, "se", &b"IDSP5678"[..])]);
    assert!(nus3audio_parser_returns(&good));
    let at = good.windows(3).position(|w| w == b"bgm").unwrap();
    let mut bad_name = good.clone();
    bad_name[at + 1] = 0xFF;
    assert!(!nus3audio_parser_returns(&bad_name));
    assert!(RemoveUtils::remove_audio_from_file(&row("bgm", "0", 8, "x"), &bad_name).is_err());
}

#[test]
fn reader_check_agrees_with_the_reader() {
    let good = file_bytes(&[(0, "bgm", &b"OPUS1234"[..]), (5, "se", &b"IDSP5678"[..]), (9, "v", &b"RIFFdata"[..])]);
    let mut accepted = 0;
    for pos in 0..good.len() {
        for value in [0x00u8, 0x01, 0x04, 0x7F, 0x80, 0xFF] {
            let mut bytes = good.clone();
            bytes[pos] = value;
            if nus3audio_parser_returns(&bytes) {
                accepted += 1;
                let _ = nus3audio::Nus3audioFile::try_from_bytes(&bytes);
            }
        }
    }
    for len in 0..good.len() {
        if nus3audio_parser_returns(&good[..len]) {
            let _ = nus3audio::Nus3audioFile::try_from_bytes(&good[..len]);
        }
    }
    assert!(accepted > 0);
}
