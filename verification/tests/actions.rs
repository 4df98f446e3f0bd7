use nus3edit::audio_file_info::AudioFileInfo;
use nus3edit::columns::SortColumn;
use nus3edit::main_area_actions::{
    bank_tool_target, BankToolTarget,
    add_confirmed_audio, remove_one, remove_selected, replace_selected_with_empty_wav, ConfirmedAction, PendingConfirm,
};
use nus3edit::nus3audio_file_utils::Nus3audioFileUtils;
use nus3edit::replace_utils::ReplaceUtils;
use nus3edit::store::KeyedStore;
use nus3edit::table_renderer::{short_id, TableRenderer};

fn row(name: &str, id: &str) -> AudioFileInfo {
    AudioFileInfo {
        name: name.into(),
        id: id.into(),
        size: 100,
        filename: format!("{name}.lopus"),
        file_type: "OPUS".into(),
        is_nus3bank: false,
        hex_id: None,
    }
}

fn sel(keys: &[&str]) -> KeyedStore<()> {
    let mut s = KeyedStore::new();
    for k in keys {
        s.insert(k.to_string(), ());
    }
    s
}

#[test]
fn remove_selected_drops_rows_and_registers() {
    let mut files = vec![row("a", "1"), row("b", "2"), row("c", "3")];
    let mut selected = sel(&["a:1", "c:3", "zz:9", "nocolon"]);
    let mut changes = Nus3audioFileUtils::new();
    let n = remove_selected(&mut files, &mut selected, &mut changes);
    assert_eq!(n, 2);
    assert_eq!(files.len(), 1);
    assert_eq!(files[0].name, "b");
    assert!(!selected.contains_key(&"a:1".to_string()));
    assert!(selected.contains_key(&"zz:9".to_string()));
    let list = changes.get_effective_audio_list(Some(&vec![row("a", "1"), row("b", "2"), row("c", "3")]));
    assert_eq!(list, vec![("2".to_string(), "b".to_string())]);
}

#[test]
fn remove_one_updates_selection() {
    let mut files = vec![row("a", "1"), row("b", "2")];
    let mut selected = sel(&["b:2"]);
    let mut changes = Nus3audioFileUtils::new();
    assert!(remove_one(&mut files, &mut selected, &mut changes, &row("b", "2")));
    assert_eq!(files.len(), 1);
    assert!(selected.is_empty());
    assert!(!remove_one(&mut files, &mut selected, &mut changes, &row("q", "7")));
    assert_eq!(changes.get_pending_changes_count(&ReplaceUtils::new()), 2);
}

#[test]
fn replace_selected_with_silence() {
    let mut files = vec![row("a", "1"), row("b", "2")];
    let mut selected = sel(&["b:2"]);
    let mut reps = ReplaceUtils::new();
    let n = replace_selected_with_empty_wav(&mut files, &mut selected, &mut reps);
    assert_eq!(n, 1);
    assert_eq!(files[1].size, 44);
    assert_eq!(files[1].filename, "b.lopus_empty.wav");
    assert_eq!(files[0].size, 100);
    assert!(selected.is_empty());
    assert_eq!(reps.get_replacement_data("b", "2").unwrap().len(), 44);
    let mut none = sel(&["x:9"]);
    assert_eq!(replace_selected_with_empty_wav(&mut files, &mut none, &mut reps), 0);
    assert!(none.contains_key(&"x:9".to_string()), "nothing replaced keeps the selection");
}

#[test]
fn add_confirmed_requires_numeric_id() {
    let mut files = vec![row("a", "1")];
    let mut changes = Nus3audioFileUtils::new();
    assert_eq!(add_confirmed_audio(&mut files, &mut changes, row("n", "x"), vec![1]).unwrap_err(), "ID must be a valid number");
    assert_eq!(files.len(), 1);
    add_confirmed_audio(&mut files, &mut changes, row("n", "5"), vec![1]).unwrap();
    assert_eq!(files.len(), 2);
    assert_eq!(changes.get_pending_added_data("n", "5"), Some(vec![1]));
}

#[test]
fn header_click_toggles_or_switches() {
    let mut col = SortColumn::NoColumn;
    let mut asc = false;
    TableRenderer::header_clicked(SortColumn::Name, &mut col, &mut asc);
    assert_eq!(col, SortColumn::Name);
    assert!(asc);
    TableRenderer::header_clicked(SortColumn::Name, &mut col, &mut asc);
    assert!(!asc);
    TableRenderer::header_clicked(SortColumn::Size, &mut col, &mut asc);
    assert_eq!(col, SortColumn::Size);
    assert!(asc);
}

#[test]
fn select_all_of_filtered_rows() {
    let shown = vec![row("a", "1"), row("b", "2")];
    let mut selected = sel(&["other:3"]);
    assert!(!TableRenderer::all_selected(&shown, &selected));
    TableRenderer::set_all_selected(&shown, &mut selected, true);
    assert!(TableRenderer::all_selected(&shown, &selected));
    assert_eq!(selected.len(), 3);
    TableRenderer::set_all_selected(&shown, &mut selected, false);
    assert_eq!(selected.len(), 1);
    assert!(TableRenderer::all_selected(&Vec::new(), &selected));
    let mut rows: std::collections::HashSet<usize> = std::collections::HashSet::new();
    TableRenderer::row_clicked(&mut rows, 1);
    TableRenderer::row_clicked(&mut rows, 2);
    assert!(rows.contains(&1) && rows.contains(&2));
    TableRenderer::row_clicked(&mut rows, 1);
    assert!(!rows.contains(&1) && rows.contains(&2));
    TableRenderer::row_clicked(&mut rows, 2);
    assert!(rows.is_empty());
}

#[test]
fn confirm_answers_first_waiting_action() {
    let mut p = PendingConfirm::new();
    p.remove_selected = true;
    p.remove_audio = Some(row("a", "1"));
    assert!(matches!(p.take_confirmed(true), ConfirmedAction::RemoveSelected));
    assert!(matches!(p.take_confirmed(false), ConfirmedAction::Nothing));
    assert!(p.remove_audio.is_some());
    assert!(matches!(p.take_confirmed(true), ConfirmedAction::RemoveAudio(ref i) if i.name == "a"));
    assert!(p.remove_audio.is_none());
    p.export_all = true;
    p.replace_empty = true;
    p.cancel();
    assert!(!p.export_all && p.replace_empty);
    assert!(matches!(p.take_confirmed(true), ConfirmedAction::ReplaceEmpty));
}

#[test]
fn bank_tools_open_only_on_bank_files() {
    assert!(matches!(bank_tool_target(&None), BankToolTarget::NoFileSelected));
    assert!(matches!(bank_tool_target(&Some("a.nus3audio".to_string())), BankToolTarget::BankOnly));
    match bank_tool_target(&Some("E:\\x\\Voice.NUS3BANK".to_string())) {
        BankToolTarget::Open(p) => assert_eq!(p, "E:\\x\\Voice.NUS3BANK"),
        _ => panic!("a bank file opens the tool"),
    }
}

#[test]
fn long_ids_are_shortened() {
    assert_eq!(short_id("12345678901234567890"), "12345678901234567890");
    assert_eq!(short_id("123456789012345678901"), "12345678901234567...");
    assert_eq!(short_id(""), "");
    assert_eq!(short_id("\u{e9}\u{e9}\u{e9}\u{e9}\u{e9}\u{e9}\u{e9}\u{e9}abcdef"), "\u{e9}\u{e9}\u{e9}\u{e9}\u{e9}\u{e9}\u{e9}\u{e9}a...");
}
