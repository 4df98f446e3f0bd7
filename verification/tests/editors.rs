use nus3edit::bank::{GrpSection, Nus3bankFile, PropLayout, PropSection, ToneDes};
use nus3edit::dton_tones_modal::{apply_dton_tones_to_file, DataTextError, DtonError, DtonTonesModal};
use nus3edit::grp_list_modal::{apply_grp_names_to_file, GrpError, GrpListModal};
use nus3edit::prop_edit_modal::{apply_prop_to_file, preset_label, PropEditModal};
use nus3edit::store::KeyedStore;

fn tone(name: &str, values: &[f32]) -> ToneDes {
    ToneDes {
        hash: 7,
        unk1: 1,
        name: name.to_string(),
        data: values.iter().map(|v| v.to_bits()).collect(),
        raw_data: vec![1, 2],
        descriptor_words: vec![9],
    }
}

fn empty_bank() -> Nus3bankFile {
    Nus3bankFile { dton: None, grp: None, prop: None }
}

#[test]
fn dton_open_selects_first_tone() {
    let mut m = DtonTonesModal::new();
    assert!(!m.open && m.keep_original_length);
    m.open_for_file("a.nus3bank", Ok(vec![tone("A", &[1.0, 2.0]), tone("B", &[3.0])]));
    assert!(m.open);
    assert_eq!(m.selected_index, Some(0));
    assert_eq!(m.original_data_lens, vec![2, 1]);
    assert_eq!(m.sync_data_text_from_selected(), Some(vec![1.0f32.to_bits(), 2.0f32.to_bits()]));
}

#[test]
fn dton_open_failure_keeps_message() {
    let mut m = DtonTonesModal::new();
    m.open_for_file("a.nus3bank", Err("bad header".to_string()));
    assert!(m.tones.is_empty());
    assert_eq!(m.selected_index, None);
    assert!(matches!(m.error, Some(DtonError::OpenFailed(ref e)) if e == "bad header"));
}

#[test]
fn dton_visible_indices_filter_by_trimmed_query() {
    let mut m = DtonTonesModal::new();
    m.open_for_file("a.nus3bank", Ok(vec![tone("Default", &[]), tone("Voice", &[]), tone("voice_2", &[])]));
    assert_eq!(m.visible_indices(), vec![0, 1, 2]);
    m.search_query = "  VOICE ".to_string();
    assert_eq!(m.visible_indices(), vec![1, 2]);
    m.search_query = "   ".to_string();
    assert_eq!(m.visible_indices(), vec![0, 1, 2]);
}

#[test]
fn dton_apply_values_checks_length() {
    let mut m = DtonTonesModal::new();
    m.open_for_file("a.nus3bank", Ok(vec![tone("A", &[1.0, 2.0])]));
    m.try_apply_data_text(0, Ok(vec![5.0f32.to_bits()]));
    assert!(matches!(m.data_parse_error, Some(DataTextError::LengthMismatch { got: 1, expected: 2 })));
    assert!(!m.dirty);
    m.try_apply_data_text(0, Ok(vec![5.0f32.to_bits(), 6.0f32.to_bits()]));
    assert!(m.data_parse_error.is_none());
    assert!(m.dirty);
    assert_eq!(m.tones[0].data, vec![5.0f32.to_bits(), 6.0f32.to_bits()]);
    m.keep_original_length = false;
    m.try_apply_data_text(0, Ok(vec![1.0f32.to_bits()]));
    assert_eq!(m.tones[0].data.len(), 1);
    m.try_apply_data_text(3, Ok(Vec::new()));
    assert!(matches!(m.data_parse_error, Some(DataTextError::IndexOutOfRange)));
    m.try_apply_data_text(0, Err(DataTextError::BadToken { index: 1, token: "x".to_string() }));
    assert!(matches!(m.data_parse_error, Some(DataTextError::BadToken { index: 1, .. })));
}

#[test]
fn dton_add_duplicate_delete() {
    let mut m = DtonTonesModal::new();
    m.open_for_file("a.nus3bank", Ok(vec![tone("A", &[1.0, 2.0, 3.0])]));
    m.add_new_tone();
    assert_eq!(m.tones.len(), 2);
    assert_eq!(m.selected_index, Some(1));
    assert_eq!(m.tones[1].data, vec![0u32; 3]);
    assert_eq!(m.tones[1].raw_data, vec![0u8; 12]);
    assert!(m.tones[1].name.is_empty());
    m.selected_index = Some(0);
    m.duplicate_selected();
    assert_eq!(m.tones.len(), 3);
    assert_eq!(m.tones[2].name, "A");
    assert_eq!(m.original_data_lens, vec![3, 3, 3]);
    m.selected_index = Some(0);
    m.delete_selected();
    assert_eq!(m.tones.len(), 3);
    assert!(m.tones[0].name.is_empty() && m.tones[0].data.is_empty() && m.tones[0].raw_data.is_empty());
    assert_eq!(m.tones[0].hash, 7);
    assert_eq!(m.original_data_lens[0], 0);
    m.selected_index = None;
    m.duplicate_selected();
    assert_eq!(m.tones.len(), 3);
}

#[test]
fn dton_flush_then_load_gives_edits() {
    let mut store: KeyedStore<Vec<ToneDes>> = KeyedStore::new();
    let mut m = DtonTonesModal::new();
    m.open_for_file("E:\\Songs\\A.nus3bank", Ok(vec![tone("A", &[1.0])]));
    m.flush_pending(&mut store);
    assert!(store.is_empty(), "nothing is recorded without a change");
    m.add_new_tone();
    m.flush_pending(&mut store);
    assert!(!m.dirty);
    let loaded = DtonTonesModal::load_tones_for_file(&store, "e:/songs/a.nus3bank").expect("pending edits");
    assert_eq!(loaded.len(), 2);
    assert_eq!(loaded[0].name, "A");
}

#[test]
fn dton_flush_without_file_reports_it() {
    let mut store: KeyedStore<Vec<ToneDes>> = KeyedStore::new();
    let mut m = DtonTonesModal::new();
    m.add_new_tone();
    m.flush_pending(&mut store);
    assert!(matches!(m.error, Some(DtonError::NoFileForEdit)));
    assert!(m.dirty);
}

#[test]
fn dton_reload_drops_pending() {
    let mut store: KeyedStore<Vec<ToneDes>> = KeyedStore::new();
    let mut m = DtonTonesModal::new();
    m.open_for_file("a.nus3bank", Ok(vec![tone("A", &[1.0])]));
    m.add_new_tone();
    m.flush_pending(&mut store);
    m.reload_from_file(&mut store, Ok(vec![tone("Disk", &[])]));
    assert!(DtonTonesModal::load_tones_for_file(&store, "a.nus3bank").is_none());
    assert_eq!(m.tones.len(), 1);
    assert_eq!(m.tones[0].name, "Disk");
    assert!(!m.dirty);
}

#[test]
fn apply_dton_sets_section() {
    let mut bank = empty_bank();
    apply_dton_tones_to_file(&mut bank, vec![tone("A", &[])]);
    assert_eq!(bank.tones().len(), 1);
}

#[test]
fn grp_search_and_replace_in_visible() {
    let mut m = GrpListModal::new();
    m.open_for_file("b.nus3bank", Ok(vec!["bgm_a".to_string(), "se_a".to_string(), "BGM_b".to_string()]));
    assert_eq!(m.visible_indices_cache, vec![0, 1, 2]);
    m.search_query = "bgm".to_string();
    m.update_visible_indices_cache();
    assert_eq!(m.visible_indices_cache, vec![0, 2]);
    m.find_text = "_".to_string();
    m.replace_text = "-".to_string();
    m.replace_in_visible();
    assert_eq!(m.names, vec!["bgm-a".to_string(), "se_a".to_string(), "BGM-b".to_string()]);
    assert!(m.error.is_none());
    m.find_text = String::new();
    m.replace_in_visible();
    assert!(matches!(m.error, Some(GrpError::FindTextEmpty)));
}

#[test]
fn grp_rows_and_flush() {
    let mut store: KeyedStore<Vec<String>> = KeyedStore::new();
    let mut m = GrpListModal::new();
    m.open_for_file("b.nus3bank", Ok(vec!["x".to_string()]));
    m.add_row();
    assert_eq!(m.names.len(), 2);
    m.set_name(1, "y".to_string());
    m.remove_row(0);
    assert_eq!(m.names, vec!["y".to_string()]);
    m.remove_row(5);
    assert_eq!(m.names.len(), 1);
    m.flush_pending(&mut store);
    assert_eq!(GrpListModal::load_names_for_file(&store, "B.NUS3BANK").unwrap(), vec!["y".to_string()]);
}

#[test]
fn grp_template_replaces_names() {
    let mut m = GrpListModal::new();
    m.replace_with_template(Vec::new());
    assert!(matches!(m.error, Some(GrpError::TemplateEmpty)));
    m.replace_with_template(vec!["t1".to_string(), "t2".to_string()]);
    assert_eq!(m.names.len(), 2);
    assert_eq!(m.visible_indices_cache, vec![0, 1]);
}

#[test]
fn apply_grp_empty_list_removes_section() {
    let mut bank = empty_bank();
    bank.grp = Some(GrpSection { names: vec!["a".to_string()] });
    apply_grp_names_to_file(&mut bank, Vec::new());
    assert!(bank.grp.is_none());
    apply_grp_names_to_file(&mut bank, vec!["b".to_string()]);
    assert_eq!(bank.group_names(), vec!["b".to_string()]);
}

#[test]
fn prop_presets_and_default() {
    let mut m = PropEditModal::new();
    assert_eq!(m.presets.len(), 3);
    assert_eq!(m.presets[0].project, "Test");
    assert_eq!(m.presets[0].unk1, 17);
    assert_eq!(m.presets[1].layout, PropLayout::Extended);
    m.selected_preset = Some(2);
    m.apply_preset();
    let p = m.prop.as_ref().unwrap();
    assert_eq!(p.project, "DefaultProject");
    assert_eq!(p.reserved_u16, 1);
    assert_eq!(p.version, 0x0003_0000);
    assert!(m.dirty);
    m.create_default_prop();
    assert_eq!(m.prop.as_ref().unwrap().unk1, 241);
    m.save_as_preset();
    assert_eq!(m.presets.len(), 4);
    assert_eq!(m.presets[3].name, "DefaultProject (Extended)");
    assert_eq!(m.selected_preset, Some(3));
    assert_eq!(preset_label(0, &m.presets[0]), "Preset 1: Test (Minimal)");
    assert_eq!(preset_label(3, &m.presets[3]), "DefaultProject (Extended)");
}

#[test]
fn prop_flush_and_reload() {
    let mut store: KeyedStore<PropSection> = KeyedStore::new();
    let mut m = PropEditModal::new();
    m.open_for_file("c.nus3bank", Ok(None));
    assert!(m.prop.is_none());
    m.create_default_prop();
    m.flush_pending(&mut store);
    assert!(!m.dirty);
    assert_eq!(PropEditModal::load_prop_for_file(&store, "c.nus3bank").unwrap().project, "DefaultProject");
    m.reload_from_file(&mut store, Ok(None));
    assert!(PropEditModal::load_prop_for_file(&store, "c.nus3bank").is_none());
    assert!(m.prop.is_none());
    let mut bank = empty_bank();
    apply_prop_to_file(&mut bank, m.prop.take());
    assert!(bank.prop_section().is_none());
}
