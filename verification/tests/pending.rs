use nus3edit::bank::{PropLayout, PropSection, ToneDes};
use nus3edit::prop_edit_modal::select_layout;
use nus3edit::store::KeyedStore;
use nus3edit::{dton_pending, grp_pending, prop_pending};

fn make_tone(name: &str) -> ToneDes {
    ToneDes {
        hash: 1,
        unk1: 2,
        name: name.to_string(),
        data: vec![0.0f32.to_bits(), 1.0f32.to_bits()],
        raw_data: Vec::new(),
        descriptor_words: Vec::new(),
    }
}

#[test]
fn pending_dton_roundtrip() {
    let mut store: KeyedStore<Vec<ToneDes>> = KeyedStore::new();
    let path = "unit_test_file.nus3bank";
    let _ = dton_pending::clear(&mut store, path);

    assert!(!dton_pending::has(&store, path));
    assert!(dton_pending::get(&store, path).is_none());

    dton_pending::set(&mut store, path, vec![make_tone("Default"), make_tone("Voice")]).unwrap();
    assert!(dton_pending::has(&store, path));
    assert_eq!(dton_pending::get(&store, path).unwrap().len(), 2);

    dton_pending::clear(&mut store, path).unwrap();
    assert!(!dton_pending::has(&store, path));
    assert!(dton_pending::get(&store, path).is_none());
}

#[test]
fn dton_pending_pending_key_normalization_is_stable() {
    let mut store: KeyedStore<Vec<ToneDes>> = KeyedStore::new();
    let p1 = "E:\\Foo\\Bar.nus3bank";
    let p2 = "e:/foo/bar.nus3bank";
    let _ = dton_pending::clear(&mut store, p1);

    dton_pending::set(&mut store, p1, vec![make_tone("X")]).unwrap();
    assert!(dton_pending::has(&store, p2));
    assert_eq!(dton_pending::get(&store, p2).unwrap()[0].name, "X");
    dton_pending::clear(&mut store, p2).unwrap();
    assert!(!dton_pending::has(&store, p1));
}

#[test]
fn pending_grp_roundtrip() {
    let mut store: KeyedStore<Vec<String>> = KeyedStore::new();
    let path = "unit_test_file.nus3bank";
    let _ = grp_pending::clear(&mut store, path);

    assert!(!grp_pending::has(&store, path));
    assert_eq!(grp_pending::get(&store, path), None);

    grp_pending::set(&mut store, path, vec!["A".to_string(), "".to_string(), "B".to_string()]).unwrap();
    assert!(grp_pending::has(&store, path));
    assert_eq!(
        grp_pending::get(&store, path),
        Some(vec!["A".to_string(), "".to_string(), "B".to_string()])
    );

    grp_pending::clear(&mut store, path).unwrap();
    assert!(!grp_pending::has(&store, path));
    assert_eq!(grp_pending::get(&store, path), None);
}

#[test]
fn grp_pending_pending_key_normalization_is_stable() {
    let mut store: KeyedStore<Vec<String>> = KeyedStore::new();
    let p1 = "E:\\Foo\\Bar.nus3bank";
    let p2 = "e:/foo/bar.nus3bank";
    let _ = grp_pending::clear(&mut store, p1);

    grp_pending::set(&mut store, p1, vec!["X".to_string()]).unwrap();
    assert!(grp_pending::has(&store, p2));
    assert_eq!(grp_pending::get(&store, p2), Some(vec!["X".to_string()]));
    grp_pending::clear(&mut store, p2).unwrap();
    assert!(!grp_pending::has(&store, p1));
}

fn sample_prop(project: &str) -> PropSection {
    PropSection {
        project: project.to_string(),
        timestamp: String::new(),
        unk1: 241,
        reserved_u16: 0,
        unk2: 3,
        unk3: 0,
        layout: PropLayout::Extended,
        leading_u32: 0,
        presence_mask: 0,
        version: 0x0003_0000,
        bit5_u32: None,
        bit6_u32: Some(7),
    }
}

#[test]
fn prop_pending_set_get_take() {
    let mut store: KeyedStore<PropSection> = KeyedStore::new();
    assert!(prop_pending::get(&store, "a.nus3bank").is_none());
    prop_pending::set(&mut store, "a.nus3bank", sample_prop("First")).unwrap();
    prop_pending::set(&mut store, "a.nus3bank", sample_prop("Second")).unwrap();
    let got = prop_pending::get(&store, "a.nus3bank").unwrap();
    assert_eq!(got.project, "Second");
    assert_eq!(got.bit6_u32, Some(7));
    // prop keys are used as given: another spelling is another file
    assert!(prop_pending::get(&store, "A.nus3bank").is_none());
    let taken = prop_pending::take(&mut store, "a.nus3bank").unwrap();
    assert_eq!(taken.project, "Second");
    assert!(prop_pending::take(&mut store, "a.nus3bank").is_none());
    prop_pending::set(&mut store, "b", sample_prop("B")).unwrap();
    prop_pending::clear(&mut store, "b").unwrap();
    assert!(prop_pending::get(&store, "b").is_none());
}

#[test]
fn choosing_the_bitmask_layout_fixes_mask_and_version() {
    let mut p = sample_prop("x");
    p.version = 0x0002_0001;
    select_layout(&mut p, PropLayout::Minimal);
    assert_eq!(p.layout, PropLayout::Minimal);
    assert_eq!((p.presence_mask, p.version), (0, 0x0002_0001));
    select_layout(&mut p, PropLayout::Bitmask);
    assert_eq!(p.layout, PropLayout::Bitmask);
    assert_eq!((p.presence_mask, p.version), (1, 0x0003_0000));
    p.version = 0x0003_0007;
    p.presence_mask = 6;
    select_layout(&mut p, PropLayout::Bitmask);
    assert_eq!((p.presence_mask, p.version), (7, 0x0003_0007));
    assert_eq!(p.bit6_u32, Some(7));
}
