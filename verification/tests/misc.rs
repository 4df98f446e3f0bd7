use nus3edit::audio_file_info::{copy_infos, AudioFileInfo};
use nus3edit::audio_state::{AudioState, LoopMode, TrackEndAction};
use nus3edit::replace_utils::ReplaceUtils;
use nus3edit::top_panel::{save_step, save_target, show_modal, show_modal_with_links, ModalInfo, SaveStep, SaveTarget};
use nus3edit::update_log::{open_history, poll_and_maybe_open_notice, UpdateLogState};
use nus3edit::wav::total_samples_would_divide_by_zero;

fn bank_track(name: &str, index: u32, hex: &str) -> AudioFileInfo {
    AudioFileInfo::from_nus3bank_track(name.to_string(), index, hex.to_string(), 10, format!("{name}.wav"))
}

#[test]
fn bank_track_info_uses_index_and_hex_id() {
    let t = bank_track("voice", 12, "0x1f");
    assert_eq!(t.id, "12");
    assert_eq!(t.file_type, "WAV");
    assert!(t.is_nus3bank);
    assert_eq!(t.effective_id(), "0x1f");
    let a = AudioFileInfo::from_nus3audio("bgm".into(), "3".into(), 5, "bgm.lopus".into(), "OPUS".into());
    assert_eq!(a.effective_id(), "3");
    let copies = copy_infos(&vec![t, a]);
    assert_eq!(copies[1].name, "bgm");
}

#[test]
fn bank_replacements_are_addressed_by_hex_id() {
    let mut r = ReplaceUtils::new();
    r.replace_in_memory(&bank_track("voice", 1, "0x2a"), "v.wav", vec![1]).unwrap();
    r.store_audio_data_for_playback("ADD_0x3:new".to_string(), vec![2]).unwrap();
    r.store_audio_data_for_playback("plain:key".to_string(), vec![3]).unwrap();
    let targets = r.nus3bank_replacement_targets();
    assert_eq!(targets, vec![("0x2a".to_string(), vec![1])]);
    let shown = r.register_replacement_path(&bank_track("voice", 1, "0x2a"), "/x/new take.wav");
    assert_eq!(shown.filename, "new take.wav");
    assert_eq!(r.get_replacement_path("voice", "1").as_deref(), Some("/x/new take.wav"));
}

#[test]
fn track_end_follows_repeat_mode() {
    let mut st = AudioState::default();
    st.loop_mode = LoopMode::Single;
    assert_eq!(st.on_track_end(), TrackEndAction::RestartFromBeginning);
    st.set_loop_flags(true, true);
    st.honor_track_loop = true;
    assert_eq!(st.on_track_end(), TrackEndAction::RestartFromLoopStart);
    st.loop_mode = LoopMode::All;
    assert_eq!(st.on_track_end(), TrackEndAction::Stop);
    assert!(st.should_play_next);
    let mut st = AudioState::default();
    assert_eq!(st.on_track_end(), TrackEndAction::Stop);
    assert!(st.should_notify_playlist_ended, "an empty playlist ends");
}

#[test]
fn honor_toggle_needs_loop_marks() {
    let mut st = AudioState::default();
    st.toggle_honor_track_loop();
    assert!(!st.honor_track_loop);
    st.set_loop_flags(false, true);
    st.toggle_honor_track_loop();
    assert!(st.honor_track_loop);
    st.set_loop_flags(false, false);
    assert!(!st.honor_track_loop);
}

#[test]
fn divide_by_zero_is_detected() {
    let mut v = b"RIFF\x24\0\0\0WAVEfmt \x10\0\0\0\x01\0\0\0\x40\x1f\0\0\0\0\0\0\0\0\x10\0data\0\0\0\0".to_vec();
    assert!(total_samples_would_divide_by_zero(&v));
    v[22] = 1;
    assert!(!total_samples_would_divide_by_zero(&v));
}

#[test]
fn message_dialog_text_and_links() {
    let mut m = ModalInfo::new();
    show_modal_with_links(&mut m, "About", "v1", vec![("src".to_string(), "https://example.org".to_string())], false);
    assert!(m.open);
    assert_eq!(m.links.len(), 1);
    show_modal(&mut m, "Save failed", "disk full", true);
    assert!(m.is_error);
    assert_eq!(m.message, "disk full");
    assert!(m.links.is_empty());
}

#[test]
fn update_notice_shows_once() {
    let mut st: UpdateLogState<u32> = UpdateLogState::new();
    poll_and_maybe_open_notice(&mut st, Some(1), false);
    assert!(!st.show_update_notice);
    poll_and_maybe_open_notice(&mut st, Some(2), true);
    assert!(st.show_update_notice && st.notice_shown);
    assert_eq!(st.payload, Some(2));
    st.show_update_notice = false;
    poll_and_maybe_open_notice(&mut st, Some(3), true);
    assert!(!st.show_update_notice);
    open_history(&mut st, None, 9);
    assert!(st.show_history);
    assert_eq!(st.payload, Some(9));
    open_history(&mut st, Some(4), 9);
    assert_eq!(st.payload, Some(4));
}

#[test]
fn save_entries_follow_the_selected_file() {
    assert!(matches!(save_step(&None, true), SaveStep::NoFileSelected));
    assert!(matches!(save_step(&Some("a.nus3audio".to_string()), false), SaveStep::NoPendingChanges));
    assert!(matches!(save_step(&Some("a.nus3audio".to_string()), true), SaveStep::Save(ref p) if p == "a.nus3audio"));
    assert_eq!(save_target(&None), SaveTarget::Generic);
    assert_eq!(save_target(&Some("x/B.NUS3BANK".to_string())), SaveTarget::Nus3bank);
    assert_eq!(save_target(&Some("x/b.nus3audio".to_string())), SaveTarget::Nus3audio);
}
