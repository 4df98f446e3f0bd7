use nus3edit::audio_file_info::AudioFileInfo;
use nus3edit::audio_state::{AudioFile, AudioPlayerAction, AudioState, LoopMode, QueueMessage, reusing_same_path};

fn track(name: &str, id: &str) -> AudioFileInfo {
    AudioFileInfo {
        name: name.into(),
        id: id.into(),
        size: 1,
        filename: name.into(),
        file_type: "WAV".into(),
        is_nus3bank: false,
        hex_id: None,
    }
}

fn audio(path: &str, playback: Option<&str>) -> AudioFile {
    AudioFile {
        file_path: path.to_string(),
        playback_path: playback.map(|p| p.to_string()),
        name: "test_track".to_string(),
        file_type: "WAV".to_string(),
        id: "0".to_string(),
    }
}

#[test]
fn update_playlist_preserves_table_order() {
    let mut state = AudioState::default();
    let playlist = vec![track("b", "2"), track("a", "1")];
    state.update_playlist(playlist, "a", "1");
    assert_eq!(state.playlist[0].name, "b");
    assert_eq!(state.playlist[1].name, "a");
    assert_eq!(state.current_track_index, Some(1));
}

#[test]
fn honor_defaults_off_unless_single_mode() {
    let mut state = AudioState::default();
    state.enable_loop = true;
    state.loop_mode = LoopMode::NoLoop;
    state.apply_default_honor_for_load();
    assert!(!state.honor_track_loop);

    state.loop_mode = LoopMode::Single;
    state.apply_default_honor_for_load();
    assert!(state.honor_track_loop);
}

#[test]
fn same_playback_path_counts_as_reuse() {
    let current = Some(audio("dummy.nus3audio", Some("/tmp/x.wav")));
    assert!(reusing_same_path(&current, &audio("dummy.nus3audio", Some("/tmp/x.wav"))));
    assert!(!reusing_same_path(&current, &audio("dummy.nus3audio", Some("/tmp/y.wav"))));
    assert!(!reusing_same_path(&None, &audio("dummy.nus3audio", Some("/tmp/x.wav"))));
    assert!(!reusing_same_path(&Some(audio("a", None)), &audio("a", None)));
}

#[test]
fn loop_mode_cycles_through_three_modes() {
    let mut state = AudioState::default();
    assert_eq!(state.loop_mode, LoopMode::NoLoop);
    state.next_loop_mode();
    assert_eq!(state.loop_mode, LoopMode::Single);
    state.next_loop_mode();
    assert_eq!(state.loop_mode, LoopMode::All);
    state.next_loop_mode();
    assert_eq!(state.loop_mode, LoopMode::NoLoop);
}

#[test]
fn next_wraps_only_with_repeat_all() {
    let mut state = AudioState::default();
    state.update_playlist(vec![track("a", "1"), track("b", "2")], "b", "2");
    assert_eq!(state.current_track_index, Some(1));
    let r = state.play_next_decision(vec![track("a", "1"), track("b", "2")]);
    assert_eq!(r, Err(QueueMessage::PlaylistEnded));

    state.loop_mode = LoopMode::All;
    let r = state.play_next_decision(vec![track("a", "1"), track("b", "2")]);
    assert_eq!(r, Ok(0));
}

#[test]
fn next_on_empty_table_reports_no_tracks() {
    let mut state = AudioState::default();
    let r = state.play_next_decision(Vec::new());
    assert_eq!(r, Err(QueueMessage::NoTracksInQueue));
    let r = state.play_previous_decision(Vec::new());
    assert_eq!(r, Err(QueueMessage::NoTracksInQueue));
}

#[test]
fn previous_from_first_track() {
    let mut state = AudioState::default();
    let list = vec![track("a", "1"), track("b", "2"), track("c", "3")];
    state.update_playlist(list, "a", "1");
    let r = state.play_previous_decision(vec![track("a", "1"), track("b", "2"), track("c", "3")]);
    assert_eq!(r, Ok(0));
    state.loop_mode = LoopMode::All;
    let r = state.play_previous_decision(vec![track("a", "1"), track("b", "2"), track("c", "3")]);
    assert_eq!(r, Ok(2));
}

#[test]
fn shuffle_never_repeats_current_track() {
    let mut state = AudioState::default();
    state.shuffle = true;
    state.update_playlist(vec![track("a", "1"), track("b", "2"), track("c", "3")], "b", "2");
    for _ in 0..30 {
        let before = state.current_track_index;
        let next = state.take_shuffle_next_index();
        let n = next.expect("three tracks always give a draw");
        assert!(n < 3);
        assert_ne!(Some(n), before);
        state.current_track_index = Some(n);
    }
}

#[test]
fn shuffle_round_draws_every_track_once() {
    for _ in 0..20 {
        let mut state = AudioState::default();
        state.shuffle = true;
        state.update_playlist(vec![track("a", "1"), track("b", "2"), track("c", "3"), track("d", "4")], "b", "2");
        assert!(state.shuffle_bag.is_empty());
        let mut draws: Vec<usize> = Vec::new();
        for _ in 0..4 {
            draws.push(state.take_shuffle_next_index().unwrap());
        }
        assert_ne!(draws[0], 1);
        assert!(state.shuffle_bag.is_empty());
        draws.sort();
        assert_eq!(draws, vec![0, 1, 2, 3]);
    }
}

#[test]
fn shuffle_with_single_track_plays_it() {
    let mut state = AudioState::default();
    state.shuffle = true;
    state.update_playlist(vec![track("a", "1")], "a", "1");
    assert_eq!(state.take_shuffle_next_index(), Some(0));
}

#[test]
fn transitions_report_requests_once() {
    let mut state = AudioState::default();
    assert_eq!(state.check_for_transitions(), AudioPlayerAction::NoAction);
    state.next_track();
    assert_eq!(state.check_for_transitions(), AudioPlayerAction::PlayNext);
    assert_eq!(state.check_for_transitions(), AudioPlayerAction::NoAction);
    state.previous_track();
    assert_eq!(state.check_for_transitions(), AudioPlayerAction::PlayPrevious);
}

#[test]
fn toggle_shuffle_flips_and_empties_bag() {
    let mut state = AudioState::default();
    state.toggle_shuffle();
    assert!(state.shuffle);
    assert!(state.shuffle_bag.is_empty());
    state.toggle_shuffle();
    assert!(!state.shuffle);
}
