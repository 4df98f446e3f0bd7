use nus3edit::shortcuts::{
    consume_modifiers_for_key, detect_pressed_shortcut, route_shortcut, shortcut_key_from_egui,
    ActivePlayer, InputKey, KeyModifiers, ShortcutAction, ShortcutContext, ShortcutKey,
};

fn ctx(text: bool, player: ActivePlayer, dialog: bool) -> ShortcutContext {
    ShortcutContext {
        text_input_focused: text,
        active_player: player,
        dialog_open: dialog,
    }
}

#[test]
fn transport_route_space_toggles_play_pause_main() {
    let action = route_shortcut(ShortcutKey::Space, ctx(false, ActivePlayer::Main, false));
    assert_eq!(
        action,
        Some(ShortcutAction::TogglePlayPause),
        "Space on the main player must toggle play/pause"
    );
}

#[test]
fn transport_route_space_toggles_play_pause_preview() {
    let action = route_shortcut(ShortcutKey::Space, ctx(false, ActivePlayer::Preview, true));
    assert_eq!(action, Some(ShortcutAction::TogglePlayPause));
}

#[test]
fn transport_route_space_ignored_when_text_focused() {
    let action = route_shortcut(ShortcutKey::Space, ctx(true, ActivePlayer::Main, false));
    assert_eq!(action, None, "Space must not steal from a focused text field");
    let preview = route_shortcut(ShortcutKey::Space, ctx(true, ActivePlayer::Preview, true));
    assert_eq!(
        preview, None,
        "Space must not steal from name/id fields in the add/replace dialog"
    );
}

#[test]
fn transport_route_prev_next_stop_on_main() {
    let main = ctx(false, ActivePlayer::Main, false);
    assert_eq!(
        route_shortcut(ShortcutKey::PreviousTrack, main),
        Some(ShortcutAction::PreviousTrack),
        "previous-track key must map when the main player is active"
    );
    assert_eq!(
        route_shortcut(ShortcutKey::NextTrack, main),
        Some(ShortcutAction::NextTrack),
        "next-track key must map when the main player is active"
    );
    assert_eq!(
        route_shortcut(ShortcutKey::Stop, main),
        Some(ShortcutAction::Stop),
        "stop key must map when the main player is active"
    );
}

#[test]
fn transport_route_prev_next_not_on_preview() {
    let preview = ctx(false, ActivePlayer::Preview, true);
    assert_eq!(
        route_shortcut(ShortcutKey::PreviousTrack, preview),
        None,
        "previous-track must not control the main playlist while a preview dialog is open"
    );
    assert_eq!(
        route_shortcut(ShortcutKey::NextTrack, preview),
        None,
        "next-track must not control the main playlist while a preview dialog is open"
    );
    assert_eq!(
        route_shortcut(ShortcutKey::Stop, preview),
        Some(ShortcutAction::Stop),
        "stop still applies to the active preview player"
    );
}

#[test]
fn transport_route_escape_dismisses_dialog() {
    let open = ctx(false, ActivePlayer::Preview, true);
    assert_eq!(
        route_shortcut(ShortcutKey::Escape, open),
        Some(ShortcutAction::DismissDialog),
        "Escape must dismiss an open add/replace dialog without confirming"
    );
    let typing = ctx(true, ActivePlayer::Preview, true);
    assert_eq!(
        route_shortcut(ShortcutKey::Escape, typing),
        Some(ShortcutAction::DismissDialog),
        "Escape must still dismiss the dialog while a text field is focused"
    );
}

#[test]
fn transport_route_escape_ignored_without_dialog() {
    let none = route_shortcut(ShortcutKey::Escape, ctx(false, ActivePlayer::Main, false));
    assert_eq!(
        none, None,
        "Escape must not fire dismiss when no add/replace dialog is open"
    );
}

#[test]
fn transport_shortcut_key_from_egui() {
    let none = KeyModifiers::none();
    let command = KeyModifiers::command_only();
    assert_eq!(
        shortcut_key_from_egui(InputKey::Space, none),
        Some(ShortcutKey::Space),
        "unmodified Space is play/pause"
    );
    assert_eq!(
        shortcut_key_from_egui(InputKey::Escape, none),
        Some(ShortcutKey::Escape),
        "unmodified Escape is dismiss"
    );
    assert_eq!(
        shortcut_key_from_egui(InputKey::S, none),
        Some(ShortcutKey::Stop),
        "unmodified S is stop"
    );
    assert_eq!(
        shortcut_key_from_egui(InputKey::OpenBracket, none),
        Some(ShortcutKey::PreviousTrack),
        "[ is previous track"
    );
    assert_eq!(
        shortcut_key_from_egui(InputKey::CloseBracket, none),
        Some(ShortcutKey::NextTrack),
        "] is next track"
    );
    assert_eq!(
        shortcut_key_from_egui(InputKey::ArrowLeft, command),
        Some(ShortcutKey::PreviousTrack),
        "Ctrl/Cmd+Left is previous track"
    );
    assert_eq!(
        shortcut_key_from_egui(InputKey::ArrowRight, command),
        Some(ShortcutKey::NextTrack),
        "Ctrl/Cmd+Right is next track"
    );
    assert_eq!(
        shortcut_key_from_egui(InputKey::Space, command),
        None,
        "modified Space is not play/pause"
    );
    assert_eq!(
        shortcut_key_from_egui(InputKey::ArrowLeft, none),
        None,
        "unmodified arrows are left for sliders"
    );
}

#[test]
fn shortcut_alt_disables_every_binding() {
    let alt = KeyModifiers { alt: true, ctrl: false, shift: false, mac_cmd: false, command: false };
    assert_eq!(shortcut_key_from_egui(InputKey::Space, alt), None);
    assert_eq!(shortcut_key_from_egui(InputKey::Escape, alt), None);
    let shift = KeyModifiers { alt: false, ctrl: false, shift: true, mac_cmd: false, command: false };
    assert_eq!(shortcut_key_from_egui(InputKey::S, shift), None);
    assert_eq!(shortcut_key_from_egui(InputKey::Other, KeyModifiers::none()), None);
}

#[test]
fn detect_pressed_shortcut_prefers_candidate_order() {
    let none = KeyModifiers::none();
    // Escape is looked at before Space even when listed later.
    let pressed = vec![InputKey::Space, InputKey::Escape];
    assert_eq!(
        detect_pressed_shortcut(&pressed, none),
        Some((ShortcutKey::Escape, InputKey::Escape))
    );
    // An arrow without the command modifier does not fire; S does.
    let pressed = vec![InputKey::ArrowLeft, InputKey::S];
    assert_eq!(detect_pressed_shortcut(&pressed, none), Some((ShortcutKey::Stop, InputKey::S)));
    let pressed = vec![InputKey::ArrowRight];
    assert_eq!(
        detect_pressed_shortcut(&pressed, KeyModifiers::command_only()),
        Some((ShortcutKey::NextTrack, InputKey::ArrowRight))
    );
    assert_eq!(detect_pressed_shortcut(&vec![InputKey::Other], none), None);
    assert_eq!(detect_pressed_shortcut(&Vec::new(), none), None);
}

#[test]
fn consume_modifiers_match_bindings() {
    assert_eq!(consume_modifiers_for_key(InputKey::ArrowLeft), KeyModifiers::command_only());
    assert_eq!(consume_modifiers_for_key(InputKey::ArrowRight), KeyModifiers::command_only());
    assert_eq!(consume_modifiers_for_key(InputKey::Space), KeyModifiers::none());
    assert_eq!(consume_modifiers_for_key(InputKey::S), KeyModifiers::none());
}
