//! Keyboard shortcut routing for transport (play/pause, previous/next, stop)
//! and dialog dismissal, as pure functions of key and UI context.
use vstd::prelude::*;

verus! {

/// Which player receives transport shortcuts.
#[derive(Debug, Clone, Copy, PartialEq, Eq, Structural)]
pub enum ActivePlayer {
    /// Bottom main player (playlist).
    Main,
    /// Add-audio or replace-audio dialog preview.
    Preview,
}

/// Logical shortcut key after mapping from keyboard input.
#[derive(Debug, Clone, Copy, PartialEq, Eq, Structural)]
pub enum ShortcutKey {
    Space,
    Escape,
    PreviousTrack,
    NextTrack,
    Stop,
}

/// UI context that affects whether a key is handled.
#[derive(Debug, Clone, Copy, PartialEq, Eq, Structural)]
pub struct ShortcutContext {
    /// True when a text field (not a button/slider) owns keyboard focus.
    pub text_input_focused: bool,
    pub active_player: ActivePlayer,
    /// True when the add-audio or replace-audio dialog is open.
    pub dialog_open: bool,
}

/// Action the UI should take; the caller applies it to the active player or dialog.
#[derive(Debug, Clone, Copy, PartialEq, Eq, Structural)]
pub enum ShortcutAction {
    TogglePlayPause,
    PreviousTrack,
    NextTrack,
    Stop,
    DismissDialog,
}

/// A physical key as far as shortcuts care.
#[derive(Debug, Clone, Copy, PartialEq, Eq, Structural)]
pub enum InputKey {
    Space,
    Escape,
    S,
    OpenBracket,
    CloseBracket,
    ArrowLeft,
    ArrowRight,
    /// Any key that no shortcut uses.
    Other,
}

/// Modifier keys held with a key press. `command` is Ctrl, or Cmd on macOS.
#[derive(Debug, Clone, Copy, PartialEq, Eq, Structural)]
pub struct KeyModifiers {
    pub alt: bool,
    pub ctrl: bool,
    pub shift: bool,
    pub mac_cmd: bool,
    pub command: bool,
}

impl KeyModifiers {
    /// No modifier held.
    pub fn none() -> (m: KeyModifiers)
        ensures
            !m.alt && !m.ctrl && !m.shift && !m.mac_cmd && !m.command,
    {
        KeyModifiers { alt: false, ctrl: false, shift: false, mac_cmd: false, command: false }
    }

    /// Only the platform command modifier held.
    pub fn command_only() -> (m: KeyModifiers)
        ensures
            !m.alt && !m.ctrl && !m.shift && !m.mac_cmd && m.command,
    {
        KeyModifiers { alt: false, ctrl: false, shift: false, mac_cmd: false, command: true }
    }
}

/// The binding table: Space plays/pauses, Escape dismisses, `S` stops,
/// `[` or Command+Left goes back, `]` or Command+Right goes forward; any held
/// Alt, and any Shift, disables every binding.
pub open spec fn bound_key(key: InputKey, m: KeyModifiers) -> Option<ShortcutKey> {
    if m.alt || m.shift {
        None
    } else if !m.command {
        match key {
            InputKey::Space => Some(ShortcutKey::Space),
            InputKey::Escape => Some(ShortcutKey::Escape),
            InputKey::S => Some(ShortcutKey::Stop),
            InputKey::OpenBracket => Some(ShortcutKey::PreviousTrack),
            InputKey::CloseBracket => Some(ShortcutKey::NextTrack),
            _ => None,
        }
    } else {
        match key {
            InputKey::ArrowLeft => Some(ShortcutKey::PreviousTrack),
            InputKey::ArrowRight => Some(ShortcutKey::NextTrack),
            _ => None,
        }
    }
}

/// Maps a key and its modifiers to a logical shortcut key (see `bound_key`).
pub fn shortcut_key_from_egui(key: InputKey, modifiers: KeyModifiers) -> (r: Option<ShortcutKey>)
    ensures
        r == bound_key(key, modifiers),
{
    if modifiers.alt {
        return None;
    }
    let command = modifiers.command;
    let shift = modifiers.shift;
    match key {
        InputKey::Space if !command && !shift => Some(ShortcutKey::Space),
        InputKey::Escape if !command && !shift => Some(ShortcutKey::Escape),
        InputKey::S if !command && !shift => Some(ShortcutKey::Stop),
        InputKey::OpenBracket if !command && !shift => Some(ShortcutKey::PreviousTrack),
        InputKey::CloseBracket if !command && !shift => Some(ShortcutKey::NextTrack),
        InputKey::ArrowLeft if command && !shift => Some(ShortcutKey::PreviousTrack),
        InputKey::ArrowRight if command && !shift => Some(ShortcutKey::NextTrack),
        _ => None,
    }
}

/// The keys looked at each frame, in the order they are looked at.
pub open spec fn candidate_keys() -> Seq<InputKey> {
    seq![
        InputKey::Escape,
        InputKey::Space,
        InputKey::S,
        InputKey::OpenBracket,
        InputKey::CloseBracket,
        InputKey::ArrowLeft,
        InputKey::ArrowRight,
    ]
}

/// Candidate `i` was pressed and is bound under the held modifiers.
pub open spec fn candidate_fires(pressed: Seq<InputKey>, m: KeyModifiers, i: int) -> bool {
    pressed.contains(candidate_keys()[i]) && bound_key(candidate_keys()[i], m) is Some
}

/// The candidate keys as a vector.
pub fn shortcut_candidate_keys() -> (v: Vec<InputKey>)
    ensures
        v@ == candidate_keys(),
{
    let v = vec![
        InputKey::Escape,
        InputKey::Space,
        InputKey::S,
        InputKey::OpenBracket,
        InputKey::CloseBracket,
        InputKey::ArrowLeft,
        InputKey::ArrowRight,
    ];
    assert(v@ =~= candidate_keys());
    v
}

fn key_in(pressed: &Vec<InputKey>, key: InputKey) -> (b: bool)
    ensures
        b == pressed@.contains(key),
{
    let mut i: usize = 0;
    while i < pressed.len()
        invariant
            i <= pressed.len(),
            forall|j: int| 0 <= j < i ==> pressed@[j] != key,
        decreases pressed.len() - i,
    {
        if pressed[i] == key {
            assert(pressed@[i as int] == key);
            return true;
        }
        i += 1;
    }
    false
}

/// The first candidate key (in `candidate_keys` order) that was pressed this
/// frame and is bound, with the shortcut it maps to; `pressed` lists the keys
/// pressed this frame.
pub fn detect_pressed_shortcut(pressed: &Vec<InputKey>, modifiers: KeyModifiers) -> (r: Option<
    (ShortcutKey, InputKey),
>)
    ensures
        match r {
            Some((sk, k)) => exists|i: int|
                0 <= i < 7 && candidate_fires(pressed@, modifiers, i) && k == candidate_keys()[i]
                    && bound_key(k, modifiers) == Some(sk) && forall|j: int|
                    0 <= j < i ==> !candidate_fires(pressed@, modifiers, j),
            None => forall|i: int| 0 <= i < 7 ==> !candidate_fires(pressed@, modifiers, i),
        },
{
    let candidates = shortcut_candidate_keys();
    let mut i: usize = 0;
    while i < candidates.len()
        invariant
            candidates@ == candidate_keys(),
            i <= candidates.len(),
            forall|j: int| 0 <= j < i ==> !candidate_fires(pressed@, modifiers, j),
        decreases candidates.len() - i,
    {
        let key = candidates[i];
        if key_in(pressed, key) {
            if let Some(shortcut) = shortcut_key_from_egui(key, modifiers) {
                assert(candidate_fires(pressed@, modifiers, i as int));
                return Some((shortcut, key));
            }
        }
        i += 1;
    }
    None
}

/// No modifier held.
pub open spec fn no_modifiers() -> KeyModifiers {
    KeyModifiers { alt: false, ctrl: false, shift: false, mac_cmd: false, command: false }
}

/// Only the platform command modifier held.
pub open spec fn command_modifiers() -> KeyModifiers {
    KeyModifiers { alt: false, ctrl: false, shift: false, mac_cmd: false, command: true }
}

/// Modifiers to consume together with a detected key: the arrow bindings need
/// the command modifier, the others none.
pub fn consume_modifiers_for_key(key: InputKey) -> (m: KeyModifiers)
    ensures
        m == (if key == InputKey::ArrowLeft || key == InputKey::ArrowRight {
            command_modifiers()
        } else {
            no_modifiers()
        }),
{
    match key {
        InputKey::ArrowLeft | InputKey::ArrowRight => KeyModifiers::command_only(),
        _ => KeyModifiers::none(),
    }
}

/// Routing rule: Escape dismisses an open dialog (even while typing) and is
/// otherwise ignored; with a text field focused every other key is left to
/// the field; Space toggles play/pause and the stop key stops, for either
/// player; previous/next apply to the main player only.
pub open spec fn routed(key: ShortcutKey, ctx: ShortcutContext) -> Option<ShortcutAction> {
    if key == ShortcutKey::Escape {
        if ctx.dialog_open { Some(ShortcutAction::DismissDialog) } else { None }
    } else if ctx.text_input_focused {
        None
    } else {
        match key {
            ShortcutKey::Space => Some(ShortcutAction::TogglePlayPause),
            ShortcutKey::Stop => Some(ShortcutAction::Stop),
            ShortcutKey::PreviousTrack => if ctx.active_player == ActivePlayer::Main {
                Some(ShortcutAction::PreviousTrack)
            } else {
                None
            },
            ShortcutKey::NextTrack => if ctx.active_player == ActivePlayer::Main {
                Some(ShortcutAction::NextTrack)
            } else {
                None
            },
            ShortcutKey::Escape => None,
        }
    }
}

/// Routes a logical shortcut (see `routed`). `None` means the key is left to
/// the widget.
pub fn route_shortcut(key: ShortcutKey, context: ShortcutContext) -> (r: Option<ShortcutAction>)
    ensures
        r == routed(key, context),
{
    if key == ShortcutKey::Escape {
        if context.dialog_open {
            return Some(ShortcutAction::DismissDialog);
        }
        return None;
    }
    if context.text_input_focused {
        return None;
    }
    match key {
        ShortcutKey::Space => Some(ShortcutAction::TogglePlayPause),
        ShortcutKey::Stop => Some(ShortcutAction::Stop),
        ShortcutKey::PreviousTrack => match context.active_player {
            ActivePlayer::Main => Some(ShortcutAction::PreviousTrack),
            ActivePlayer::Preview => None,
        },
        ShortcutKey::NextTrack => match context.active_player {
            ActivePlayer::Main => Some(ShortcutAction::NextTrack),
            ActivePlayer::Preview => None,
        },
        ShortcutKey::Escape => None,
    }
}

/// A focused text field keeps every key except Escape, which can only
/// dismiss the dialog.
pub proof fn law_text_focus_keeps_keys(key: ShortcutKey, ctx: ShortcutContext)
    requires
        ctx.text_input_focused,
    ensures
        routed(key, ctx) is None || routed(key, ctx) == Some(ShortcutAction::DismissDialog),
{
}

/// Escape dismisses exactly when a dialog is open, whatever else holds.
pub proof fn law_escape_dismisses_iff_dialog(ctx: ShortcutContext)
    ensures
        (routed(ShortcutKey::Escape, ctx) == Some(ShortcutAction::DismissDialog)) == ctx.dialog_open,
        routed(ShortcutKey::Escape, ctx) is None == !ctx.dialog_open,
{
}

/// While a preview player is active, previous/next never reach the playlist.
pub proof fn law_preview_has_no_track_skip(key: ShortcutKey, ctx: ShortcutContext)
    requires
        ctx.active_player == ActivePlayer::Preview,
    ensures
        routed(key, ctx) != Some(ShortcutAction::PreviousTrack),
        routed(key, ctx) != Some(ShortcutAction::NextTrack),
{
}

/// A routed action always fits the key it came from.
pub proof fn law_action_matches_key(key: ShortcutKey, ctx: ShortcutContext)
    ensures
        routed(key, ctx) == Some(ShortcutAction::DismissDialog) ==> key == ShortcutKey::Escape,
        routed(key, ctx) == Some(ShortcutAction::TogglePlayPause) ==> key == ShortcutKey::Space,
        routed(key, ctx) == Some(ShortcutAction::Stop) ==> key == ShortcutKey::Stop,
        routed(key, ctx) == Some(ShortcutAction::PreviousTrack) ==> key == ShortcutKey::PreviousTrack,
        routed(key, ctx) == Some(ShortcutAction::NextTrack) ==> key == ShortcutKey::NextTrack,
{
}

} // verus!
