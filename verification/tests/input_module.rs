use asoby::input::bindings::InputBindings;
use asoby::input::joypad::{
    BUTTON_A, BUTTON_B, BUTTON_DOWN, BUTTON_L, BUTTON_L2, BUTTON_L3, BUTTON_LEFT, BUTTON_R, BUTTON_R2,
    BUTTON_R3, BUTTON_RIGHT, BUTTON_SELECT, BUTTON_START, BUTTON_UP, BUTTON_X, BUTTON_Y, JOYPAD_BUTTON_COUNT,
};
use asoby::input::keys::{InputKey, KeyCode, KeyEvent, KeyEventKind, ModifierKeyCode};
use asoby::input::state::{InputState, INITIAL_HOLD_GRACE, RELEASE_EVENT_FAILSAFE, REPEAT_TIMEOUT};

const MS: u64 = 1_000_000;

fn key(code: KeyCode, kind: KeyEventKind) -> KeyEvent {
    KeyEvent { code, kind, keypad: false, control: false }
}

fn pressed(state: &InputState, button: usize) -> bool {
    state.button_mask() & (1 << button) != 0
}

fn bindings(gamepad: &[(&str, usize, &str)], quit: &str, rewind: &str, rewind_enabled: bool) -> InputBindings {
    InputBindings::new(gamepad, quit, rewind, "f2", "f4", rewind_enabled).unwrap()
}

fn gamepad_buttons(pressed: &[usize]) -> [bool; JOYPAD_BUTTON_COUNT] {
    let mut buttons = [false; JOYPAD_BUTTON_COUNT];
    for button in pressed {
        buttons[*button] = true;
    }
    buttons
}

#[test]
fn input_default_keys_map_to_standard_libretro_buttons() {
    let cases = [
        (KeyCode::Left, BUTTON_LEFT),
        (KeyCode::Right, BUTTON_RIGHT),
        (KeyCode::Up, BUTTON_UP),
        (KeyCode::Down, BUTTON_DOWN),
        (KeyCode::Char('z'), BUTTON_B),
        (KeyCode::Char('Z'), BUTTON_B),
        (KeyCode::Char('x'), BUTTON_A),
        (KeyCode::Char('a'), BUTTON_Y),
        (KeyCode::Char('s'), BUTTON_X),
        (KeyCode::Enter, BUTTON_START),
        (
            KeyCode::Modifier(ModifierKeyCode::RightShift),
            BUTTON_SELECT,
        ),
    ];

    for (code, expected_button) in cases {
        let mut state = InputState::default();
        state.handle_key(key(code, KeyEventKind::Press), 0);
        assert!(pressed(&state, expected_button));
    }
}
#[test]
fn input_press_repeat_and_release_update_a_button() {
    let now: u64 = 0;
    let mut state = InputState::default();

    state.handle_key(key(KeyCode::Right, KeyEventKind::Press), now);
    assert!(pressed(&state, BUTTON_RIGHT));

    state.handle_key(
        key(KeyCode::Right, KeyEventKind::Repeat),
        now + 100 * MS,
    );
    state.expire(now + 200 * MS);
    assert!(pressed(&state, BUTTON_RIGHT));

    state.handle_key(
        key(KeyCode::Right, KeyEventKind::Release),
        now + 201 * MS,
    );
    assert!(!pressed(&state, BUTTON_RIGHT));
}
#[test]
fn input_timeout_clears_only_stale_legacy_keys() {
    let now: u64 = 0;
    let mut state = InputState::default();
    state.handle_key(key(KeyCode::Right, KeyEventKind::Press), now);
    state.handle_key(key(KeyCode::Char('z'), KeyEventKind::Press), now);
    state.handle_key(
        key(KeyCode::Right, KeyEventKind::Repeat),
        now + 500 * MS,
    );
    state.handle_key(
        key(KeyCode::Char('z'), KeyEventKind::Repeat),
        now + 600 * MS,
    );

    state.expire(now + 650 * MS);

    assert!(!pressed(&state, BUTTON_RIGHT));
    assert!(pressed(&state, BUTTON_B));
}
#[test]
fn input_initial_hold_grace_bridges_the_os_repeat_delay() {
    let now: u64 = 0;
    let mut state = InputState::default();
    state.handle_key(key(KeyCode::Right, KeyEventKind::Press), now);

    state.expire(now + REPEAT_TIMEOUT);

    assert!(pressed(&state, BUTTON_RIGHT));
}
#[test]
fn input_release_aware_terminal_keeps_a_button_held_until_release() {
    let now: u64 = 0;
    let mut state = InputState::with_release_events_supported(true);

    state.handle_key(key(KeyCode::Char('x'), KeyEventKind::Press), now);
    state.expire(now + INITIAL_HOLD_GRACE + 1 * MS);
    assert!(pressed(&state, BUTTON_A));

    state.handle_key(
        key(KeyCode::Char('x'), KeyEventKind::Release),
        now + INITIAL_HOLD_GRACE + 2 * MS,
    );
    assert!(!pressed(&state, BUTTON_A));
}
#[test]
fn input_release_aware_terminal_recovers_from_a_missing_release() {
    let now: u64 = 0;
    let mut state = InputState::with_release_events_supported(true);

    state.handle_key(key(KeyCode::Char('x'), KeyEventKind::Press), now);
    state.expire(now + RELEASE_EVENT_FAILSAFE);

    assert!(!pressed(&state, BUTTON_A));
}
#[test]
fn input_release_failsafe_preserves_other_held_keys() {
    let now: u64 = 0;
    let mut state = InputState::with_release_events_supported(true);

    state.handle_key(key(KeyCode::Right, KeyEventKind::Press), now);
    state.handle_key(
        key(KeyCode::Right, KeyEventKind::Repeat),
        now + 100 * MS,
    );
    state.handle_key(
        key(KeyCode::Char('x'), KeyEventKind::Press),
        now + 200 * MS,
    );
    state.expire(now + 300 * MS);

    assert!(pressed(&state, BUTTON_RIGHT));
    assert!(pressed(&state, BUTTON_A));

    state.expire(now + 850 * MS);

    assert!(pressed(&state, BUTTON_RIGHT));
    assert!(!pressed(&state, BUTTON_A));
}
#[test]
fn input_ctrl_c_always_requests_shutdown() {
    let mut state = InputState::default();
    let event = KeyEvent { code: KeyCode::Char('c'), kind: KeyEventKind::Press, keypad: false, control: true };

    state.handle_key(event, 0);

    assert!(state.quit_requested());
}
#[test]
fn input_q_is_not_a_default_quit_key() {
    let mut state = InputState::default();

    state.handle_key(key(KeyCode::Char('q'), KeyEventKind::Press), 0);

    assert!(!state.quit_requested());
}
#[test]
fn input_configured_quit_key_requests_shutdown() {
    let bindings = bindings(&[("a", BUTTON_A, "x")], "q", "r", true);
    let mut state = InputState::with_bindings(bindings, false);

    state.handle_key(key(KeyCode::Char('q'), KeyEventKind::Press), 0);

    assert!(state.quit_requested());
}
#[test]
fn input_ctrl_r_does_not_clear_held_buttons() {
    let mut state = InputState::default();
    state.handle_key(key(KeyCode::Right, KeyEventKind::Press), 0);
    let event = KeyEvent { code: KeyCode::Char('r'), kind: KeyEventKind::Press, keypad: false, control: true };

    state.handle_key(event, 0);

    assert!(pressed(&state, BUTTON_RIGHT));
}
#[test]
fn input_numpad_binding_does_not_match_the_number_row() {
    let bindings = bindings(&[("a", BUTTON_A, "numpad-1")], "esc", "r", true);
    let mut state = InputState::with_bindings(bindings, true);

    state.handle_key(key(KeyCode::Char('1'), KeyEventKind::Press), 0);

    assert!(!pressed(&state, BUTTON_A));
}
#[test]
fn input_numpad_binding_matches_keypad_events() {
    let bindings = bindings(&[("a", BUTTON_A, "numpad-1")], "esc", "r", true);
    let mut state = InputState::with_bindings(bindings, true);
    let event = KeyEvent { code: KeyCode::Char('1'), kind: KeyEventKind::Press, keypad: true, control: false };

    state.handle_key(event, 0);

    assert!(pressed(&state, BUTTON_A));
}
#[test]
fn input_numpad_binding_ignores_num_lock_state() {
    let bindings = bindings(&[("a", BUTTON_A, "numpad-1")], "esc", "r", true);
    let mut state = InputState::with_bindings(bindings, true);
    let event = KeyEvent { code: KeyCode::End, kind: KeyEventKind::Press, keypad: true, control: false };

    state.handle_key(event, 0);

    assert!(pressed(&state, BUTTON_A));
}
#[test]
fn input_retroarch_key_names_map_to_expected_codes() {
    let cases = [
        ("del", KeyCode::Delete, false),
        ("pageup", KeyCode::PageUp, false),
        ("pagedown", KeyCode::PageDown, false),
        ("capslock", KeyCode::CapsLock, false),
        ("numlock", KeyCode::NumLock, false),
        ("print_screen", KeyCode::PrintScreen, false),
        ("scroll_lock", KeyCode::ScrollLock, false),
        ("escape", KeyCode::Esc, false),
        ("shift", KeyCode::Modifier(ModifierKeyCode::LeftShift), false),
        ("rshift", KeyCode::Modifier(ModifierKeyCode::RightShift), false),
        ("ctrl", KeyCode::Modifier(ModifierKeyCode::LeftControl), false),
        ("rctrl", KeyCode::Modifier(ModifierKeyCode::RightControl), false),
        ("alt", KeyCode::Modifier(ModifierKeyCode::LeftAlt), false),
        ("ralt", KeyCode::Modifier(ModifierKeyCode::RightAlt), false),
        ("num0", KeyCode::Char('0'), false),
        ("num9", KeyCode::Char('9'), false),
        ("add", KeyCode::Char('+'), false),
        ("subtract", KeyCode::Char('-'), false),
        ("period", KeyCode::Char('.'), false),
        ("comma", KeyCode::Char(','), false),
        ("slash", KeyCode::Char('/'), false),
        ("minus", KeyCode::Char('-'), false),
        ("equals", KeyCode::Char('='), false),
        ("leftbracket", KeyCode::Char('['), false),
        ("backslash", KeyCode::Char('\\'), false),
        ("rightbracket", KeyCode::Char(']'), false),
        ("backquote", KeyCode::Char('`'), false),
        ("quote", KeyCode::Char('\''), false),
        ("semicolon", KeyCode::Char(';'), false),
        ("tilde", KeyCode::Char('~'), false),
        ("keypad0", KeyCode::Char('0'), true),
        ("keypad9", KeyCode::Char('9'), true),
        ("kp_period", KeyCode::Char('.'), true),
        ("kp_equals", KeyCode::Char('='), true),
        ("kp_enter", KeyCode::Enter, true),
        ("kp_plus", KeyCode::Char('+'), true),
        ("kp_minus", KeyCode::Char('-'), true),
        ("multiply", KeyCode::Char('*'), true),
        ("divide", KeyCode::Char('/'), true),
    ];

    for (name, code, keypad) in cases {
        let key = InputKey::parse(name).unwrap();
        assert_eq!(key, InputKey { code, keypad }, "name: {name}");
    }
}
#[test]
fn input_printable_plus_is_a_valid_binding() {
    let bindings = bindings(&[("a", BUTTON_A, "+")], "esc", "r", true);
    let mut state = InputState::with_bindings(bindings, false);

    state.handle_key(key(KeyCode::Char('+'), KeyEventKind::Press), 0);

    assert!(pressed(&state, BUTTON_A));
}
#[test]
fn input_gamepad_status_line_shows_only_bound_optional_buttons() {
    let bindings = InputBindings::new(
        &[
            ("l", BUTTON_L, "q"),
            ("l2", BUTTON_L2, "w"),
            ("r", BUTTON_R, "e"),
            ("r2", BUTTON_R2, "u"),
            ("l3", BUTTON_L3, "t"),
            ("r3", BUTTON_R3, "y"),
        ],
        "esc",
        "p",
        "f2",
        "f4",
        true,
    )
    .unwrap();

    assert_eq!(
        bindings.gamepad_status_line(),
        "L1-q L2-w R1-e R2-u L3-t R3-y"
    );
}
#[test]
fn input_controls_status_line_uses_action_order() {
    let bindings = bindings(&[], "esc", "r", true);

    assert_eq!(
        bindings.controls_status_line(),
        "Save-f2 Load-f4 Rewind-r Exit-esc"
    );
}
#[test]
fn input_rewind_key_stays_pressed_until_release() {
    let now: u64 = 0;
    let mut state = InputState::with_release_events_supported(true);

    state.handle_key(key(KeyCode::Char('r'), KeyEventKind::Press), now);
    assert!(state.rewind_pressed());
    assert_eq!(state.button_mask(), 0);

    state.handle_key(
        key(KeyCode::Char('r'), KeyEventKind::Release),
        now + 1 * MS,
    );
    assert!(!state.rewind_pressed());
}
#[test]
fn input_rewind_key_uses_the_configured_binding() {
    let bindings = bindings(&[], "esc", "y", true);
    let mut state = InputState::with_bindings(bindings, true);

    state.handle_key(key(KeyCode::Char('r'), KeyEventKind::Press), 0);
    assert!(!state.rewind_pressed());

    state.handle_key(key(KeyCode::Char('y'), KeyEventKind::Press), 0);
    assert!(state.rewind_pressed());
}
#[test]
fn input_rewind_key_recovers_from_a_missing_release() {
    let now: u64 = 0;
    let mut state = InputState::with_release_events_supported(true);

    state.handle_key(key(KeyCode::Char('r'), KeyEventKind::Press), now);
    state.expire(now + RELEASE_EVENT_FAILSAFE);

    assert!(!state.rewind_pressed());
}
#[test]
fn input_rewind_key_conflicts_with_gamepad_and_quit_bindings() {
    let error =
        InputBindings::new(&[("a", BUTTON_A, "r")], "esc", "r", "f2", "f4", true).unwrap_err();
    assert!(error.contains("already bound"));

    let error = InputBindings::new(&[], "r", "r", "f2", "f4", true).unwrap_err();
    assert!(error.contains("already bound"));
}
#[test]
fn input_disabled_rewind_frees_the_key_for_gamepad() {
    let bindings = bindings(&[("a", BUTTON_A, "r")], "esc", "r", false);
    let mut state = InputState::with_bindings(bindings, true);

    state.handle_key(key(KeyCode::Char('r'), KeyEventKind::Press), 0);

    assert!(pressed(&state, BUTTON_A));
    assert!(!state.rewind_pressed());
}
#[test]
fn input_disabled_rewind_hides_the_hotkey() {
    let bindings = bindings(&[], "esc", "r", false);

    assert_eq!(bindings.controls_status_line(), "Save-f2 Load-f4 Exit-esc");
}
#[test]
fn input_clear_resets_the_rewind_key() {
    let now: u64 = 0;
    let mut state = InputState::default();
    state.handle_key(key(KeyCode::Char('r'), KeyEventKind::Press), now);

    state.clear();

    assert!(!state.rewind_pressed());
}
#[test]
fn input_save_and_load_fire_once_per_press() {
    let now: u64 = 0;
    let mut state = InputState::default();

    state.handle_key(key(KeyCode::F(2), KeyEventKind::Press), now);
    assert!(state.take_save());
    assert!(!state.take_save());

    state.handle_key(key(KeyCode::F(4), KeyEventKind::Press), now);
    assert!(state.take_load());
    assert!(!state.take_load());

    state.handle_key(
        key(KeyCode::F(2), KeyEventKind::Release),
        now + 50 * MS,
    );
    state.handle_key(
        key(KeyCode::F(2), KeyEventKind::Press),
        now + 100 * MS,
    );
    assert!(state.take_save());
}
#[test]
fn input_repeated_keys_do_not_retrigger_save_or_load() {
    let now: u64 = 0;
    let mut state = InputState::default();

    state.handle_key(key(KeyCode::F(2), KeyEventKind::Press), now);
    assert!(state.take_save());
    state.handle_key(
        key(KeyCode::F(2), KeyEventKind::Repeat),
        now + 50 * MS,
    );
    state.handle_key(
        key(KeyCode::F(2), KeyEventKind::Repeat),
        now + 100 * MS,
    );
    assert!(!state.take_save());

    state.handle_key(key(KeyCode::F(4), KeyEventKind::Press), now);
    assert!(state.take_load());
    state.handle_key(
        key(KeyCode::F(4), KeyEventKind::Repeat),
        now + 50 * MS,
    );
    assert!(!state.take_load());

    state.handle_key(
        key(KeyCode::F(2), KeyEventKind::Release),
        now + 150 * MS,
    );
    state.handle_key(
        key(KeyCode::F(2), KeyEventKind::Press),
        now + 200 * MS,
    );
    assert!(state.take_save());
}
#[test]
fn input_legacy_auto_repeat_does_not_retrigger_save() {
    let now: u64 = 0;
    let mut state = InputState::default();

    state.handle_key(key(KeyCode::F(2), KeyEventKind::Press), now);
    assert!(state.take_save());
    state.handle_key(
        key(KeyCode::F(2), KeyEventKind::Press),
        now + 30 * MS,
    );
    state.handle_key(
        key(KeyCode::F(2), KeyEventKind::Press),
        now + 60 * MS,
    );
    assert!(!state.take_save());

    state.expire(now + 500 * MS);
    state.handle_key(
        key(KeyCode::F(2), KeyEventKind::Press),
        now + 600 * MS,
    );
    assert!(state.take_save());
}
#[test]
fn input_late_legacy_repeat_without_expiration_does_not_retrigger_save() {
    let now: u64 = 0;
    let mut state = InputState::default();

    state.handle_key(key(KeyCode::F(2), KeyEventKind::Press), now);
    assert!(state.take_save());

    // A queued auto-repeat Press arrives 200 ms later with no
    // expiration in between; the key is still the same held press.
    state.handle_key(
        key(KeyCode::F(2), KeyEventKind::Press),
        now + 200 * MS,
    );
    assert!(!state.take_save());

    state.expire(now + 400 * MS);
    state.handle_key(
        key(KeyCode::F(2), KeyEventKind::Press),
        now + 500 * MS,
    );
    assert!(state.take_save());
}
#[test]
fn input_quick_repeat_of_a_single_tap_is_ignored() {
    let now: u64 = 0;
    let mut state = InputState::default();

    state.handle_key(key(KeyCode::F(2), KeyEventKind::Press), now);
    assert!(state.take_save());
    state.handle_key(
        key(KeyCode::F(2), KeyEventKind::Press),
        now + 30 * MS,
    );
    assert!(!state.take_save());

    state.expire(now + INITIAL_HOLD_GRACE + 1 * MS);
    state.handle_key(
        key(KeyCode::F(2), KeyEventKind::Press),
        now + INITIAL_HOLD_GRACE + 2 * MS,
    );
    assert!(state.take_save());
}
#[test]
fn input_clear_cancels_pending_save_and_load() {
    let now: u64 = 0;
    let mut state = InputState::default();
    state.handle_key(key(KeyCode::F(2), KeyEventKind::Press), now);
    state.handle_key(key(KeyCode::F(4), KeyEventKind::Press), now);

    state.clear();

    assert!(!state.take_save());
    assert!(!state.take_load());
}
#[test]
fn input_save_and_load_keys_conflict_with_other_bindings() {
    let error =
        InputBindings::new(&[("a", BUTTON_A, "f2")], "esc", "r", "f2", "f4", true).unwrap_err();
    assert!(error.contains("already bound"));

    let error = InputBindings::new(&[], "f4", "r", "f2", "f4", true).unwrap_err();
    assert!(error.contains("already bound"));

    let error = InputBindings::new(&[], "esc", "f2", "f2", "f4", true).unwrap_err();
    assert!(error.contains("already bound"));

    let error = InputBindings::new(&[], "esc", "r", "f2", "f2", true).unwrap_err();
    assert!(error.contains("already bound"));
}
#[test]
fn input_save_and_load_use_the_configured_bindings() {
    let bindings = InputBindings::new(&[], "esc", "r", "f1", "f3", true).unwrap();
    let mut state = InputState::with_bindings(bindings, true);

    state.handle_key(key(KeyCode::F(2), KeyEventKind::Press), 0);
    assert!(!state.take_save());
    state.handle_key(key(KeyCode::F(4), KeyEventKind::Press), 0);
    assert!(!state.take_load());

    state.handle_key(key(KeyCode::F(1), KeyEventKind::Press), 0);
    assert!(state.take_save());
    state.handle_key(key(KeyCode::F(3), KeyEventKind::Press), 0);
    assert!(state.take_load());
}
