use std::collections::{BTreeMap, VecDeque};

use asoby::input::bindings::InputBindings;
use asoby::input::joypad::{BUTTON_A, BUTTON_B, BUTTON_R, BUTTON_SELECT, JOYPAD_BUTTON_COUNT};
use asoby::input::keys::{KeyCode, KeyEvent, KeyEventKind, ModifierKeyCode};
use asoby::input::physical::{GamepadObservation, GhosttyCtrlCWorkaround, InputSnapshot, PhysicalInput, TerminalObservation};

/// A terminal that yields these observations, then nothing; `Err` stands for
/// a read that failed.
struct ScriptedTerminal {
    observations: VecDeque<Result<TerminalObservation, ()>>,
}

impl ScriptedTerminal {
    fn new<I: IntoIterator<Item = TerminalObservation>>(observations: I) -> Self {
        Self { observations: observations.into_iter().map(Ok).collect() }
    }

    fn failing() -> Self {
        Self { observations: [Err(())].into_iter().collect() }
    }
}

struct ScriptedGamepads {
    events: VecDeque<GamepadObservation>,
    devices: BTreeMap<usize, [bool; JOYPAD_BUTTON_COUNT]>,
}

impl ScriptedGamepads {
    fn connected<I: IntoIterator<Item = usize>>(id: usize, pressed: I) -> Self {
        let mut buttons = [false; JOYPAD_BUTTON_COUNT];
        for button in pressed {
            buttons[button] = true;
        }
        Self { events: VecDeque::new(), devices: [(id, buttons)].into_iter().collect() }
    }

    fn with_devices<I: IntoIterator<Item = (usize, [bool; JOYPAD_BUTTON_COUNT])>>(devices: I) -> Self {
        Self { events: VecDeque::new(), devices: devices.into_iter().collect() }
    }
}

/// One poll, driven the way the session loop drives it: drain the terminal,
/// then the gamepad events, pick and sample the active controller, expire.
fn poll_sources(
    input: &mut PhysicalInput,
    terminal: &mut ScriptedTerminal,
    gamepads: &mut ScriptedGamepads,
    now: u64,
) -> Result<InputSnapshot, ()> {
    while let Some(observation) = terminal.observations.pop_front() {
        match observation {
            Ok(observation) => input.observe_terminal(observation, now),
            Err(()) => {
                input.terminal_failed();
                input.clear_effective_state();
                return Err(());
            }
        }
    }
    while let Some(event) = gamepads.events.pop_front() {
        input.observe_gamepad(event);
    }
    let first = gamepads.devices.keys().next().copied();
    if let Some(id) = input.choose_gamepad(first) {
        input.apply_gamepad_sample(gamepads.devices.get(&id).copied());
    }
    Ok(input.finish_poll(now))
}

fn without_gamepad() -> PhysicalInput {
    PhysicalInput::from_parts(InputBindings::default(), true, false)
}

fn plain_key(code: KeyCode) -> KeyEvent {
    KeyEvent { code, kind: KeyEventKind::Press, keypad: false, control: false }
}

#[test]
fn focus_loss_suppresses_gamepad_input_until_focus_returns() {
    let mut input = without_gamepad();
    let mut terminal = ScriptedTerminal::new([TerminalObservation::FocusLost]);
    let mut gamepads = ScriptedGamepads::connected(1, [BUTTON_A]);

    let snapshot = poll_sources(&mut input, &mut terminal, &mut gamepads, 0).unwrap();

    assert_eq!(snapshot.joypad_mask, 0);
}

#[test]
fn focus_gain_restores_gamepad_state_without_firing_held_one_shots() {
    let now = 0;
    let mut input = without_gamepad();
    let mut gamepads = ScriptedGamepads::connected(1, [BUTTON_SELECT, BUTTON_R]);
    let mut terminal = ScriptedTerminal::new([TerminalObservation::FocusLost]);
    poll_sources(&mut input, &mut terminal, &mut gamepads, now).unwrap();
    let mut terminal = ScriptedTerminal::new([TerminalObservation::FocusGained]);

    let snapshot = poll_sources(&mut input, &mut terminal, &mut gamepads, now).unwrap();

    assert!(!snapshot.save_requested);
    assert_ne!(snapshot.joypad_mask & (1 << BUTTON_SELECT), 0);
    assert_eq!(snapshot.joypad_mask & (1 << BUTTON_R), 0);
}

#[test]
fn fallback_controller_uses_held_buttons_as_its_hotkey_edge_baseline() {
    let now = 0;
    let mut input = without_gamepad();
    let mut first_buttons = [false; JOYPAD_BUTTON_COUNT];
    first_buttons[BUTTON_A] = true;
    let mut fallback_buttons = [false; JOYPAD_BUTTON_COUNT];
    fallback_buttons[BUTTON_SELECT] = true;
    fallback_buttons[BUTTON_R] = true;
    let mut gamepads = ScriptedGamepads::with_devices([(1, first_buttons), (2, fallback_buttons)]);
    let mut terminal = ScriptedTerminal::new([]);
    poll_sources(&mut input, &mut terminal, &mut gamepads, now).unwrap();
    gamepads.events.push_back(GamepadObservation::Disconnected(1));
    gamepads.devices.remove(&1);

    let snapshot = poll_sources(&mut input, &mut terminal, &mut gamepads, now).unwrap();

    assert!(!snapshot.save_requested);
    assert_ne!(snapshot.joypad_mask & (1 << BUTTON_SELECT), 0);
}

#[test]
fn terminal_error_clears_effective_input_before_returning() {
    let now = 0;
    let mut input = without_gamepad();
    let mut terminal = ScriptedTerminal::new([TerminalObservation::Key(plain_key(KeyCode::Char('x')))]);
    let mut gamepads = ScriptedGamepads::with_devices([]);
    let snapshot = poll_sources(&mut input, &mut terminal, &mut gamepads, now).unwrap();
    assert_ne!(snapshot.joypad_mask, 0);
    let mut terminal = ScriptedTerminal::failing();

    assert!(poll_sources(&mut input, &mut terminal, &mut gamepads, now).is_err());

    assert_eq!(input.snapshot().joypad_mask, 0);
}

#[test]
fn ghostty_unreported_control_sequence_requests_quit() {
    let now = 0;
    let mut input = PhysicalInput::from_parts(InputBindings::default(), true, true);
    let control = KeyCode::Modifier(ModifierKeyCode::LeftControl);
    let mut terminal = ScriptedTerminal::new([
        TerminalObservation::Key(KeyEvent { code: control, kind: KeyEventKind::Press, keypad: false, control: true }),
        TerminalObservation::Key(KeyEvent { code: control, kind: KeyEventKind::Release, keypad: false, control: true }),
    ]);
    let mut gamepads = ScriptedGamepads::with_devices([]);

    let snapshot = poll_sources(&mut input, &mut terminal, &mut gamepads, now).unwrap();

    assert!(snapshot.quit_requested);
}

#[test]
fn ctrl_c_remains_available_while_unfocused() {
    let now = 0;
    let mut input = without_gamepad();
    let mut terminal = ScriptedTerminal::new([
        TerminalObservation::FocusLost,
        TerminalObservation::Key(KeyEvent {
            code: KeyCode::Char('c'),
            kind: KeyEventKind::Press,
            keypad: false,
            control: true,
        }),
    ]);
    let mut gamepads = ScriptedGamepads::with_devices([]);

    let snapshot = poll_sources(&mut input, &mut terminal, &mut gamepads, now).unwrap();

    assert!(snapshot.quit_requested);
}

#[test]
fn mapped_button_press_transfers_the_active_controller() {
    let now = 0;
    let mut input = without_gamepad();
    let mut first = [false; JOYPAD_BUTTON_COUNT];
    first[BUTTON_A] = true;
    let mut second = [false; JOYPAD_BUTTON_COUNT];
    second[BUTTON_B] = true;
    let mut gamepads = ScriptedGamepads::with_devices([(1, first), (2, second)]);
    let mut terminal = ScriptedTerminal::new([]);
    poll_sources(&mut input, &mut terminal, &mut gamepads, now).unwrap();
    gamepads.events.push_back(GamepadObservation::MappedButtonPressed(2));

    let snapshot = poll_sources(&mut input, &mut terminal, &mut gamepads, now).unwrap();

    assert_eq!(snapshot.joypad_mask & (1 << BUTTON_A), 0);
    assert_ne!(snapshot.joypad_mask & (1 << BUTTON_B), 0);
}

#[test]
fn connection_noise_does_not_transfer_the_active_controller() {
    let now = 0;
    let mut input = without_gamepad();
    let mut first = [false; JOYPAD_BUTTON_COUNT];
    first[BUTTON_A] = true;
    let mut second = [false; JOYPAD_BUTTON_COUNT];
    second[BUTTON_B] = true;
    let mut gamepads = ScriptedGamepads::with_devices([(1, first), (2, second)]);
    let mut terminal = ScriptedTerminal::new([]);
    poll_sources(&mut input, &mut terminal, &mut gamepads, now).unwrap();
    gamepads.events.push_back(GamepadObservation::Other);

    let snapshot = poll_sources(&mut input, &mut terminal, &mut gamepads, now).unwrap();

    assert_ne!(snapshot.joypad_mask & (1 << BUTTON_A), 0);
    assert_eq!(snapshot.joypad_mask & (1 << BUTTON_B), 0);
}

#[test]
fn keyboard_and_gamepad_intent_are_merged_in_one_snapshot() {
    let now = 0;
    let mut input = without_gamepad();
    let mut terminal = ScriptedTerminal::new([TerminalObservation::Key(plain_key(KeyCode::Char('x')))]);
    let mut gamepads = ScriptedGamepads::connected(1, [BUTTON_B]);

    let snapshot = poll_sources(&mut input, &mut terminal, &mut gamepads, now).unwrap();

    assert_ne!(snapshot.joypad_mask & (1 << BUTTON_A), 0);
    assert_ne!(snapshot.joypad_mask & (1 << BUTTON_B), 0);
}

#[test]
fn producing_a_snapshot_consumes_one_shot_actions() {
    let now = 0;
    let mut input = without_gamepad();
    let mut terminal = ScriptedTerminal::new([TerminalObservation::Key(plain_key(KeyCode::F(2)))]);
    let mut gamepads = ScriptedGamepads::with_devices([]);

    let first = poll_sources(&mut input, &mut terminal, &mut gamepads, now).unwrap();
    let second = poll_sources(&mut input, &mut terminal, &mut gamepads, now).unwrap();

    assert!(first.save_requested);
    assert!(!second.save_requested);
}

#[test]
fn ghostty_ctrl_c_workaround_exits_after_an_unreported_key() {
    let mut workaround = GhosttyCtrlCWorkaround::default();
    let control = KeyCode::Modifier(ModifierKeyCode::LeftControl);
    let press = KeyEvent { code: control, kind: KeyEventKind::Press, keypad: false, control: true };
    let release = KeyEvent { code: control, kind: KeyEventKind::Release, keypad: false, control: true };

    workaround.handle_key(press);

    assert!(workaround.handle_key(release));
}

#[test]
fn ghostty_ctrl_c_workaround_ignores_control_chords_with_reported_keys() {
    let mut workaround = GhosttyCtrlCWorkaround::default();
    let control = KeyCode::Modifier(ModifierKeyCode::LeftControl);
    let control_press = KeyEvent { code: control, kind: KeyEventKind::Press, keypad: false, control: true };
    let key_press = KeyEvent { code: KeyCode::Char('r'), kind: KeyEventKind::Press, keypad: false, control: true };
    let control_release = KeyEvent { code: control, kind: KeyEventKind::Release, keypad: false, control: true };

    workaround.handle_key(control_press);
    workaround.handle_key(key_press);

    assert!(!workaround.handle_key(control_release));
}
