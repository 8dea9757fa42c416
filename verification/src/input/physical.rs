//! The decisions of one input poll. The caller drains the terminal's events
//! and the gamepad library's events and feeds them here one at a time; this
//! tracks focus and the active controller, and turns it all into one
//! snapshot per frame.
use vstd::prelude::*;
use crate::input::bindings::InputBindings;
use crate::input::joypad::JOYPAD_BUTTON_COUNT;
use crate::input::keys::{KeyCode, KeyEvent, KeyEventKind, ModifierKeyCode, is_ctrl_c, is_ctrl_c_event};
use crate::input::state::{InputState, expire_step, gamepad_step, key_step, mask_of};

verus! {

/// What the emulator reads of the input in a frame.
#[derive(Clone, Copy, Debug, Default, PartialEq, Eq, Structural)]
pub struct InputSnapshot {
    pub joypad_mask: u16,
    pub quit_requested: bool,
    pub rewind_held: bool,
    pub save_requested: bool,
    pub load_requested: bool,
}

/// Ghostty reports Control+C as a Control press and release with no key in
/// between; this notices that pattern.
#[derive(Clone, Copy, Debug, Default, PartialEq, Eq, Structural)]
pub struct GhosttyCtrlCWorkaround {
    pub control_pressed_without_key: bool,
}

/// Whether `code` is a Control key.
pub open spec fn is_control_key(code: KeyCode) -> bool {
    code == KeyCode::Modifier(ModifierKeyCode::LeftControl) || code == KeyCode::Modifier(
        ModifierKeyCode::RightControl,
    )
}

/// Whether a key event completes a lone Control press and release.
pub open spec fn ghostty_fires(w: GhosttyCtrlCWorkaround, event: KeyEvent) -> bool {
    is_control_key(event.code) && event.kind == KeyEventKind::Release && w.control_pressed_without_key
}

/// The workaround's state after a key event.
pub open spec fn ghostty_after(w: GhosttyCtrlCWorkaround, event: KeyEvent) -> GhosttyCtrlCWorkaround {
    if is_control_key(event.code) {
        match event.kind {
            KeyEventKind::Press => GhosttyCtrlCWorkaround { control_pressed_without_key: true },
            KeyEventKind::Release => GhosttyCtrlCWorkaround { control_pressed_without_key: false },
            KeyEventKind::Repeat => w,
        }
    } else {
        GhosttyCtrlCWorkaround { control_pressed_without_key: false }
    }
}

impl GhosttyCtrlCWorkaround {
    /// Feeds a key event; true when it completes a lone Control press and
    /// release.
    pub fn handle_key(&mut self, event: KeyEvent) -> (r: bool)
        ensures
            r == ghostty_fires(*old(self), event),
            *final(self) == ghostty_after(*old(self), event),
    {
        let control = match event.code {
            KeyCode::Modifier(ModifierKeyCode::LeftControl) => true,
            KeyCode::Modifier(ModifierKeyCode::RightControl) => true,
            _ => false,
        };
        if control {
            match event.kind {
                KeyEventKind::Press => {
                    self.control_pressed_without_key = true;
                    false
                },
                KeyEventKind::Release => {
                    let fired = self.control_pressed_without_key;
                    self.control_pressed_without_key = false;
                    fired
                },
                KeyEventKind::Repeat => false,
            }
        } else {
            self.control_pressed_without_key = false;
            false
        }
    }

    /// Forgets a pending Control press.
    pub fn clear(&mut self)
        ensures
            !final(self).control_pressed_without_key,
    {
        self.control_pressed_without_key = false;
    }
}

/// What the terminal reported.
#[derive(Clone, Copy, Debug, PartialEq, Eq, Structural)]
pub enum TerminalObservation {
    Key(KeyEvent),
    FocusLost,
    FocusGained,
    Other,
}

/// What the gamepad library reported, by controller id.
#[derive(Clone, Copy, Debug, PartialEq, Eq, Structural)]
pub enum GamepadObservation {
    Connected(usize),
    Disconnected(usize),
    MappedButtonPressed(usize),
    Other,
}

/// The input of a session: the state machine, terminal focus, the active
/// controller, and whether the next gamepad sample only sets the baseline
/// for hotkey edges.
pub struct PhysicalInput {
    pub state: InputState,
    pub active_gamepad: Option<usize>,
    pub focused: bool,
    pub baseline_gamepad: bool,
    pub ghostty_ctrl_c: Option<GhosttyCtrlCWorkaround>,
}

/// The workaround after a key event, when there is one.
pub open spec fn ghostty_option_after(w: Option<GhosttyCtrlCWorkaround>, event: KeyEvent) -> Option<
    GhosttyCtrlCWorkaround,
> {
    match w {
        Some(w) => Some(ghostty_after(w, event)),
        None => None,
    }
}

/// The workaround with its pending press forgotten.
pub open spec fn ghostty_cleared(w: Option<GhosttyCtrlCWorkaround>) -> Option<GhosttyCtrlCWorkaround> {
    match w {
        Some(_) => Some(GhosttyCtrlCWorkaround { control_pressed_without_key: false }),
        None => None,
    }
}

/// Whether `t` is `s` after `clear`.
pub open spec fn cleared(s: InputState, t: InputState) -> bool {
    &&& t.wf()
    &&& t.idle()
    &&& t.bindings == s.bindings
    &&& t.quit_requested == s.quit_requested
    &&& t.release_events_supported == s.release_events_supported
}

/// Whether `t` is `s` after `clear_gamepad`.
pub open spec fn gamepad_cleared(s: InputState, t: InputState) -> bool {
    &&& t.wf()
    &&& t.bindings == s.bindings
    &&& t.keys == s.keys
    &&& t.failsafe_key == s.failsafe_key
    &&& t.rewind_key == s.rewind_key
    &&& t.rewind_failsafe == s.rewind_failsafe
    &&& t.save_state == s.save_state
    &&& t.load_state == s.load_state
    &&& t.quit_requested == s.quit_requested
    &&& t.release_events_supported == s.release_events_supported
    &&& forall|i: int| 0 <= i < JOYPAD_BUTTON_COUNT ==> !t.gamepad_buttons@[i]
    &&& forall|i: int| 0 <= i < JOYPAD_BUTTON_COUNT ==> !t.previous_gamepad_buttons@[i]
    &&& !t.gamepad_rewind
    &&& !t.gamepad_save_pending
    &&& !t.gamepad_load_pending
}

impl PhysicalInput {
    pub open spec fn wf(&self) -> bool {
        self.state.wf()
    }

    /// The input of a new session: focused, no controller yet.
    pub fn from_parts(bindings: InputBindings, release_events_supported: bool, ghostty: bool) -> (r: Self)
        requires
            InputState::valid_bindings(bindings),
        ensures
            r.wf(),
            r.state.idle(),
            !r.state.quit_requested,
            r.state.bindings == bindings,
            r.state.release_events_supported == release_events_supported,
            r.active_gamepad is None,
            r.focused,
            r.baseline_gamepad,
            r.ghostty_ctrl_c == (if ghostty {
                Some(GhosttyCtrlCWorkaround { control_pressed_without_key: false })
            } else {
                None
            }),
    {
        PhysicalInput {
            state: InputState::with_bindings(bindings, release_events_supported),
            active_gamepad: None,
            focused: true,
            baseline_gamepad: true,
            ghostty_ctrl_c: if ghostty {
                Some(GhosttyCtrlCWorkaround { control_pressed_without_key: false })
            } else {
                None
            },
        }
    }

    /// Feeds one terminal observation made at `now`. Keys reach the state
    /// machine while the terminal has focus (Control+C always does); losing
    /// focus releases everything; regaining it makes the next gamepad
    /// sample a baseline.
    pub fn observe_terminal(&mut self, observation: TerminalObservation, now: u64)
        requires
            old(self).wf(),
        ensures
            final(self).wf(),
            final(self).active_gamepad == old(self).active_gamepad,
            match observation {
                TerminalObservation::Key(key) => {
                    let fired = old(self).ghostty_ctrl_c matches Some(w) && ghostty_fires(w, key);
                    let mid = InputState {
                        quit_requested: old(self).state.quit_requested || fired,
                        ..old(self).state
                    };
                    &&& final(self).ghostty_ctrl_c == ghostty_option_after(old(self).ghostty_ctrl_c, key)
                    &&& final(self).focused == old(self).focused
                    &&& final(self).baseline_gamepad == old(self).baseline_gamepad
                    &&& if old(self).focused || is_ctrl_c(key) {
                        key_step(mid, final(self).state, key, now)
                    } else {
                        final(self).state == mid
                    }
                },
                TerminalObservation::FocusLost => {
                    &&& !final(self).focused
                    &&& final(self).baseline_gamepad == old(self).baseline_gamepad
                    &&& cleared(old(self).state, final(self).state)
                    &&& final(self).ghostty_ctrl_c == ghostty_cleared(old(self).ghostty_ctrl_c)
                },
                TerminalObservation::FocusGained => {
                    &&& final(self).focused
                    &&& final(self).baseline_gamepad
                    &&& final(self).state == old(self).state
                    &&& final(self).ghostty_ctrl_c == old(self).ghostty_ctrl_c
                },
                TerminalObservation::Other => *final(self) == *old(self),
            },
    {
        match observation {
            TerminalObservation::Key(key) => {
                let fired = match &mut self.ghostty_ctrl_c {
                    Some(w) => w.handle_key(key),
                    None => false,
                };
                if fired {
                    self.state.request_quit();
                }
                if self.focused || is_ctrl_c_event(key) {
                    self.state.handle_key(key, now);
                }
            },
            TerminalObservation::FocusLost => {
                self.focused = false;
                self.state.clear();
                match &mut self.ghostty_ctrl_c {
                    Some(w) => w.clear(),
                    None => {},
                }
            },
            TerminalObservation::FocusGained => {
                self.focused = true;
                self.baseline_gamepad = true;
            },
            TerminalObservation::Other => {},
        }
    }

    /// The terminal failed while being read: everything is released.
    pub fn terminal_failed(&mut self)
        requires
            old(self).wf(),
        ensures
            final(self).wf(),
            cleared(old(self).state, final(self).state),
            final(self).ghostty_ctrl_c == ghostty_cleared(old(self).ghostty_ctrl_c),
            final(self).focused == old(self).focused,
            final(self).baseline_gamepad == old(self).baseline_gamepad,
            final(self).active_gamepad == old(self).active_gamepad,
    {
        self.state.clear();
        match &mut self.ghostty_ctrl_c {
            Some(w) => w.clear(),
            None => {},
        }
    }

    /// Feeds one gamepad event. A controller becomes active when it
    /// connects while none is, or when one of its mapped buttons is
    /// pressed; the active one disconnecting clears the gamepad.
    pub fn observe_gamepad(&mut self, observation: GamepadObservation)
        requires
            old(self).wf(),
        ensures
            final(self).wf(),
            final(self).focused == old(self).focused,
            final(self).ghostty_ctrl_c == old(self).ghostty_ctrl_c,
            match observation {
                GamepadObservation::Connected(id) => if old(self).active_gamepad is None {
                    final(self).active_gamepad == Some(id) && final(self).baseline_gamepad
                        && final(self).state == old(self).state
                } else {
                    *final(self) == *old(self)
                },
                GamepadObservation::Disconnected(id) => if old(self).active_gamepad == Some(id) {
                    final(self).active_gamepad is None && final(self).baseline_gamepad
                        && gamepad_cleared(old(self).state, final(self).state)
                } else {
                    *final(self) == *old(self)
                },
                GamepadObservation::MappedButtonPressed(id) => if old(self).active_gamepad != Some(
                    id,
                ) {
                    final(self).active_gamepad == Some(id) && final(self).baseline_gamepad
                        && final(self).state == old(self).state
                } else {
                    *final(self) == *old(self)
                },
                GamepadObservation::Other => *final(self) == *old(self),
            },
    {
        match observation {
            GamepadObservation::Connected(id) => {
                if self.active_gamepad.is_none() {
                    self.active_gamepad = Some(id);
                    self.baseline_gamepad = true;
                }
            },
            GamepadObservation::Disconnected(id) => {
                if self.active_gamepad == Some(id) {
                    self.active_gamepad = None;
                    self.state.clear_gamepad();
                    self.baseline_gamepad = true;
                }
            },
            GamepadObservation::MappedButtonPressed(id) => {
                if self.active_gamepad != Some(id) {
                    self.active_gamepad = Some(id);
                    self.baseline_gamepad = true;
                }
            },
            GamepadObservation::Other => {},
        }
    }

    /// After the events: the controller to sample, the active one or else
    /// the first connected one (which then becomes active); with none, the
    /// gamepad is cleared and `None` returned.
    pub fn choose_gamepad(&mut self, first_connected: Option<usize>) -> (r: Option<usize>)
        requires
            old(self).wf(),
        ensures
            final(self).wf(),
            final(self).focused == old(self).focused,
            final(self).ghostty_ctrl_c == old(self).ghostty_ctrl_c,
            r == (match old(self).active_gamepad {
                Some(id) => Some(id),
                None => first_connected,
            }),
            match r {
                Some(id) => {
                    &&& final(self).active_gamepad == Some(id)
                    &&& final(self).state == old(self).state
                    &&& final(self).baseline_gamepad == (old(self).baseline_gamepad
                        || old(self).active_gamepad != Some(id))
                },
                None => {
                    &&& final(self).active_gamepad is None
                    &&& final(self).baseline_gamepad == old(self).baseline_gamepad
                    &&& gamepad_cleared(old(self).state, final(self).state)
                },
            },
    {
        let chosen = match self.active_gamepad {
            Some(id) => Some(id),
            None => first_connected,
        };
        match chosen {
            Some(id) => {
                if self.active_gamepad != Some(id) {
                    self.active_gamepad = Some(id);
                    self.baseline_gamepad = true;
                }
                Some(id)
            },
            None => {
                self.state.clear_gamepad();
                None
            },
        }
    }

    /// Feeds the chosen controller's sample (`None` when it could not be
    /// read). Without focus the gamepad is cleared; a baseline sample
    /// detects no hotkey edges.
    pub fn apply_gamepad_sample(&mut self, sample: Option<[bool; JOYPAD_BUTTON_COUNT]>)
        requires
            old(self).wf(),
        ensures
            final(self).wf(),
            final(self).focused == old(self).focused,
            final(self).ghostty_ctrl_c == old(self).ghostty_ctrl_c,
            final(self).active_gamepad == old(self).active_gamepad,
            match sample {
                Some(buttons) => if old(self).focused {
                    !final(self).baseline_gamepad && gamepad_step(
                        old(self).state,
                        final(self).state,
                        buttons@,
                        !old(self).baseline_gamepad,
                    )
                } else {
                    final(self).baseline_gamepad == old(self).baseline_gamepad && gamepad_cleared(
                        old(self).state,
                        final(self).state,
                    )
                },
                None => final(self).baseline_gamepad == old(self).baseline_gamepad
                    && gamepad_cleared(old(self).state, final(self).state),
            },
    {
        match sample {
            Some(buttons) => {
                if !self.focused {
                    self.state.clear_gamepad();
                    return;
                }
                let detect_edges = !self.baseline_gamepad;
                self.baseline_gamepad = false;
                self.state.update_gamepad_with_edges(buttons, detect_edges);
            },
            None => {
                self.state.clear_gamepad();
            },
        }
    }

    /// Releases everything; the next gamepad sample is a baseline.
    pub fn clear_effective_state(&mut self)
        requires
            old(self).wf(),
        ensures
            final(self).wf(),
            cleared(old(self).state, final(self).state),
            final(self).ghostty_ctrl_c == ghostty_cleared(old(self).ghostty_ctrl_c),
            final(self).baseline_gamepad,
            final(self).focused == old(self).focused,
            final(self).active_gamepad == old(self).active_gamepad,
    {
        self.state.clear();
        match &mut self.ghostty_ctrl_c {
            Some(w) => w.clear(),
            None => {},
        }
        self.baseline_gamepad = true;
    }

    /// The frame's snapshot; taking it consumes pending save and load
    /// requests.
    pub fn snapshot(&mut self) -> (r: InputSnapshot)
        requires
            old(self).wf(),
        ensures
            final(self).wf(),
            r.joypad_mask == mask_of(old(self).state.buttons@),
            r.quit_requested == old(self).state.quit_requested,
            r.rewind_held == (old(self).state.rewind_key.pressed || old(self).state.gamepad_rewind),
            r.save_requested == (old(self).state.save_state.pending
                || old(self).state.gamepad_save_pending),
            r.load_requested == (old(self).state.load_state.pending
                || old(self).state.gamepad_load_pending),
            !final(self).state.save_state.pending,
            !final(self).state.gamepad_save_pending,
            !final(self).state.load_state.pending,
            !final(self).state.gamepad_load_pending,
            final(self).state.buttons == old(self).state.buttons,
            final(self).state.quit_requested == old(self).state.quit_requested,
    {
        let joypad_mask = self.state.button_mask();
        let quit_requested = self.state.quit_requested();
        let rewind_held = self.state.rewind_pressed();
        let save_requested = self.state.take_save();
        let load_requested = self.state.take_load();
        InputSnapshot { joypad_mask, quit_requested, rewind_held, save_requested, load_requested }
    }

    /// Ends a poll at `now`: expires keys, then takes the snapshot.
    pub fn finish_poll(&mut self, now: u64) -> (r: InputSnapshot)
        requires
            old(self).wf(),
        ensures
            final(self).wf(),
            exists|mid: InputState|
                expire_step(old(self).state, mid, now) && mid.wf() && r.joypad_mask == mask_of(
                    mid.buttons@,
                ) && r.quit_requested == mid.quit_requested && r.save_requested == (
                mid.save_state.pending || mid.gamepad_save_pending) && r.load_requested == (
                mid.load_state.pending || mid.gamepad_load_pending) && r.rewind_held == (
                mid.rewind_key.pressed || mid.gamepad_rewind),
    {
        self.state.expire(now);
        let ghost mid = self.state;
        self.snapshot()
    }
}

} // verus!
