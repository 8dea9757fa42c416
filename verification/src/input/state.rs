//! The input state machine: key events and gamepad samples in, held joypad
//! buttons and one-shot actions out.
//!
//! Terminals differ in what they report. Some send release events; on
//! those a key stays held until it is released, with a failsafe for a lost
//! release. Others send only presses and auto-repeats; there a key counts as
//! held while repeats keep coming, with a grace period that bridges the
//! delay before the first repeat. Times are in nanoseconds.
use vstd::prelude::*;
use crate::input::bindings::{Binding, InputBindings};
use crate::input::joypad::{
    BUTTON_L, BUTTON_R, BUTTON_R2, BUTTON_SELECT, BUTTON_START, JOYPAD_BUTTON_COUNT,
};
use crate::input::keys::{InputKey, KeyEvent, KeyEventKind, event_key, is_ctrl_c, is_ctrl_c_event};

verus! {

/// How long after its last repeat an auto-repeating key counts as held.
pub const REPEAT_TIMEOUT: u64 = 140_000_000;

/// How long a key that has not repeated yet counts as held without release
/// events.
pub const INITIAL_HOLD_GRACE: u64 = 250_000_000;

/// How long a key counts as held, with release events, when its release
/// never arrives.
pub const RELEASE_EVENT_FAILSAFE: u64 = 650_000_000;

/// The state of a key that holds a button.
#[derive(Clone, Copy, Debug, PartialEq, Eq, Structural)]
pub struct KeyState {
    pub pressed: bool,
    pub last_seen: Option<u64>,
    pub repeat_seen: bool,
}

/// The state of a key that fires an action once per press.
#[derive(Clone, Copy, Debug, PartialEq, Eq, Structural)]
pub struct OneShotKey {
    pub pressed: bool,
    pub last_seen: Option<u64>,
    pub repeat_seen: bool,
    pub pending: bool,
}

/// The input state of a session.
pub struct InputState {
    pub bindings: InputBindings,
    pub buttons: [bool; JOYPAD_BUTTON_COUNT],
    pub keys: Vec<KeyState>,
    pub quit_requested: bool,
    pub release_events_supported: bool,
    pub failsafe_key: Option<usize>,
    pub rewind_key: KeyState,
    pub rewind_failsafe: bool,
    pub save_state: OneShotKey,
    pub load_state: OneShotKey,
    pub gamepad_buttons: [bool; JOYPAD_BUTTON_COUNT],
    pub previous_gamepad_buttons: [bool; JOYPAD_BUTTON_COUNT],
    pub gamepad_rewind: bool,
    pub gamepad_save_pending: bool,
    pub gamepad_load_pending: bool,
}

/// What a key event is for.
pub enum KeyTarget {
    Quit,
    Rewind,
    SaveState,
    LoadState,
    Button(usize),
    Ignored,
}

pub open spec fn released_key() -> KeyState {
    KeyState { pressed: false, last_seen: None, repeat_seen: false }
}

pub open spec fn idle_one_shot() -> OneShotKey {
    OneShotKey { pressed: false, last_seen: None, repeat_seen: false, pending: false }
}

/// A held key after an event of `kind` at `now`; a press while held counts
/// as a repeat.
pub open spec fn key_after(k: KeyState, kind: KeyEventKind, now: u64) -> KeyState {
    match kind {
        KeyEventKind::Press => KeyState {
            pressed: true,
            last_seen: Some(now),
            repeat_seen: k.repeat_seen || k.pressed,
        },
        KeyEventKind::Repeat => KeyState { pressed: true, last_seen: Some(now), repeat_seen: true },
        KeyEventKind::Release => released_key(),
    }
}

/// A one-shot key after an event; only a press of a key that was up makes
/// its action pending.
pub open spec fn one_shot_after(k: OneShotKey, kind: KeyEventKind, now: u64) -> OneShotKey {
    match kind {
        KeyEventKind::Press => OneShotKey {
            pressed: true,
            last_seen: Some(now),
            repeat_seen: k.repeat_seen || k.pressed,
            pending: k.pending || !k.pressed,
        },
        KeyEventKind::Repeat => OneShotKey {
            pressed: true,
            last_seen: Some(now),
            repeat_seen: true,
            pending: k.pending,
        },
        KeyEventKind::Release => OneShotKey {
            pressed: false,
            last_seen: None,
            repeat_seen: false,
            pending: k.pending,
        },
    }
}

/// Whether at least `timeout` has passed since `last` (time never runs
/// backwards: an earlier `now` counts as no time).
pub open spec fn timed_out(last: Option<u64>, now: u64, timeout: u64) -> bool {
    match last {
        Some(t) => (if now >= t {
            now - t
        } else {
            0
        }) >= timeout,
        None => false,
    }
}

/// The index of the first gamepad binding of `key`.
pub open spec fn first_binding_of(g: Seq<Binding>, key: InputKey) -> Option<int> {
    if exists|i: int| 0 <= i < g.len() && g[i].key == key {
        Some(
            choose|i: int|
                0 <= i < g.len() && g[i].key == key && forall|j: int| 0 <= j < i ==> g[j].key != key,
        )
    } else {
        None
    }
}

/// What `event` is for under `b`: the quit key (on press or repeat) and
/// Control+C quit; then the rewind key when enabled, the save and load keys,
/// and the first gamepad binding of the key.
pub open spec fn key_target(b: InputBindings, event: KeyEvent) -> KeyTarget {
    let k = event_key(event);
    if event.kind != KeyEventKind::Release && (is_ctrl_c(event) || k == b.quit) {
        KeyTarget::Quit
    } else if b.rewind_enabled && k == b.rewind {
        KeyTarget::Rewind
    } else if k == b.save_state {
        KeyTarget::SaveState
    } else if k == b.load_state {
        KeyTarget::LoadState
    } else {
        match first_binding_of(b.gamepad@, k) {
            Some(i) => KeyTarget::Button(i as usize),
            None => KeyTarget::Ignored,
        }
    }
}

/// Whether joypad button `button` is held: by a pressed key bound to it, or
/// by the gamepad.
pub open spec fn button_held(
    keys: Seq<KeyState>,
    g: Seq<Binding>,
    pad: Seq<bool>,
    button: int,
) -> bool {
    pad[button] || exists|id: int|
        0 <= id < keys.len() && (#[trigger] keys[id]).pressed && g[id].button == button
}

/// The buttons that pressed keys and the gamepad hold.
pub open spec fn held_buttons(keys: Seq<KeyState>, g: Seq<Binding>, pad: Seq<bool>) -> Seq<bool> {
    Seq::new(JOYPAD_BUTTON_COUNT as nat, |b: int| button_held(keys, g, pad, b))
}

/// The buttons of a gamepad sample that reach the core: while Select is
/// held it is a hotkey modifier, and Start, R1, R2 (and L1 when rewind is
/// enabled) act as hotkeys instead.
pub open spec fn effective_pad(buttons: Seq<bool>, rewind_enabled: bool) -> Seq<bool> {
    Seq::new(
        JOYPAD_BUTTON_COUNT as nat,
        |i: int|
            buttons[i] && !(buttons[BUTTON_SELECT as int] && (i == BUTTON_START || i == BUTTON_R
                || i == BUTTON_R2 || (rewind_enabled && i == BUTTON_L))),
    )
}

/// Whether Select+`button` went down in this sample.
pub open spec fn combo_pressed(now: Seq<bool>, previous: Seq<bool>, button: int) -> bool {
    now[BUTTON_SELECT as int] && now[button] && !(previous[BUTTON_SELECT as int] && previous[button])
}

/// The 16-bit mask of `buttons`, bit `i` for button `i`.
pub open spec fn mask_of(buttons: Seq<bool>) -> u16
    decreases buttons.len(),
{
    if buttons.len() == 0 {
        0
    } else if buttons.last() {
        mask_of(buttons.drop_last()) | (1u16 << ((buttons.len() - 1) as u16))
    } else {
        mask_of(buttons.drop_last())
    }
}

/// A held key after the failsafe or grace timeout: released once `timeout`
/// has passed since it was last seen.
pub open spec fn key_expired(k: KeyState, now: u64, timeout: u64) -> KeyState {
    if timed_out(k.last_seen, now, timeout) {
        released_key()
    } else {
        k
    }
}

/// The timeout of a held key: the repeat timeout once it repeated, else
/// `first`.
pub open spec fn hold_timeout(k: KeyState, first: u64) -> u64 {
    if k.repeat_seen {
        REPEAT_TIMEOUT
    } else {
        first
    }
}

/// A one-shot key after its timeout; its pending action stays.
pub open spec fn one_shot_expired(k: OneShotKey, now: u64, release_events_supported: bool) -> OneShotKey {
    let timeout = if k.repeat_seen {
        REPEAT_TIMEOUT
    } else if release_events_supported {
        RELEASE_EVENT_FAILSAFE
    } else {
        INITIAL_HOLD_GRACE
    };
    if timed_out(k.last_seen, now, timeout) {
        OneShotKey { pressed: false, last_seen: None, repeat_seen: false, pending: k.pending }
    } else {
        k
    }
}

/// A key of a terminal without release events after expiry: a held key
/// is released when its grace or repeat timeout passed.
pub open spec fn legacy_key_expired(k: KeyState, now: u64) -> KeyState {
    if k.pressed {
        key_expired(k, now, hold_timeout(k, INITIAL_HOLD_GRACE))
    } else {
        k
    }
}

impl InputState {
    /// The invariant: one state per gamepad binding, every binding names a
    /// joypad button, the failsafe key is one of them, and the buttons the
    /// core sees are those that keys and gamepad hold.
    pub open spec fn wf(&self) -> bool {
        &&& self.keys@.len() == self.bindings.gamepad@.len()
        &&& forall|i: int|
            0 <= i < self.bindings.gamepad@.len() ==> (#[trigger] self.bindings.gamepad@[i]).button
                < JOYPAD_BUTTON_COUNT
        &&& (self.failsafe_key matches Some(id) ==> id < self.keys@.len())
        &&& self.buttons@ == held_buttons(
            self.keys@,
            self.bindings.gamepad@,
            self.gamepad_buttons@,
        )
    }

    /// Whether every binding of `b` names a joypad button.
    pub open spec fn valid_bindings(b: InputBindings) -> bool {
        forall|i: int| 0 <= i < b.gamepad@.len() ==> (#[trigger] b.gamepad@[i]).button < JOYPAD_BUTTON_COUNT
    }

    /// Whether nothing is held or pending.
    pub open spec fn idle(&self) -> bool {
        &&& forall|i: int| 0 <= i < self.keys@.len() ==> #[trigger] self.keys@[i] == released_key()
        &&& self.failsafe_key is None
        &&& self.rewind_key == released_key()
        &&& !self.rewind_failsafe
        &&& self.save_state == idle_one_shot()
        &&& self.load_state == idle_one_shot()
        &&& forall|i: int| 0 <= i < JOYPAD_BUTTON_COUNT ==> !self.gamepad_buttons@[i]
        &&& forall|i: int| 0 <= i < JOYPAD_BUTTON_COUNT ==> !self.previous_gamepad_buttons@[i]
        &&& !self.gamepad_rewind
        &&& !self.gamepad_save_pending
        &&& !self.gamepad_load_pending
        &&& forall|i: int| 0 <= i < JOYPAD_BUTTON_COUNT ==> !self.buttons@[i]
    }
}


/// How a key event changes the state: see `key_target` for what the event
/// is for. Held keys follow `key_after`, one-shot keys `one_shot_after`; a
/// release teaches that the terminal reports releases; the buttons are
/// rebuilt from the keys.
pub open spec fn key_step(s: InputState, t: InputState, event: KeyEvent, now: u64) -> bool {
    let target = key_target(s.bindings, event);
    let kind = event.kind;
    &&& t.bindings == s.bindings
    &&& t.quit_requested == (s.quit_requested || target is Quit)
    &&& t.rewind_key == (if target is Rewind {
        key_after(s.rewind_key, kind, now)
    } else {
        s.rewind_key
    })
    &&& t.rewind_failsafe == (if target is Rewind {
        kind != KeyEventKind::Release
    } else {
        s.rewind_failsafe
    })
    &&& t.save_state == (if target is SaveState {
        one_shot_after(s.save_state, kind, now)
    } else {
        s.save_state
    })
    &&& t.load_state == (if target is LoadState {
        one_shot_after(s.load_state, kind, now)
    } else {
        s.load_state
    })
    &&& t.keys@ == (match target {
        KeyTarget::Button(id) => s.keys@.update(id as int, key_after(s.keys@[id as int], kind, now)),
        _ => s.keys@,
    })
    &&& t.failsafe_key == (match target {
        KeyTarget::Button(id) => if kind != KeyEventKind::Release {
            Some(id)
        } else if s.failsafe_key == Some(id) {
            None
        } else {
            s.failsafe_key
        },
        _ => s.failsafe_key,
    })
    &&& t.release_events_supported == (s.release_events_supported || (kind
        == KeyEventKind::Release && (target is Rewind || target is Button)))
    &&& t.gamepad_buttons == s.gamepad_buttons
    &&& t.previous_gamepad_buttons == s.previous_gamepad_buttons
    &&& t.gamepad_rewind == s.gamepad_rewind
    &&& t.gamepad_save_pending == s.gamepad_save_pending
    &&& t.gamepad_load_pending == s.gamepad_load_pending
}

/// How the passage of time to `now` changes the state. With release
/// events, only the failsafe key and a rewind key under failsafe time out;
/// without, every held key times out after its grace or repeat timeout.
pub open spec fn expire_step(s: InputState, t: InputState, now: u64) -> bool {
    &&& t.bindings == s.bindings
    &&& t.quit_requested == s.quit_requested
    &&& t.release_events_supported == s.release_events_supported
    &&& t.gamepad_buttons == s.gamepad_buttons
    &&& t.previous_gamepad_buttons == s.previous_gamepad_buttons
    &&& t.gamepad_rewind == s.gamepad_rewind
    &&& t.gamepad_save_pending == s.gamepad_save_pending
    &&& t.gamepad_load_pending == s.gamepad_load_pending
    &&& t.save_state == one_shot_expired(s.save_state, now, s.release_events_supported)
    &&& t.load_state == one_shot_expired(s.load_state, now, s.release_events_supported)
    &&& if s.release_events_supported {
        &&& (match s.failsafe_key {
            Some(id) => {
                let k = s.keys@[id as int];
                if timed_out(k.last_seen, now, hold_timeout(k, RELEASE_EVENT_FAILSAFE)) {
                    t.keys@ == s.keys@.update(id as int, released_key()) && t.failsafe_key is None
                } else {
                    t.keys@ == s.keys@ && t.failsafe_key == s.failsafe_key
                }
            },
            None => t.keys@ == s.keys@ && t.failsafe_key is None,
        })
        &&& if s.rewind_failsafe && timed_out(
            s.rewind_key.last_seen,
            now,
            hold_timeout(s.rewind_key, RELEASE_EVENT_FAILSAFE),
        ) {
            t.rewind_key == released_key() && !t.rewind_failsafe
        } else {
            t.rewind_key == s.rewind_key && t.rewind_failsafe == s.rewind_failsafe
        }
    } else {
        &&& t.keys@ == s.keys@.map_values(|k: KeyState| legacy_key_expired(k, now))
        &&& t.failsafe_key == s.failsafe_key
        &&& t.rewind_key == legacy_key_expired(s.rewind_key, now)
        &&& t.rewind_failsafe == s.rewind_failsafe
    }
}

/// How a gamepad sample changes the state: Select+Start requests quit,
/// Select+R1 a save and Select+R2 a load, each when the combination goes
/// down (and edges are detected); Select+L1 holds rewind when enabled; the
/// effective buttons reach the core.
pub open spec fn gamepad_step(
    s: InputState,
    t: InputState,
    buttons: Seq<bool>,
    detect_edges: bool,
) -> bool {
    let prev = s.previous_gamepad_buttons@;
    &&& t.bindings == s.bindings
    &&& t.keys == s.keys
    &&& t.failsafe_key == s.failsafe_key
    &&& t.rewind_key == s.rewind_key
    &&& t.rewind_failsafe == s.rewind_failsafe
    &&& t.save_state == s.save_state
    &&& t.load_state == s.load_state
    &&& t.release_events_supported == s.release_events_supported
    &&& t.quit_requested == (s.quit_requested || (detect_edges && combo_pressed(
        buttons,
        prev,
        BUTTON_START as int,
    )))
    &&& t.gamepad_save_pending == (s.gamepad_save_pending || (detect_edges && combo_pressed(
        buttons,
        prev,
        BUTTON_R as int,
    )))
    &&& t.gamepad_load_pending == (s.gamepad_load_pending || (detect_edges && combo_pressed(
        buttons,
        prev,
        BUTTON_R2 as int,
    )))
    &&& t.gamepad_rewind == (s.bindings.rewind_enabled && buttons[BUTTON_SELECT as int]
        && buttons[BUTTON_L as int])
    &&& t.gamepad_buttons@ == effective_pad(buttons, s.bindings.rewind_enabled)
    &&& t.previous_gamepad_buttons@ == buttons
}

/// The buttons that `keys` and `pad` hold under bindings `g`.
fn held_array(keys: &Vec<KeyState>, g: &Vec<Binding>, pad: &[bool; JOYPAD_BUTTON_COUNT]) -> (r: [bool;
    JOYPAD_BUTTON_COUNT])
    requires
        keys@.len() == g@.len(),
        forall|i: int| 0 <= i < g@.len() ==> (#[trigger] g@[i]).button < JOYPAD_BUTTON_COUNT,
    ensures
        r@ == held_buttons(keys@, g@, pad@),
{
    let mut b = [false; 16];
    let mut id: usize = 0;
    while id < keys.len()
        invariant
            id <= keys@.len(),
            keys@.len() == g@.len(),
            forall|i: int| 0 <= i < g@.len() ==> (#[trigger] g@[i]).button < JOYPAD_BUTTON_COUNT,
            forall|x: int|
                0 <= x < JOYPAD_BUTTON_COUNT ==> (b@[x] <==> exists|j: int|
                    0 <= j < id && (#[trigger] keys@[j]).pressed && g@[j].button == x),
        decreases keys@.len() - id,
    {
        let ghost before = b@;
        if keys[id].pressed {
            b[g[id].button] = true;
        }
        assert forall|x: int| 0 <= x < JOYPAD_BUTTON_COUNT implies (b@[x] <==> exists|j: int|
            0 <= j < id + 1 && (#[trigger] keys@[j]).pressed && g@[j].button == x) by {
            if b@[x] && !before[x] {
                assert(keys@[id as int].pressed && g@[id as int].button == x);
            }
            if exists|j: int| 0 <= j < id + 1 && (#[trigger] keys@[j]).pressed && g@[j].button == x {
                let j = choose|j: int| 0 <= j < id + 1 && (#[trigger] keys@[j]).pressed && g@[j].button == x;
                if j < id {
                    assert(before[x]);
                }
            }
        }
        id += 1;
    }
    let mut x: usize = 0;
    while x < JOYPAD_BUTTON_COUNT
        invariant
            x <= JOYPAD_BUTTON_COUNT,
            keys@.len() == g@.len(),
            forall|y: int| 0 <= y < x ==> b@[y] == button_held(keys@, g@, pad@, y),
            forall|y: int|
                x <= y < JOYPAD_BUTTON_COUNT ==> (b@[y] <==> exists|j: int|
                    0 <= j < keys@.len() && (#[trigger] keys@[j]).pressed && g@[j].button == y),
        decreases JOYPAD_BUTTON_COUNT - x,
    {
        if pad[x] {
            b[x] = true;
        }
        x += 1;
    }
    assert(b@ =~= held_buttons(keys@, g@, pad@));
    b
}

/// The index of the first gamepad binding of `key`.
fn binding_of(g: &Vec<Binding>, key: InputKey) -> (r: Option<usize>)
    ensures
        match r {
            Some(i) => i < g@.len() && first_binding_of(g@, key) == Some(i as int),
            None => first_binding_of(g@, key) is None,
        },
{
    let mut i: usize = 0;
    while i < g.len()
        invariant
            i <= g@.len(),
            forall|j: int| 0 <= j < i ==> (#[trigger] g@[j]).key != key,
        decreases g@.len() - i,
    {
        if g[i].key == key {
            let ghost c = choose|k: int|
                0 <= k < g@.len() && g@[k].key == key && forall|j: int| 0 <= j < k ==> g@[j].key != key;
            assert(0 <= i < g@.len() && g@[i as int].key == key);
            assert(c == i) by {
                if c < i {
                    assert(g@[c].key != key);
                } else if c > i {
                    assert(g@[i as int].key != key);
                }
            }
            return Some(i);
        }
        i += 1;
    }
    None
}

/// Whether Select+`button` went down between `previous` and `buttons`.
fn combo(buttons: &[bool; JOYPAD_BUTTON_COUNT], previous: &[bool; JOYPAD_BUTTON_COUNT], button: usize) -> (r: bool)
    requires
        button < JOYPAD_BUTTON_COUNT,
    ensures
        r == combo_pressed(buttons@, previous@, button as int),
{
    buttons[BUTTON_SELECT] && buttons[button] && !(previous[BUTTON_SELECT] && previous[button])
}

/// The buttons of a sample that reach the core.
fn effective_buttons(buttons: &[bool; JOYPAD_BUTTON_COUNT], rewind_enabled: bool) -> (r: [bool;
    JOYPAD_BUTTON_COUNT])
    ensures
        r@ == effective_pad(buttons@, rewind_enabled),
{
    let mut effective = *buttons;
    if buttons[BUTTON_SELECT] {
        effective[BUTTON_START] = false;
        effective[BUTTON_R] = false;
        effective[BUTTON_R2] = false;
        if rewind_enabled {
            effective[BUTTON_L] = false;
        }
    }
    assert(effective@ =~= effective_pad(buttons@, rewind_enabled));
    effective
}

fn press_key(k: KeyState, kind: KeyEventKind, now: u64) -> (r: KeyState)
    ensures
        r == key_after(k, kind, now),
{
    match kind {
        KeyEventKind::Press => KeyState {
            pressed: true,
            last_seen: Some(now),
            repeat_seen: k.repeat_seen || k.pressed,
        },
        KeyEventKind::Repeat => KeyState { pressed: true, last_seen: Some(now), repeat_seen: true },
        KeyEventKind::Release => KeyState { pressed: false, last_seen: None, repeat_seen: false },
    }
}

fn handle_one_shot(k: OneShotKey, kind: KeyEventKind, now: u64) -> (r: OneShotKey)
    ensures
        r == one_shot_after(k, kind, now),
{
    match kind {
        KeyEventKind::Press => OneShotKey {
            pressed: true,
            last_seen: Some(now),
            repeat_seen: k.repeat_seen || k.pressed,
            pending: k.pending || !k.pressed,
        },
        KeyEventKind::Repeat => OneShotKey {
            pressed: true,
            last_seen: Some(now),
            repeat_seen: true,
            pending: k.pending,
        },
        KeyEventKind::Release => OneShotKey {
            pressed: false,
            last_seen: None,
            repeat_seen: false,
            pending: k.pending,
        },
    }
}

fn is_timed_out(last: Option<u64>, now: u64, timeout: u64) -> (r: bool)
    ensures
        r == timed_out(last, now, timeout),
{
    match last {
        Some(t) => now.saturating_sub(t) >= timeout,
        None => false,
    }
}

fn expire_one_shot(k: OneShotKey, now: u64, release_events_supported: bool) -> (r: OneShotKey)
    ensures
        r == one_shot_expired(k, now, release_events_supported),
{
    let timeout = if k.repeat_seen {
        REPEAT_TIMEOUT
    } else if release_events_supported {
        RELEASE_EVENT_FAILSAFE
    } else {
        INITIAL_HOLD_GRACE
    };
    if is_timed_out(k.last_seen, now, timeout) {
        OneShotKey { pressed: false, last_seen: None, repeat_seen: false, pending: k.pending }
    } else {
        k
    }
}

fn expire_legacy_key(k: KeyState, now: u64) -> (r: KeyState)
    ensures
        r == legacy_key_expired(k, now),
{
    if !k.pressed {
        return k;
    }
    let timeout = if k.repeat_seen {
        REPEAT_TIMEOUT
    } else {
        INITIAL_HOLD_GRACE
    };
    if is_timed_out(k.last_seen, now, timeout) {
        KeyState { pressed: false, last_seen: None, repeat_seen: false }
    } else {
        k
    }
}


impl InputState {
    /// A state with nothing held for `bindings`, knowing whether the
    /// terminal reports key releases.
    pub fn with_bindings(bindings: InputBindings, release_events_supported: bool) -> (r: Self)
        requires
            Self::valid_bindings(bindings),
        ensures
            r.wf(),
            r.idle(),
            !r.quit_requested,
            r.bindings == bindings,
            r.release_events_supported == release_events_supported,
    {
        let mut keys: Vec<KeyState> = Vec::new();
        let mut i: usize = 0;
        while i < bindings.gamepad.len()
            invariant
                i <= bindings.gamepad@.len(),
                keys@.len() == i,
                forall|j: int| 0 <= j < i ==> #[trigger] keys@[j] == released_key(),
            decreases bindings.gamepad@.len() - i,
        {
            keys.push(KeyState { pressed: false, last_seen: None, repeat_seen: false });
            i += 1;
        }
        let pad = [false; 16];
        let buttons = held_array(&keys, &bindings.gamepad, &pad);
        let r = InputState {
            bindings,
            buttons,
            keys,
            quit_requested: false,
            release_events_supported,
            failsafe_key: None,
            rewind_key: KeyState { pressed: false, last_seen: None, repeat_seen: false },
            rewind_failsafe: false,
            save_state: OneShotKey { pressed: false, last_seen: None, repeat_seen: false, pending: false },
            load_state: OneShotKey { pressed: false, last_seen: None, repeat_seen: false, pending: false },
            gamepad_buttons: [false; 16],
            previous_gamepad_buttons: [false; 16],
            gamepad_rewind: false,
            gamepad_save_pending: false,
            gamepad_load_pending: false,
        };
        assert forall|x: int| 0 <= x < JOYPAD_BUTTON_COUNT implies !r.buttons@[x] by {
            assert(!pad@[x]);
            if exists|id: int|
                0 <= id < r.keys@.len() && (#[trigger] r.keys@[id]).pressed && r.bindings.gamepad@[id].button == x {
                let id = choose|id: int|
                    0 <= id < r.keys@.len() && (#[trigger] r.keys@[id]).pressed && r.bindings.gamepad@[id].button == x;
                assert(r.keys@[id] == released_key());
            }
        }
        r
    }

    /// The default bindings, for a terminal whose release events are
    /// supported as given.
    pub fn with_release_events_supported(release_events_supported: bool) -> (r: Self)
        ensures
            r.wf(),
            r.idle(),
            !r.quit_requested,
            r.release_events_supported == release_events_supported,
    {
        let bindings = InputBindings::default();
        proof {
            lemma_default_bindings_valid(bindings);
        }
        Self::with_bindings(bindings, release_events_supported)
    }

    /// Feeds a key event received at `now`.
    pub fn handle_key(&mut self, event: KeyEvent, now: u64)
        requires
            old(self).wf(),
        ensures
            final(self).wf(),
            key_step(*old(self), *final(self), event, now),
    {
        let event_key = InputKey::from_event(event);
        if event.kind != KeyEventKind::Release && (is_ctrl_c_event(event) || event_key
            == self.bindings.quit) {
            self.quit_requested = true;
            return;
        }
        if self.bindings.rewind_enabled && event_key == self.bindings.rewind {
            self.rewind_key = press_key(self.rewind_key, event.kind, now);
            match event.kind {
                KeyEventKind::Release => {
                    self.rewind_failsafe = false;
                    self.release_events_supported = true;
                },
                _ => {
                    self.rewind_failsafe = true;
                },
            }
            return;
        }
        if event_key == self.bindings.save_state {
            self.save_state = handle_one_shot(self.save_state, event.kind, now);
            return;
        }
        if event_key == self.bindings.load_state {
            self.load_state = handle_one_shot(self.load_state, event.kind, now);
            return;
        }
        let key_id = match binding_of(&self.bindings.gamepad, event_key) {
            Some(id) => id,
            None => {
                return;
            },
        };
        let updated = press_key(self.keys[key_id], event.kind, now);
        self.keys.set(key_id, updated);
        match event.kind {
            KeyEventKind::Release => {
                self.release_events_supported = true;
                if self.failsafe_key == Some(key_id) {
                    self.failsafe_key = None;
                }
            },
            _ => {
                self.failsafe_key = Some(key_id);
            },
        }
        self.buttons = held_array(&self.keys, &self.bindings.gamepad, &self.gamepad_buttons);
    }

    /// Feeds a gamepad sample, detecting hotkey combinations that went
    /// down when `detect_edges` is set.
    pub fn update_gamepad_with_edges(&mut self, buttons: [bool; JOYPAD_BUTTON_COUNT], detect_edges: bool)
        requires
            old(self).wf(),
        ensures
            final(self).wf(),
            gamepad_step(*old(self), *final(self), buttons@, detect_edges),
    {
        let previous = self.previous_gamepad_buttons;
        if detect_edges && combo(&buttons, &previous, BUTTON_START) {
            self.quit_requested = true;
        }
        if detect_edges && combo(&buttons, &previous, BUTTON_R) {
            self.gamepad_save_pending = true;
        }
        if detect_edges && combo(&buttons, &previous, BUTTON_R2) {
            self.gamepad_load_pending = true;
        }
        self.gamepad_rewind = self.bindings.rewind_enabled && buttons[BUTTON_SELECT]
            && buttons[BUTTON_L];
        let effective = effective_buttons(&buttons, self.bindings.rewind_enabled);
        self.gamepad_buttons = effective;
        self.previous_gamepad_buttons = buttons;
        self.buttons = held_array(&self.keys, &self.bindings.gamepad, &self.gamepad_buttons);
    }

    /// Feeds a gamepad sample, detecting hotkey combinations.
    pub fn update_gamepad(&mut self, buttons: [bool; JOYPAD_BUTTON_COUNT])
        requires
            old(self).wf(),
        ensures
            final(self).wf(),
            gamepad_step(*old(self), *final(self), buttons@, true),
    {
        self.update_gamepad_with_edges(buttons, true);
    }

    /// Forgets the gamepad: no button held, no combination pending.
    pub fn clear_gamepad(&mut self)
        requires
            old(self).wf(),
        ensures
            final(self).wf(),
            final(self).bindings == old(self).bindings,
            final(self).keys == old(self).keys,
            final(self).failsafe_key == old(self).failsafe_key,
            final(self).rewind_key == old(self).rewind_key,
            final(self).rewind_failsafe == old(self).rewind_failsafe,
            final(self).save_state == old(self).save_state,
            final(self).load_state == old(self).load_state,
            final(self).quit_requested == old(self).quit_requested,
            final(self).release_events_supported == old(self).release_events_supported,
            forall|i: int| 0 <= i < JOYPAD_BUTTON_COUNT ==> !final(self).gamepad_buttons@[i],
            forall|i: int| 0 <= i < JOYPAD_BUTTON_COUNT ==> !final(self).previous_gamepad_buttons@[i],
            !final(self).gamepad_rewind,
            !final(self).gamepad_save_pending,
            !final(self).gamepad_load_pending,
    {
        self.gamepad_buttons = [false; 16];
        self.previous_gamepad_buttons = [false; 16];
        self.gamepad_rewind = false;
        self.gamepad_save_pending = false;
        self.gamepad_load_pending = false;
        self.buttons = held_array(&self.keys, &self.bindings.gamepad, &self.gamepad_buttons);
    }

    /// Lets time pass to `now`, releasing keys whose timeout passed.
    pub fn expire(&mut self, now: u64)
        requires
            old(self).wf(),
        ensures
            final(self).wf(),
            expire_step(*old(self), *final(self), now),
    {
        if self.release_events_supported {
            match self.failsafe_key {
                Some(key_id) => {
                    let key = self.keys[key_id];
                    let timeout = if key.repeat_seen {
                        REPEAT_TIMEOUT
                    } else {
                        RELEASE_EVENT_FAILSAFE
                    };
                    if is_timed_out(key.last_seen, now, timeout) {
                        self.keys.set(key_id, KeyState { pressed: false, last_seen: None, repeat_seen: false });
                        self.failsafe_key = None;
                    }
                },
                None => {},
            }
            if self.rewind_failsafe {
                let timeout = if self.rewind_key.repeat_seen {
                    REPEAT_TIMEOUT
                } else {
                    RELEASE_EVENT_FAILSAFE
                };
                if is_timed_out(self.rewind_key.last_seen, now, timeout) {
                    self.rewind_key = KeyState { pressed: false, last_seen: None, repeat_seen: false };
                    self.rewind_failsafe = false;
                }
            }
        } else {
            let mut keys: Vec<KeyState> = Vec::new();
            let mut i: usize = 0;
            while i < self.keys.len()
                invariant
                    i <= self.keys@.len(),
                    keys@.len() == i,
                    forall|j: int| 0 <= j < i ==> #[trigger] keys@[j] == legacy_key_expired(self.keys@[j], now),
                decreases self.keys@.len() - i,
            {
                keys.push(expire_legacy_key(self.keys[i], now));
                i += 1;
            }
            assert(keys@ =~= self.keys@.map_values(|k: KeyState| legacy_key_expired(k, now)));
            self.keys = keys;
            self.rewind_key = expire_legacy_key(self.rewind_key, now);
        }
        self.save_state = expire_one_shot(self.save_state, now, self.release_events_supported);
        self.load_state = expire_one_shot(self.load_state, now, self.release_events_supported);
        self.buttons = held_array(&self.keys, &self.bindings.gamepad, &self.gamepad_buttons);
    }

    /// Releases everything and cancels pending actions; a quit request
    /// stays.
    pub fn clear(&mut self)
        requires
            old(self).wf(),
        ensures
            final(self).wf(),
            final(self).bindings == old(self).bindings,
            final(self).quit_requested == old(self).quit_requested,
            final(self).release_events_supported == old(self).release_events_supported,
            final(self).idle(),
    {
        self.clear_gamepad();
        let mut keys: Vec<KeyState> = Vec::new();
        let mut i: usize = 0;
        while i < self.keys.len()
            invariant
                i <= self.keys@.len(),
                keys@.len() == i,
                forall|j: int| 0 <= j < i ==> #[trigger] keys@[j] == released_key(),
            decreases self.keys@.len() - i,
        {
            keys.push(KeyState { pressed: false, last_seen: None, repeat_seen: false });
            i += 1;
        }
        self.keys = keys;
        self.failsafe_key = None;
        self.rewind_key = KeyState { pressed: false, last_seen: None, repeat_seen: false };
        self.rewind_failsafe = false;
        self.save_state = OneShotKey { pressed: false, last_seen: None, repeat_seen: false, pending: false };
        self.load_state = OneShotKey { pressed: false, last_seen: None, repeat_seen: false, pending: false };
        self.buttons = held_array(&self.keys, &self.bindings.gamepad, &self.gamepad_buttons);
        assert forall|x: int| 0 <= x < JOYPAD_BUTTON_COUNT implies !self.buttons@[x] by {
            if exists|id: int|
                0 <= id < self.keys@.len() && (#[trigger] self.keys@[id]).pressed
                    && self.bindings.gamepad@[id].button == x {
                let id = choose|id: int|
                    0 <= id < self.keys@.len() && (#[trigger] self.keys@[id]).pressed
                        && self.bindings.gamepad@[id].button == x;
                assert(self.keys@[id] == released_key());
            }
        }
    }

    /// Whether quitting was requested.
    pub fn quit_requested(&self) -> (r: bool)
        ensures
            r == self.quit_requested,
    {
        self.quit_requested
    }

    /// Requests quitting.
    pub fn request_quit(&mut self)
        requires
            old(self).wf(),
        ensures
            final(self).wf(),
            final(self).quit_requested,
            (InputState { quit_requested: old(self).quit_requested, ..*final(self) }) == *old(self),
    {
        self.quit_requested = true;
    }

    /// Whether rewind is held, by its key or by Select+L1.
    pub fn rewind_pressed(&self) -> (r: bool)
        ensures
            r == (self.rewind_key.pressed || self.gamepad_rewind),
    {
        self.rewind_key.pressed || self.gamepad_rewind
    }

    /// Whether a save was requested since the last call; clears the request.
    pub fn take_save(&mut self) -> (r: bool)
        requires
            old(self).wf(),
        ensures
            final(self).wf(),
            r == (old(self).save_state.pending || old(self).gamepad_save_pending),
            !final(self).save_state.pending,
            !final(self).gamepad_save_pending,
            (InputState {
                save_state: OneShotKey { pending: old(self).save_state.pending, ..final(self).save_state },
                gamepad_save_pending: old(self).gamepad_save_pending,
                ..*final(self)
            }) == *old(self),
    {
        let pending = self.save_state.pending || self.gamepad_save_pending;
        self.save_state.pending = false;
        self.gamepad_save_pending = false;
        pending
    }

    /// Whether a load was requested since the last call; clears the request.
    pub fn take_load(&mut self) -> (r: bool)
        requires
            old(self).wf(),
        ensures
            final(self).wf(),
            r == (old(self).load_state.pending || old(self).gamepad_load_pending),
            !final(self).load_state.pending,
            !final(self).gamepad_load_pending,
            (InputState {
                load_state: OneShotKey { pending: old(self).load_state.pending, ..final(self).load_state },
                gamepad_load_pending: old(self).gamepad_load_pending,
                ..*final(self)
            }) == *old(self),
    {
        let pending = self.load_state.pending || self.gamepad_load_pending;
        self.load_state.pending = false;
        self.gamepad_load_pending = false;
        pending
    }

    /// The held buttons as the core reads them: bit `i` for button `i`.
    pub fn button_mask(&self) -> (r: u16)
        ensures
            r == mask_of(self.buttons@),
    {
        let mut mask: u16 = 0;
        let mut id: usize = 0;
        while id < JOYPAD_BUTTON_COUNT
            invariant
                id <= JOYPAD_BUTTON_COUNT,
                mask == mask_of(self.buttons@.take(id as int)),
            decreases JOYPAD_BUTTON_COUNT - id,
        {
            assert(self.buttons@.take(id + 1).drop_last() =~= self.buttons@.take(id as int));
            if self.buttons[id] {
                mask = mask | (1u16 << (id as u16));
            }
            id += 1;
        }
        assert(self.buttons@.take(16) =~= self.buttons@);
        mask
    }
}

/// Every default binding names a joypad button.
proof fn lemma_default_bindings_valid(b: InputBindings)
    requires
        b.gamepad@.len() == crate::input::bindings::default_gamepad().len(),
        forall|i: int|
            0 <= i < crate::input::bindings::default_gamepad().len() ==> crate::input::bindings::binding_is(
                #[trigger] b.gamepad@[i],
                crate::input::bindings::default_gamepad()[i],
            ),
    ensures
        InputState::valid_bindings(b),
{
    let d = crate::input::bindings::default_gamepad();
    assert forall|i: int| 0 <= i < b.gamepad@.len() implies (#[trigger] b.gamepad@[i]).button
        < JOYPAD_BUTTON_COUNT by {
        assert(crate::input::bindings::binding_is(b.gamepad@[i], d[i]));
    }
}

impl Default for InputState {
    /// The default bindings, on a terminal not known to report releases.
    fn default() -> (r: Self)
        ensures
            r.wf(),
            r.idle(),
            !r.quit_requested,
            !r.release_events_supported,
    {
        Self::with_release_events_supported(false)
    }
}

/// A quit request is never withdrawn: no key event, gamepad sample or
/// passage of time clears it.
pub proof fn lemma_quit_is_sticky(
    s: InputState,
    t: InputState,
    event: KeyEvent,
    buttons: Seq<bool>,
    detect_edges: bool,
    now: u64,
)
    requires
        s.quit_requested,
    ensures
        key_step(s, t, event, now) ==> t.quit_requested,
        gamepad_step(s, t, buttons, detect_edges) ==> t.quit_requested,
        expire_step(s, t, now) ==> t.quit_requested,
{
}

/// Control+C requests quitting whatever the bindings, on press and repeat.
pub proof fn lemma_ctrl_c_quits(s: InputState, t: InputState, event: KeyEvent, now: u64)
    requires
        key_step(s, t, event, now),
        is_ctrl_c(event),
        event.kind != KeyEventKind::Release,
    ensures
        t.quit_requested,
{
}

/// Save and load fire once per press: only a press of the key while it is
/// up makes its action pending; repeats, releases, and presses while it is
/// held never do.
pub proof fn lemma_one_shot_fires_once_per_press(s: InputState, t: InputState, event: KeyEvent, now: u64)
    requires
        key_step(s, t, event, now),
    ensures
        t.save_state.pending && !s.save_state.pending ==> event.kind == KeyEventKind::Press
            && !s.save_state.pressed,
        t.load_state.pending && !s.load_state.pending ==> event.kind == KeyEventKind::Press
            && !s.load_state.pressed,
        s.save_state.pending ==> t.save_state.pending,
        s.load_state.pending ==> t.load_state.pending,
{
}

/// A one-shot key through a run of events (kind and time), in order.
pub open spec fn one_shot_run(k: OneShotKey, events: Seq<(KeyEventKind, u64)>) -> OneShotKey
    decreases events.len(),
{
    if events.len() == 0 {
        k
    } else {
        one_shot_after(one_shot_run(k, events.drop_last()), events.last().0, events.last().1)
    }
}

/// Over any run of key events, the action is pending exactly when it was
/// already, or some event of the run was a press while the key was up: a
/// held key's repeats (and presses while held) never fire it again, and
/// after a release the next press fires it once more.
pub proof fn lemma_one_shot_run_pending(k: OneShotKey, events: Seq<(KeyEventKind, u64)>)
    ensures
        one_shot_run(k, events).pending <==> (k.pending || exists|i: int|
            0 <= i < events.len() && events[i].0 == KeyEventKind::Press && !(#[trigger] one_shot_run(
                k,
                events.take(i),
            )).pressed),
    decreases events.len(),
{
    if events.len() > 0 {
        let prev = events.drop_last();
        lemma_one_shot_run_pending(k, prev);
        let n = events.len() - 1;
        assert(events.take(n) =~= prev);
        assert forall|i: int| 0 <= i < n implies events.take(i) =~= prev.take(i) && events[i] == prev[i] by {}
        if one_shot_run(k, events).pending && !k.pending {
            if !one_shot_run(k, prev).pending {
                assert(events[n].0 == KeyEventKind::Press && !one_shot_run(k, events.take(n)).pressed);
            } else {
                let i = choose|i: int|
                    0 <= i < prev.len() && prev[i].0 == KeyEventKind::Press && !(#[trigger] one_shot_run(
                        k,
                        prev.take(i),
                    )).pressed;
                assert(events.take(i) =~= prev.take(i));
            }
        }
        if !k.pending && exists|i: int|
            0 <= i < events.len() && events[i].0 == KeyEventKind::Press && !(#[trigger] one_shot_run(
                k,
                events.take(i),
            )).pressed {
            let i = choose|i: int|
                0 <= i < events.len() && events[i].0 == KeyEventKind::Press && !(#[trigger] one_shot_run(
                    k,
                    events.take(i),
                )).pressed;
            if i < n {
                assert(events.take(i) =~= prev.take(i));
                assert(one_shot_run(k, prev).pending);
            }
        }
    }
}

/// A key through a run of events (kind and time), in order.
pub open spec fn key_run(k: KeyState, events: Seq<(KeyEventKind, u64)>) -> KeyState
    decreases events.len(),
{
    if events.len() == 0 {
        k
    } else {
        key_after(key_run(k, events.drop_last()), events.last().0, events.last().1)
    }
}

/// On a terminal without release events, a key pressed at the first event
/// and then only repeated (or pressed again) stays held after expiry at
/// `now` exactly while less than the timeout has passed since the last
/// event: `REPEAT_TIMEOUT` once it repeated, `INITIAL_HOLD_GRACE` after a
/// lone press.
pub proof fn lemma_legacy_hold_timing(events: Seq<(KeyEventKind, u64)>, now: u64)
    requires
        events.len() > 0,
        events[0].0 == KeyEventKind::Press,
        forall|i: int| 0 <= i < events.len() ==> (#[trigger] events[i]).0 != KeyEventKind::Release,
    ensures
        ({
            let k = key_run(released_key(), events);
            let last = events.last().1;
            let timeout = if events.len() > 1 {
                REPEAT_TIMEOUT
            } else {
                INITIAL_HOLD_GRACE
            };
            &&& k.pressed
            &&& k.last_seen == Some(last)
            &&& k.repeat_seen == (events.len() > 1)
            &&& legacy_key_expired(k, now).pressed <==> (now < last || now - last < timeout)
        }),
    decreases events.len(),
{
    if events.len() > 1 {
        let prev = events.drop_last();
        assert(prev[0] == events[0]);
        assert forall|i: int| 0 <= i < prev.len() implies (#[trigger] prev[i]).0 != KeyEventKind::Release by {
            assert(prev[i] == events[i]);
        }
        lemma_legacy_hold_timing(prev, now);
        assert(events.last() == events[events.len() - 1]);
        assert(events.last().0 != KeyEventKind::Release);
    } else {
        assert(events.drop_last() =~= Seq::<(KeyEventKind, u64)>::empty());
        assert(key_run(released_key(), events.drop_last()) == released_key());
        assert(events.last() == events[0]);
    }
}

/// A bound key's first binding is within the bindings and binds it.
pub proof fn lemma_first_binding_in_range(g: Seq<Binding>, key: InputKey)
    ensures
        first_binding_of(g, key) matches Some(i) ==> 0 <= i < g.len() && g[i].key == key,
{
    if exists|i: int| 0 <= i < g.len() && g[i].key == key {
        let w = choose|i: int| 0 <= i < g.len() && g[i].key == key;
        lemma_first_binding_exists(g, key, w);
    }
}

proof fn lemma_first_binding_exists(g: Seq<Binding>, key: InputKey, w: int)
    requires
        0 <= w < g.len(),
        g[w].key == key,
    ensures
        exists|i: int| 0 <= i < g.len() && g[i].key == key && forall|j: int| 0 <= j < i ==> g[j].key != key,
    decreases w,
{
    if exists|j: int| 0 <= j < w && g[j].key == key {
        let j = choose|j: int| 0 <= j < w && g[j].key == key;
        lemma_first_binding_exists(g, key, j);
    } else {
        assert(forall|j: int| 0 <= j < w ==> g[j].key != key);
    }
}

/// The events of a run (event and time) that are for `target` under `b`,
/// as kind and time, in order.
pub open spec fn events_for(b: InputBindings, events: Seq<(KeyEvent, u64)>, target: KeyTarget) -> Seq<
    (KeyEventKind, u64),
>
    decreases events.len(),
{
    if events.len() == 0 {
        Seq::empty()
    } else {
        let prev = events_for(b, events.drop_last(), target);
        if key_target(b, events.last().0) == target {
            prev.push((events.last().0.kind, events.last().1))
        } else {
            prev
        }
    }
}

/// Whether `states` is a run of `handle_key` over `events`, in order.
pub open spec fn key_event_run(states: Seq<InputState>, events: Seq<(KeyEvent, u64)>) -> bool {
    &&& states.len() == events.len() + 1
    &&& forall|i: int| 0 <= i < states.len() ==> (#[trigger] states[i]).wf()
    &&& forall|i: int|
        0 <= i < events.len() ==> key_step(states[i], states[i + 1], (#[trigger] events[i]).0, events[i].1)
}

/// What one key event does to the save, load and bound keys.
proof fn lemma_key_step_keys(s: InputState, t: InputState, event: KeyEvent, now: u64)
    requires
        key_step(s, t, event, now),
        s.keys@.len() == s.bindings.gamepad@.len(),
    ensures
        t.bindings == s.bindings,
        t.keys@.len() == s.keys@.len(),
        t.save_state == (if key_target(s.bindings, event) == KeyTarget::SaveState {
            one_shot_after(s.save_state, event.kind, now)
        } else {
            s.save_state
        }),
        t.load_state == (if key_target(s.bindings, event) == KeyTarget::LoadState {
            one_shot_after(s.load_state, event.kind, now)
        } else {
            s.load_state
        }),
        forall|id: usize|
            id < s.keys@.len() ==> #[trigger] t.keys@[id as int] == (if key_target(s.bindings, event)
                == KeyTarget::Button(id) {
                key_after(s.keys@[id as int], event.kind, now)
            } else {
                s.keys@[id as int]
            }),
{
    lemma_first_binding_in_range(s.bindings.gamepad@, event_key(event));
    let target = key_target(s.bindings, event);
    match target {
        KeyTarget::Button(j) => {
            assert(j < s.keys@.len());
            assert forall|id: usize| id < s.keys@.len() implies #[trigger] t.keys@[id as int] == (if target
                == KeyTarget::Button(id) {
                key_after(s.keys@[id as int], event.kind, now)
            } else {
                s.keys@[id as int]
            }) by {
                if id != j {
                    assert(target != KeyTarget::Button(id));
                }
            }
        },
        _ => {
            assert(t.keys@ == s.keys@);
        },
    }
}

/// Over a run of key events, each key goes its own way: the save and load
/// keys follow only their own events, and each bound key only the events
/// for its binding, whatever else happens in between.
pub proof fn lemma_keys_independent(states: Seq<InputState>, events: Seq<(KeyEvent, u64)>)
    requires
        key_event_run(states, events),
    ensures
        states.last().bindings == states[0].bindings,
        states.last().keys@.len() == states[0].keys@.len(),
        (forall|i: int| 0 <= i < events.len() ==> (#[trigger] events[i]).0.kind != KeyEventKind::Release)
            ==> states.last().release_events_supported == states[0].release_events_supported,
        states.last().save_state == one_shot_run(
            states[0].save_state,
            events_for(states[0].bindings, events, KeyTarget::SaveState),
        ),
        states.last().load_state == one_shot_run(
            states[0].load_state,
            events_for(states[0].bindings, events, KeyTarget::LoadState),
        ),
        forall|id: usize|
            id < states[0].keys@.len() ==> #[trigger] states.last().keys@[id as int] == key_run(
                states[0].keys@[id as int],
                events_for(states[0].bindings, events, KeyTarget::Button(id)),
            ),
    decreases events.len(),
{
    if events.len() > 0 {
        let n = events.len() - 1;
        let ps = states.drop_last();
        let pe = events.drop_last();
        assert forall|i: int| 0 <= i < pe.len() implies key_step(ps[i], ps[i + 1], (#[trigger] pe[i]).0, pe[i].1) by {
            assert(pe[i] == events[i] && ps[i] == states[i] && ps[i + 1] == states[i + 1]);
            assert(key_step(states[i], states[i + 1], events[i].0, events[i].1));
        }
        assert forall|i: int| 0 <= i < ps.len() implies (#[trigger] ps[i]).wf() by {
            assert(ps[i] == states[i]);
        }
        lemma_keys_independent(ps, pe);
        if forall|i: int| 0 <= i < events.len() ==> (#[trigger] events[i]).0.kind != KeyEventKind::Release {
            assert forall|i: int| 0 <= i < pe.len() implies (#[trigger] pe[i]).0.kind != KeyEventKind::Release by {
                assert(pe[i] == events[i]);
            }
        }
        let s = states[n];
        let t = states[n + 1];
        assert(ps.last() == s && states.last() == t && ps[0] == states[0]);
        assert(events.last() == events[n]);
        assert(key_step(s, t, events[n].0, events[n].1));
        assert(s.wf() && t.wf());
        let b = states[0].bindings;
        lemma_key_step_keys(s, t, events[n].0, events[n].1);
        assert forall|id: usize| id < states[0].keys@.len() implies #[trigger] t.keys@[id as int] == key_run(
            states[0].keys@[id as int],
            events_for(b, events, KeyTarget::Button(id)),
        ) by {
            let prev = events_for(b, pe, KeyTarget::Button(id));
            assert(s.keys@[id as int] == key_run(states[0].keys@[id as int], prev));
            if key_target(b, events[n].0) == KeyTarget::Button(id) {
                let full = prev.push((events[n].0.kind, events[n].1));
                assert(full.drop_last() =~= prev);
            }
        }
        if key_target(b, events[n].0) == KeyTarget::SaveState {
            let prev = events_for(b, pe, KeyTarget::SaveState);
            assert(prev.push((events[n].0.kind, events[n].1)).drop_last() =~= prev);
        }
        if key_target(b, events[n].0) == KeyTarget::LoadState {
            let prev = events_for(b, pe, KeyTarget::LoadState);
            assert(prev.push((events[n].0.kind, events[n].1)).drop_last() =~= prev);
        }
    }
}

/// The events for one target keep the kinds of the run: with no release
/// in the run, none is for the target.
proof fn lemma_events_for_no_release(b: InputBindings, events: Seq<(KeyEvent, u64)>, target: KeyTarget)
    requires
        forall|i: int| 0 <= i < events.len() ==> (#[trigger] events[i]).0.kind != KeyEventKind::Release,
    ensures
        forall|i: int|
            0 <= i < events_for(b, events, target).len() ==> (#[trigger] events_for(b, events, target)[i]).0
                != KeyEventKind::Release,
    decreases events.len(),
{
    if events.len() > 0 {
        let pe = events.drop_last();
        assert forall|i: int| 0 <= i < pe.len() implies (#[trigger] pe[i]).0.kind != KeyEventKind::Release by {
            assert(pe[i] == events[i]);
        }
        lemma_events_for_no_release(b, pe, target);
        assert(events.last() == events[events.len() - 1]);
    }
}

/// Save fires once per press: over any run of key events, the save action
/// is pending at the end exactly when it was at the start, or some event
/// of the save key was a press while that key was up; repeats of a held
/// key never fire it again, and events of other keys change nothing. The
/// same holds of load. (`take_save` and `take_load` report and clear it.)
pub proof fn lemma_save_load_once_per_press(states: Seq<InputState>, events: Seq<(KeyEvent, u64)>)
    requires
        key_event_run(states, events),
    ensures
        ({
            let saves = events_for(states[0].bindings, events, KeyTarget::SaveState);
            states.last().save_state.pending <==> (states[0].save_state.pending || exists|i: int|
                0 <= i < saves.len() && saves[i].0 == KeyEventKind::Press && !(#[trigger] one_shot_run(
                    states[0].save_state,
                    saves.take(i),
                )).pressed)
        }),
        ({
            let loads = events_for(states[0].bindings, events, KeyTarget::LoadState);
            states.last().load_state.pending <==> (states[0].load_state.pending || exists|i: int|
                0 <= i < loads.len() && loads[i].0 == KeyEventKind::Press && !(#[trigger] one_shot_run(
                    states[0].load_state,
                    loads.take(i),
                )).pressed)
        }),
{
    lemma_keys_independent(states, events);
    lemma_one_shot_run_pending(states[0].save_state, events_for(states[0].bindings, events, KeyTarget::SaveState));
    lemma_one_shot_run_pending(states[0].load_state, events_for(states[0].bindings, events, KeyTarget::LoadState));
}

/// Hold timing on a terminal without release events, key by key: when no
/// key is released during a run, a bound key that was up, was pressed by
/// the first event for it and then only repeated, is still held after
/// expiry at `now` exactly while less than its timeout has passed since
/// the last event for it: `REPEAT_TIMEOUT` once it repeated,
/// `INITIAL_HOLD_GRACE` after a lone press. Events of other keys do not
/// matter.
pub proof fn lemma_expiry_timing(
    states: Seq<InputState>,
    events: Seq<(KeyEvent, u64)>,
    expired: InputState,
    now: u64,
    id: usize,
)
    requires
        key_event_run(states, events),
        !states[0].release_events_supported,
        forall|i: int| 0 <= i < events.len() ==> (#[trigger] events[i]).0.kind != KeyEventKind::Release,
        expire_step(states.last(), expired, now),
        id < states[0].keys@.len(),
        states[0].keys@[id as int] == released_key(),
        events_for(states[0].bindings, events, KeyTarget::Button(id)).len() > 0,
        events_for(states[0].bindings, events, KeyTarget::Button(id))[0].0 == KeyEventKind::Press,
    ensures
        ({
            let own = events_for(states[0].bindings, events, KeyTarget::Button(id));
            let last = own.last().1;
            let timeout = if own.len() > 1 {
                REPEAT_TIMEOUT
            } else {
                INITIAL_HOLD_GRACE
            };
            expired.keys@[id as int].pressed <==> (now < last || now - last < timeout)
        }),
{
    let b = states[0].bindings;
    let own = events_for(b, events, KeyTarget::Button(id));
    lemma_keys_independent(states, events);
    lemma_events_for_no_release(b, events, KeyTarget::Button(id));
    lemma_legacy_hold_timing(own, now);
    let s = states.last();
    assert(!s.release_events_supported);
    assert(expired.keys@ == s.keys@.map_values(|k: KeyState| legacy_key_expired(k, now)));
    assert(expired.keys@[id as int] == legacy_key_expired(s.keys@[id as int], now));
}

/// Bit `b` of the mask is set exactly when button `b` is held, and no bit
/// beyond the buttons is set.
pub proof fn lemma_mask_bits(buttons: Seq<bool>)
    requires
        buttons.len() <= 16,
    ensures
        forall|b: u16| b < buttons.len() ==> ((mask_of(buttons) & (1u16 << b)) != 0 <==> buttons[b as int]),
        forall|b: u16| buttons.len() <= b < 16 ==> (mask_of(buttons) & (1u16 << b)) == 0,
    decreases buttons.len(),
{
    if buttons.len() > 0 {
        let prev = buttons.drop_last();
        lemma_mask_bits(prev);
        let m = mask_of(prev);
        let n = (buttons.len() - 1) as u16;
        assert forall|b: u16| b < buttons.len() implies ((mask_of(buttons) & (1u16 << b)) != 0
            <==> buttons[b as int]) by {
            if b < n {
                assert(prev[b as int] == buttons[b as int]);
                assert((m & (1u16 << b)) == ((m | (1u16 << n)) & (1u16 << b))) by (bit_vector)
                    requires
                        b < n,
                        n < 16,
                ;
            } else {
                assert(b == n);
                assert((m & (1u16 << n)) == 0 ==> ((m | (1u16 << n)) & (1u16 << n)) != 0) by (bit_vector)
                    requires
                        n < 16,
                ;
            }
        }
        assert forall|b: u16| buttons.len() <= b < 16 implies (mask_of(buttons) & (1u16 << b)) == 0 by {
            assert((m & (1u16 << b)) == 0 ==> ((m | (1u16 << n)) & (1u16 << b)) == 0) by (bit_vector)
                requires
                    n < b,
                    b < 16,
            ;
        }
    } else {
        assert forall|b: u16| b < 16 implies (0u16 & (1u16 << b)) == 0 by {
            assert((0u16 & (1u16 << b)) == 0) by (bit_vector);
        }
    }
}
} // verus!
