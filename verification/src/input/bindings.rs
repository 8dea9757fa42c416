//! Key bindings: which key holds which joypad button, and the keys of the
//! quit, rewind, save-state and load-state actions. No key serves twice.
use vstd::prelude::*;
use crate::input::joypad::{
    BUTTON_A, BUTTON_B, BUTTON_DOWN, BUTTON_L, BUTTON_L2, BUTTON_L3, BUTTON_LEFT, BUTTON_R,
    BUTTON_R2, BUTTON_R3, BUTTON_RIGHT, BUTTON_SELECT, BUTTON_START, BUTTON_UP, BUTTON_X,
    BUTTON_Y,
};
use crate::input::keys::{InputKey, KeyCode, ModifierKeyCode, parsed_key};
use crate::text::{
    joined, lower_seq, push_chars, push_joined, push_str, str_chars, string_from_chars,
    to_ascii_lowercase,
};

verus! {

/// A key that holds a joypad button, with the key's name as configured
/// (in lower case).
#[derive(Debug)]
pub struct Binding {
    pub key: InputKey,
    pub key_name: String,
    pub button: usize,
}

/// The key bindings of a session.
#[derive(Debug)]
pub struct InputBindings {
    pub gamepad: Vec<Binding>,
    pub quit: InputKey,
    pub quit_name: String,
    pub rewind: InputKey,
    pub rewind_name: String,
    pub rewind_enabled: bool,
    pub save_state: InputKey,
    pub save_state_name: String,
    pub load_state: InputKey,
    pub load_state_name: String,
}

/// A gamepad entry of the configuration: input name, button, key name.
pub open spec fn entry_view(e: (&str, usize, &str)) -> (Seq<char>, usize, Seq<char>) {
    (e.0@, e.1, e.2@)
}

/// The input that `key` is assigned to, if any.
pub open spec fn assigned_input(assigned: Seq<(InputKey, Seq<char>)>, key: InputKey) -> Option<
    Seq<char>,
>
    decreases assigned.len(),
{
    if assigned.len() == 0 {
        None
    } else if assigned.last().0 == key {
        Some(assigned.last().1)
    } else {
        assigned_input(assigned.drop_last(), key)
    }
}

pub open spec fn invalid_key_message(input: Seq<char>, error: Seq<char>) -> Seq<char> {
    "invalid key for input \""@ + input + "\": "@ + error
}

pub open spec fn conflict_message(key_text: Seq<char>, input: Seq<char>, previous: Seq<char>) -> Seq<
    char,
> {
    "key \""@ + key_text + "\" for input \""@ + input + "\" is already bound to \""@ + previous
        + "\""@
}

/// Assigns the key named `key_text` to `input`, or the message that
/// refuses it: the name is not a key, or the key is assigned already.
pub open spec fn claim(assigned: Seq<(InputKey, Seq<char>)>, input: Seq<char>, key_text: Seq<char>) -> Result<
    Seq<(InputKey, Seq<char>)>,
    Seq<char>,
> {
    match parsed_key(key_text) {
        Err(e) => Err(invalid_key_message(input, e)),
        Ok(k) => match assigned_input(assigned, k) {
            Some(previous) => Err(conflict_message(key_text, input, previous)),
            None => Ok(assigned.push((k, input))),
        },
    }
}

/// Assigns the gamepad entries in order.
pub open spec fn claim_gamepad(entries: Seq<(Seq<char>, usize, Seq<char>)>) -> Result<
    Seq<(InputKey, Seq<char>)>,
    Seq<char>,
>
    decreases entries.len(),
{
    if entries.len() == 0 {
        Ok(Seq::empty())
    } else {
        match claim_gamepad(entries.drop_last()) {
            Err(e) => Err(e),
            Ok(a) => claim(a, entries.last().0, entries.last().2),
        }
    }
}

/// The message that refuses a set of bindings: the gamepad entries, then
/// quit, rewind (when enabled), save and load are assigned in turn.
pub open spec fn bindings_error(
    entries: Seq<(Seq<char>, usize, Seq<char>)>,
    quit: Seq<char>,
    rewind: Seq<char>,
    save: Seq<char>,
    load: Seq<char>,
    rewind_enabled: bool,
) -> Option<Seq<char>> {
    match claim_gamepad(entries) {
        Err(e) => Some(e),
        Ok(a1) => match claim(a1, "quit"@, quit) {
            Err(e) => Some(e),
            Ok(a2) => match (if rewind_enabled {
                claim(a2, "rewind"@, rewind)
            } else {
                Ok(a2)
            }) {
                Err(e) => Some(e),
                Ok(a3) => match claim(a3, "save_state"@, save) {
                    Err(e) => Some(e),
                    Ok(a4) => match claim(a4, "load_state"@, load) {
                        Err(e) => Some(e),
                        Ok(_) => None,
                    },
                },
            },
        },
    }
}

/// Whether `b` holds the bindings that the entries and action key names
/// describe (where they are accepted).
pub open spec fn built_from(
    b: InputBindings,
    entries: Seq<(Seq<char>, usize, Seq<char>)>,
    quit: Seq<char>,
    rewind: Seq<char>,
    save: Seq<char>,
    load: Seq<char>,
    rewind_enabled: bool,
) -> bool {
    &&& b.gamepad@.len() == entries.len()
    &&& forall|i: int|
        0 <= i < entries.len() ==> {
            &&& (#[trigger] b.gamepad@[i]).key == key_of(entries[i].2)
            &&& b.gamepad@[i].key_name@ == lower_seq(entries[i].2)
            &&& b.gamepad@[i].button == entries[i].1
        }
    &&& b.quit == key_of(quit)
    &&& b.quit_name@ == lower_seq(quit)
    &&& b.rewind_enabled == rewind_enabled
    &&& rewind_enabled ==> b.rewind == key_of(rewind) && b.rewind_name@ == lower_seq(rewind)
    &&& !rewind_enabled ==> b.rewind == InputKey { code: KeyCode::Char('r'), keypad: false }
        && b.rewind_name@ == "r"@
    &&& b.save_state == key_of(save)
    &&& b.save_state_name@ == lower_seq(save)
    &&& b.load_state == key_of(load)
    &&& b.load_state_name@ == lower_seq(load)
}

/// The key that a name denotes; meaningful where the name parses.
pub open spec fn key_of(name: Seq<char>) -> InputKey {
    parsed_key(name)->Ok_0
}

/// Whether `keys` and `names` hold the assignment `assigned`.
pub open spec fn holds_assignment(
    keys: Seq<InputKey>,
    names: Seq<Vec<char>>,
    assigned: Seq<(InputKey, Seq<char>)>,
) -> bool {
    &&& keys.len() == assigned.len()
    &&& names.len() == assigned.len()
    &&& forall|i: int| 0 <= i < assigned.len() ==> keys[i] == (#[trigger] assigned[i]).0
    &&& forall|i: int| 0 <= i < assigned.len() ==> names[i]@ == (#[trigger] assigned[i]).1
}

fn find_assigned(keys: &Vec<InputKey>, names: &Vec<Vec<char>>, key: InputKey, Ghost(assigned): Ghost<
    Seq<(InputKey, Seq<char>)>,
>) -> (r: Option<usize>)
    requires
        holds_assignment(keys@, names@, assigned),
    ensures
        match r {
            Some(i) => i < assigned.len() && assigned_input(assigned, key) == Some(assigned[i as int].1),
            None => assigned_input(assigned, key) is None,
        },
{
    let mut i: usize = keys.len();
    assert(assigned.take(i as int) =~= assigned);
    while i > 0
        invariant
            i <= assigned.len(),
            holds_assignment(keys@, names@, assigned),
            assigned_input(assigned, key) == assigned_input(assigned.take(i as int), key),
        decreases i,
    {
        assert(assigned.take(i as int).last() == assigned[i - 1]);
        if keys[i - 1] == key {
            return Some(i - 1);
        }
        assert(assigned.take(i as int).drop_last() =~= assigned.take(i - 1));
        i -= 1;
    }
    None
}

/// Assigns the key named `key_text` to `input`, as `claim` describes.
fn claim_key(
    keys: &mut Vec<InputKey>,
    names: &mut Vec<Vec<char>>,
    input: &str,
    key_text: &str,
    Ghost(assigned): Ghost<Seq<(InputKey, Seq<char>)>>,
) -> (r: Result<InputKey, String>)
    requires
        holds_assignment(old(keys)@, old(names)@, assigned),
    ensures
        match r {
            Ok(k) => claim(assigned, input@, key_text@) == Ok::<
                Seq<(InputKey, Seq<char>)>,
                Seq<char>,
            >(assigned.push((k, input@))) && parsed_key(key_text@) == Ok::<InputKey, Seq<char>>(k)
                && holds_assignment(final(keys)@, final(names)@, assigned.push((k, input@))),
            Err(e) => claim(assigned, input@, key_text@) == Err::<
                Seq<(InputKey, Seq<char>)>,
                Seq<char>,
            >(e@),
        },
{
    let key = match InputKey::parse(key_text) {
        Ok(k) => k,
        Err(error) => {
            let mut m = str_chars("invalid key for input \"");
            push_str(&mut m, input);
            push_str(&mut m, "\": ");
            push_str(&mut m, error.as_str());
            return Err(string_from_chars(&m));
        },
    };
    match find_assigned(keys, names, key, Ghost(assigned)) {
        Some(i) => {
            let mut m = str_chars("key \"");
            push_str(&mut m, key_text);
            push_str(&mut m, "\" for input \"");
            push_str(&mut m, input);
            push_str(&mut m, "\" is already bound to \"");
            push_chars(&mut m, &names[i]);
            push_str(&mut m, "\"");
            Err(string_from_chars(&m))
        },
        None => {
            keys.push(key);
            names.push(str_chars(input));
            assert(holds_assignment(keys@, names@, assigned.push((key, input@))));
            Ok(key)
        },
    }
}

impl InputBindings {
    /// The bindings for gamepad entries `(input, button, key name)` and the
    /// action keys, or the message that refuses them. The rewind key is
    /// only checked and reserved when rewind is enabled.
    pub fn new(
        gamepad: &[(&str, usize, &str)],
        quit: &str,
        rewind: &str,
        save_state: &str,
        load_state: &str,
        rewind_enabled: bool,
    ) -> (r: Result<Self, String>)
        ensures
            match r {
                Err(e) => bindings_error(
                    gamepad@.map_values(|e: (&str, usize, &str)| entry_view(e)),
                    quit@,
                    rewind@,
                    save_state@,
                    load_state@,
                    rewind_enabled,
                ) == Some(e@),
                Ok(b) => bindings_error(
                    gamepad@.map_values(|e: (&str, usize, &str)| entry_view(e)),
                    quit@,
                    rewind@,
                    save_state@,
                    load_state@,
                    rewind_enabled,
                ) is None && built_from(
                    b,
                    gamepad@.map_values(|e: (&str, usize, &str)| entry_view(e)),
                    quit@,
                    rewind@,
                    save_state@,
                    load_state@,
                    rewind_enabled,
                ),
            },
    {
        let ghost entries = gamepad@.map_values(|e: (&str, usize, &str)| entry_view(e));
        let mut keys: Vec<InputKey> = Vec::new();
        let mut names: Vec<Vec<char>> = Vec::new();
        let ghost mut assigned: Seq<(InputKey, Seq<char>)> = Seq::empty();
        let mut bindings: Vec<Binding> = Vec::new();
        let mut i: usize = 0;
        while i < gamepad.len()
            invariant
                i <= gamepad@.len(),
                entries == gamepad@.map_values(|e: (&str, usize, &str)| entry_view(e)),
                claim_gamepad(entries.take(i as int)) == Ok::<
                    Seq<(InputKey, Seq<char>)>,
                    Seq<char>,
                >(assigned),
                holds_assignment(keys@, names@, assigned),
                bindings@.len() == i,
                forall|j: int|
                    0 <= j < i ==> {
                        &&& (#[trigger] bindings@[j]).key == key_of(gamepad@[j].2@)
                        &&& bindings@[j].key_name@ == lower_seq(gamepad@[j].2@)
                        &&& bindings@[j].button == gamepad@[j].1
                    },
            decreases gamepad@.len() - i,
        {
            let (input, button, key_name) = gamepad[i];
            assert(entries.take(i + 1).drop_last() =~= entries.take(i as int));
            assert(entries.take(i + 1).last() == entry_view(gamepad@[i as int]));
            let claimed = claim_key(&mut keys, &mut names, input, key_name, Ghost(assigned));
            match claimed {
                Ok(key) => {
                    proof {
                        assigned = assigned.push((key, input@));
                    }
                    bindings.push(Binding { key, key_name: to_ascii_lowercase(key_name), button });
                },
                Err(e) => {
                    proof {
                        lemma_claim_gamepad_error_persists(entries, i + 1);
                    }
                    return Err(e);
                },
            }
            i += 1;
        }
        assert(entries.take(i as int) =~= entries);
        let quit_key = match claim_key(&mut keys, &mut names, "quit", quit, Ghost(assigned)) {
            Ok(k) => k,
            Err(e) => {
                return Err(e);
            },
        };
        proof {
            assigned = assigned.push((quit_key, "quit"@));
        }
        let rewind_key;
        let rewind_name;
        if rewind_enabled {
            rewind_key = match claim_key(&mut keys, &mut names, "rewind", rewind, Ghost(assigned)) {
                Ok(k) => k,
                Err(e) => {
                    return Err(e);
                },
            };
            proof {
                assigned = assigned.push((rewind_key, "rewind"@));
            }
            rewind_name = to_ascii_lowercase(rewind);
        } else {
            rewind_key = InputKey { code: KeyCode::Char('r'), keypad: false };
            rewind_name = "r".to_owned();
        }
        let save_key = match claim_key(
            &mut keys,
            &mut names,
            "save_state",
            save_state,
            Ghost(assigned),
        ) {
            Ok(k) => k,
            Err(e) => {
                return Err(e);
            },
        };
        proof {
            assigned = assigned.push((save_key, "save_state"@));
        }
        let load_key = match claim_key(
            &mut keys,
            &mut names,
            "load_state",
            load_state,
            Ghost(assigned),
        ) {
            Ok(k) => k,
            Err(e) => {
                return Err(e);
            },
        };
        Ok(
            InputBindings {
                gamepad: bindings,
                quit: quit_key,
                quit_name: to_ascii_lowercase(quit),
                rewind: rewind_key,
                rewind_name,
                rewind_enabled,
                save_state: save_key,
                save_state_name: to_ascii_lowercase(save_state),
                load_state: load_key,
                load_state_name: to_ascii_lowercase(load_state),
            },
        )
    }
}

/// The index of the first gamepad binding that holds `button`.
pub open spec fn first_binding_for(g: Seq<Binding>, button: usize) -> Option<int> {
    if exists|i: int| 0 <= i < g.len() && g[i].button == button {
        Some(
            choose|i: int|
                0 <= i < g.len() && g[i].button == button && forall|j: int|
                    0 <= j < i ==> g[j].button != button,
        )
    } else {
        None
    }
}

/// The status-line item for `button`: its label and the name of the first
/// key bound to it, or nothing when no key holds it.
pub open spec fn status_item(g: Seq<Binding>, label: Seq<char>, button: usize) -> Seq<Seq<char>> {
    match first_binding_for(g, button) {
        Some(i) => seq![label + "-"@ + g[i].key_name@],
        None => Seq::empty(),
    }
}

/// The gamepad line of the status bar: the bound buttons in a fixed order,
/// separated by spaces.
pub open spec fn gamepad_line(g: Seq<Binding>) -> Seq<char> {
    joined(
        status_item(g, "↑"@, BUTTON_UP) + status_item(g, "↓"@, BUTTON_DOWN) + status_item(
            g,
            "←"@,
            BUTTON_LEFT,
        ) + status_item(g, "→"@, BUTTON_RIGHT) + status_item(g, "Select"@, BUTTON_SELECT)
            + status_item(g, "Start"@, BUTTON_START) + status_item(g, "L1"@, BUTTON_L)
            + status_item(g, "L2"@, BUTTON_L2) + status_item(g, "R1"@, BUTTON_R) + status_item(
            g,
            "R2"@,
            BUTTON_R2,
        ) + status_item(g, "L3"@, BUTTON_L3) + status_item(g, "R3"@, BUTTON_R3) + status_item(
            g,
            "X"@,
            BUTTON_X,
        ) + status_item(g, "Y"@, BUTTON_Y) + status_item(g, "A"@, BUTTON_A) + status_item(
            g,
            "B"@,
            BUTTON_B,
        ),
        " "@,
    )
}

/// The controls line of the status bar: save, load, rewind (when
/// enabled) and exit keys.
pub open spec fn controls_line(b: InputBindings) -> Seq<char> {
    "Save-"@ + b.save_state_name@ + " Load-"@ + b.load_state_name@ + (if b.rewind_enabled {
        " Rewind-"@ + b.rewind_name@
    } else {
        Seq::empty()
    }) + " Exit-"@ + b.quit_name@
}

fn binding_for(g: &Vec<Binding>, button: usize) -> (r: Option<usize>)
    ensures
        match r {
            Some(i) => i < g@.len() && first_binding_for(g@, button) == Some(i as int),
            None => first_binding_for(g@, button) is None,
        },
{
    let mut i: usize = 0;
    while i < g.len()
        invariant
            i <= g@.len(),
            forall|j: int| 0 <= j < i ==> (#[trigger] g@[j]).button != button,
        decreases g@.len() - i,
    {
        if g[i].button == button {
            let ghost c = choose|k: int|
                0 <= k < g@.len() && g@[k].button == button && forall|j: int|
                    0 <= j < k ==> g@[j].button != button;
            assert(0 <= i < g@.len() && g@[i as int].button == button);
            assert(c == i) by {
                if c < i {
                    assert(g@[c].button != button);
                } else if c > i {
                    assert(g@[i as int].button != button);
                }
            }
            return Some(i);
        }
        i += 1;
    }
    None
}

fn push_status_item(
    out: &mut Vec<char>,
    count: &mut usize,
    g: &Vec<Binding>,
    label: &str,
    button: usize,
    Ghost(items): Ghost<Seq<Seq<char>>>,
) -> (r: Ghost<Seq<Seq<char>>>)
    requires
        old(out)@ == joined(items, " "@),
        *old(count) == items.len(),
        items.len() < 16,
    ensures
        r@ == items + status_item(g@, label@, button),
        final(out)@ == joined(r@, " "@),
        *final(count) == r@.len(),
        r@.len() <= items.len() + 1,
{
    match binding_for(g, button) {
        Some(i) => {
            let mut item = str_chars(label);
            push_str(&mut item, "-");
            push_str(&mut item, g[i].key_name.as_str());
            push_joined(out, *count, " ", &item, Ghost(items));
            *count = *count + 1;
            assert(items.push(item@) =~= items + status_item(g@, label@, button));
            Ghost(items.push(item@))
        },
        None => {
            assert(items =~= items + status_item(g@, label@, button));
            Ghost(items)
        },
    }
}

impl InputBindings {
    /// The configured name of the quit key, in lower case.
    pub fn quit_name(&self) -> (r: &str)
        ensures
            r@ == self.quit_name@,
    {
        self.quit_name.as_str()
    }

    /// The configured name of the rewind key, in lower case (`r` when
    /// rewind is disabled).
    pub fn rewind_name(&self) -> (r: &str)
        ensures
            r@ == self.rewind_name@,
    {
        self.rewind_name.as_str()
    }

    /// Whether the rewind key is bound.
    pub fn rewind_enabled(&self) -> (r: bool)
        ensures
            r == self.rewind_enabled,
    {
        self.rewind_enabled
    }

    /// The status-bar line of the gamepad keys.
    pub fn gamepad_status_line(&self) -> (r: String)
        ensures
            r@ == gamepad_line(self.gamepad@),
    {
        let g = &self.gamepad;
        let mut out: Vec<char> = Vec::new();
        let mut count: usize = 0;
        let ghost items: Seq<Seq<char>> = Seq::empty();
        let Ghost(items) = push_status_item(&mut out, &mut count, g, "↑", BUTTON_UP, Ghost(items));
        let Ghost(items) = push_status_item(&mut out, &mut count, g, "↓", BUTTON_DOWN, Ghost(items));
        let Ghost(items) = push_status_item(&mut out, &mut count, g, "←", BUTTON_LEFT, Ghost(items));
        let Ghost(items) = push_status_item(&mut out, &mut count, g, "→", BUTTON_RIGHT, Ghost(items));
        let Ghost(items) = push_status_item(&mut out, &mut count, g, "Select", BUTTON_SELECT, Ghost(items));
        let Ghost(items) = push_status_item(&mut out, &mut count, g, "Start", BUTTON_START, Ghost(items));
        let Ghost(items) = push_status_item(&mut out, &mut count, g, "L1", BUTTON_L, Ghost(items));
        let Ghost(items) = push_status_item(&mut out, &mut count, g, "L2", BUTTON_L2, Ghost(items));
        let Ghost(items) = push_status_item(&mut out, &mut count, g, "R1", BUTTON_R, Ghost(items));
        let Ghost(items) = push_status_item(&mut out, &mut count, g, "R2", BUTTON_R2, Ghost(items));
        let Ghost(items) = push_status_item(&mut out, &mut count, g, "L3", BUTTON_L3, Ghost(items));
        let Ghost(items) = push_status_item(&mut out, &mut count, g, "R3", BUTTON_R3, Ghost(items));
        let Ghost(items) = push_status_item(&mut out, &mut count, g, "X", BUTTON_X, Ghost(items));
        let Ghost(items) = push_status_item(&mut out, &mut count, g, "Y", BUTTON_Y, Ghost(items));
        let Ghost(items) = push_status_item(&mut out, &mut count, g, "A", BUTTON_A, Ghost(items));
        let Ghost(items) = push_status_item(&mut out, &mut count, g, "B", BUTTON_B, Ghost(items));
        assert(Seq::<Seq<char>>::empty() + status_item(g@, "↑"@, BUTTON_UP) =~= status_item(
            g@,
            "↑"@,
            BUTTON_UP,
        ));
        string_from_chars(&out)
    }

    /// The status-bar line of the action keys.
    pub fn controls_status_line(&self) -> (r: String)
        ensures
            r@ == controls_line(*self),
    {
        let mut out = str_chars("Save-");
        push_str(&mut out, self.save_state_name.as_str());
        push_str(&mut out, " Load-");
        push_str(&mut out, self.load_state_name.as_str());
        if self.rewind_enabled {
            push_str(&mut out, " Rewind-");
            push_str(&mut out, self.rewind_name.as_str());
        }
        push_str(&mut out, " Exit-");
        push_str(&mut out, self.quit_name.as_str());
        string_from_chars(&out)
    }
}

/// A key outside the keypad.
pub open spec fn plain(code: KeyCode) -> InputKey {
    InputKey { code, keypad: false }
}

/// The default gamepad keys: (key, name, button).
pub open spec fn default_gamepad() -> Seq<(InputKey, Seq<char>, usize)> {
    seq![
        (plain(KeyCode::Up), "up"@, BUTTON_UP),
        (plain(KeyCode::Down), "down"@, BUTTON_DOWN),
        (plain(KeyCode::Left), "left"@, BUTTON_LEFT),
        (plain(KeyCode::Right), "right"@, BUTTON_RIGHT),
        (plain(KeyCode::Char('x')), "x"@, BUTTON_A),
        (plain(KeyCode::Char('z')), "z"@, BUTTON_B),
        (plain(KeyCode::Char('s')), "s"@, BUTTON_X),
        (plain(KeyCode::Char('a')), "a"@, BUTTON_Y),
        (plain(KeyCode::Enter), "enter"@, BUTTON_START),
        (plain(KeyCode::Modifier(ModifierKeyCode::RightShift)), "rshift"@, BUTTON_SELECT),
        (plain(KeyCode::Char('q')), "q"@, BUTTON_L),
        (plain(KeyCode::Char('w')), "w"@, BUTTON_R),
    ]
}

/// Whether the binding `b` is the entry `e` of a table.
pub open spec fn binding_is(b: Binding, e: (InputKey, Seq<char>, usize)) -> bool {
    b.key == e.0 && b.key_name@ == e.1 && b.button == e.2
}

impl Default for InputBindings {
    /// Arrow keys for the d-pad, X/Z/S/A for A/B/X/Y, Enter and right Shift
    /// for Start and Select, Q/W for the shoulders; Escape quits, R
    /// rewinds, F2 saves and F4 loads.
    fn default() -> (r: Self)
        ensures
            r.gamepad@.len() == default_gamepad().len(),
            forall|i: int|
                0 <= i < default_gamepad().len() ==> binding_is(
                    #[trigger] r.gamepad@[i],
                    default_gamepad()[i],
                ),
            r.quit == plain(KeyCode::Esc),
            r.quit_name@ == "escape"@,
            r.rewind == plain(KeyCode::Char('r')),
            r.rewind_name@ == "r"@,
            r.rewind_enabled,
            r.save_state == plain(KeyCode::F(2)),
            r.save_state_name@ == "f2"@,
            r.load_state == plain(KeyCode::F(4)),
            r.load_state_name@ == "f4"@,
    {
        let mut gamepad: Vec<Binding> = Vec::new();
        gamepad.push(Binding { key: plain_key(KeyCode::Up), key_name: "up".to_owned(), button: BUTTON_UP });
        gamepad.push(Binding { key: plain_key(KeyCode::Down), key_name: "down".to_owned(), button: BUTTON_DOWN });
        gamepad.push(Binding { key: plain_key(KeyCode::Left), key_name: "left".to_owned(), button: BUTTON_LEFT });
        gamepad.push(Binding { key: plain_key(KeyCode::Right), key_name: "right".to_owned(), button: BUTTON_RIGHT });
        gamepad.push(Binding { key: plain_key(KeyCode::Char('x')), key_name: "x".to_owned(), button: BUTTON_A });
        gamepad.push(Binding { key: plain_key(KeyCode::Char('z')), key_name: "z".to_owned(), button: BUTTON_B });
        gamepad.push(Binding { key: plain_key(KeyCode::Char('s')), key_name: "s".to_owned(), button: BUTTON_X });
        gamepad.push(Binding { key: plain_key(KeyCode::Char('a')), key_name: "a".to_owned(), button: BUTTON_Y });
        gamepad.push(Binding { key: plain_key(KeyCode::Enter), key_name: "enter".to_owned(), button: BUTTON_START });
        gamepad.push(Binding { key: plain_key(KeyCode::Modifier(ModifierKeyCode::RightShift)), key_name: "rshift".to_owned(), button: BUTTON_SELECT });
        gamepad.push(Binding { key: plain_key(KeyCode::Char('q')), key_name: "q".to_owned(), button: BUTTON_L });
        gamepad.push(Binding { key: plain_key(KeyCode::Char('w')), key_name: "w".to_owned(), button: BUTTON_R });
        InputBindings {
            gamepad,
            quit: plain_key(KeyCode::Esc),
            quit_name: "escape".to_owned(),
            rewind: plain_key(KeyCode::Char('r')),
            rewind_name: "r".to_owned(),
            rewind_enabled: true,
            save_state: plain_key(KeyCode::F(2)),
            save_state_name: "f2".to_owned(),
            load_state: plain_key(KeyCode::F(4)),
            load_state_name: "f4".to_owned(),
        }
    }
}

fn plain_key(code: KeyCode) -> (r: InputKey)
    ensures
        r == plain(code),
{
    InputKey { code, keypad: false }
}

/// Once a prefix of the gamepad entries is refused, so is every longer one.
proof fn lemma_claim_gamepad_error_persists(entries: Seq<(Seq<char>, usize, Seq<char>)>, k: int)
    requires
        0 <= k <= entries.len(),
        claim_gamepad(entries.take(k)) is Err,
    ensures
        claim_gamepad(entries) == claim_gamepad(entries.take(k)),
    decreases entries.len() - k,
{
    if k < entries.len() {
        assert(entries.take(k + 1).drop_last() =~= entries.take(k));
        lemma_claim_gamepad_error_persists(entries, k + 1);
    } else {
        assert(entries.take(k) =~= entries);
    }
}

} // verus!
