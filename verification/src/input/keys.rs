//! Keys as the terminal reports them, and the key names that the
//! configuration accepts for them (RetroArch's names and a few aliases).
use vstd::prelude::*;
use crate::text::{
    all_digits, chars_all_digits, decimal, digit_char, is_digit, chars_contain, chars_equal, chars_range, digits_value, has_char,
    lower, lower_seq, parse_u32_digits, push_chars, push_str, str_chars, str_equal,
    string_from_chars, to_ascii_lowercase,
};

verus! {

/// A modifier key pressed on its own.
#[derive(Clone, Copy, Debug, PartialEq, Eq, Structural, Hash)]
pub enum ModifierKeyCode {
    LeftShift,
    LeftControl,
    LeftAlt,
    LeftSuper,
    LeftHyper,
    LeftMeta,
    RightShift,
    RightControl,
    RightAlt,
    RightSuper,
    RightHyper,
    RightMeta,
    IsoLevel3Shift,
    IsoLevel5Shift,
}

/// A media key.
#[derive(Clone, Copy, Debug, PartialEq, Eq, Structural, Hash)]
pub enum MediaKeyCode {
    Play,
    Pause,
    PlayPause,
    Reverse,
    Stop,
    FastForward,
    Rewind,
    TrackNext,
    TrackPrevious,
    Record,
    LowerVolume,
    RaiseVolume,
    MuteVolume,
}

/// The key of a key event.
#[derive(Clone, Copy, Debug, PartialEq, Eq, Structural, Hash)]
pub enum KeyCode {
    Backspace,
    Enter,
    Left,
    Right,
    Up,
    Down,
    Home,
    End,
    PageUp,
    PageDown,
    Tab,
    BackTab,
    Delete,
    Insert,
    F(u8),
    Char(char),
    Null,
    Esc,
    CapsLock,
    ScrollLock,
    NumLock,
    PrintScreen,
    Pause,
    Menu,
    KeypadBegin,
    Media(MediaKeyCode),
    Modifier(ModifierKeyCode),
}

/// Whether a key went down, auto-repeated, or went up.
#[derive(Clone, Copy, Debug, PartialEq, Eq, Structural, Hash)]
pub enum KeyEventKind {
    Press,
    Repeat,
    Release,
}

/// What the input logic reads of a key event: the key, its kind, whether it
/// came from the numeric keypad, and whether Control was held.
#[derive(Clone, Copy, Debug, PartialEq, Eq, Structural)]
pub struct KeyEvent {
    pub code: KeyCode,
    pub kind: KeyEventKind,
    pub keypad: bool,
    pub control: bool,
}

/// A bindable key: its code, normalized, and whether it is a keypad key.
#[derive(Clone, Copy, Debug, PartialEq, Eq, Structural, Hash)]
pub struct InputKey {
    pub code: KeyCode,
    pub keypad: bool,
}

/// Letters compare in lower case.
pub open spec fn normalized(code: KeyCode) -> KeyCode {
    match code {
        KeyCode::Char(c) => KeyCode::Char(lower(c)),
        _ => code,
    }
}

/// Keypad keys reported by their navigation meaning (Num Lock off) stand
/// for the digit or point printed on them.
pub open spec fn keypad_normalized(code: KeyCode) -> KeyCode {
    match code {
        KeyCode::Insert => KeyCode::Char('0'),
        KeyCode::End => KeyCode::Char('1'),
        KeyCode::Down => KeyCode::Char('2'),
        KeyCode::PageDown => KeyCode::Char('3'),
        KeyCode::Left => KeyCode::Char('4'),
        KeyCode::KeypadBegin => KeyCode::Char('5'),
        KeyCode::Right => KeyCode::Char('6'),
        KeyCode::Home => KeyCode::Char('7'),
        KeyCode::Up => KeyCode::Char('8'),
        KeyCode::PageUp => KeyCode::Char('9'),
        KeyCode::Delete => KeyCode::Char('.'),
        _ => code,
    }
}

/// The key that an event is matched against bindings as.
pub open spec fn event_key(event: KeyEvent) -> InputKey {
    InputKey {
        code: if event.keypad {
            keypad_normalized(normalized(event.code))
        } else {
            normalized(event.code)
        },
        keypad: event.keypad,
    }
}

fn normalize_code(code: KeyCode) -> (r: KeyCode)
    ensures
        r == normalized(code),
{
    match code {
        KeyCode::Char(c) => KeyCode::Char(crate::text::ascii_lower(c)),
        _ => code,
    }
}

fn normalize_keypad_code(code: KeyCode) -> (r: KeyCode)
    ensures
        r == keypad_normalized(code),
{
    match code {
        KeyCode::Insert => KeyCode::Char('0'),
        KeyCode::End => KeyCode::Char('1'),
        KeyCode::Down => KeyCode::Char('2'),
        KeyCode::PageDown => KeyCode::Char('3'),
        KeyCode::Left => KeyCode::Char('4'),
        KeyCode::KeypadBegin => KeyCode::Char('5'),
        KeyCode::Right => KeyCode::Char('6'),
        KeyCode::Home => KeyCode::Char('7'),
        KeyCode::Up => KeyCode::Char('8'),
        KeyCode::PageUp => KeyCode::Char('9'),
        KeyCode::Delete => KeyCode::Char('.'),
        _ => code,
    }
}

/// Whether `event` is Control+C, in either case.
pub open spec fn is_ctrl_c(event: KeyEvent) -> bool {
    event.control && (event.code == KeyCode::Char('c') || event.code == KeyCode::Char('C'))
}

pub fn is_ctrl_c_event(event: KeyEvent) -> (r: bool)
    ensures
        r == is_ctrl_c(event),
{
    event.control && match event.code {
        KeyCode::Char(c) => c == 'c' || c == 'C',
        _ => false,
    }
}

/// Keys without a printable character, by name.
pub open spec fn special_key_named(name: Seq<char>) -> Option<KeyCode> {
    if name == "backspace"@ {
        Some(KeyCode::Backspace)
    } else if name == "enter"@ || name == "return"@ {
        Some(KeyCode::Enter)
    } else if name == "left"@ {
        Some(KeyCode::Left)
    } else if name == "right"@ {
        Some(KeyCode::Right)
    } else if name == "up"@ {
        Some(KeyCode::Up)
    } else if name == "down"@ {
        Some(KeyCode::Down)
    } else if name == "home"@ {
        Some(KeyCode::Home)
    } else if name == "end"@ {
        Some(KeyCode::End)
    } else if name == "pageup"@ || name == "page-up"@ {
        Some(KeyCode::PageUp)
    } else if name == "pagedown"@ || name == "page-down"@ {
        Some(KeyCode::PageDown)
    } else if name == "tab"@ {
        Some(KeyCode::Tab)
    } else if name == "del"@ || name == "delete"@ {
        Some(KeyCode::Delete)
    } else if name == "insert"@ {
        Some(KeyCode::Insert)
    } else if name == "null"@ {
        Some(KeyCode::Null)
    } else if name == "escape"@ || name == "esc"@ {
        Some(KeyCode::Esc)
    } else if name == "capslock"@ || name == "caps-lock"@ {
        Some(KeyCode::CapsLock)
    } else if name == "scroll_lock"@ || name == "scroll-lock"@ {
        Some(KeyCode::ScrollLock)
    } else if name == "numlock"@ || name == "num-lock"@ {
        Some(KeyCode::NumLock)
    } else if name == "print_screen"@ || name == "print-screen"@ {
        Some(KeyCode::PrintScreen)
    } else if name == "pause"@ {
        Some(KeyCode::Pause)
    } else if name == "menu"@ {
        Some(KeyCode::Menu)
    } else {
        None
    }
}

fn special_key(name: &str) -> (r: Option<KeyCode>)
    ensures
        r == special_key_named(name@),
{
    if str_equal(name, "backspace") {
        Some(KeyCode::Backspace)
    } else if str_equal(name, "enter") || str_equal(name, "return") {
        Some(KeyCode::Enter)
    } else if str_equal(name, "left") {
        Some(KeyCode::Left)
    } else if str_equal(name, "right") {
        Some(KeyCode::Right)
    } else if str_equal(name, "up") {
        Some(KeyCode::Up)
    } else if str_equal(name, "down") {
        Some(KeyCode::Down)
    } else if str_equal(name, "home") {
        Some(KeyCode::Home)
    } else if str_equal(name, "end") {
        Some(KeyCode::End)
    } else if str_equal(name, "pageup") || str_equal(name, "page-up") {
        Some(KeyCode::PageUp)
    } else if str_equal(name, "pagedown") || str_equal(name, "page-down") {
        Some(KeyCode::PageDown)
    } else if str_equal(name, "tab") {
        Some(KeyCode::Tab)
    } else if str_equal(name, "del") || str_equal(name, "delete") {
        Some(KeyCode::Delete)
    } else if str_equal(name, "insert") {
        Some(KeyCode::Insert)
    } else if str_equal(name, "null") {
        Some(KeyCode::Null)
    } else if str_equal(name, "escape") || str_equal(name, "esc") {
        Some(KeyCode::Esc)
    } else if str_equal(name, "capslock") || str_equal(name, "caps-lock") {
        Some(KeyCode::CapsLock)
    } else if str_equal(name, "scroll_lock") || str_equal(name, "scroll-lock") {
        Some(KeyCode::ScrollLock)
    } else if str_equal(name, "numlock") || str_equal(name, "num-lock") {
        Some(KeyCode::NumLock)
    } else if str_equal(name, "print_screen") || str_equal(name, "print-screen") {
        Some(KeyCode::PrintScreen)
    } else if str_equal(name, "pause") {
        Some(KeyCode::Pause)
    } else if str_equal(name, "menu") {
        Some(KeyCode::Menu)
    } else {
        None
    }
}

/// Modifier keys, by name.
pub open spec fn modifier_key_named(name: Seq<char>) -> Option<KeyCode> {
    if name == "shift"@ || name == "left-shift"@ {
        Some(KeyCode::Modifier(ModifierKeyCode::LeftShift))
    } else if name == "rshift"@ || name == "right-shift"@ {
        Some(KeyCode::Modifier(ModifierKeyCode::RightShift))
    } else if name == "ctrl"@ || name == "left-control"@ || name == "left-ctrl"@ {
        Some(KeyCode::Modifier(ModifierKeyCode::LeftControl))
    } else if name == "rctrl"@ || name == "right-control"@ || name == "right-ctrl"@ {
        Some(KeyCode::Modifier(ModifierKeyCode::RightControl))
    } else if name == "alt"@ || name == "left-alt"@ {
        Some(KeyCode::Modifier(ModifierKeyCode::LeftAlt))
    } else if name == "ralt"@ || name == "right-alt"@ {
        Some(KeyCode::Modifier(ModifierKeyCode::RightAlt))
    } else if name == "left-super"@ {
        Some(KeyCode::Modifier(ModifierKeyCode::LeftSuper))
    } else if name == "left-hyper"@ {
        Some(KeyCode::Modifier(ModifierKeyCode::LeftHyper))
    } else if name == "left-meta"@ {
        Some(KeyCode::Modifier(ModifierKeyCode::LeftMeta))
    } else if name == "right-super"@ {
        Some(KeyCode::Modifier(ModifierKeyCode::RightSuper))
    } else if name == "right-hyper"@ {
        Some(KeyCode::Modifier(ModifierKeyCode::RightHyper))
    } else if name == "right-meta"@ {
        Some(KeyCode::Modifier(ModifierKeyCode::RightMeta))
    } else if name == "iso-level-3-shift"@ {
        Some(KeyCode::Modifier(ModifierKeyCode::IsoLevel3Shift))
    } else if name == "iso-level-5-shift"@ {
        Some(KeyCode::Modifier(ModifierKeyCode::IsoLevel5Shift))
    } else {
        None
    }
}

fn modifier_key(name: &str) -> (r: Option<KeyCode>)
    ensures
        r == modifier_key_named(name@),
{
    if str_equal(name, "shift") || str_equal(name, "left-shift") {
        Some(KeyCode::Modifier(ModifierKeyCode::LeftShift))
    } else if str_equal(name, "rshift") || str_equal(name, "right-shift") {
        Some(KeyCode::Modifier(ModifierKeyCode::RightShift))
    } else if str_equal(name, "ctrl") || str_equal(name, "left-control") || str_equal(name, "left-ctrl") {
        Some(KeyCode::Modifier(ModifierKeyCode::LeftControl))
    } else if str_equal(name, "rctrl") || str_equal(name, "right-control") || str_equal(name, "right-ctrl") {
        Some(KeyCode::Modifier(ModifierKeyCode::RightControl))
    } else if str_equal(name, "alt") || str_equal(name, "left-alt") {
        Some(KeyCode::Modifier(ModifierKeyCode::LeftAlt))
    } else if str_equal(name, "ralt") || str_equal(name, "right-alt") {
        Some(KeyCode::Modifier(ModifierKeyCode::RightAlt))
    } else if str_equal(name, "left-super") {
        Some(KeyCode::Modifier(ModifierKeyCode::LeftSuper))
    } else if str_equal(name, "left-hyper") {
        Some(KeyCode::Modifier(ModifierKeyCode::LeftHyper))
    } else if str_equal(name, "left-meta") {
        Some(KeyCode::Modifier(ModifierKeyCode::LeftMeta))
    } else if str_equal(name, "right-super") {
        Some(KeyCode::Modifier(ModifierKeyCode::RightSuper))
    } else if str_equal(name, "right-hyper") {
        Some(KeyCode::Modifier(ModifierKeyCode::RightHyper))
    } else if str_equal(name, "right-meta") {
        Some(KeyCode::Modifier(ModifierKeyCode::RightMeta))
    } else if str_equal(name, "iso-level-3-shift") {
        Some(KeyCode::Modifier(ModifierKeyCode::IsoLevel3Shift))
    } else if str_equal(name, "iso-level-5-shift") {
        Some(KeyCode::Modifier(ModifierKeyCode::IsoLevel5Shift))
    } else {
        None
    }
}

/// Printable keys named by a word.
pub open spec fn symbol_key_named(name: Seq<char>) -> Option<KeyCode> {
    if name == "space"@ {
        Some(KeyCode::Char(' '))
    } else if name == "num0"@ {
        Some(KeyCode::Char('0'))
    } else if name == "num1"@ {
        Some(KeyCode::Char('1'))
    } else if name == "num2"@ {
        Some(KeyCode::Char('2'))
    } else if name == "num3"@ {
        Some(KeyCode::Char('3'))
    } else if name == "num4"@ {
        Some(KeyCode::Char('4'))
    } else if name == "num5"@ {
        Some(KeyCode::Char('5'))
    } else if name == "num6"@ {
        Some(KeyCode::Char('6'))
    } else if name == "num7"@ {
        Some(KeyCode::Char('7'))
    } else if name == "num8"@ {
        Some(KeyCode::Char('8'))
    } else if name == "num9"@ {
        Some(KeyCode::Char('9'))
    } else if name == "period"@ {
        Some(KeyCode::Char('.'))
    } else if name == "comma"@ {
        Some(KeyCode::Char(','))
    } else if name == "slash"@ {
        Some(KeyCode::Char('/'))
    } else if name == "minus"@ || name == "subtract"@ {
        Some(KeyCode::Char('-'))
    } else if name == "equals"@ {
        Some(KeyCode::Char('='))
    } else if name == "leftbracket"@ {
        Some(KeyCode::Char('['))
    } else if name == "backslash"@ {
        Some(KeyCode::Char('\\'))
    } else if name == "rightbracket"@ {
        Some(KeyCode::Char(']'))
    } else if name == "backquote"@ {
        Some(KeyCode::Char('`'))
    } else if name == "quote"@ {
        Some(KeyCode::Char('\''))
    } else if name == "semicolon"@ {
        Some(KeyCode::Char(';'))
    } else if name == "tilde"@ {
        Some(KeyCode::Char('~'))
    } else if name == "add"@ {
        Some(KeyCode::Char('+'))
    } else {
        None
    }
}

fn symbol_key(name: &str) -> (r: Option<KeyCode>)
    ensures
        r == symbol_key_named(name@),
{
    if str_equal(name, "space") {
        Some(KeyCode::Char(' '))
    } else if str_equal(name, "num0") {
        Some(KeyCode::Char('0'))
    } else if str_equal(name, "num1") {
        Some(KeyCode::Char('1'))
    } else if str_equal(name, "num2") {
        Some(KeyCode::Char('2'))
    } else if str_equal(name, "num3") {
        Some(KeyCode::Char('3'))
    } else if str_equal(name, "num4") {
        Some(KeyCode::Char('4'))
    } else if str_equal(name, "num5") {
        Some(KeyCode::Char('5'))
    } else if str_equal(name, "num6") {
        Some(KeyCode::Char('6'))
    } else if str_equal(name, "num7") {
        Some(KeyCode::Char('7'))
    } else if str_equal(name, "num8") {
        Some(KeyCode::Char('8'))
    } else if str_equal(name, "num9") {
        Some(KeyCode::Char('9'))
    } else if str_equal(name, "period") {
        Some(KeyCode::Char('.'))
    } else if str_equal(name, "comma") {
        Some(KeyCode::Char(','))
    } else if str_equal(name, "slash") {
        Some(KeyCode::Char('/'))
    } else if str_equal(name, "minus") || str_equal(name, "subtract") {
        Some(KeyCode::Char('-'))
    } else if str_equal(name, "equals") {
        Some(KeyCode::Char('='))
    } else if str_equal(name, "leftbracket") {
        Some(KeyCode::Char('['))
    } else if str_equal(name, "backslash") {
        Some(KeyCode::Char('\\'))
    } else if str_equal(name, "rightbracket") {
        Some(KeyCode::Char(']'))
    } else if str_equal(name, "backquote") {
        Some(KeyCode::Char('`'))
    } else if str_equal(name, "quote") {
        Some(KeyCode::Char('\''))
    } else if str_equal(name, "semicolon") {
        Some(KeyCode::Char(';'))
    } else if str_equal(name, "tilde") {
        Some(KeyCode::Char('~'))
    } else if str_equal(name, "add") {
        Some(KeyCode::Char('+'))
    } else {
        None
    }
}

/// Keys of the numeric keypad, by the name that follows `numpad-` or by their RetroArch name.
pub open spec fn numpad_key_named(name: Seq<char>) -> Option<KeyCode> {
    if name == "0"@ || name == "keypad0"@ {
        Some(KeyCode::Char('0'))
    } else if name == "1"@ || name == "keypad1"@ {
        Some(KeyCode::Char('1'))
    } else if name == "2"@ || name == "keypad2"@ {
        Some(KeyCode::Char('2'))
    } else if name == "3"@ || name == "keypad3"@ {
        Some(KeyCode::Char('3'))
    } else if name == "4"@ || name == "keypad4"@ {
        Some(KeyCode::Char('4'))
    } else if name == "5"@ || name == "keypad5"@ {
        Some(KeyCode::Char('5'))
    } else if name == "6"@ || name == "keypad6"@ {
        Some(KeyCode::Char('6'))
    } else if name == "7"@ || name == "keypad7"@ {
        Some(KeyCode::Char('7'))
    } else if name == "8"@ || name == "keypad8"@ {
        Some(KeyCode::Char('8'))
    } else if name == "9"@ || name == "keypad9"@ {
        Some(KeyCode::Char('9'))
    } else if name == "decimal"@ || name == "kp_period"@ {
        Some(KeyCode::Char('.'))
    } else if name == "divide"@ {
        Some(KeyCode::Char('/'))
    } else if name == "multiply"@ {
        Some(KeyCode::Char('*'))
    } else if name == "subtract"@ || name == "kp_minus"@ {
        Some(KeyCode::Char('-'))
    } else if name == "add"@ || name == "kp_plus"@ {
        Some(KeyCode::Char('+'))
    } else if name == "enter"@ || name == "kp_enter"@ {
        Some(KeyCode::Enter)
    } else if name == "equal"@ || name == "kp_equals"@ {
        Some(KeyCode::Char('='))
    } else if name == "comma"@ {
        Some(KeyCode::Char(','))
    } else if name == "left"@ {
        Some(KeyCode::Left)
    } else if name == "right"@ {
        Some(KeyCode::Right)
    } else if name == "up"@ {
        Some(KeyCode::Up)
    } else if name == "down"@ {
        Some(KeyCode::Down)
    } else if name == "page-up"@ {
        Some(KeyCode::PageUp)
    } else if name == "page-down"@ {
        Some(KeyCode::PageDown)
    } else if name == "home"@ {
        Some(KeyCode::Home)
    } else if name == "end"@ {
        Some(KeyCode::End)
    } else if name == "insert"@ {
        Some(KeyCode::Insert)
    } else if name == "delete"@ {
        Some(KeyCode::Delete)
    } else if name == "begin"@ {
        Some(KeyCode::KeypadBegin)
    } else {
        None
    }
}

fn parse_numpad_key(name: &str) -> (r: Option<KeyCode>)
    ensures
        r == numpad_key_named(name@),
{
    if str_equal(name, "0") || str_equal(name, "keypad0") {
        Some(KeyCode::Char('0'))
    } else if str_equal(name, "1") || str_equal(name, "keypad1") {
        Some(KeyCode::Char('1'))
    } else if str_equal(name, "2") || str_equal(name, "keypad2") {
        Some(KeyCode::Char('2'))
    } else if str_equal(name, "3") || str_equal(name, "keypad3") {
        Some(KeyCode::Char('3'))
    } else if str_equal(name, "4") || str_equal(name, "keypad4") {
        Some(KeyCode::Char('4'))
    } else if str_equal(name, "5") || str_equal(name, "keypad5") {
        Some(KeyCode::Char('5'))
    } else if str_equal(name, "6") || str_equal(name, "keypad6") {
        Some(KeyCode::Char('6'))
    } else if str_equal(name, "7") || str_equal(name, "keypad7") {
        Some(KeyCode::Char('7'))
    } else if str_equal(name, "8") || str_equal(name, "keypad8") {
        Some(KeyCode::Char('8'))
    } else if str_equal(name, "9") || str_equal(name, "keypad9") {
        Some(KeyCode::Char('9'))
    } else if str_equal(name, "decimal") || str_equal(name, "kp_period") {
        Some(KeyCode::Char('.'))
    } else if str_equal(name, "divide") {
        Some(KeyCode::Char('/'))
    } else if str_equal(name, "multiply") {
        Some(KeyCode::Char('*'))
    } else if str_equal(name, "subtract") || str_equal(name, "kp_minus") {
        Some(KeyCode::Char('-'))
    } else if str_equal(name, "add") || str_equal(name, "kp_plus") {
        Some(KeyCode::Char('+'))
    } else if str_equal(name, "enter") || str_equal(name, "kp_enter") {
        Some(KeyCode::Enter)
    } else if str_equal(name, "equal") || str_equal(name, "kp_equals") {
        Some(KeyCode::Char('='))
    } else if str_equal(name, "comma") {
        Some(KeyCode::Char(','))
    } else if str_equal(name, "left") {
        Some(KeyCode::Left)
    } else if str_equal(name, "right") {
        Some(KeyCode::Right)
    } else if str_equal(name, "up") {
        Some(KeyCode::Up)
    } else if str_equal(name, "down") {
        Some(KeyCode::Down)
    } else if str_equal(name, "page-up") {
        Some(KeyCode::PageUp)
    } else if str_equal(name, "page-down") {
        Some(KeyCode::PageDown)
    } else if str_equal(name, "home") {
        Some(KeyCode::Home)
    } else if str_equal(name, "end") {
        Some(KeyCode::End)
    } else if str_equal(name, "insert") {
        Some(KeyCode::Insert)
    } else if str_equal(name, "delete") {
        Some(KeyCode::Delete)
    } else if str_equal(name, "begin") {
        Some(KeyCode::KeypadBegin)
    } else {
        None
    }
}

/// RetroArch's names of keypad keys.
pub open spec fn keypad_name(name: Seq<char>) -> bool {
    name == "keypad0"@ || name == "keypad1"@ || name == "keypad2"@ || name == "keypad3"@ || name == "keypad4"@ || name == "keypad5"@ || name == "keypad6"@ || name == "keypad7"@ || name == "keypad8"@ || name == "keypad9"@ || name == "kp_period"@ || name == "kp_equals"@ || name == "kp_enter"@ || name == "kp_plus"@ || name == "kp_minus"@ || name == "multiply"@ || name == "divide"@
}

fn is_keypad_name(name: &str) -> (r: bool)
    ensures
        r == keypad_name(name@),
{
    str_equal(name, "keypad0") || str_equal(name, "keypad1") || str_equal(name, "keypad2") || str_equal(name, "keypad3") || str_equal(name, "keypad4") || str_equal(name, "keypad5") || str_equal(name, "keypad6") || str_equal(name, "keypad7") || str_equal(name, "keypad8") || str_equal(name, "keypad9") || str_equal(name, "kp_period") || str_equal(name, "kp_equals") || str_equal(name, "kp_enter") || str_equal(name, "kp_plus") || str_equal(name, "kp_minus") || str_equal(name, "multiply") || str_equal(name, "divide")
}


/// The number of a function key written after its `f`, read as Rust reads a
/// `u8`: an optional `+`, then decimal digits.
pub open spec fn function_key_number(rest: Seq<char>) -> Option<u8> {
    let d = if rest.len() > 0 && rest[0] == '+' {
        rest.skip(1)
    } else {
        rest
    };
    if d.len() > 0 && all_digits(d) && digits_value(d) <= 255 {
        Some(digits_value(d) as u8)
    } else {
        None
    }
}

/// Whether `name` is `f` followed by the number of a function key F1–F24.
pub open spec fn function_key_named(name: Seq<char>) -> bool {
    &&& name.len() > 0
    &&& name[0] == 'f'
    &&& function_key_number(name.skip(1)) is Some
    &&& 1 <= function_key_number(name.skip(1)).unwrap() <= 24
}

/// The key a (lower-case) key name stands for outside the keypad: a named
/// key, a function key, or the single character it consists of.
pub open spec fn key_code_named(name: Seq<char>) -> Option<KeyCode> {
    if special_key_named(name) is Some {
        special_key_named(name)
    } else if modifier_key_named(name) is Some {
        modifier_key_named(name)
    } else if symbol_key_named(name) is Some {
        symbol_key_named(name)
    } else if function_key_named(name) {
        Some(KeyCode::F(function_key_number(name.skip(1)).unwrap()))
    } else if name.len() == 1 {
        Some(KeyCode::Char(name[0]))
    } else {
        None
    }
}

fn function_key(rest: &Vec<char>) -> (r: Option<u8>)
    ensures
        r == function_key_number(rest@),
{
    let d = if rest.len() > 0 && rest[0] == '+' {
        chars_range(rest, 1, rest.len())
    } else {
        chars_range(rest, 0, rest.len())
    };
    assert(rest@.subrange(0, rest@.len() as int) =~= rest@);
    if d.len() == 0 || !chars_all_digits(&d) {
        return None;
    }
    match parse_u32_digits(&d) {
        Some(v) => {
            if v <= 255 {
                Some(v as u8)
            } else {
                None
            }
        },
        None => None,
    }
}

fn parse_key_code(name: &str) -> (r: Option<KeyCode>)
    ensures
        r == key_code_named(name@),
{
    let special = special_key(name);
    if special.is_some() {
        return special;
    }
    let modifier = modifier_key(name);
    if modifier.is_some() {
        return modifier;
    }
    let symbol = symbol_key(name);
    if symbol.is_some() {
        return symbol;
    }
    let chars = str_chars(name);
    if chars.len() > 0 && chars[0] == 'f' {
        let rest = chars_range(&chars, 1, chars.len());
        match function_key(&rest) {
            Some(n) => {
                if 1 <= n && n <= 24 {
                    return Some(KeyCode::F(n));
                }
            },
            None => {},
        }
    }
    if chars.len() == 1 {
        Some(KeyCode::Char(chars[0]))
    } else {
        None
    }
}

/// `"<text>"` appended to `prefix`, the shape of the key-name errors.
pub open spec fn quoted(prefix: Seq<char>, text: Seq<char>) -> Seq<char> {
    prefix + "\""@ + text + "\""@
}

/// What a key name in the configuration stands for, or the error message
/// that rejects it. Names are case-insensitive; `numpad-<name>` and
/// RetroArch's `keypad*`/`kp_*` names denote keypad keys.
pub open spec fn parsed_key(name: Seq<char>) -> Result<InputKey, Seq<char>> {
    if name != "+"@ && has_char(name, '+') {
        Err(quoted("key combinations are not supported: "@, name))
    } else {
        let l = lower_seq(name);
        if l.len() == 0 {
            Err("key name must not be empty"@)
        } else if l.len() >= 7 && l.take(7) == "numpad-"@ {
            match numpad_key_named(l.skip(7)) {
                Some(c) => Ok(InputKey { code: keypad_normalized(c), keypad: true }),
                None => Err(quoted("unknown numeric keypad key: "@, "numpad-"@ + l.skip(7))),
            }
        } else if keypad_name(l) {
            match numpad_key_named(l) {
                Some(c) => Ok(InputKey { code: keypad_normalized(c), keypad: true }),
                None => Err(quoted("unknown key: "@, l)),
            }
        } else {
            match key_code_named(l) {
                Some(c) => Ok(InputKey { code: normalized(c), keypad: false }),
                None => Err(quoted("unknown key: "@, l)),
            }
        }
    }
}

/// The names a key is written with in the configuration, in lower case,
/// besides single characters and function keys: keys without a printable
/// character, modifier keys, and characters with a name.
pub open spec fn key_names(code: KeyCode) -> Seq<Seq<char>> {
    if code == KeyCode::Backspace {
        seq!["backspace"@]
    } else if code == KeyCode::Enter {
        seq!["enter"@, "return"@]
    } else if code == KeyCode::Left {
        seq!["left"@]
    } else if code == KeyCode::Right {
        seq!["right"@]
    } else if code == KeyCode::Up {
        seq!["up"@]
    } else if code == KeyCode::Down {
        seq!["down"@]
    } else if code == KeyCode::Home {
        seq!["home"@]
    } else if code == KeyCode::End {
        seq!["end"@]
    } else if code == KeyCode::PageUp {
        seq!["pageup"@, "page-up"@]
    } else if code == KeyCode::PageDown {
        seq!["pagedown"@, "page-down"@]
    } else if code == KeyCode::Tab {
        seq!["tab"@]
    } else if code == KeyCode::Delete {
        seq!["del"@, "delete"@]
    } else if code == KeyCode::Insert {
        seq!["insert"@]
    } else if code == KeyCode::Null {
        seq!["null"@]
    } else if code == KeyCode::Esc {
        seq!["escape"@, "esc"@]
    } else if code == KeyCode::CapsLock {
        seq!["capslock"@, "caps-lock"@]
    } else if code == KeyCode::ScrollLock {
        seq!["scroll_lock"@, "scroll-lock"@]
    } else if code == KeyCode::NumLock {
        seq!["numlock"@, "num-lock"@]
    } else if code == KeyCode::PrintScreen {
        seq!["print_screen"@, "print-screen"@]
    } else if code == KeyCode::Pause {
        seq!["pause"@]
    } else if code == KeyCode::Menu {
        seq!["menu"@]
    } else if code == KeyCode::Modifier(ModifierKeyCode::LeftShift) {
        seq!["shift"@, "left-shift"@]
    } else if code == KeyCode::Modifier(ModifierKeyCode::RightShift) {
        seq!["rshift"@, "right-shift"@]
    } else if code == KeyCode::Modifier(ModifierKeyCode::LeftControl) {
        seq!["ctrl"@, "left-control"@, "left-ctrl"@]
    } else if code == KeyCode::Modifier(ModifierKeyCode::RightControl) {
        seq!["rctrl"@, "right-control"@, "right-ctrl"@]
    } else if code == KeyCode::Modifier(ModifierKeyCode::LeftAlt) {
        seq!["alt"@, "left-alt"@]
    } else if code == KeyCode::Modifier(ModifierKeyCode::RightAlt) {
        seq!["ralt"@, "right-alt"@]
    } else if code == KeyCode::Modifier(ModifierKeyCode::LeftSuper) {
        seq!["left-super"@]
    } else if code == KeyCode::Modifier(ModifierKeyCode::LeftHyper) {
        seq!["left-hyper"@]
    } else if code == KeyCode::Modifier(ModifierKeyCode::LeftMeta) {
        seq!["left-meta"@]
    } else if code == KeyCode::Modifier(ModifierKeyCode::RightSuper) {
        seq!["right-super"@]
    } else if code == KeyCode::Modifier(ModifierKeyCode::RightHyper) {
        seq!["right-hyper"@]
    } else if code == KeyCode::Modifier(ModifierKeyCode::RightMeta) {
        seq!["right-meta"@]
    } else if code == KeyCode::Modifier(ModifierKeyCode::IsoLevel3Shift) {
        seq!["iso-level-3-shift"@]
    } else if code == KeyCode::Modifier(ModifierKeyCode::IsoLevel5Shift) {
        seq!["iso-level-5-shift"@]
    } else if code == KeyCode::Char(' ') {
        seq!["space"@]
    } else if code == KeyCode::Char('0') {
        seq!["num0"@]
    } else if code == KeyCode::Char('1') {
        seq!["num1"@]
    } else if code == KeyCode::Char('2') {
        seq!["num2"@]
    } else if code == KeyCode::Char('3') {
        seq!["num3"@]
    } else if code == KeyCode::Char('4') {
        seq!["num4"@]
    } else if code == KeyCode::Char('5') {
        seq!["num5"@]
    } else if code == KeyCode::Char('6') {
        seq!["num6"@]
    } else if code == KeyCode::Char('7') {
        seq!["num7"@]
    } else if code == KeyCode::Char('8') {
        seq!["num8"@]
    } else if code == KeyCode::Char('9') {
        seq!["num9"@]
    } else if code == KeyCode::Char('.') {
        seq!["period"@]
    } else if code == KeyCode::Char(',') {
        seq!["comma"@]
    } else if code == KeyCode::Char('/') {
        seq!["slash"@]
    } else if code == KeyCode::Char('-') {
        seq!["minus"@, "subtract"@]
    } else if code == KeyCode::Char('=') {
        seq!["equals"@]
    } else if code == KeyCode::Char('[') {
        seq!["leftbracket"@]
    } else if code == KeyCode::Char('\\') {
        seq!["backslash"@]
    } else if code == KeyCode::Char(']') {
        seq!["rightbracket"@]
    } else if code == KeyCode::Char('`') {
        seq!["backquote"@]
    } else if code == KeyCode::Char('\'') {
        seq!["quote"@]
    } else if code == KeyCode::Char(';') {
        seq!["semicolon"@]
    } else if code == KeyCode::Char('~') {
        seq!["tilde"@]
    } else if code == KeyCode::Char('+') {
        seq!["add"@]
    } else {
        Seq::empty()
    }
}

/// Each named key is parsed from each of its names, in any case, as
/// itself: `tab` is the Tab key, `home` Home, `esc` and `escape` Escape,
/// `rctrl` the right Control key, `comma` the `,` key, and so on, never
/// another key.
pub proof fn lemma_named_key_parsing(code: KeyCode, name: Seq<char>)
    requires
        key_names(code).contains(lower_seq(name)),
    ensures
        parsed_key(name) == Ok::<InputKey, Seq<char>>(InputKey { code, keypad: false }),
{
    reveal_strlit("backspace");
    reveal_strlit("enter");
    reveal_strlit("return");
    reveal_strlit("left");
    reveal_strlit("right");
    reveal_strlit("up");
    reveal_strlit("down");
    reveal_strlit("home");
    reveal_strlit("end");
    reveal_strlit("pageup");
    reveal_strlit("page-up");
    reveal_strlit("pagedown");
    reveal_strlit("page-down");
    reveal_strlit("tab");
    reveal_strlit("del");
    reveal_strlit("delete");
    reveal_strlit("insert");
    reveal_strlit("null");
    reveal_strlit("escape");
    reveal_strlit("esc");
    reveal_strlit("capslock");
    reveal_strlit("caps-lock");
    reveal_strlit("scroll_lock");
    reveal_strlit("scroll-lock");
    reveal_strlit("numlock");
    reveal_strlit("num-lock");
    reveal_strlit("print_screen");
    reveal_strlit("print-screen");
    reveal_strlit("pause");
    reveal_strlit("menu");
    reveal_strlit("shift");
    reveal_strlit("left-shift");
    reveal_strlit("rshift");
    reveal_strlit("right-shift");
    reveal_strlit("ctrl");
    reveal_strlit("left-control");
    reveal_strlit("left-ctrl");
    reveal_strlit("rctrl");
    reveal_strlit("right-control");
    reveal_strlit("right-ctrl");
    reveal_strlit("alt");
    reveal_strlit("left-alt");
    reveal_strlit("ralt");
    reveal_strlit("right-alt");
    reveal_strlit("left-super");
    reveal_strlit("left-hyper");
    reveal_strlit("left-meta");
    reveal_strlit("right-super");
    reveal_strlit("right-hyper");
    reveal_strlit("right-meta");
    reveal_strlit("iso-level-3-shift");
    reveal_strlit("iso-level-5-shift");
    reveal_strlit("space");
    reveal_strlit("num0");
    reveal_strlit("num1");
    reveal_strlit("num2");
    reveal_strlit("num3");
    reveal_strlit("num4");
    reveal_strlit("num5");
    reveal_strlit("num6");
    reveal_strlit("num7");
    reveal_strlit("num8");
    reveal_strlit("num9");
    reveal_strlit("period");
    reveal_strlit("comma");
    reveal_strlit("slash");
    reveal_strlit("minus");
    reveal_strlit("subtract");
    reveal_strlit("equals");
    reveal_strlit("leftbracket");
    reveal_strlit("backslash");
    reveal_strlit("rightbracket");
    reveal_strlit("backquote");
    reveal_strlit("quote");
    reveal_strlit("semicolon");
    reveal_strlit("tilde");
    reveal_strlit("add");
    reveal_strlit("keypad0");
    reveal_strlit("keypad1");
    reveal_strlit("keypad2");
    reveal_strlit("keypad3");
    reveal_strlit("keypad4");
    reveal_strlit("keypad5");
    reveal_strlit("keypad6");
    reveal_strlit("keypad7");
    reveal_strlit("keypad8");
    reveal_strlit("keypad9");
    reveal_strlit("kp_period");
    reveal_strlit("kp_equals");
    reveal_strlit("kp_enter");
    reveal_strlit("kp_plus");
    reveal_strlit("kp_minus");
    reveal_strlit("multiply");
    reveal_strlit("divide");
    reveal_strlit("numpad-");
    let l = lower_seq(name);
    assert(has_char(name, '+') ==> has_char(l, '+')) by {
        if has_char(name, '+') {
            let i = choose|i: int| 0 <= i < name.len() && name[i] == '+';
            assert(l[i] == '+');
        }
    }
    let names = key_names(code);
    let k = choose|k: int| 0 <= k < names.len() && names[k] == l;
    assert(l == "backspace"@ ==> parsed_key(name) == Ok::<InputKey, Seq<char>>(InputKey { code: KeyCode::Backspace, keypad: false })) by {
        if l == "backspace"@ {
            assert(l[0] != "kp_period"@[0]);
            assert(l[0] != "kp_equals"@[0]);
            assert(l.take(7)[0] != "numpad-"@[0]);
            assert(!has_char(l, '+'));
        }
    }
    assert(l == "enter"@ ==> parsed_key(name) == Ok::<InputKey, Seq<char>>(InputKey { code: KeyCode::Enter, keypad: false })) by {
        if l == "enter"@ {
            assert(!has_char(l, '+'));
        }
    }
    assert(l == "return"@ ==> parsed_key(name) == Ok::<InputKey, Seq<char>>(InputKey { code: KeyCode::Enter, keypad: false })) by {
        if l == "return"@ {
            assert(l[0] != "divide"@[0]);
            assert(!has_char(l, '+'));
        }
    }
    assert(l == "left"@ ==> parsed_key(name) == Ok::<InputKey, Seq<char>>(InputKey { code: KeyCode::Left, keypad: false })) by {
        if l == "left"@ {
            assert(!has_char(l, '+'));
        }
    }
    assert(l == "right"@ ==> parsed_key(name) == Ok::<InputKey, Seq<char>>(InputKey { code: KeyCode::Right, keypad: false })) by {
        if l == "right"@ {
            assert(l[0] != "enter"@[0]);
            assert(!has_char(l, '+'));
        }
    }
    assert(l == "up"@ ==> parsed_key(name) == Ok::<InputKey, Seq<char>>(InputKey { code: KeyCode::Up, keypad: false })) by {
        if l == "up"@ {
            assert(!has_char(l, '+'));
        }
    }
    assert(l == "down"@ ==> parsed_key(name) == Ok::<InputKey, Seq<char>>(InputKey { code: KeyCode::Down, keypad: false })) by {
        if l == "down"@ {
            assert(l[0] != "left"@[0]);
            assert(!has_char(l, '+'));
        }
    }
    assert(l == "home"@ ==> parsed_key(name) == Ok::<InputKey, Seq<char>>(InputKey { code: KeyCode::Home, keypad: false })) by {
        if l == "home"@ {
            assert(l[0] != "left"@[0]);
            assert(l[0] != "down"@[0]);
            assert(!has_char(l, '+'));
        }
    }
    assert(l == "end"@ ==> parsed_key(name) == Ok::<InputKey, Seq<char>>(InputKey { code: KeyCode::End, keypad: false })) by {
        if l == "end"@ {
            assert(!has_char(l, '+'));
        }
    }
    assert(l == "pageup"@ ==> parsed_key(name) == Ok::<InputKey, Seq<char>>(InputKey { code: KeyCode::PageUp, keypad: false })) by {
        if l == "pageup"@ {
            assert(l[0] != "return"@[0]);
            assert(l[0] != "divide"@[0]);
            assert(!has_char(l, '+'));
        }
    }
    assert(l == "page-up"@ ==> parsed_key(name) == Ok::<InputKey, Seq<char>>(InputKey { code: KeyCode::PageUp, keypad: false })) by {
        if l == "page-up"@ {
            assert(l[0] != "keypad0"@[0]);
            assert(l[0] != "keypad1"@[0]);
            assert(l[0] != "keypad2"@[0]);
            assert(l[0] != "keypad3"@[0]);
            assert(l[0] != "keypad4"@[0]);
            assert(l[0] != "keypad5"@[0]);
            assert(l[0] != "keypad6"@[0]);
            assert(l[0] != "keypad7"@[0]);
            assert(l[0] != "keypad8"@[0]);
            assert(l[0] != "keypad9"@[0]);
            assert(l[0] != "kp_plus"@[0]);
            assert(l.take(7)[0] != "numpad-"@[0]);
            assert(!has_char(l, '+'));
        }
    }
    assert(l == "pagedown"@ ==> parsed_key(name) == Ok::<InputKey, Seq<char>>(InputKey { code: KeyCode::PageDown, keypad: false })) by {
        if l == "pagedown"@ {
            assert(l[0] != "kp_enter"@[0]);
            assert(l[0] != "kp_minus"@[0]);
            assert(l[0] != "multiply"@[0]);
            assert(l.take(7)[0] != "numpad-"@[0]);
            assert(!has_char(l, '+'));
        }
    }
    assert(l == "page-down"@ ==> parsed_key(name) == Ok::<InputKey, Seq<char>>(InputKey { code: KeyCode::PageDown, keypad: false })) by {
        if l == "page-down"@ {
            assert(l[0] != "backspace"@[0]);
            assert(l[0] != "kp_period"@[0]);
            assert(l[0] != "kp_equals"@[0]);
            assert(l.take(7)[0] != "numpad-"@[0]);
            assert(!has_char(l, '+'));
        }
    }
    assert(l == "tab"@ ==> parsed_key(name) == Ok::<InputKey, Seq<char>>(InputKey { code: KeyCode::Tab, keypad: false })) by {
        if l == "tab"@ {
            assert(l[0] != "end"@[0]);
            assert(!has_char(l, '+'));
        }
    }
    assert(l == "del"@ ==> parsed_key(name) == Ok::<InputKey, Seq<char>>(InputKey { code: KeyCode::Delete, keypad: false })) by {
        if l == "del"@ {
            assert(l[0] != "end"@[0]);
            assert(l[0] != "tab"@[0]);
            assert(!has_char(l, '+'));
        }
    }
    assert(l == "delete"@ ==> parsed_key(name) == Ok::<InputKey, Seq<char>>(InputKey { code: KeyCode::Delete, keypad: false })) by {
        if l == "delete"@ {
            assert(l[0] != "return"@[0]);
            assert(l[0] != "pageup"@[0]);
            assert(l[1] != "divide"@[1]);
            assert(!has_char(l, '+'));
        }
    }
    assert(l == "insert"@ ==> parsed_key(name) == Ok::<InputKey, Seq<char>>(InputKey { code: KeyCode::Insert, keypad: false })) by {
        if l == "insert"@ {
            assert(l[0] != "return"@[0]);
            assert(l[0] != "pageup"@[0]);
            assert(l[0] != "delete"@[0]);
            assert(l[0] != "divide"@[0]);
            assert(!has_char(l, '+'));
        }
    }
    assert(l == "null"@ ==> parsed_key(name) == Ok::<InputKey, Seq<char>>(InputKey { code: KeyCode::Null, keypad: false })) by {
        if l == "null"@ {
            assert(l[0] != "left"@[0]);
            assert(l[0] != "down"@[0]);
            assert(l[0] != "home"@[0]);
            assert(!has_char(l, '+'));
        }
    }
    assert(l == "escape"@ ==> parsed_key(name) == Ok::<InputKey, Seq<char>>(InputKey { code: KeyCode::Esc, keypad: false })) by {
        if l == "escape"@ {
            assert(l[0] != "return"@[0]);
            assert(l[0] != "pageup"@[0]);
            assert(l[0] != "delete"@[0]);
            assert(l[0] != "insert"@[0]);
            assert(l[0] != "divide"@[0]);
            assert(!has_char(l, '+'));
        }
    }
    assert(l == "esc"@ ==> parsed_key(name) == Ok::<InputKey, Seq<char>>(InputKey { code: KeyCode::Esc, keypad: false })) by {
        if l == "esc"@ {
            assert(l[1] != "end"@[1]);
            assert(l[0] != "tab"@[0]);
            assert(l[0] != "del"@[0]);
            assert(!has_char(l, '+'));
        }
    }
    assert(l == "capslock"@ ==> parsed_key(name) == Ok::<InputKey, Seq<char>>(InputKey { code: KeyCode::CapsLock, keypad: false })) by {
        if l == "capslock"@ {
            assert(l[0] != "pagedown"@[0]);
            assert(l[0] != "kp_enter"@[0]);
            assert(l[0] != "kp_minus"@[0]);
            assert(l[0] != "multiply"@[0]);
            assert(l.take(7)[0] != "numpad-"@[0]);
            assert(!has_char(l, '+'));
        }
    }
    assert(l == "caps-lock"@ ==> parsed_key(name) == Ok::<InputKey, Seq<char>>(InputKey { code: KeyCode::CapsLock, keypad: false })) by {
        if l == "caps-lock"@ {
            assert(l[0] != "backspace"@[0]);
            assert(l[0] != "page-down"@[0]);
            assert(l[0] != "kp_period"@[0]);
            assert(l[0] != "kp_equals"@[0]);
            assert(l.take(7)[0] != "numpad-"@[0]);
            assert(!has_char(l, '+'));
        }
    }
    assert(l == "scroll_lock"@ ==> parsed_key(name) == Ok::<InputKey, Seq<char>>(InputKey { code: KeyCode::ScrollLock, keypad: false })) by {
        if l == "scroll_lock"@ {
            assert(l.take(7)[0] != "numpad-"@[0]);
            assert(!has_char(l, '+'));
        }
    }
    assert(l == "scroll-lock"@ ==> parsed_key(name) == Ok::<InputKey, Seq<char>>(InputKey { code: KeyCode::ScrollLock, keypad: false })) by {
        if l == "scroll-lock"@ {
            assert(l[6] != "scroll_lock"@[6]);
            assert(l.take(7)[0] != "numpad-"@[0]);
            assert(!has_char(l, '+'));
        }
    }
    assert(l == "numlock"@ ==> parsed_key(name) == Ok::<InputKey, Seq<char>>(InputKey { code: KeyCode::NumLock, keypad: false })) by {
        if l == "numlock"@ {
            assert(l[0] != "page-up"@[0]);
            assert(l[0] != "keypad0"@[0]);
            assert(l[0] != "keypad1"@[0]);
            assert(l[0] != "keypad2"@[0]);
            assert(l[0] != "keypad3"@[0]);
            assert(l[0] != "keypad4"@[0]);
            assert(l[0] != "keypad5"@[0]);
            assert(l[0] != "keypad6"@[0]);
            assert(l[0] != "keypad7"@[0]);
            assert(l[0] != "keypad8"@[0]);
            assert(l[0] != "keypad9"@[0]);
            assert(l[0] != "kp_plus"@[0]);
            assert(l.take(7)[3] != "numpad-"@[3]);
            assert(!has_char(l, '+'));
        }
    }
    assert(l == "num-lock"@ ==> parsed_key(name) == Ok::<InputKey, Seq<char>>(InputKey { code: KeyCode::NumLock, keypad: false })) by {
        if l == "num-lock"@ {
            assert(l[0] != "pagedown"@[0]);
            assert(l[0] != "capslock"@[0]);
            assert(l[0] != "kp_enter"@[0]);
            assert(l[0] != "kp_minus"@[0]);
            assert(l[0] != "multiply"@[0]);
            assert(l.take(7)[3] != "numpad-"@[3]);
            assert(!has_char(l, '+'));
        }
    }
    assert(l == "print_screen"@ ==> parsed_key(name) == Ok::<InputKey, Seq<char>>(InputKey { code: KeyCode::PrintScreen, keypad: false })) by {
        if l == "print_screen"@ {
            assert(l.take(7)[0] != "numpad-"@[0]);
            assert(!has_char(l, '+'));
        }
    }
    assert(l == "print-screen"@ ==> parsed_key(name) == Ok::<InputKey, Seq<char>>(InputKey { code: KeyCode::PrintScreen, keypad: false })) by {
        if l == "print-screen"@ {
            assert(l[5] != "print_screen"@[5]);
            assert(l.take(7)[0] != "numpad-"@[0]);
            assert(!has_char(l, '+'));
        }
    }
    assert(l == "pause"@ ==> parsed_key(name) == Ok::<InputKey, Seq<char>>(InputKey { code: KeyCode::Pause, keypad: false })) by {
        if l == "pause"@ {
            assert(l[0] != "enter"@[0]);
            assert(l[0] != "right"@[0]);
            assert(!has_char(l, '+'));
        }
    }
    assert(l == "menu"@ ==> parsed_key(name) == Ok::<InputKey, Seq<char>>(InputKey { code: KeyCode::Menu, keypad: false })) by {
        if l == "menu"@ {
            assert(l[0] != "left"@[0]);
            assert(l[0] != "down"@[0]);
            assert(l[0] != "home"@[0]);
            assert(l[0] != "null"@[0]);
            assert(!has_char(l, '+'));
        }
    }
    assert(l == "shift"@ ==> parsed_key(name) == Ok::<InputKey, Seq<char>>(InputKey { code: KeyCode::Modifier(ModifierKeyCode::LeftShift), keypad: false })) by {
        if l == "shift"@ {
            assert(l[0] != "enter"@[0]);
            assert(l[0] != "right"@[0]);
            assert(l[0] != "pause"@[0]);
            assert(!has_char(l, '+'));
        }
    }
    assert(l == "left-shift"@ ==> parsed_key(name) == Ok::<InputKey, Seq<char>>(InputKey { code: KeyCode::Modifier(ModifierKeyCode::LeftShift), keypad: false })) by {
        if l == "left-shift"@ {
            assert(l.take(7)[0] != "numpad-"@[0]);
            assert(!has_char(l, '+'));
        }
    }
    assert(l == "rshift"@ ==> parsed_key(name) == Ok::<InputKey, Seq<char>>(InputKey { code: KeyCode::Modifier(ModifierKeyCode::RightShift), keypad: false })) by {
        if l == "rshift"@ {
            assert(l[1] != "return"@[1]);
            assert(l[0] != "pageup"@[0]);
            assert(l[0] != "delete"@[0]);
            assert(l[0] != "insert"@[0]);
            assert(l[0] != "escape"@[0]);
            assert(l[0] != "divide"@[0]);
            assert(!has_char(l, '+'));
        }
    }
    assert(l == "right-shift"@ ==> parsed_key(name) == Ok::<InputKey, Seq<char>>(InputKey { code: KeyCode::Modifier(ModifierKeyCode::RightShift), keypad: false })) by {
        if l == "right-shift"@ {
            assert(l[0] != "scroll_lock"@[0]);
            assert(l[0] != "scroll-lock"@[0]);
            assert(l.take(7)[0] != "numpad-"@[0]);
            assert(!has_char(l, '+'));
        }
    }
    assert(l == "ctrl"@ ==> parsed_key(name) == Ok::<InputKey, Seq<char>>(InputKey { code: KeyCode::Modifier(ModifierKeyCode::LeftControl), keypad: false })) by {
        if l == "ctrl"@ {
            assert(l[0] != "left"@[0]);
            assert(l[0] != "down"@[0]);
            assert(l[0] != "home"@[0]);
            assert(l[0] != "null"@[0]);
            assert(l[0] != "menu"@[0]);
            assert(!has_char(l, '+'));
        }
    }
    assert(l == "left-control"@ ==> parsed_key(name) == Ok::<InputKey, Seq<char>>(InputKey { code: KeyCode::Modifier(ModifierKeyCode::LeftControl), keypad: false })) by {
        if l == "left-control"@ {
            assert(l[0] != "print_screen"@[0]);
            assert(l[0] != "print-screen"@[0]);
            assert(l.take(7)[0] != "numpad-"@[0]);
            assert(!has_char(l, '+'));
        }
    }
    assert(l == "left-ctrl"@ ==> parsed_key(name) == Ok::<InputKey, Seq<char>>(InputKey { code: KeyCode::Modifier(ModifierKeyCode::LeftControl), keypad: false })) by {
        if l == "left-ctrl"@ {
            assert(l[0] != "backspace"@[0]);
            assert(l[0] != "page-down"@[0]);
            assert(l[0] != "caps-lock"@[0]);
            assert(l[0] != "kp_period"@[0]);
            assert(l[0] != "kp_equals"@[0]);
            assert(l.take(7)[0] != "numpad-"@[0]);
            assert(!has_char(l, '+'));
        }
    }
    assert(l == "rctrl"@ ==> parsed_key(name) == Ok::<InputKey, Seq<char>>(InputKey { code: KeyCode::Modifier(ModifierKeyCode::RightControl), keypad: false })) by {
        if l == "rctrl"@ {
            assert(l[0] != "enter"@[0]);
            assert(l[1] != "right"@[1]);
            assert(l[0] != "pause"@[0]);
            assert(l[0] != "shift"@[0]);
            assert(!has_char(l, '+'));
        }
    }
    assert(l == "right-control"@ ==> parsed_key(name) == Ok::<InputKey, Seq<char>>(InputKey { code: KeyCode::Modifier(ModifierKeyCode::RightControl), keypad: false })) by {
        if l == "right-control"@ {
            assert(l.take(7)[0] != "numpad-"@[0]);
            assert(!has_char(l, '+'));
        }
    }
    assert(l == "right-ctrl"@ ==> parsed_key(name) == Ok::<InputKey, Seq<char>>(InputKey { code: KeyCode::Modifier(ModifierKeyCode::RightControl), keypad: false })) by {
        if l == "right-ctrl"@ {
            assert(l[0] != "left-shift"@[0]);
            assert(l.take(7)[0] != "numpad-"@[0]);
            assert(!has_char(l, '+'));
        }
    }
    assert(l == "alt"@ ==> parsed_key(name) == Ok::<InputKey, Seq<char>>(InputKey { code: KeyCode::Modifier(ModifierKeyCode::LeftAlt), keypad: false })) by {
        if l == "alt"@ {
            assert(l[0] != "end"@[0]);
            assert(l[0] != "tab"@[0]);
            assert(l[0] != "del"@[0]);
            assert(l[0] != "esc"@[0]);
            assert(!has_char(l, '+'));
        }
    }
    assert(l == "left-alt"@ ==> parsed_key(name) == Ok::<InputKey, Seq<char>>(InputKey { code: KeyCode::Modifier(ModifierKeyCode::LeftAlt), keypad: false })) by {
        if l == "left-alt"@ {
            assert(l[0] != "pagedown"@[0]);
            assert(l[0] != "capslock"@[0]);
            assert(l[0] != "num-lock"@[0]);
            assert(l[0] != "kp_enter"@[0]);
            assert(l[0] != "kp_minus"@[0]);
            assert(l[0] != "multiply"@[0]);
            assert(l.take(7)[0] != "numpad-"@[0]);
            assert(!has_char(l, '+'));
        }
    }
    assert(l == "ralt"@ ==> parsed_key(name) == Ok::<InputKey, Seq<char>>(InputKey { code: KeyCode::Modifier(ModifierKeyCode::RightAlt), keypad: false })) by {
        if l == "ralt"@ {
            assert(l[0] != "left"@[0]);
            assert(l[0] != "down"@[0]);
            assert(l[0] != "home"@[0]);
            assert(l[0] != "null"@[0]);
            assert(l[0] != "menu"@[0]);
            assert(l[0] != "ctrl"@[0]);
            assert(!has_char(l, '+'));
        }
    }
    assert(l == "right-alt"@ ==> parsed_key(name) == Ok::<InputKey, Seq<char>>(InputKey { code: KeyCode::Modifier(ModifierKeyCode::RightAlt), keypad: false })) by {
        if l == "right-alt"@ {
            assert(l[0] != "backspace"@[0]);
            assert(l[0] != "page-down"@[0]);
            assert(l[0] != "caps-lock"@[0]);
            assert(l[0] != "left-ctrl"@[0]);
            assert(l[0] != "kp_period"@[0]);
            assert(l[0] != "kp_equals"@[0]);
            assert(l.take(7)[0] != "numpad-"@[0]);
            assert(!has_char(l, '+'));
        }
    }
    assert(l == "left-super"@ ==> parsed_key(name) == Ok::<InputKey, Seq<char>>(InputKey { code: KeyCode::Modifier(ModifierKeyCode::LeftSuper), keypad: false })) by {
        if l == "left-super"@ {
            assert(l[6] != "left-shift"@[6]);
            assert(l[0] != "right-ctrl"@[0]);
            assert(l.take(7)[0] != "numpad-"@[0]);
            assert(!has_char(l, '+'));
        }
    }
    assert(l == "left-hyper"@ ==> parsed_key(name) == Ok::<InputKey, Seq<char>>(InputKey { code: KeyCode::Modifier(ModifierKeyCode::LeftHyper), keypad: false })) by {
        if l == "left-hyper"@ {
            assert(l[5] != "left-shift"@[5]);
            assert(l[0] != "right-ctrl"@[0]);
            assert(l[5] != "left-super"@[5]);
            assert(l.take(7)[0] != "numpad-"@[0]);
            assert(!has_char(l, '+'));
        }
    }
    assert(l == "left-meta"@ ==> parsed_key(name) == Ok::<InputKey, Seq<char>>(InputKey { code: KeyCode::Modifier(ModifierKeyCode::LeftMeta), keypad: false })) by {
        if l == "left-meta"@ {
            assert(l[0] != "backspace"@[0]);
            assert(l[0] != "page-down"@[0]);
            assert(l[0] != "caps-lock"@[0]);
            assert(l[5] != "left-ctrl"@[5]);
            assert(l[0] != "right-alt"@[0]);
            assert(l[0] != "kp_period"@[0]);
            assert(l[0] != "kp_equals"@[0]);
            assert(l.take(7)[0] != "numpad-"@[0]);
            assert(!has_char(l, '+'));
        }
    }
    assert(l == "right-super"@ ==> parsed_key(name) == Ok::<InputKey, Seq<char>>(InputKey { code: KeyCode::Modifier(ModifierKeyCode::RightSuper), keypad: false })) by {
        if l == "right-super"@ {
            assert(l[0] != "scroll_lock"@[0]);
            assert(l[0] != "scroll-lock"@[0]);
            assert(l[7] != "right-shift"@[7]);
            assert(l.take(7)[0] != "numpad-"@[0]);
            assert(!has_char(l, '+'));
        }
    }
    assert(l == "right-hyper"@ ==> parsed_key(name) == Ok::<InputKey, Seq<char>>(InputKey { code: KeyCode::Modifier(ModifierKeyCode::RightHyper), keypad: false })) by {
        if l == "right-hyper"@ {
            assert(l[0] != "scroll_lock"@[0]);
            assert(l[0] != "scroll-lock"@[0]);
            assert(l[6] != "right-shift"@[6]);
            assert(l[6] != "right-super"@[6]);
            assert(l.take(7)[0] != "numpad-"@[0]);
            assert(!has_char(l, '+'));
        }
    }
    assert(l == "right-meta"@ ==> parsed_key(name) == Ok::<InputKey, Seq<char>>(InputKey { code: KeyCode::Modifier(ModifierKeyCode::RightMeta), keypad: false })) by {
        if l == "right-meta"@ {
            assert(l[0] != "left-shift"@[0]);
            assert(l[6] != "right-ctrl"@[6]);
            assert(l[0] != "left-super"@[0]);
            assert(l[0] != "left-hyper"@[0]);
            assert(l.take(7)[0] != "numpad-"@[0]);
            assert(!has_char(l, '+'));
        }
    }
    assert(l == "iso-level-3-shift"@ ==> parsed_key(name) == Ok::<InputKey, Seq<char>>(InputKey { code: KeyCode::Modifier(ModifierKeyCode::IsoLevel3Shift), keypad: false })) by {
        if l == "iso-level-3-shift"@ {
            assert(l.take(7)[0] != "numpad-"@[0]);
            assert(!has_char(l, '+'));
        }
    }
    assert(l == "iso-level-5-shift"@ ==> parsed_key(name) == Ok::<InputKey, Seq<char>>(InputKey { code: KeyCode::Modifier(ModifierKeyCode::IsoLevel5Shift), keypad: false })) by {
        if l == "iso-level-5-shift"@ {
            assert(l[10] != "iso-level-3-shift"@[10]);
            assert(l.take(7)[0] != "numpad-"@[0]);
            assert(!has_char(l, '+'));
        }
    }
    assert(l == "space"@ ==> parsed_key(name) == Ok::<InputKey, Seq<char>>(InputKey { code: KeyCode::Char(' '), keypad: false })) by {
        if l == "space"@ {
            assert(l[0] != "enter"@[0]);
            assert(l[0] != "right"@[0]);
            assert(l[0] != "pause"@[0]);
            assert(l[1] != "shift"@[1]);
            assert(l[0] != "rctrl"@[0]);
            assert(!has_char(l, '+'));
        }
    }
    assert(l == "num0"@ ==> parsed_key(name) == Ok::<InputKey, Seq<char>>(InputKey { code: KeyCode::Char('0'), keypad: false })) by {
        if l == "num0"@ {
            assert(l[0] != "left"@[0]);
            assert(l[0] != "down"@[0]);
            assert(l[0] != "home"@[0]);
            assert(l[2] != "null"@[2]);
            assert(l[0] != "menu"@[0]);
            assert(l[0] != "ctrl"@[0]);
            assert(l[0] != "ralt"@[0]);
            assert(!has_char(l, '+'));
        }
    }
    assert(l == "num1"@ ==> parsed_key(name) == Ok::<InputKey, Seq<char>>(InputKey { code: KeyCode::Char('1'), keypad: false })) by {
        if l == "num1"@ {
            assert(l[0] != "left"@[0]);
            assert(l[0] != "down"@[0]);
            assert(l[0] != "home"@[0]);
            assert(l[2] != "null"@[2]);
            assert(l[0] != "menu"@[0]);
            assert(l[0] != "ctrl"@[0]);
            assert(l[0] != "ralt"@[0]);
            assert(l[3] != "num0"@[3]);
            assert(!has_char(l, '+'));
        }
    }
    assert(l == "num2"@ ==> parsed_key(name) == Ok::<InputKey, Seq<char>>(InputKey { code: KeyCode::Char('2'), keypad: false })) by {
        if l == "num2"@ {
            assert(l[0] != "left"@[0]);
            assert(l[0] != "down"@[0]);
            assert(l[0] != "home"@[0]);
            assert(l[2] != "null"@[2]);
            assert(l[0] != "menu"@[0]);
            assert(l[0] != "ctrl"@[0]);
            assert(l[0] != "ralt"@[0]);
            assert(l[3] != "num0"@[3]);
            assert(l[3] != "num1"@[3]);
            assert(!has_char(l, '+'));
        }
    }
    assert(l == "num3"@ ==> parsed_key(name) == Ok::<InputKey, Seq<char>>(InputKey { code: KeyCode::Char('3'), keypad: false })) by {
        if l == "num3"@ {
            assert(l[0] != "left"@[0]);
            assert(l[0] != "down"@[0]);
            assert(l[0] != "home"@[0]);
            assert(l[2] != "null"@[2]);
            assert(l[0] != "menu"@[0]);
            assert(l[0] != "ctrl"@[0]);
            assert(l[0] != "ralt"@[0]);
            assert(l[3] != "num0"@[3]);
            assert(l[3] != "num1"@[3]);
            assert(l[3] != "num2"@[3]);
            assert(!has_char(l, '+'));
        }
    }
    assert(l == "num4"@ ==> parsed_key(name) == Ok::<InputKey, Seq<char>>(InputKey { code: KeyCode::Char('4'), keypad: false })) by {
        if l == "num4"@ {
            assert(l[0] != "left"@[0]);
            assert(l[0] != "down"@[0]);
            assert(l[0] != "home"@[0]);
            assert(l[2] != "null"@[2]);
            assert(l[0] != "menu"@[0]);
            assert(l[0] != "ctrl"@[0]);
            assert(l[0] != "ralt"@[0]);
            assert(l[3] != "num0"@[3]);
            assert(l[3] != "num1"@[3]);
            assert(l[3] != "num2"@[3]);
            assert(l[3] != "num3"@[3]);
            assert(!has_char(l, '+'));
        }
    }
    assert(l == "num5"@ ==> parsed_key(name) == Ok::<InputKey, Seq<char>>(InputKey { code: KeyCode::Char('5'), keypad: false })) by {
        if l == "num5"@ {
            assert(l[0] != "left"@[0]);
            assert(l[0] != "down"@[0]);
            assert(l[0] != "home"@[0]);
            assert(l[2] != "null"@[2]);
            assert(l[0] != "menu"@[0]);
            assert(l[0] != "ctrl"@[0]);
            assert(l[0] != "ralt"@[0]);
            assert(l[3] != "num0"@[3]);
            assert(l[3] != "num1"@[3]);
            assert(l[3] != "num2"@[3]);
            assert(l[3] != "num3"@[3]);
            assert(l[3] != "num4"@[3]);
            assert(!has_char(l, '+'));
        }
    }
    assert(l == "num6"@ ==> parsed_key(name) == Ok::<InputKey, Seq<char>>(InputKey { code: KeyCode::Char('6'), keypad: false })) by {
        if l == "num6"@ {
            assert(l[0] != "left"@[0]);
            assert(l[0] != "down"@[0]);
            assert(l[0] != "home"@[0]);
            assert(l[2] != "null"@[2]);
            assert(l[0] != "menu"@[0]);
            assert(l[0] != "ctrl"@[0]);
            assert(l[0] != "ralt"@[0]);
            assert(l[3] != "num0"@[3]);
            assert(l[3] != "num1"@[3]);
            assert(l[3] != "num2"@[3]);
            assert(l[3] != "num3"@[3]);
            assert(l[3] != "num4"@[3]);
            assert(l[3] != "num5"@[3]);
            assert(!has_char(l, '+'));
        }
    }
    assert(l == "num7"@ ==> parsed_key(name) == Ok::<InputKey, Seq<char>>(InputKey { code: KeyCode::Char('7'), keypad: false })) by {
        if l == "num7"@ {
            assert(l[0] != "left"@[0]);
            assert(l[0] != "down"@[0]);
            assert(l[0] != "home"@[0]);
            assert(l[2] != "null"@[2]);
            assert(l[0] != "menu"@[0]);
            assert(l[0] != "ctrl"@[0]);
            assert(l[0] != "ralt"@[0]);
            assert(l[3] != "num0"@[3]);
            assert(l[3] != "num1"@[3]);
            assert(l[3] != "num2"@[3]);
            assert(l[3] != "num3"@[3]);
            assert(l[3] != "num4"@[3]);
            assert(l[3] != "num5"@[3]);
            assert(l[3] != "num6"@[3]);
            assert(!has_char(l, '+'));
        }
    }
    assert(l == "num8"@ ==> parsed_key(name) == Ok::<InputKey, Seq<char>>(InputKey { code: KeyCode::Char('8'), keypad: false })) by {
        if l == "num8"@ {
            assert(l[0] != "left"@[0]);
            assert(l[0] != "down"@[0]);
            assert(l[0] != "home"@[0]);
            assert(l[2] != "null"@[2]);
            assert(l[0] != "menu"@[0]);
            assert(l[0] != "ctrl"@[0]);
            assert(l[0] != "ralt"@[0]);
            assert(l[3] != "num0"@[3]);
            assert(l[3] != "num1"@[3]);
            assert(l[3] != "num2"@[3]);
            assert(l[3] != "num3"@[3]);
            assert(l[3] != "num4"@[3]);
            assert(l[3] != "num5"@[3]);
            assert(l[3] != "num6"@[3]);
            assert(l[3] != "num7"@[3]);
            assert(!has_char(l, '+'));
        }
    }
    assert(l == "num9"@ ==> parsed_key(name) == Ok::<InputKey, Seq<char>>(InputKey { code: KeyCode::Char('9'), keypad: false })) by {
        if l == "num9"@ {
            assert(l[0] != "left"@[0]);
            assert(l[0] != "down"@[0]);
            assert(l[0] != "home"@[0]);
            assert(l[2] != "null"@[2]);
            assert(l[0] != "menu"@[0]);
            assert(l[0] != "ctrl"@[0]);
            assert(l[0] != "ralt"@[0]);
            assert(l[3] != "num0"@[3]);
            assert(l[3] != "num1"@[3]);
            assert(l[3] != "num2"@[3]);
            assert(l[3] != "num3"@[3]);
            assert(l[3] != "num4"@[3]);
            assert(l[3] != "num5"@[3]);
            assert(l[3] != "num6"@[3]);
            assert(l[3] != "num7"@[3]);
            assert(l[3] != "num8"@[3]);
            assert(!has_char(l, '+'));
        }
    }
    assert(l == "period"@ ==> parsed_key(name) == Ok::<InputKey, Seq<char>>(InputKey { code: KeyCode::Char('.'), keypad: false })) by {
        if l == "period"@ {
            assert(l[0] != "return"@[0]);
            assert(l[1] != "pageup"@[1]);
            assert(l[0] != "delete"@[0]);
            assert(l[0] != "insert"@[0]);
            assert(l[0] != "escape"@[0]);
            assert(l[0] != "rshift"@[0]);
            assert(l[0] != "divide"@[0]);
            assert(!has_char(l, '+'));
        }
    }
    assert(l == "comma"@ ==> parsed_key(name) == Ok::<InputKey, Seq<char>>(InputKey { code: KeyCode::Char(','), keypad: false })) by {
        if l == "comma"@ {
            assert(l[0] != "enter"@[0]);
            assert(l[0] != "right"@[0]);
            assert(l[0] != "pause"@[0]);
            assert(l[0] != "shift"@[0]);
            assert(l[0] != "rctrl"@[0]);
            assert(l[0] != "space"@[0]);
            assert(!has_char(l, '+'));
        }
    }
    assert(l == "slash"@ ==> parsed_key(name) == Ok::<InputKey, Seq<char>>(InputKey { code: KeyCode::Char('/'), keypad: false })) by {
        if l == "slash"@ {
            assert(l[0] != "enter"@[0]);
            assert(l[0] != "right"@[0]);
            assert(l[0] != "pause"@[0]);
            assert(l[1] != "shift"@[1]);
            assert(l[0] != "rctrl"@[0]);
            assert(l[1] != "space"@[1]);
            assert(l[0] != "comma"@[0]);
            assert(!has_char(l, '+'));
        }
    }
    assert(l == "minus"@ ==> parsed_key(name) == Ok::<InputKey, Seq<char>>(InputKey { code: KeyCode::Char('-'), keypad: false })) by {
        if l == "minus"@ {
            assert(l[0] != "enter"@[0]);
            assert(l[0] != "right"@[0]);
            assert(l[0] != "pause"@[0]);
            assert(l[0] != "shift"@[0]);
            assert(l[0] != "rctrl"@[0]);
            assert(l[0] != "space"@[0]);
            assert(l[0] != "comma"@[0]);
            assert(l[0] != "slash"@[0]);
            assert(!has_char(l, '+'));
        }
    }
    assert(l == "subtract"@ ==> parsed_key(name) == Ok::<InputKey, Seq<char>>(InputKey { code: KeyCode::Char('-'), keypad: false })) by {
        if l == "subtract"@ {
            assert(l[0] != "pagedown"@[0]);
            assert(l[0] != "capslock"@[0]);
            assert(l[0] != "num-lock"@[0]);
            assert(l[0] != "left-alt"@[0]);
            assert(l[0] != "kp_enter"@[0]);
            assert(l[0] != "kp_minus"@[0]);
            assert(l[0] != "multiply"@[0]);
            assert(l.take(7)[0] != "numpad-"@[0]);
            assert(!has_char(l, '+'));
        }
    }
    assert(l == "equals"@ ==> parsed_key(name) == Ok::<InputKey, Seq<char>>(InputKey { code: KeyCode::Char('='), keypad: false })) by {
        if l == "equals"@ {
            assert(l[0] != "return"@[0]);
            assert(l[0] != "pageup"@[0]);
            assert(l[0] != "delete"@[0]);
            assert(l[0] != "insert"@[0]);
            assert(l[1] != "escape"@[1]);
            assert(l[0] != "rshift"@[0]);
            assert(l[0] != "period"@[0]);
            assert(l[0] != "divide"@[0]);
            assert(!has_char(l, '+'));
        }
    }
    assert(l == "leftbracket"@ ==> parsed_key(name) == Ok::<InputKey, Seq<char>>(InputKey { code: KeyCode::Char('['), keypad: false })) by {
        if l == "leftbracket"@ {
            assert(l[0] != "scroll_lock"@[0]);
            assert(l[0] != "scroll-lock"@[0]);
            assert(l[0] != "right-shift"@[0]);
            assert(l[0] != "right-super"@[0]);
            assert(l[0] != "right-hyper"@[0]);
            assert(l.take(7)[0] != "numpad-"@[0]);
            assert(!has_char(l, '+'));
        }
    }
    assert(l == "backslash"@ ==> parsed_key(name) == Ok::<InputKey, Seq<char>>(InputKey { code: KeyCode::Char('\\'), keypad: false })) by {
        if l == "backslash"@ {
            assert(l[5] != "backspace"@[5]);
            assert(l[0] != "page-down"@[0]);
            assert(l[0] != "caps-lock"@[0]);
            assert(l[0] != "left-ctrl"@[0]);
            assert(l[0] != "right-alt"@[0]);
            assert(l[0] != "left-meta"@[0]);
            assert(l[0] != "kp_period"@[0]);
            assert(l[0] != "kp_equals"@[0]);
            assert(l.take(7)[0] != "numpad-"@[0]);
            assert(!has_char(l, '+'));
        }
    }
    assert(l == "rightbracket"@ ==> parsed_key(name) == Ok::<InputKey, Seq<char>>(InputKey { code: KeyCode::Char(']'), keypad: false })) by {
        if l == "rightbracket"@ {
            assert(l[0] != "print_screen"@[0]);
            assert(l[0] != "print-screen"@[0]);
            assert(l[0] != "left-control"@[0]);
            assert(l.take(7)[0] != "numpad-"@[0]);
            assert(!has_char(l, '+'));
        }
    }
    assert(l == "backquote"@ ==> parsed_key(name) == Ok::<InputKey, Seq<char>>(InputKey { code: KeyCode::Char('`'), keypad: false })) by {
        if l == "backquote"@ {
            assert(l[4] != "backspace"@[4]);
            assert(l[0] != "page-down"@[0]);
            assert(l[0] != "caps-lock"@[0]);
            assert(l[0] != "left-ctrl"@[0]);
            assert(l[0] != "right-alt"@[0]);
            assert(l[0] != "left-meta"@[0]);
            assert(l[4] != "backslash"@[4]);
            assert(l[0] != "kp_period"@[0]);
            assert(l[0] != "kp_equals"@[0]);
            assert(l.take(7)[0] != "numpad-"@[0]);
            assert(!has_char(l, '+'));
        }
    }
    assert(l == "quote"@ ==> parsed_key(name) == Ok::<InputKey, Seq<char>>(InputKey { code: KeyCode::Char('\''), keypad: false })) by {
        if l == "quote"@ {
            assert(l[0] != "enter"@[0]);
            assert(l[0] != "right"@[0]);
            assert(l[0] != "pause"@[0]);
            assert(l[0] != "shift"@[0]);
            assert(l[0] != "rctrl"@[0]);
            assert(l[0] != "space"@[0]);
            assert(l[0] != "comma"@[0]);
            assert(l[0] != "slash"@[0]);
            assert(l[0] != "minus"@[0]);
            assert(!has_char(l, '+'));
        }
    }
    assert(l == "semicolon"@ ==> parsed_key(name) == Ok::<InputKey, Seq<char>>(InputKey { code: KeyCode::Char(';'), keypad: false })) by {
        if l == "semicolon"@ {
            assert(l[0] != "backspace"@[0]);
            assert(l[0] != "page-down"@[0]);
            assert(l[0] != "caps-lock"@[0]);
            assert(l[0] != "left-ctrl"@[0]);
            assert(l[0] != "right-alt"@[0]);
            assert(l[0] != "left-meta"@[0]);
            assert(l[0] != "backslash"@[0]);
            assert(l[0] != "backquote"@[0]);
            assert(l[0] != "kp_period"@[0]);
            assert(l[0] != "kp_equals"@[0]);
            assert(l.take(7)[0] != "numpad-"@[0]);
            assert(!has_char(l, '+'));
        }
    }
    assert(l == "tilde"@ ==> parsed_key(name) == Ok::<InputKey, Seq<char>>(InputKey { code: KeyCode::Char('~'), keypad: false })) by {
        if l == "tilde"@ {
            assert(l[0] != "enter"@[0]);
            assert(l[0] != "right"@[0]);
            assert(l[0] != "pause"@[0]);
            assert(l[0] != "shift"@[0]);
            assert(l[0] != "rctrl"@[0]);
            assert(l[0] != "space"@[0]);
            assert(l[0] != "comma"@[0]);
            assert(l[0] != "slash"@[0]);
            assert(l[0] != "minus"@[0]);
            assert(l[0] != "quote"@[0]);
            assert(!has_char(l, '+'));
        }
    }
    assert(l == "add"@ ==> parsed_key(name) == Ok::<InputKey, Seq<char>>(InputKey { code: KeyCode::Char('+'), keypad: false })) by {
        if l == "add"@ {
            assert(l[0] != "end"@[0]);
            assert(l[0] != "tab"@[0]);
            assert(l[0] != "del"@[0]);
            assert(l[0] != "esc"@[0]);
            assert(l[1] != "alt"@[1]);
            assert(!has_char(l, '+'));
        }
    }
}

/// The names a numeric keypad key is written with after `numpad-`, by
/// the key it stands for: each digit key also by the navigation key it
/// reports with Num Lock off.
pub open spec fn numpad_key_names(code: KeyCode) -> Seq<Seq<char>> {
    if code == KeyCode::Char('0') {
        seq!["0"@, "insert"@]
    } else if code == KeyCode::Char('1') {
        seq!["1"@, "end"@]
    } else if code == KeyCode::Char('2') {
        seq!["2"@, "down"@]
    } else if code == KeyCode::Char('3') {
        seq!["3"@, "page-down"@]
    } else if code == KeyCode::Char('4') {
        seq!["4"@, "left"@]
    } else if code == KeyCode::Char('5') {
        seq!["5"@, "begin"@]
    } else if code == KeyCode::Char('6') {
        seq!["6"@, "right"@]
    } else if code == KeyCode::Char('7') {
        seq!["7"@, "home"@]
    } else if code == KeyCode::Char('8') {
        seq!["8"@, "up"@]
    } else if code == KeyCode::Char('9') {
        seq!["9"@, "page-up"@]
    } else if code == KeyCode::Char('.') {
        seq!["decimal"@, "delete"@]
    } else if code == KeyCode::Char('/') {
        seq!["divide"@]
    } else if code == KeyCode::Char('*') {
        seq!["multiply"@]
    } else if code == KeyCode::Char('-') {
        seq!["subtract"@]
    } else if code == KeyCode::Char('+') {
        seq!["add"@]
    } else if code == KeyCode::Enter {
        seq!["enter"@]
    } else if code == KeyCode::Char('=') {
        seq!["equal"@]
    } else if code == KeyCode::Char(',') {
        seq!["comma"@]
    } else {
        Seq::empty()
    }
}

/// RetroArch's names of numeric keypad keys, by the key they stand for.
pub open spec fn retroarch_keypad_names(code: KeyCode) -> Seq<Seq<char>> {
    if code == KeyCode::Char('0') {
        seq!["keypad0"@]
    } else if code == KeyCode::Char('1') {
        seq!["keypad1"@]
    } else if code == KeyCode::Char('2') {
        seq!["keypad2"@]
    } else if code == KeyCode::Char('3') {
        seq!["keypad3"@]
    } else if code == KeyCode::Char('4') {
        seq!["keypad4"@]
    } else if code == KeyCode::Char('5') {
        seq!["keypad5"@]
    } else if code == KeyCode::Char('6') {
        seq!["keypad6"@]
    } else if code == KeyCode::Char('7') {
        seq!["keypad7"@]
    } else if code == KeyCode::Char('8') {
        seq!["keypad8"@]
    } else if code == KeyCode::Char('9') {
        seq!["keypad9"@]
    } else if code == KeyCode::Char('.') {
        seq!["kp_period"@]
    } else if code == KeyCode::Char('/') {
        seq!["divide"@]
    } else if code == KeyCode::Char('*') {
        seq!["multiply"@]
    } else if code == KeyCode::Char('-') {
        seq!["kp_minus"@]
    } else if code == KeyCode::Char('+') {
        seq!["kp_plus"@]
    } else if code == KeyCode::Enter {
        seq!["kp_enter"@]
    } else if code == KeyCode::Char('=') {
        seq!["kp_equals"@]
    } else {
        Seq::empty()
    }
}

/// Each numeric keypad key is parsed from `numpad-` and each of its names
/// as that keypad key: `numpad-0` and `numpad-insert` are keypad 0,
/// `numpad-decimal` the keypad point, `numpad-enter` the keypad Enter, and
/// so on, never a main-row key.
pub proof fn lemma_numpad_key_parsing(code: KeyCode, t: Seq<char>, name: Seq<char>)
    requires
        numpad_key_names(code).contains(t),
        name == "numpad-"@ + t,
    ensures
        parsed_key(name) == Ok::<InputKey, Seq<char>>(InputKey { code, keypad: true }),
{
    reveal_strlit("0");
    reveal_strlit("1");
    reveal_strlit("2");
    reveal_strlit("3");
    reveal_strlit("4");
    reveal_strlit("5");
    reveal_strlit("6");
    reveal_strlit("7");
    reveal_strlit("8");
    reveal_strlit("9");
    reveal_strlit("add");
    reveal_strlit("begin");
    reveal_strlit("comma");
    reveal_strlit("decimal");
    reveal_strlit("delete");
    reveal_strlit("divide");
    reveal_strlit("down");
    reveal_strlit("end");
    reveal_strlit("enter");
    reveal_strlit("equal");
    reveal_strlit("home");
    reveal_strlit("insert");
    reveal_strlit("keypad0");
    reveal_strlit("keypad1");
    reveal_strlit("keypad2");
    reveal_strlit("keypad3");
    reveal_strlit("keypad4");
    reveal_strlit("keypad5");
    reveal_strlit("keypad6");
    reveal_strlit("keypad7");
    reveal_strlit("keypad8");
    reveal_strlit("keypad9");
    reveal_strlit("kp_enter");
    reveal_strlit("kp_equals");
    reveal_strlit("kp_minus");
    reveal_strlit("kp_period");
    reveal_strlit("kp_plus");
    reveal_strlit("left");
    reveal_strlit("multiply");
    reveal_strlit("numpad-");
    reveal_strlit("page-down");
    reveal_strlit("page-up");
    reveal_strlit("right");
    reveal_strlit("subtract");
    reveal_strlit("up");
    let names = numpad_key_names(code);
    let k = choose|k: int| 0 <= k < names.len() && names[k] == t;
    assert(lower_seq(name) =~= name) by {
        assert forall|i: int| 0 <= i < name.len() implies lower(#[trigger] name[i]) == name[i] by {
            if i < 7 {
                assert(name[i] == "numpad-"@[i]);
            } else {
                assert(name[i] == t[i - 7]);
            }
        }
    }
    assert(name.take(7) =~= "numpad-"@);
    assert(name.skip(7) =~= t);
    assert(has_char(name, '+') ==> has_char(t, '+')) by {
        if has_char(name, '+') {
            let i = choose|i: int| 0 <= i < name.len() && name[i] == '+';
            if i < 7 {
                assert(name[i] == "numpad-"@[i]);
            } else {
                assert(t[i - 7] == '+');
            }
        }
    }
    assert(t == "0"@ ==> parsed_key(name) == Ok::<InputKey, Seq<char>>(InputKey { code: KeyCode::Char('0'), keypad: true })) by {
        if t == "0"@ {
            assert(!has_char(t, '+'));
        }
    }
    assert(t == "insert"@ ==> parsed_key(name) == Ok::<InputKey, Seq<char>>(InputKey { code: KeyCode::Char('0'), keypad: true })) by {
        if t == "insert"@ {
            assert(t[0] != "divide"@[0]);
            assert(!has_char(t, '+'));
        }
    }
    assert(t == "1"@ ==> parsed_key(name) == Ok::<InputKey, Seq<char>>(InputKey { code: KeyCode::Char('1'), keypad: true })) by {
        if t == "1"@ {
            assert(t[0] != "0"@[0]);
            assert(!has_char(t, '+'));
        }
    }
    assert(t == "end"@ ==> parsed_key(name) == Ok::<InputKey, Seq<char>>(InputKey { code: KeyCode::Char('1'), keypad: true })) by {
        if t == "end"@ {
            assert(t[0] != "add"@[0]);
            assert(!has_char(t, '+'));
        }
    }
    assert(t == "2"@ ==> parsed_key(name) == Ok::<InputKey, Seq<char>>(InputKey { code: KeyCode::Char('2'), keypad: true })) by {
        if t == "2"@ {
            assert(t[0] != "0"@[0]);
            assert(t[0] != "1"@[0]);
            assert(!has_char(t, '+'));
        }
    }
    assert(t == "down"@ ==> parsed_key(name) == Ok::<InputKey, Seq<char>>(InputKey { code: KeyCode::Char('2'), keypad: true })) by {
        if t == "down"@ {
            assert(t[0] != "left"@[0]);
            assert(!has_char(t, '+'));
        }
    }
    assert(t == "3"@ ==> parsed_key(name) == Ok::<InputKey, Seq<char>>(InputKey { code: KeyCode::Char('3'), keypad: true })) by {
        if t == "3"@ {
            assert(t[0] != "0"@[0]);
            assert(t[0] != "1"@[0]);
            assert(t[0] != "2"@[0]);
            assert(!has_char(t, '+'));
        }
    }
    assert(t == "page-down"@ ==> parsed_key(name) == Ok::<InputKey, Seq<char>>(InputKey { code: KeyCode::Char('3'), keypad: true })) by {
        if t == "page-down"@ {
            assert(t[0] != "kp_period"@[0]);
            assert(t[0] != "kp_equals"@[0]);
            assert(!has_char(t, '+'));
        }
    }
    assert(t == "4"@ ==> parsed_key(name) == Ok::<InputKey, Seq<char>>(InputKey { code: KeyCode::Char('4'), keypad: true })) by {
        if t == "4"@ {
            assert(t[0] != "0"@[0]);
            assert(t[0] != "1"@[0]);
            assert(t[0] != "2"@[0]);
            assert(t[0] != "3"@[0]);
            assert(!has_char(t, '+'));
        }
    }
    assert(t == "left"@ ==> parsed_key(name) == Ok::<InputKey, Seq<char>>(InputKey { code: KeyCode::Char('4'), keypad: true })) by {
        if t == "left"@ {
            assert(!has_char(t, '+'));
        }
    }
    assert(t == "5"@ ==> parsed_key(name) == Ok::<InputKey, Seq<char>>(InputKey { code: KeyCode::Char('5'), keypad: true })) by {
        if t == "5"@ {
            assert(t[0] != "0"@[0]);
            assert(t[0] != "1"@[0]);
            assert(t[0] != "2"@[0]);
            assert(t[0] != "3"@[0]);
            assert(t[0] != "4"@[0]);
            assert(!has_char(t, '+'));
        }
    }
    assert(t == "begin"@ ==> parsed_key(name) == Ok::<InputKey, Seq<char>>(InputKey { code: KeyCode::Char('5'), keypad: true })) by {
        if t == "begin"@ {
            assert(t[0] != "enter"@[0]);
            assert(t[0] != "equal"@[0]);
            assert(t[0] != "comma"@[0]);
            assert(t[0] != "right"@[0]);
            assert(!has_char(t, '+'));
        }
    }
    assert(t == "6"@ ==> parsed_key(name) == Ok::<InputKey, Seq<char>>(InputKey { code: KeyCode::Char('6'), keypad: true })) by {
        if t == "6"@ {
            assert(t[0] != "0"@[0]);
            assert(t[0] != "1"@[0]);
            assert(t[0] != "2"@[0]);
            assert(t[0] != "3"@[0]);
            assert(t[0] != "4"@[0]);
            assert(t[0] != "5"@[0]);
            assert(!has_char(t, '+'));
        }
    }
    assert(t == "right"@ ==> parsed_key(name) == Ok::<InputKey, Seq<char>>(InputKey { code: KeyCode::Char('6'), keypad: true })) by {
        if t == "right"@ {
            assert(t[0] != "enter"@[0]);
            assert(t[0] != "equal"@[0]);
            assert(t[0] != "comma"@[0]);
            assert(!has_char(t, '+'));
        }
    }
    assert(t == "7"@ ==> parsed_key(name) == Ok::<InputKey, Seq<char>>(InputKey { code: KeyCode::Char('7'), keypad: true })) by {
        if t == "7"@ {
            assert(t[0] != "0"@[0]);
            assert(t[0] != "1"@[0]);
            assert(t[0] != "2"@[0]);
            assert(t[0] != "3"@[0]);
            assert(t[0] != "4"@[0]);
            assert(t[0] != "5"@[0]);
            assert(t[0] != "6"@[0]);
            assert(!has_char(t, '+'));
        }
    }
    assert(t == "home"@ ==> parsed_key(name) == Ok::<InputKey, Seq<char>>(InputKey { code: KeyCode::Char('7'), keypad: true })) by {
        if t == "home"@ {
            assert(t[0] != "left"@[0]);
            assert(t[0] != "down"@[0]);
            assert(!has_char(t, '+'));
        }
    }
    assert(t == "8"@ ==> parsed_key(name) == Ok::<InputKey, Seq<char>>(InputKey { code: KeyCode::Char('8'), keypad: true })) by {
        if t == "8"@ {
            assert(t[0] != "0"@[0]);
            assert(t[0] != "1"@[0]);
            assert(t[0] != "2"@[0]);
            assert(t[0] != "3"@[0]);
            assert(t[0] != "4"@[0]);
            assert(t[0] != "5"@[0]);
            assert(t[0] != "6"@[0]);
            assert(t[0] != "7"@[0]);
            assert(!has_char(t, '+'));
        }
    }
    assert(t == "up"@ ==> parsed_key(name) == Ok::<InputKey, Seq<char>>(InputKey { code: KeyCode::Char('8'), keypad: true })) by {
        if t == "up"@ {
            assert(!has_char(t, '+'));
        }
    }
    assert(t == "9"@ ==> parsed_key(name) == Ok::<InputKey, Seq<char>>(InputKey { code: KeyCode::Char('9'), keypad: true })) by {
        if t == "9"@ {
            assert(t[0] != "0"@[0]);
            assert(t[0] != "1"@[0]);
            assert(t[0] != "2"@[0]);
            assert(t[0] != "3"@[0]);
            assert(t[0] != "4"@[0]);
            assert(t[0] != "5"@[0]);
            assert(t[0] != "6"@[0]);
            assert(t[0] != "7"@[0]);
            assert(t[0] != "8"@[0]);
            assert(!has_char(t, '+'));
        }
    }
    assert(t == "page-up"@ ==> parsed_key(name) == Ok::<InputKey, Seq<char>>(InputKey { code: KeyCode::Char('9'), keypad: true })) by {
        if t == "page-up"@ {
            assert(t[0] != "keypad0"@[0]);
            assert(t[0] != "keypad1"@[0]);
            assert(t[0] != "keypad2"@[0]);
            assert(t[0] != "keypad3"@[0]);
            assert(t[0] != "keypad4"@[0]);
            assert(t[0] != "keypad5"@[0]);
            assert(t[0] != "keypad6"@[0]);
            assert(t[0] != "keypad7"@[0]);
            assert(t[0] != "keypad8"@[0]);
            assert(t[0] != "keypad9"@[0]);
            assert(t[0] != "decimal"@[0]);
            assert(t[0] != "kp_plus"@[0]);
            assert(!has_char(t, '+'));
        }
    }
    assert(t == "decimal"@ ==> parsed_key(name) == Ok::<InputKey, Seq<char>>(InputKey { code: KeyCode::Char('.'), keypad: true })) by {
        if t == "decimal"@ {
            assert(t[0] != "keypad0"@[0]);
            assert(t[0] != "keypad1"@[0]);
            assert(t[0] != "keypad2"@[0]);
            assert(t[0] != "keypad3"@[0]);
            assert(t[0] != "keypad4"@[0]);
            assert(t[0] != "keypad5"@[0]);
            assert(t[0] != "keypad6"@[0]);
            assert(t[0] != "keypad7"@[0]);
            assert(t[0] != "keypad8"@[0]);
            assert(t[0] != "keypad9"@[0]);
            assert(!has_char(t, '+'));
        }
    }
    assert(t == "delete"@ ==> parsed_key(name) == Ok::<InputKey, Seq<char>>(InputKey { code: KeyCode::Char('.'), keypad: true })) by {
        if t == "delete"@ {
            assert(t[1] != "divide"@[1]);
            assert(t[0] != "insert"@[0]);
            assert(!has_char(t, '+'));
        }
    }
    assert(t == "divide"@ ==> parsed_key(name) == Ok::<InputKey, Seq<char>>(InputKey { code: KeyCode::Char('/'), keypad: true })) by {
        if t == "divide"@ {
            assert(!has_char(t, '+'));
        }
    }
    assert(t == "multiply"@ ==> parsed_key(name) == Ok::<InputKey, Seq<char>>(InputKey { code: KeyCode::Char('*'), keypad: true })) by {
        if t == "multiply"@ {
            assert(!has_char(t, '+'));
        }
    }
    assert(t == "subtract"@ ==> parsed_key(name) == Ok::<InputKey, Seq<char>>(InputKey { code: KeyCode::Char('-'), keypad: true })) by {
        if t == "subtract"@ {
            assert(t[0] != "multiply"@[0]);
            assert(!has_char(t, '+'));
        }
    }
    assert(t == "add"@ ==> parsed_key(name) == Ok::<InputKey, Seq<char>>(InputKey { code: KeyCode::Char('+'), keypad: true })) by {
        if t == "add"@ {
            assert(!has_char(t, '+'));
        }
    }
    assert(t == "enter"@ ==> parsed_key(name) == Ok::<InputKey, Seq<char>>(InputKey { code: KeyCode::Enter, keypad: true })) by {
        if t == "enter"@ {
            assert(!has_char(t, '+'));
        }
    }
    assert(t == "equal"@ ==> parsed_key(name) == Ok::<InputKey, Seq<char>>(InputKey { code: KeyCode::Char('='), keypad: true })) by {
        if t == "equal"@ {
            assert(t[1] != "enter"@[1]);
            assert(!has_char(t, '+'));
        }
    }
    assert(t == "comma"@ ==> parsed_key(name) == Ok::<InputKey, Seq<char>>(InputKey { code: KeyCode::Char(','), keypad: true })) by {
        if t == "comma"@ {
            assert(t[0] != "enter"@[0]);
            assert(t[0] != "equal"@[0]);
            assert(!has_char(t, '+'));
        }
    }
}

/// Each of RetroArch's keypad names is parsed, in any case, as the keypad
/// key it names: `keypad0` is keypad 0, `kp_period` the keypad point,
/// `kp_enter` the keypad Enter, and so on.
pub proof fn lemma_retroarch_keypad_parsing(code: KeyCode, name: Seq<char>)
    requires
        retroarch_keypad_names(code).contains(lower_seq(name)),
    ensures
        parsed_key(name) == Ok::<InputKey, Seq<char>>(InputKey { code, keypad: true }),
{
    reveal_strlit("0");
    reveal_strlit("1");
    reveal_strlit("2");
    reveal_strlit("3");
    reveal_strlit("4");
    reveal_strlit("5");
    reveal_strlit("6");
    reveal_strlit("7");
    reveal_strlit("8");
    reveal_strlit("9");
    reveal_strlit("add");
    reveal_strlit("begin");
    reveal_strlit("comma");
    reveal_strlit("decimal");
    reveal_strlit("delete");
    reveal_strlit("divide");
    reveal_strlit("down");
    reveal_strlit("end");
    reveal_strlit("enter");
    reveal_strlit("equal");
    reveal_strlit("home");
    reveal_strlit("insert");
    reveal_strlit("keypad0");
    reveal_strlit("keypad1");
    reveal_strlit("keypad2");
    reveal_strlit("keypad3");
    reveal_strlit("keypad4");
    reveal_strlit("keypad5");
    reveal_strlit("keypad6");
    reveal_strlit("keypad7");
    reveal_strlit("keypad8");
    reveal_strlit("keypad9");
    reveal_strlit("kp_enter");
    reveal_strlit("kp_equals");
    reveal_strlit("kp_minus");
    reveal_strlit("kp_period");
    reveal_strlit("kp_plus");
    reveal_strlit("left");
    reveal_strlit("multiply");
    reveal_strlit("numpad-");
    reveal_strlit("page-down");
    reveal_strlit("page-up");
    reveal_strlit("right");
    reveal_strlit("subtract");
    reveal_strlit("up");
    let l = lower_seq(name);
    assert(has_char(name, '+') ==> has_char(l, '+')) by {
        if has_char(name, '+') {
            let i = choose|i: int| 0 <= i < name.len() && name[i] == '+';
            assert(l[i] == '+');
        }
    }
    let names = retroarch_keypad_names(code);
    let k = choose|k: int| 0 <= k < names.len() && names[k] == l;
    assert(l == "keypad0"@ ==> parsed_key(name) == Ok::<InputKey, Seq<char>>(InputKey { code: KeyCode::Char('0'), keypad: true })) by {
        if l == "keypad0"@ {
            assert(l.take(7)[0] != "numpad-"@[0]);
            assert(!has_char(l, '+'));
        }
    }
    assert(l == "keypad1"@ ==> parsed_key(name) == Ok::<InputKey, Seq<char>>(InputKey { code: KeyCode::Char('1'), keypad: true })) by {
        if l == "keypad1"@ {
            assert(l[6] != "keypad0"@[6]);
            assert(l.take(7)[0] != "numpad-"@[0]);
            assert(!has_char(l, '+'));
        }
    }
    assert(l == "keypad2"@ ==> parsed_key(name) == Ok::<InputKey, Seq<char>>(InputKey { code: KeyCode::Char('2'), keypad: true })) by {
        if l == "keypad2"@ {
            assert(l[6] != "keypad0"@[6]);
            assert(l[6] != "keypad1"@[6]);
            assert(l.take(7)[0] != "numpad-"@[0]);
            assert(!has_char(l, '+'));
        }
    }
    assert(l == "keypad3"@ ==> parsed_key(name) == Ok::<InputKey, Seq<char>>(InputKey { code: KeyCode::Char('3'), keypad: true })) by {
        if l == "keypad3"@ {
            assert(l[6] != "keypad0"@[6]);
            assert(l[6] != "keypad1"@[6]);
            assert(l[6] != "keypad2"@[6]);
            assert(l.take(7)[0] != "numpad-"@[0]);
            assert(!has_char(l, '+'));
        }
    }
    assert(l == "keypad4"@ ==> parsed_key(name) == Ok::<InputKey, Seq<char>>(InputKey { code: KeyCode::Char('4'), keypad: true })) by {
        if l == "keypad4"@ {
            assert(l[6] != "keypad0"@[6]);
            assert(l[6] != "keypad1"@[6]);
            assert(l[6] != "keypad2"@[6]);
            assert(l[6] != "keypad3"@[6]);
            assert(l.take(7)[0] != "numpad-"@[0]);
            assert(!has_char(l, '+'));
        }
    }
    assert(l == "keypad5"@ ==> parsed_key(name) == Ok::<InputKey, Seq<char>>(InputKey { code: KeyCode::Char('5'), keypad: true })) by {
        if l == "keypad5"@ {
            assert(l[6] != "keypad0"@[6]);
            assert(l[6] != "keypad1"@[6]);
            assert(l[6] != "keypad2"@[6]);
            assert(l[6] != "keypad3"@[6]);
            assert(l[6] != "keypad4"@[6]);
            assert(l.take(7)[0] != "numpad-"@[0]);
            assert(!has_char(l, '+'));
        }
    }
    assert(l == "keypad6"@ ==> parsed_key(name) == Ok::<InputKey, Seq<char>>(InputKey { code: KeyCode::Char('6'), keypad: true })) by {
        if l == "keypad6"@ {
            assert(l[6] != "keypad0"@[6]);
            assert(l[6] != "keypad1"@[6]);
            assert(l[6] != "keypad2"@[6]);
            assert(l[6] != "keypad3"@[6]);
            assert(l[6] != "keypad4"@[6]);
            assert(l[6] != "keypad5"@[6]);
            assert(l.take(7)[0] != "numpad-"@[0]);
            assert(!has_char(l, '+'));
        }
    }
    assert(l == "keypad7"@ ==> parsed_key(name) == Ok::<InputKey, Seq<char>>(InputKey { code: KeyCode::Char('7'), keypad: true })) by {
        if l == "keypad7"@ {
            assert(l[6] != "keypad0"@[6]);
            assert(l[6] != "keypad1"@[6]);
            assert(l[6] != "keypad2"@[6]);
            assert(l[6] != "keypad3"@[6]);
            assert(l[6] != "keypad4"@[6]);
            assert(l[6] != "keypad5"@[6]);
            assert(l[6] != "keypad6"@[6]);
            assert(l.take(7)[0] != "numpad-"@[0]);
            assert(!has_char(l, '+'));
        }
    }
    assert(l == "keypad8"@ ==> parsed_key(name) == Ok::<InputKey, Seq<char>>(InputKey { code: KeyCode::Char('8'), keypad: true })) by {
        if l == "keypad8"@ {
            assert(l[6] != "keypad0"@[6]);
            assert(l[6] != "keypad1"@[6]);
            assert(l[6] != "keypad2"@[6]);
            assert(l[6] != "keypad3"@[6]);
            assert(l[6] != "keypad4"@[6]);
            assert(l[6] != "keypad5"@[6]);
            assert(l[6] != "keypad6"@[6]);
            assert(l[6] != "keypad7"@[6]);
            assert(l.take(7)[0] != "numpad-"@[0]);
            assert(!has_char(l, '+'));
        }
    }
    assert(l == "keypad9"@ ==> parsed_key(name) == Ok::<InputKey, Seq<char>>(InputKey { code: KeyCode::Char('9'), keypad: true })) by {
        if l == "keypad9"@ {
            assert(l[6] != "keypad0"@[6]);
            assert(l[6] != "keypad1"@[6]);
            assert(l[6] != "keypad2"@[6]);
            assert(l[6] != "keypad3"@[6]);
            assert(l[6] != "keypad4"@[6]);
            assert(l[6] != "keypad5"@[6]);
            assert(l[6] != "keypad6"@[6]);
            assert(l[6] != "keypad7"@[6]);
            assert(l[6] != "keypad8"@[6]);
            assert(l.take(7)[0] != "numpad-"@[0]);
            assert(!has_char(l, '+'));
        }
    }
    assert(l == "kp_period"@ ==> parsed_key(name) == Ok::<InputKey, Seq<char>>(InputKey { code: KeyCode::Char('.'), keypad: true })) by {
        if l == "kp_period"@ {
            assert(l.take(7)[0] != "numpad-"@[0]);
            assert(!has_char(l, '+'));
        }
    }
    assert(l == "divide"@ ==> parsed_key(name) == Ok::<InputKey, Seq<char>>(InputKey { code: KeyCode::Char('/'), keypad: true })) by {
        if l == "divide"@ {
            assert(!has_char(l, '+'));
        }
    }
    assert(l == "multiply"@ ==> parsed_key(name) == Ok::<InputKey, Seq<char>>(InputKey { code: KeyCode::Char('*'), keypad: true })) by {
        if l == "multiply"@ {
            assert(l.take(7)[0] != "numpad-"@[0]);
            assert(!has_char(l, '+'));
        }
    }
    assert(l == "kp_minus"@ ==> parsed_key(name) == Ok::<InputKey, Seq<char>>(InputKey { code: KeyCode::Char('-'), keypad: true })) by {
        if l == "kp_minus"@ {
            assert(l[0] != "multiply"@[0]);
            assert(l[0] != "subtract"@[0]);
            assert(l.take(7)[0] != "numpad-"@[0]);
            assert(!has_char(l, '+'));
        }
    }
    assert(l == "kp_plus"@ ==> parsed_key(name) == Ok::<InputKey, Seq<char>>(InputKey { code: KeyCode::Char('+'), keypad: true })) by {
        if l == "kp_plus"@ {
            assert(l[1] != "keypad0"@[1]);
            assert(l[1] != "keypad1"@[1]);
            assert(l[1] != "keypad2"@[1]);
            assert(l[1] != "keypad3"@[1]);
            assert(l[1] != "keypad4"@[1]);
            assert(l[1] != "keypad5"@[1]);
            assert(l[1] != "keypad6"@[1]);
            assert(l[1] != "keypad7"@[1]);
            assert(l[1] != "keypad8"@[1]);
            assert(l[1] != "keypad9"@[1]);
            assert(l[0] != "decimal"@[0]);
            assert(l.take(7)[0] != "numpad-"@[0]);
            assert(!has_char(l, '+'));
        }
    }
    assert(l == "kp_enter"@ ==> parsed_key(name) == Ok::<InputKey, Seq<char>>(InputKey { code: KeyCode::Enter, keypad: true })) by {
        if l == "kp_enter"@ {
            assert(l[0] != "multiply"@[0]);
            assert(l[0] != "subtract"@[0]);
            assert(l[3] != "kp_minus"@[3]);
            assert(l.take(7)[0] != "numpad-"@[0]);
            assert(!has_char(l, '+'));
        }
    }
    assert(l == "kp_equals"@ ==> parsed_key(name) == Ok::<InputKey, Seq<char>>(InputKey { code: KeyCode::Char('='), keypad: true })) by {
        if l == "kp_equals"@ {
            assert(l[3] != "kp_period"@[3]);
            assert(l.take(7)[0] != "numpad-"@[0]);
            assert(!has_char(l, '+'));
        }
    }
}

/// A one-character name is the key of that character, letters in lower
/// case: `a` and `A` are both the `a` key, `+` is the `+` key.
pub proof fn lemma_single_character_keys(ch: char)
    ensures
        parsed_key(seq![ch]) == Ok::<InputKey, Seq<char>>(
            InputKey { code: KeyCode::Char(lower(ch)), keypad: false },
        ),
{
    reveal_strlit("add");
    reveal_strlit("alt");
    reveal_strlit("backquote");
    reveal_strlit("backslash");
    reveal_strlit("backspace");
    reveal_strlit("caps-lock");
    reveal_strlit("capslock");
    reveal_strlit("comma");
    reveal_strlit("ctrl");
    reveal_strlit("del");
    reveal_strlit("delete");
    reveal_strlit("divide");
    reveal_strlit("down");
    reveal_strlit("end");
    reveal_strlit("enter");
    reveal_strlit("equals");
    reveal_strlit("esc");
    reveal_strlit("escape");
    reveal_strlit("home");
    reveal_strlit("insert");
    reveal_strlit("iso-level-3-shift");
    reveal_strlit("iso-level-5-shift");
    reveal_strlit("keypad0");
    reveal_strlit("keypad1");
    reveal_strlit("keypad2");
    reveal_strlit("keypad3");
    reveal_strlit("keypad4");
    reveal_strlit("keypad5");
    reveal_strlit("keypad6");
    reveal_strlit("keypad7");
    reveal_strlit("keypad8");
    reveal_strlit("keypad9");
    reveal_strlit("kp_enter");
    reveal_strlit("kp_equals");
    reveal_strlit("kp_minus");
    reveal_strlit("kp_period");
    reveal_strlit("kp_plus");
    reveal_strlit("left");
    reveal_strlit("left-alt");
    reveal_strlit("left-control");
    reveal_strlit("left-ctrl");
    reveal_strlit("left-hyper");
    reveal_strlit("left-meta");
    reveal_strlit("left-shift");
    reveal_strlit("left-super");
    reveal_strlit("leftbracket");
    reveal_strlit("menu");
    reveal_strlit("minus");
    reveal_strlit("multiply");
    reveal_strlit("null");
    reveal_strlit("num-lock");
    reveal_strlit("num0");
    reveal_strlit("num1");
    reveal_strlit("num2");
    reveal_strlit("num3");
    reveal_strlit("num4");
    reveal_strlit("num5");
    reveal_strlit("num6");
    reveal_strlit("num7");
    reveal_strlit("num8");
    reveal_strlit("num9");
    reveal_strlit("numlock");
    reveal_strlit("page-down");
    reveal_strlit("page-up");
    reveal_strlit("pagedown");
    reveal_strlit("pageup");
    reveal_strlit("pause");
    reveal_strlit("period");
    reveal_strlit("print-screen");
    reveal_strlit("print_screen");
    reveal_strlit("quote");
    reveal_strlit("ralt");
    reveal_strlit("rctrl");
    reveal_strlit("return");
    reveal_strlit("right");
    reveal_strlit("right-alt");
    reveal_strlit("right-control");
    reveal_strlit("right-ctrl");
    reveal_strlit("right-hyper");
    reveal_strlit("right-meta");
    reveal_strlit("right-shift");
    reveal_strlit("right-super");
    reveal_strlit("rightbracket");
    reveal_strlit("rshift");
    reveal_strlit("scroll-lock");
    reveal_strlit("scroll_lock");
    reveal_strlit("semicolon");
    reveal_strlit("shift");
    reveal_strlit("slash");
    reveal_strlit("space");
    reveal_strlit("subtract");
    reveal_strlit("tab");
    reveal_strlit("tilde");
    reveal_strlit("up");
    reveal_strlit("+");
    reveal_strlit("numpad-");
    let name = seq![ch];
    let l = lower_seq(name);
    assert(l =~= seq![lower(ch)]);
    assert(lower(lower(ch)) == lower(ch));
    if ch == '+' {
        assert(name =~= "+"@);
    } else {
        assert(!has_char(name, '+'));
    }
}

/// The decimal digits of `n` are digits and read back as `n`.
proof fn lemma_decimal_digits(n: nat)
    ensures
        all_digits(decimal(n)),
        digits_value(decimal(n)) == n,
        decimal(n).len() > 0,
        decimal(n)[0] != '+',
    decreases n,
{
    let c = digit_char(n % 10);
    assert((c as int) == (n % 10) + 48);
    if n >= 10 {
        lemma_decimal_digits(n / 10);
        let d = decimal(n);
        assert(d.drop_last() =~= decimal(n / 10));
        assert(d.last() == c);
        assert(d[0] == decimal(n / 10)[0]);
        assert(digits_value(d) == (n / 10) * 10 + n % 10);
        assert((n / 10) * 10 + n % 10 == n) by (nonlinear_arith);
    } else {
        let d = decimal(n);
        assert(d.drop_last() =~= Seq::<char>::empty());
        assert(d.last() == c);
        assert(n % 10 == n);
        assert(digits_value(d) == digits_value(d.drop_last()) * 10 + ((c as int) - 48) as nat);
        assert(digits_value(d.drop_last()) == 0);
    }
}

/// `f` (or `F`) and the number of a function key from 1 to 24 name that
/// function key.
pub proof fn lemma_function_key_parsing(f: char, n: u8)
    requires
        f == 'f' || f == 'F',
        1 <= n <= 24,
    ensures
        parsed_key(seq![f] + decimal(n as nat)) == Ok::<InputKey, Seq<char>>(
            InputKey { code: KeyCode::F(n), keypad: false },
        ),
{
    reveal_strlit("add");
    reveal_strlit("alt");
    reveal_strlit("backquote");
    reveal_strlit("backslash");
    reveal_strlit("backspace");
    reveal_strlit("caps-lock");
    reveal_strlit("capslock");
    reveal_strlit("comma");
    reveal_strlit("ctrl");
    reveal_strlit("del");
    reveal_strlit("delete");
    reveal_strlit("divide");
    reveal_strlit("down");
    reveal_strlit("end");
    reveal_strlit("enter");
    reveal_strlit("equals");
    reveal_strlit("esc");
    reveal_strlit("escape");
    reveal_strlit("home");
    reveal_strlit("insert");
    reveal_strlit("iso-level-3-shift");
    reveal_strlit("iso-level-5-shift");
    reveal_strlit("keypad0");
    reveal_strlit("keypad1");
    reveal_strlit("keypad2");
    reveal_strlit("keypad3");
    reveal_strlit("keypad4");
    reveal_strlit("keypad5");
    reveal_strlit("keypad6");
    reveal_strlit("keypad7");
    reveal_strlit("keypad8");
    reveal_strlit("keypad9");
    reveal_strlit("kp_enter");
    reveal_strlit("kp_equals");
    reveal_strlit("kp_minus");
    reveal_strlit("kp_period");
    reveal_strlit("kp_plus");
    reveal_strlit("left");
    reveal_strlit("left-alt");
    reveal_strlit("left-control");
    reveal_strlit("left-ctrl");
    reveal_strlit("left-hyper");
    reveal_strlit("left-meta");
    reveal_strlit("left-shift");
    reveal_strlit("left-super");
    reveal_strlit("leftbracket");
    reveal_strlit("menu");
    reveal_strlit("minus");
    reveal_strlit("multiply");
    reveal_strlit("null");
    reveal_strlit("num-lock");
    reveal_strlit("num0");
    reveal_strlit("num1");
    reveal_strlit("num2");
    reveal_strlit("num3");
    reveal_strlit("num4");
    reveal_strlit("num5");
    reveal_strlit("num6");
    reveal_strlit("num7");
    reveal_strlit("num8");
    reveal_strlit("num9");
    reveal_strlit("numlock");
    reveal_strlit("page-down");
    reveal_strlit("page-up");
    reveal_strlit("pagedown");
    reveal_strlit("pageup");
    reveal_strlit("pause");
    reveal_strlit("period");
    reveal_strlit("print-screen");
    reveal_strlit("print_screen");
    reveal_strlit("quote");
    reveal_strlit("ralt");
    reveal_strlit("rctrl");
    reveal_strlit("return");
    reveal_strlit("right");
    reveal_strlit("right-alt");
    reveal_strlit("right-control");
    reveal_strlit("right-ctrl");
    reveal_strlit("right-hyper");
    reveal_strlit("right-meta");
    reveal_strlit("right-shift");
    reveal_strlit("right-super");
    reveal_strlit("rightbracket");
    reveal_strlit("rshift");
    reveal_strlit("scroll-lock");
    reveal_strlit("scroll_lock");
    reveal_strlit("semicolon");
    reveal_strlit("shift");
    reveal_strlit("slash");
    reveal_strlit("space");
    reveal_strlit("subtract");
    reveal_strlit("tab");
    reveal_strlit("tilde");
    reveal_strlit("up");
    reveal_strlit("numpad-");
    reveal_strlit("+");
    lemma_decimal_digits(n as nat);
    let digits = decimal(n as nat);
    let name = seq![f] + digits;
    let l = lower_seq(name);
    assert(l =~= seq!['f'] + digits) by {
        assert forall|i: int| 0 <= i < name.len() implies lower(#[trigger] name[i]) == (seq!['f'] + digits)[i] by {
            if i > 0 {
                assert(is_digit(digits[i - 1]));
            }
        }
    }
    assert(decimal(n as nat).len() <= 2) by {
        if n >= 10 {
            assert(decimal(n as nat / 10).len() == 1);
        }
    }
    assert(!has_char(name, '+')) by {
        assert forall|i: int| 0 <= i < name.len() implies name[i] != '+' by {
            if i > 0 {
                assert(is_digit(digits[i - 1]));
            }
        }
    }
    assert(name != "+"@);
    assert(l.skip(1) =~= digits);
    assert(l[0] == 'f');
}

fn quoted_message(prefix: &str, text: &Vec<char>) -> (r: String)
    ensures
        r@ == quoted(prefix@, text@),
{
    let mut m: Vec<char> = Vec::new();
    push_str(&mut m, prefix);
    push_str(&mut m, "\"");
    push_chars(&mut m, text);
    push_str(&mut m, "\"");
    string_from_chars(&m)
}

impl InputKey {
    /// The key that `event` is matched against bindings as.
    pub fn from_event(event: KeyEvent) -> (r: InputKey)
        ensures
            r == event_key(event),
    {
        let code = normalize_code(event.code);
        InputKey {
            code: if event.keypad {
                normalize_keypad_code(code)
            } else {
                code
            },
            keypad: event.keypad,
        }
    }

    /// Parses a key name of the configuration.
    pub fn parse(name: &str) -> (r: Result<InputKey, String>)
        ensures
            match r {
                Ok(k) => parsed_key(name@) == Ok::<InputKey, Seq<char>>(k),
                Err(e) => parsed_key(name@) == Err::<InputKey, Seq<char>>(e@),
            },
    {
        let chars = str_chars(name);
        if !str_equal(name, "+") && chars_contain(&chars, '+') {
            return Err(quoted_message("key combinations are not supported: ", &chars));
        }
        let lowered = to_ascii_lowercase(name);
        let l = str_chars(lowered.as_str());
        if l.len() == 0 {
            return Err("key name must not be empty".to_owned());
        }
        let prefix = str_chars("numpad-");
        proof {
            reveal_strlit("numpad-");
        }
        if crate::text::chars_start_with(&l, &prefix) {
            let rest = chars_range(&l, prefix.len(), l.len());
            let rest_name = string_from_chars(&rest);
            assert(rest@ == l@.skip(7));
            return match parse_numpad_key(rest_name.as_str()) {
                Some(c) => Ok(InputKey { code: normalize_keypad_code(c), keypad: true }),
                None => {
                    let mut full = str_chars("numpad-");
                    push_chars(&mut full, &rest);
                    Err(quoted_message("unknown numeric keypad key: ", &full))
                },
            };
        }
        assert(!(l@.len() >= 7 && l@.take(7) == "numpad-"@));
        if is_keypad_name(lowered.as_str()) {
            return match parse_numpad_key(lowered.as_str()) {
                Some(c) => Ok(InputKey { code: normalize_keypad_code(c), keypad: true }),
                None => Err(quoted_message("unknown key: ", &l)),
            };
        }
        match parse_key_code(lowered.as_str()) {
            Some(c) => Ok(InputKey { code: normalize_code(c), keypad: false }),
            None => Err(quoted_message("unknown key: ", &l)),
        }
    }
}

} // verus!
