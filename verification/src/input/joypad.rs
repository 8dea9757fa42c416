//! The libretro joypad: its device id and the ids of its sixteen buttons.
use vstd::prelude::*;

verus! {

pub const JOYPAD_BUTTON_COUNT: usize = 16;

pub const RETRO_DEVICE_JOYPAD: u32 = 1;

pub const BUTTON_B: usize = 0;

pub const BUTTON_Y: usize = 1;

pub const BUTTON_SELECT: usize = 2;

pub const BUTTON_START: usize = 3;

pub const BUTTON_UP: usize = 4;

pub const BUTTON_DOWN: usize = 5;

pub const BUTTON_LEFT: usize = 6;

pub const BUTTON_RIGHT: usize = 7;

pub const BUTTON_A: usize = 8;

pub const BUTTON_X: usize = 9;

pub const BUTTON_L: usize = 10;

pub const BUTTON_R: usize = 11;

pub const BUTTON_L2: usize = 12;

pub const BUTTON_R2: usize = 13;

pub const BUTTON_L3: usize = 14;

pub const BUTTON_R3: usize = 15;

/// A button of a game controller, named by its place on the pad.
#[derive(Clone, Copy, Debug, PartialEq, Eq, Structural)]
pub enum GamepadButton {
    South,
    East,
    North,
    West,
    C,
    Z,
    LeftTrigger,
    LeftTrigger2,
    RightTrigger,
    RightTrigger2,
    Select,
    Start,
    Mode,
    LeftThumb,
    RightThumb,
    DPadUp,
    DPadDown,
    DPadLeft,
    DPadRight,
    Unknown,
}

/// The joypad button a controller button stands for: the face buttons
/// keep their places on the B/A/Y/X diamond (South is B, East is A, West
/// is Y, North is X), the triggers are the shoulder pairs and the thumb
/// clicks L3 and R3; Mode, C, Z and unknown buttons stand for none.
pub open spec fn gamepad_button_spec(button: GamepadButton) -> Option<usize> {
    match button {
        GamepadButton::South => Some(BUTTON_B),
        GamepadButton::East => Some(BUTTON_A),
        GamepadButton::West => Some(BUTTON_Y),
        GamepadButton::North => Some(BUTTON_X),
        GamepadButton::LeftTrigger => Some(BUTTON_L),
        GamepadButton::RightTrigger => Some(BUTTON_R),
        GamepadButton::LeftTrigger2 => Some(BUTTON_L2),
        GamepadButton::RightTrigger2 => Some(BUTTON_R2),
        GamepadButton::LeftThumb => Some(BUTTON_L3),
        GamepadButton::RightThumb => Some(BUTTON_R3),
        GamepadButton::Select => Some(BUTTON_SELECT),
        GamepadButton::Start => Some(BUTTON_START),
        GamepadButton::DPadUp => Some(BUTTON_UP),
        GamepadButton::DPadDown => Some(BUTTON_DOWN),
        GamepadButton::DPadLeft => Some(BUTTON_LEFT),
        GamepadButton::DPadRight => Some(BUTTON_RIGHT),
        _ => None,
    }
}

/// The joypad button a controller button stands for (see
/// `gamepad_button_spec`).
pub fn default_gamepad_button(button: GamepadButton) -> (r: Option<usize>)
    ensures
        r == gamepad_button_spec(button),
        r matches Some(i) ==> i < JOYPAD_BUTTON_COUNT,
{
    match button {
        GamepadButton::South => Some(BUTTON_B),
        GamepadButton::East => Some(BUTTON_A),
        GamepadButton::West => Some(BUTTON_Y),
        GamepadButton::North => Some(BUTTON_X),
        GamepadButton::LeftTrigger => Some(BUTTON_L),
        GamepadButton::RightTrigger => Some(BUTTON_R),
        GamepadButton::LeftTrigger2 => Some(BUTTON_L2),
        GamepadButton::RightTrigger2 => Some(BUTTON_R2),
        GamepadButton::LeftThumb => Some(BUTTON_L3),
        GamepadButton::RightThumb => Some(BUTTON_R3),
        GamepadButton::Select => Some(BUTTON_SELECT),
        GamepadButton::Start => Some(BUTTON_START),
        GamepadButton::DPadUp => Some(BUTTON_UP),
        GamepadButton::DPadDown => Some(BUTTON_DOWN),
        GamepadButton::DPadLeft => Some(BUTTON_LEFT),
        GamepadButton::DPadRight => Some(BUTTON_RIGHT),
        GamepadButton::Mode | GamepadButton::C | GamepadButton::Z | GamepadButton::Unknown => None,
    }
}

} // verus!
