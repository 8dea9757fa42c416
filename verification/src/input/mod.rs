//! Keyboard and gamepad input: key names and bindings, and the state
//! machine that turns key events into held buttons and one-shot actions.
pub mod keys;
pub mod joypad;
pub mod bindings;
pub mod state;
pub mod physical;
