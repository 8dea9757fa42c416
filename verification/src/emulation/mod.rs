//! Emulation support that does not touch the loaded core: save-state files
//! and the rewind buffer.
pub mod state;
pub mod rewind;
pub mod store;
pub mod libretro;
