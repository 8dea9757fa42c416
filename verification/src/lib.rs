//! A terminal front end for libretro cores: configuration, core detection,
//! save-state files, rewind, input mapping and frame rendering.
pub mod text;
pub mod audio;
pub mod pathname;
pub mod codec;
pub mod emulation;
pub mod input;
pub mod renderer;
pub mod config;
pub mod paths;
pub mod brew;
pub mod cores;
pub mod archive;
pub mod commands;
pub mod render;
pub mod session;
pub mod terminal;
