//! The earlier drawing layer, kept for its half-block and debug renderers:
//! renderers set up the screen, draw frames and clean up.
pub mod ascii;
pub mod debug;
pub mod viuer;

use vstd::prelude::*;
use crate::pathname::{file_stem, file_stem_str};

verus! {

/// An RGB frame: three bytes per pixel, row after row.
pub struct Frame {
    pub data: Vec<u8>,
    pub width: u32,
    pub height: u32,
}

/// Something that draws frames: set up for a source size, the bytes for a
/// frame, and cleanup.
pub trait Renderer {
    fn setup(&mut self, src_width: u32, src_height: u32);

    fn render(&mut self, frame: &Frame) -> Vec<u8>;

    fn cleanup(&mut self);
}

/// The renderer a name selects.
pub enum RenderBackend {
    Debug(debug::DebugRenderer),
    Ascii(ascii::AsciiRenderer),
    Viu(viuer::ViuRenderer),
}

/// The stem a ROM path gives debug frame files: its file stem, or
/// `unknown` where it has none.
pub open spec fn rom_stem(rom_path: Seq<char>) -> Seq<char> {
    match file_stem(rom_path) {
        Some(s) => s,
        None => "unknown"@,
    }
}

/// `debug` saves frames as images named after the ROM, `ascii` draws
/// half blocks, anything else the default terminal renderer.
pub fn create(name: &str, rom_path: &str, keep_scrollback: bool) -> (r: RenderBackend)
    ensures
        name@ == "debug"@ ==> (r matches RenderBackend::Debug(d) && d.base_name@ == rom_stem(rom_path@)
            && d.last_save == 0),
        name@ == "ascii"@ ==> (r matches RenderBackend::Ascii(a) && a.inner
            == viuer::halfblock_renderer(keep_scrollback)),
        (name@ != "debug"@ && name@ != "ascii"@) ==> (r matches RenderBackend::Viu(v) && v
            == viuer::default_renderer(keep_scrollback)),
{
    proof {
        reveal_strlit("ascii");
        reveal_strlit("debug");
        assert("ascii"@[0] != "debug"@[0]);
    }
    if crate::text::str_equal(name, "debug") {
        let stem = match file_stem_str(rom_path) {
            Some(s) => s,
            None => "unknown".to_owned(),
        };
        RenderBackend::Debug(debug::DebugRenderer::new(stem.as_str()))
    } else if crate::text::str_equal(name, "ascii") {
        RenderBackend::Ascii(ascii::AsciiRenderer::new(keep_scrollback))
    } else {
        RenderBackend::Viu(viuer::ViuRenderer::new(keep_scrollback))
    }
}

} // verus!
