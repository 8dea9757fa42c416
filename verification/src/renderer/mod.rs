//! Drawing frames in the terminal: the renderer modes, the frame and
//! viewport types, and the parts of each renderer that compute what to
//! draw.
pub mod ascii;
pub mod auto;
pub mod block;
pub mod graphic;

use vstd::prelude::*;

verus! {

/// How frames are drawn.
#[derive(Clone, Copy, Debug, PartialEq, Eq, Structural, Hash)]
pub enum RendererMode {
    Auto,
    Graphic,
    Block,
    Ascii,
}

/// The configuration name of a renderer mode.
pub open spec fn renderer_name(mode: RendererMode) -> Seq<char> {
    match mode {
        RendererMode::Auto => "auto"@,
        RendererMode::Graphic => "graphic"@,
        RendererMode::Block => "block"@,
        RendererMode::Ascii => "ascii"@,
    }
}

impl RendererMode {
    /// The configuration name of the mode.
    pub fn name(self) -> (r: &'static str)
        ensures
            r@ == renderer_name(self),
    {
        match self {
            RendererMode::Auto => "auto",
            RendererMode::Graphic => "graphic",
            RendererMode::Block => "block",
            RendererMode::Ascii => "ascii",
        }
    }
}

/// An RGB frame: three bytes per pixel, row after row.
pub struct Frame {
    pub data: Vec<u8>,
    pub width: u32,
    pub height: u32,
}

/// The terminal area available for drawing, in cells.
#[derive(Clone, Copy, Debug, PartialEq, Eq, Structural)]
pub struct Viewport {
    pub columns: u16,
    pub rows: u16,
}

/// Something that draws frames: what it writes to the terminal for a
/// frame in a viewport.
pub trait Renderer {
    fn render(&mut self, frame: &Frame, viewport: Viewport) -> Vec<u8>;
}

} // verus!
