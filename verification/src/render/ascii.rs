//! The half-block renderer: the terminal renderer with its graphics
//! protocols left off.
use vstd::prelude::*;
use crate::render::viuer::{halfblock_renderer, ViuRenderer};

verus! {

/// Draws frames with half blocks.
pub struct AsciiRenderer {
    pub inner: ViuRenderer,
}

impl AsciiRenderer {
    /// A half-block renderer; `keep_scrollback` draws in place on the
    /// primary screen.
    pub fn new(keep_scrollback: bool) -> (r: Self)
        ensures
            r.inner == halfblock_renderer(keep_scrollback),
    {
        AsciiRenderer { inner: ViuRenderer::halfblock(keep_scrollback) }
    }
}

} // verus!
