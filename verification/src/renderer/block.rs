//! Frames drawn with half blocks: each cell shows two pixels, the upper in
//! the foreground colour of `▀`, the lower in the background colour.
//! The image's size on screen is chosen by the caller; this module scales
//! the frame to it with the `image` crate, tracks the alternate screen and
//! assembles the screen from the scaled pixels.
use vstd::prelude::*;
use crate::renderer::Frame;
use crate::text::{decimal, push_decimal, push_repeat, push_str, repeat_char, string_from_chars};

verus! {

/// What switches to the alternate screen, hides the cursor and clears.
pub const ENTER_SCREEN: &'static str = "\x1b[?1049h\x1b[?25l\x1b[2J\x1b[H";

/// What shows the cursor and leaves the alternate screen.
pub const LEAVE_SCREEN: &'static str = "\x1b[?25h\x1b[?1049l";

/// Draws frames with half blocks, on the alternate screen unless that is
/// disabled.
#[derive(Clone, Copy, Debug, PartialEq, Eq, Structural)]
pub struct BlockRenderer {
    pub use_alternate_screen: bool,
    pub screen_active: bool,
}

impl BlockRenderer {
    /// A renderer that uses the alternate screen unless `no_alt_screen`.
    pub fn new(no_alt_screen: bool) -> (r: Self)
        ensures
            r.use_alternate_screen == !no_alt_screen,
            !r.screen_active,
    {
        BlockRenderer { use_alternate_screen: !no_alt_screen, screen_active: false }
    }

    /// Whether setting up should switch to the alternate screen: it is
    /// wanted, not yet active, and standard output is a terminal.
    pub fn should_enter_screen(&self, stdout_is_terminal: bool) -> (r: bool)
        ensures
            r == (self.use_alternate_screen && !self.screen_active && stdout_is_terminal),
    {
        self.use_alternate_screen && !self.screen_active && stdout_is_terminal
    }

    /// Records that `ENTER_SCREEN` was written (`written`) or failed.
    pub fn screen_entered(&mut self, written: bool)
        ensures
            final(self).use_alternate_screen == old(self).use_alternate_screen,
            final(self).screen_active == (old(self).screen_active || written),
    {
        if written {
            self.screen_active = true;
        }
    }

    /// Leaving: returns whether `LEAVE_SCREEN` is to be written (the
    /// alternate screen was active), and marks it inactive.
    pub fn leave_screen(&mut self) -> (r: bool)
        ensures
            r == old(self).screen_active,
            !final(self).screen_active,
            final(self).use_alternate_screen == old(self).use_alternate_screen,
    {
        let was_active = self.screen_active;
        self.screen_active = false;
        was_active
    }
}

/// One cell of scaled pixels: the upper and the lower pixel.
pub type BlockCell = ((u8, u8, u8), (u8, u8, u8));

/// The text of a cell: upper pixel as foreground, lower as background,
/// then the upper half block.
pub open spec fn block_cell_text(cell: BlockCell) -> Seq<char> {
    let (top, bottom) = cell;
    "\x1b[38;2;"@ + decimal(top.0 as nat) + ";"@ + decimal(top.1 as nat) + ";"@ + decimal(top.2 as nat)
        + "m\x1b[48;2;"@ + decimal(bottom.0 as nat) + ";"@ + decimal(bottom.1 as nat) + ";"@ + decimal(
        bottom.2 as nat,
    ) + "m"@ + seq!['\u{2580}']
}

/// The text of cells `from` up to `to`.
pub open spec fn block_cells_text(cells: Seq<BlockCell>, from: int, to: int) -> Seq<char>
    decreases to - from,
{
    if to <= from {
        Seq::empty()
    } else {
        block_cells_text(cells, from, to - 1) + block_cell_text(cells[to - 1])
    }
}

/// Screen row `row`: blank outside the image; else the image row between
/// blanks, its colours reset at its end.
pub open spec fn block_row(tw: int, th: int, out_w: int, out_h: int, cells: Seq<BlockCell>, row: int) -> Seq<
    char,
> {
    let pad_left = (tw - out_w) / 2;
    let pad_top = (th - out_h) / 2;
    if row < pad_top || row >= pad_top + out_h {
        repeat_char(' ', tw as nat)
    } else {
        let image_row = row - pad_top;
        repeat_char(' ', pad_left as nat) + block_cells_text(
            cells,
            image_row * out_w,
            image_row * out_w + out_w,
        ) + "\x1b[0m"@ + repeat_char(' ', (tw - pad_left - out_w) as nat)
    }
}

/// Screen rows `0` up to `k`.
pub open spec fn block_rows(tw: int, th: int, out_w: int, out_h: int, cells: Seq<BlockCell>, k: int) -> Seq<
    char,
>
    decreases k,
{
    if k <= 0 {
        Seq::empty()
    } else {
        block_rows(tw, th, out_w, out_h, cells, k - 1) + block_row(tw, th, out_w, out_h, cells, k - 1)
    }
}

/// The whole screen, drawn from the top-left corner without newlines.
pub open spec fn block_screen(tw: int, th: int, out_w: int, out_h: int, cells: Seq<BlockCell>) -> Seq<char> {
    "\x1b[H\x1b[0m"@ + block_rows(tw, th, out_w, out_h, cells, th)
}

fn push_block_cell(out: &mut Vec<char>, cell: BlockCell)
    ensures
        final(out)@ == old(out)@ + block_cell_text(cell),
{
    let (top, bottom) = cell;
    push_str(out, "\x1b[38;2;");
    push_decimal(out, top.0 as u64);
    push_str(out, ";");
    push_decimal(out, top.1 as u64);
    push_str(out, ";");
    push_decimal(out, top.2 as u64);
    push_str(out, "m\x1b[48;2;");
    push_decimal(out, bottom.0 as u64);
    push_str(out, ";");
    push_decimal(out, bottom.1 as u64);
    push_str(out, ";");
    push_decimal(out, bottom.2 as u64);
    push_str(out, "m");
    out.push('\u{2580}');
}

fn push_block_row(out: &mut Vec<char>, tw: u32, th: u32, out_w: u32, out_h: u32, cells: &Vec<BlockCell>, row: u32)
    requires
        out_w <= tw,
        out_h <= th,
        row < th,
        cells@.len() == out_w * out_h,
    ensures
        final(out)@ == old(out)@ + block_row(
            tw as int,
            th as int,
            out_w as int,
            out_h as int,
            cells@,
            row as int,
        ),
{
    let pad_left = (tw - out_w) / 2;
    let pad_top = (th - out_h) / 2;
    if row < pad_top || row >= pad_top + out_h {
        push_repeat(out, ' ', tw as usize);
        return;
    }
    let image_row = row - pad_top;
    push_repeat(out, ' ', pad_left as usize);
    proof {
        assert(image_row * out_w + out_w <= out_h * out_w) by (nonlinear_arith)
            requires
                image_row < out_h,
        ;
        assert(out_w * out_h == out_h * out_w) by (nonlinear_arith);
    }
    let n = cells.len();
    assert(image_row * out_w + out_w <= n);
    let start: usize = (image_row as usize) * (out_w as usize);
    let end: usize = start + out_w as usize;
    let ghost before = out@;
    let mut k = start;
    while k < end
        invariant
            start <= k <= end,
            end <= cells@.len(),
            out@ == before + block_cells_text(cells@, start as int, k as int),
        decreases end - k,
    {
        push_block_cell(out, cells[k]);
        k += 1;
    }
    push_str(out, "\x1b[0m");
    push_repeat(out, ' ', (tw - pad_left - out_w) as usize);
}

impl BlockRenderer {
    /// Assembles the screen for a `tw` x `th` terminal from the scaled
    /// image's cells (`out_w` x `out_h`, row after row).
    pub fn compose(&self, tw: u32, th: u32, out_w: u32, out_h: u32, cells: &Vec<BlockCell>) -> (r: String)
        requires
            tw <= u16::MAX,
            th <= u16::MAX,
            out_w <= tw,
            out_h <= th,
            cells@.len() == out_w * out_h,
        ensures
            r@ == block_screen(tw as int, th as int, out_w as int, out_h as int, cells@),
    {
        let mut out: Vec<char> = Vec::new();
        push_str(&mut out, "\x1b[H\x1b[0m");
        let ghost head = out@;
        let mut row: u32 = 0;
        while row < th
            invariant
                row <= th,
                out_w <= tw,
                out_h <= th,
                cells@.len() == out_w * out_h,
                out@ == head + block_rows(tw as int, th as int, out_w as int, out_h as int, cells@, row as int),
            decreases th - row,
        {
            push_block_row(&mut out, tw, th, out_w, out_h, cells, row);
            row += 1;
        }
        string_from_chars(&out)
    }
}

// ── Scaling ────────────────────────────────────────────────────────────────

/// What `image` makes of a `width` x `height` RGB image (`pixels`, row
/// after row) scaled to `new_width` x `new_height` with its Catmull-Rom
/// filter.
pub uninterp spec fn catmull_rom_resize(pixels: Seq<u8>, width: u32, height: u32, new_width: u32, new_height: u32) -> Seq<
    u8,
>;

/// `image::imageops::resize` with `FilterType::CatmullRom` on the
/// `RgbImage` that `RgbImage::from_raw` makes of `pixels`. The scaled
/// pixels are named; that they fill a `new_width` x `new_height` RGB
/// buffer is what `resize` builds (`ImageBuffer::new`).
#[verifier::external_body]
fn resize_rgb(pixels: Vec<u8>, width: u32, height: u32, new_width: u32, new_height: u32) -> (r: Vec<u8>)
    requires
        pixels@.len() == width * height * 3,
        new_width >= 1,
        new_height >= 1,
        new_width * new_height * 3 <= usize::MAX,
    ensures
        r@ == catmull_rom_resize(pixels@, width, height, new_width, new_height),
        r@.len() == new_width * new_height * 3,
{
    let image = image::RgbImage::from_raw(width, height, pixels).unwrap_or_else(|| image::RgbImage::new(width, height));
    image::imageops::resize(&image, new_width, new_height, image::imageops::FilterType::CatmullRom).into_raw()
}

/// The pixels a frame is scaled from: its data as a `width` x `height`
/// RGB image, or black when the data is too short for that.
pub open spec fn source_pixels(frame: Frame) -> Seq<u8> {
    let needed = frame.width * frame.height * 3;
    if frame.data@.len() >= needed {
        frame.data@.take(needed)
    } else {
        Seq::new(needed as nat, |i: int| 0u8)
    }
}

/// The pixel at column `x` and row `y` of an RGB image `width` wide.
pub open spec fn pixel_at(pixels: Seq<u8>, width: int, x: int, y: int) -> (u8, u8, u8) {
    let i = (y * width + x) * 3;
    (pixels[i], pixels[i + 1], pixels[i + 2])
}

/// The cells of an image `out_w` wide and `2 * out_h` tall, row after row:
/// each takes the pixel of its column in the image rows `2r` and `2r + 1`.
pub open spec fn scaled_cells(pixels: Seq<u8>, out_w: int, out_h: int) -> Seq<BlockCell> {
    Seq::new(
        (out_w * out_h) as nat,
        |i: int|
            (
                pixel_at(pixels, out_w, i % out_w, 2 * (i / out_w)),
                pixel_at(pixels, out_w, i % out_w, 2 * (i / out_w) + 1),
            ),
    )
}

/// The frame's pixels as an RGB image of exactly its size.
fn frame_pixels(frame: &Frame) -> (r: Vec<u8>)
    requires
        frame.width * frame.height * 3 <= usize::MAX,
    ensures
        r@ == source_pixels(*frame),
{
    let needed = frame.width as usize * frame.height as usize * 3;
    if frame.data.len() >= needed {
        let mut pixels: Vec<u8> = Vec::new();
        let mut i: usize = 0;
        while i < needed
            invariant
                i <= needed,
                needed <= frame.data@.len(),
                pixels@ == frame.data@.take(i as int),
            decreases needed - i,
        {
            pixels.push(frame.data[i]);
            assert(frame.data@.take(i + 1) =~= frame.data@.take(i as int).push(frame.data@[i as int]));
            i += 1;
        }
        pixels
    } else {
        let pixels = vec![0u8; needed];
        assert(pixels@ =~= Seq::new(needed as nat, |i: int| 0u8));
        pixels
    }
}

proof fn lemma_cell_position(row: int, col: int, w: int)
    requires
        0 <= col < w,
        0 <= row,
    ensures
        (row * w + col) / w == row,
        (row * w + col) % w == col,
{
    vstd::arithmetic::div_mod::lemma_fundamental_div_mod_converse(row * w + col, w, row, col);
}

/// The cells of an image `out_w` wide and `2 * out_h` tall.
fn block_cells(pixels: &Vec<u8>, out_w: u32, out_h: u32) -> (r: Vec<BlockCell>)
    requires
        pixels@.len() == out_w * out_h * 6,
    ensures
        r@ == scaled_cells(pixels@, out_w as int, out_h as int),
{
    let w = out_w as usize;
    let len = pixels.len();
    let mut cells: Vec<BlockCell> = Vec::new();
    let mut row: usize = 0;
    while row < out_h as usize
        invariant
            w == out_w,
            row <= out_h,
            len == pixels@.len(),
            pixels@.len() == out_w * out_h * 6,
            cells@.len() == row * w,
            forall|k: int| 0 <= k < cells@.len() ==> cells@[k] == #[trigger] scaled_cells(pixels@, out_w as int, out_h as int)[k],
        decreases out_h - row,
    {
        let mut col: usize = 0;
        while col < w
            invariant
                w == out_w,
                row < out_h,
                col <= w,
                len == pixels@.len(),
                pixels@.len() == out_w * out_h * 6,
                cells@.len() == row * w + col,
                forall|k: int| 0 <= k < cells@.len() ==> cells@[k] == #[trigger] scaled_cells(pixels@, out_w as int, out_h as int)[k],
            decreases w - col,
        {
            proof {
                lemma_cell_position(row as int, col as int, w as int);
                assert((2 * row + 1) * w + col < 2 * out_h * w) by (nonlinear_arith)
                    requires
                        row < out_h,
                        col < w,
                ;
                assert(2 * row * w + col < (2 * row + 1) * w + col) by (nonlinear_arith)
                    requires
                        col < w,
                        row >= 0,
                ;
                assert(2 * row * w <= 2 * row * w + col);
                assert(2 * row <= 2 * row * w + 1) by (nonlinear_arith)
                    requires
                        w >= 1,
                        row >= 0,
                ;
                assert(out_w * out_h * 6 == 2 * out_h * w * 3) by (nonlinear_arith)
                    requires
                        w == out_w,
                ;
                assert(row * w + col < out_w * out_h) by (nonlinear_arith)
                    requires
                        row < out_h,
                        col < w,
                        w == out_w,
                ;
            }
            let top = (2 * row * w + col) * 3;
            let bottom = ((2 * row + 1) * w + col) * 3;
            let cell = (
                (pixels[top], pixels[top + 1], pixels[top + 2]),
                (pixels[bottom], pixels[bottom + 1], pixels[bottom + 2]),
            );
            let ghost k = (row * w + col) as int;
            assert(cell == scaled_cells(pixels@, out_w as int, out_h as int)[k]);
            cells.push(cell);
            col += 1;
        }
        proof {
            assert(row * w + w == (row + 1) * w) by (nonlinear_arith);
        }
        row += 1;
    }
    proof {
        assert(out_h * w == out_w * out_h) by (nonlinear_arith)
            requires
                w == out_w,
        ;
    }
    assert(cells@ =~= scaled_cells(pixels@, out_w as int, out_h as int));
    cells
}

impl BlockRenderer {
    /// Draws `frame` in a `tw` x `th` terminal as an image `out_w` cells
    /// wide and `out_h` tall (so `out_w` x `2 * out_h` pixels), centred.
    pub fn render_sized(&self, frame: &Frame, tw: u32, th: u32, out_w: u32, out_h: u32) -> (r: String)
        requires
            tw <= u16::MAX,
            th <= u16::MAX,
            1 <= out_w <= tw,
            1 <= out_h <= th,
            frame.width * frame.height * 3 <= usize::MAX,
            out_w * out_h * 6 <= usize::MAX,
        ensures
            r@ == block_screen(
                tw as int,
                th as int,
                out_w as int,
                out_h as int,
                scaled_cells(
                    catmull_rom_resize(source_pixels(*frame), frame.width, frame.height, out_w, (2 * out_h) as u32),
                    out_w as int,
                    out_h as int,
                ),
            ),
    {
        proof {
            assert(out_w * out_h <= u16::MAX * u16::MAX) by (nonlinear_arith)
                requires
                    out_w <= u16::MAX,
                    out_h <= u16::MAX,
            ;
            assert(out_w * (2 * out_h) * 3 == out_w * out_h * 6) by (nonlinear_arith);
        }
        let source = frame_pixels(frame);
        let scaled = resize_rgb(source, frame.width, frame.height, out_w, 2 * out_h);
        let cells = block_cells(&scaled, out_w, out_h);
        self.compose(tw, th, out_w, out_h, &cells)
    }
}

} // verus!
