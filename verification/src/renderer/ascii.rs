//! Frames drawn as coloured characters: each cell averages the pixels of
//! its region, shows that colour, and picks a character from a brightness
//! ramp. Sizing the image and choosing the ramp step are done in floating
//! point by the caller; this module averages regions and assembles the
//! screen.
use vstd::prelude::*;
use crate::renderer::Frame;
use crate::renderer::graphic::{ascii_bytes, ascii_encode};
use crate::text::{decimal, push_decimal, push_repeat, push_str, repeat_char};

verus! {

/// The brightness ramp, darkest first.
pub open spec fn ramp() -> Seq<char> {
    seq![' ', '.', ':', '-', '=', '+', '*', '#', '%', '@']
}

/// The ramp character for step `index`; steps past the end take the
/// brightest character.
pub fn ramp_char(index: usize) -> (c: char)
    ensures
        c == ramp()[if index < 9 {
            index as int
        } else {
            9
        }],
{
    match index {
        0 => ' ',
        1 => '.',
        2 => ':',
        3 => '-',
        4 => '=',
        5 => '+',
        6 => '*',
        7 => '#',
        8 => '%',
        _ => '@',
    }
}

/// Draws frames as coloured characters.
#[derive(Clone, Copy, Debug, PartialEq, Eq, Structural)]
pub struct AsciiRenderer;

/// Channel sums and pixel count of row `y` from column `sx` up to `x`,
/// counting only pixels whose three bytes lie inside `data`.
pub open spec fn row_stats(data: Seq<u8>, width: int, y: int, sx: int, x: int) -> (int, int, int, int)
    decreases x - sx,
{
    if x <= sx {
        (0, 0, 0, 0)
    } else {
        let prev = row_stats(data, width, y, sx, x - 1);
        let i = (y * width + (x - 1)) * 3;
        if i + 2 < data.len() {
            (prev.0 + data[i] as int, prev.1 + data[i + 1] as int, prev.2 + data[i + 2] as int, prev.3 + 1)
        } else {
            prev
        }
    }
}

/// Channel sums and pixel count of rows `sy` up to `y`, columns `sx` up to
/// `ex`.
pub open spec fn region_stats(data: Seq<u8>, width: int, sx: int, ex: int, sy: int, y: int) -> (
    int,
    int,
    int,
    int,
)
    decreases y - sy,
{
    if y <= sy {
        (0, 0, 0, 0)
    } else {
        let prev = region_stats(data, width, sx, ex, sy, y - 1);
        let row = row_stats(data, width, y - 1, sx, ex);
        (prev.0 + row.0, prev.1 + row.1, prev.2 + row.2, prev.3 + row.3)
    }
}

/// How many cells a region spans.
pub open spec fn region_cells(sx: int, sy: int, ex: int, ey: int) -> int {
    if sx < ex && sy < ey {
        (ex - sx) * (ey - sy)
    } else {
        0
    }
}

/// The average colour of a region and how many pixels it covered; all
/// zero when none.
pub open spec fn region_average(data: Seq<u8>, width: int, sx: int, sy: int, ex: int, ey: int) -> (
    u32,
    u32,
    u32,
    u32,
) {
    let s = region_stats(data, width, sx, ex, sy, ey);
    if s.3 == 0 {
        (0, 0, 0, 0)
    } else {
        ((s.0 / s.3) as u32, (s.1 / s.3) as u32, (s.2 / s.3) as u32, s.3 as u32)
    }
}

/// Whether the byte offsets of a region stay within `u32` and its sums
/// within `u64`.
pub open spec fn region_in_range(width: int, sx: int, sy: int, ex: int, ey: int) -> bool {
    &&& (sx < ex && sy < ey) ==> ((ey - 1) * width + (ex - 1)) * 3 <= u32::MAX
    &&& 255 * region_cells(sx, sy, ex, ey) <= u64::MAX
}

proof fn lemma_row_stats_bounds(data: Seq<u8>, width: int, y: int, sx: int, x: int)
    ensures
        ({
            let s = row_stats(data, width, y, sx, x);
            &&& 0 <= s.3 <= if x > sx {
                x - sx
            } else {
                0
            }
            &&& 0 <= s.0 <= 255 * s.3
            &&& 0 <= s.1 <= 255 * s.3
            &&& 0 <= s.2 <= 255 * s.3
        }),
    decreases x - sx,
{
    if x > sx {
        lemma_row_stats_bounds(data, width, y, sx, x - 1);
    }
}

proof fn lemma_region_stats_bounds(data: Seq<u8>, width: int, sx: int, ex: int, sy: int, y: int)
    requires
        sx <= ex,
    ensures
        ({
            let s = region_stats(data, width, sx, ex, sy, y);
            &&& 0 <= s.3 <= if y > sy {
                (y - sy) * (ex - sx)
            } else {
                0
            }
            &&& 0 <= s.0 <= 255 * s.3
            &&& 0 <= s.1 <= 255 * s.3
            &&& 0 <= s.2 <= 255 * s.3
        }),
    decreases y - sy,
{
    if y > sy {
        lemma_region_stats_bounds(data, width, sx, ex, sy, y - 1);
        lemma_row_stats_bounds(data, width, y - 1, sx, ex);
        assert((y - 1 - sy) * (ex - sx) + (ex - sx) == (y - sy) * (ex - sx)) by (nonlinear_arith);
    }
}

/// Averages the pixels of columns `sx..ex` and rows `sy..ey`, skipping
/// pixels beyond the frame data; returns the average colour and the number
/// of pixels averaged, or all zero when there were none.
pub fn average_region(frame: &Frame, sx: u32, sy: u32, ex: u32, ey: u32) -> (r: (u32, u32, u32, u32))
    requires
        region_in_range(frame.width as int, sx as int, sy as int, ex as int, ey as int),
    ensures
        r == region_average(frame.data@, frame.width as int, sx as int, sy as int, ex as int, ey as int),
{
    let ghost data = frame.data@;
    let ghost width = frame.width as int;
    let mut r: u64 = 0;
    let mut g: u64 = 0;
    let mut b: u64 = 0;
    let mut count: u64 = 0;
    let mut y = sy;
    while y < ey
        invariant
            sy <= y <= ey || (y == sy && sy >= ey),
            data == frame.data@,
            width == frame.width,
            region_in_range(width, sx as int, sy as int, ex as int, ey as int),
            (r as int, g as int, b as int, count as int) == region_stats(
                data,
                width,
                sx as int,
                ex as int,
                sy as int,
                y as int,
            ),
        decreases ey - y,
    {
        let ghost before = (r as int, g as int, b as int, count as int);
        let mut x = sx;
        while x < ex
            invariant
                sx <= x,
                x <= ex || x == sx,
                sy <= y < ey,
                data == frame.data@,
                width == frame.width,
                region_in_range(width, sx as int, sy as int, ex as int, ey as int),
                before == region_stats(data, width, sx as int, ex as int, sy as int, y as int),
                ({
                    let row = row_stats(data, width, y as int, sx as int, x as int);
                    (r as int, g as int, b as int, count as int) == (
                        before.0 + row.0,
                        before.1 + row.1,
                        before.2 + row.2,
                        before.3 + row.3,
                    )
                }),
            decreases ex - x,
        {
            proof {
                assert(y * width <= (ey - 1) * width) by (nonlinear_arith)
                    requires
                        y <= ey - 1,
                        width >= 0,
                ;
                lemma_region_stats_bounds(data, width, sx as int, ex as int, sy as int, y as int);
                lemma_row_stats_bounds(data, width, y as int, sx as int, x as int);
                assert((y - sy) * (ex - sx) + (x - sx) + 1 <= (ey - sy) * (ex - sx)) by (nonlinear_arith)
                    requires
                        sy <= y < ey,
                        sx <= x < ex,
                ;
            }
            let i = ((y * frame.width + x) * 3) as usize;
            if i < frame.data.len() && frame.data.len() - i > 2 {
                r += frame.data[i] as u64;
                g += frame.data[i + 1] as u64;
                b += frame.data[i + 2] as u64;
                count += 1;
            }
            x += 1;
        }
        y += 1;
    }
    if count == 0 {
        return (0, 0, 0, 0);
    }
    ((r / count) as u32, (g / count) as u32, (b / count) as u32, count as u32)
}

/// One drawn cell: its colour and ramp step, or `None` for a region that
/// covered no pixel (drawn as a blank).
pub type AsciiCell = Option<(u32, u32, u32, usize)>;

/// The text of one cell: the colour, the ramp character, a style reset.
pub open spec fn cell_text(cell: AsciiCell) -> Seq<char> {
    match cell {
        None => " "@,
        Some((r, g, b, step)) => "\x1b[38;2;"@ + decimal(r as nat) + ";"@ + decimal(g as nat) + ";"@
            + decimal(b as nat) + "m"@ + seq![ramp()[if step < 9 {
            step as int
        } else {
            9
        }]] + "\x1b[0m"@,
    }
}

/// The text of cells `from` up to `to`.
pub open spec fn cells_text(cells: Seq<AsciiCell>, from: int, to: int) -> Seq<char>
    decreases to - from,
{
    if to <= from {
        Seq::empty()
    } else {
        cells_text(cells, from, to - 1) + cell_text(cells[to - 1])
    }
}

/// Screen row `row`: blank outside the image; else the image row, centred
/// between blanks.
pub open spec fn screen_row(tw: int, th: int, out_w: int, out_h: int, cells: Seq<AsciiCell>, row: int) -> Seq<
    char,
> {
    let pad_left = (tw - out_w) / 2;
    let pad_top = (th - out_h) / 2;
    if row < pad_top || row >= pad_top + out_h {
        repeat_char(' ', tw as nat)
    } else {
        let image_row = row - pad_top;
        repeat_char(' ', pad_left as nat) + cells_text(cells, image_row * out_w, image_row * out_w + out_w)
            + repeat_char(' ', (tw - pad_left - out_w) as nat)
    }
}

/// Screen rows `0` up to `k`.
pub open spec fn screen_rows(tw: int, th: int, out_w: int, out_h: int, cells: Seq<AsciiCell>, k: int) -> Seq<
    char,
>
    decreases k,
{
    if k <= 0 {
        Seq::empty()
    } else {
        screen_rows(tw, th, out_w, out_h, cells, k - 1) + screen_row(tw, th, out_w, out_h, cells, k - 1)
    }
}

/// The whole screen, drawn from the top-left corner without newlines.
pub open spec fn ascii_screen(tw: int, th: int, out_w: int, out_h: int, cells: Seq<AsciiCell>) -> Seq<u8> {
    if tw == 0 || th == 0 {
        Seq::empty()
    } else {
        ascii_bytes("\x1b[H"@ + screen_rows(tw, th, out_w, out_h, cells, th))
    }
}

fn push_cell(out: &mut Vec<char>, cell: AsciiCell)
    ensures
        final(out)@ == old(out)@ + cell_text(cell),
{
    match cell {
        None => push_str(out, " "),
        Some((r, g, b, step)) => {
            push_str(out, "\x1b[38;2;");
            push_decimal(out, r as u64);
            push_str(out, ";");
            push_decimal(out, g as u64);
            push_str(out, ";");
            push_decimal(out, b as u64);
            push_str(out, "m");
            out.push(ramp_char(step));
            push_str(out, "\x1b[0m");
        },
    }
}

fn push_screen_row(out: &mut Vec<char>, tw: u32, th: u32, out_w: u32, out_h: u32, cells: &Vec<AsciiCell>, row: u32)
    requires
        out_w <= tw,
        out_h <= th,
        row < th,
        cells@.len() == out_w * out_h,
    ensures
        final(out)@ == old(out)@ + screen_row(
            tw as int,
            th as int,
            out_w as int,
            out_h as int,
            cells@,
            row as int,
        ),
{
    let pad_left = (tw - out_w) / 2;
    let pad_top = (th - out_h) / 2;
    if row < pad_top || row >= pad_top + out_h {
        push_repeat(out, ' ', tw as usize);
        return;
    }
    let image_row = row - pad_top;
    push_repeat(out, ' ', pad_left as usize);
    proof {
        assert(image_row * out_w + out_w <= out_h * out_w) by (nonlinear_arith)
            requires
                image_row < out_h,
        ;
        assert(out_w * out_h == out_h * out_w) by (nonlinear_arith);
    }
    let n = cells.len();
    assert(image_row * out_w + out_w <= n);
    let start: usize = (image_row as usize) * (out_w as usize);
    let end: usize = start + out_w as usize;
    let ghost before = out@;
    let mut k = start;
    while k < end
        invariant
            start <= k <= end,
            end <= cells@.len(),
            out@ == before + cells_text(cells@, start as int, k as int),
        decreases end - k,
    {
        push_cell(out, cells[k]);
        k += 1;
    }
    push_repeat(out, ' ', (tw - pad_left - out_w) as usize);
}

impl AsciiRenderer {
    /// Assembles the screen for a `tw` x `th` terminal from the image's
    /// cells (`out_w` x `out_h`, row after row): the image is centred, the
    /// rest blank, each row written in full so nothing scrolls.
    pub fn compose(&self, tw: u32, th: u32, out_w: u32, out_h: u32, cells: &Vec<AsciiCell>) -> (r: Vec<u8>)
        requires
            tw <= u16::MAX,
            th <= u16::MAX,
            out_w <= tw,
            out_h <= th,
            cells@.len() == out_w * out_h,
        ensures
            r@ == ascii_screen(tw as int, th as int, out_w as int, out_h as int, cells@),
    {
        if tw == 0 || th == 0 {
            return Vec::new();
        }
        let mut out: Vec<char> = Vec::new();
        push_str(&mut out, "\x1b[H");
        let ghost head = out@;
        let mut row: u32 = 0;
        while row < th
            invariant
                row <= th,
                out_w <= tw,
                out_h <= th,
                cells@.len() == out_w * out_h,
                out@ == head + screen_rows(tw as int, th as int, out_w as int, out_h as int, cells@, row as int),
            decreases th - row,
        {
            push_screen_row(&mut out, tw, th, out_w, out_h, cells, row);
            row += 1;
        }
        ascii_encode(&out)
    }
}

} // verus!
