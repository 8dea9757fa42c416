//! Frames drawn as images with the kitty graphics protocol: the frame is
//! sent as RGBA (optionally zlib-compressed, always Base64) in chunks of
//! 4096 characters under one image id, then placed centred in the
//! viewport, all inside one synchronized update.
use vstd::prelude::*;
use crate::codec::{base64_encode, base64_standard, compress_fast, zlib_compress_fast};
use crate::renderer::{Frame, Viewport};
use crate::text::{decimal, push_decimal, push_str, str_chars};

verus! {

/// The image id every frame is transmitted under, so that each frame
/// replaces the previous one.
pub const KITTY_IMAGE_ID: u32 = 0xa50b_0001;

/// The placement id of the frame on screen.
pub const KITTY_PLACEMENT_ID: u32 = 1;

/// How many Base64 characters one transmission chunk holds.
pub const KITTY_CHUNK_SIZE: usize = 4096;

/// Draws frames as kitty graphics. `width` and `height` bound the
/// placement in cells when set.
pub struct GraphicRenderer {
    pub width: Option<u32>,
    pub height: Option<u32>,
    pub compression_enabled: bool,
}

/// RGB triples widened to RGBA with an opaque alpha byte; a trailing
/// partial triple gets its alpha byte too.
pub open spec fn rgba_of(data: Seq<u8>) -> Seq<u8>
    decreases data.len(),
{
    if data.len() == 0 {
        Seq::empty()
    } else if data.len() <= 3 {
        data.push(0xffu8)
    } else {
        data.take(3).push(0xffu8) + rgba_of(data.skip(3))
    }
}

/// Expands 3-byte RGB pixels to 4-byte RGBA with opaque alpha (frames are
/// always transmitted as RGBA).
pub fn rgb_to_rgba(data: &[u8]) -> (r: Vec<u8>)
    ensures
        r@ == rgba_of(data@),
{
    let mut out: Vec<u8> = Vec::new();
    let mut i: usize = 0;
    assert(data@.skip(0) =~= data@);
    assert(out@ + rgba_of(data@) =~= rgba_of(data@));
    while i < data.len()
        invariant
            i <= data@.len(),
            out@ + rgba_of(data@.skip(i as int)) == rgba_of(data@),
        decreases data@.len() - i,
    {
        let ghost rest = data@.skip(i as int);
        if data.len() - i <= 3 {
            let ghost before = out@;
            out.push(data[i]);
            if data.len() - i > 1 {
                out.push(data[i + 1]);
            }
            if data.len() - i > 2 {
                out.push(data[i + 2]);
            }
            out.push(0xffu8);
            assert(out@ =~= before + rest.push(0xffu8));
            assert(data@.skip(data@.len() as int) =~= Seq::<u8>::empty());
            i = data.len();
        } else {
            out.push(data[i]);
            out.push(data[i + 1]);
            out.push(data[i + 2]);
            out.push(0xffu8);
            assert(rest.skip(3) =~= data@.skip(i + 3));
            i += 3;
        }
    }
    assert(out@ + rgba_of(data@.skip(i as int)) =~= out@);
    out
}

/// The placement size in cells. A cell is twice as tall as wide, so
/// `cell_height` rows hold `2 * cell_height` pixels. With `cell_width` set
/// that exact size is used; otherwise the image keeps its aspect ratio and
/// only its height is bounded (a short image takes half its pixel height,
/// rounded up, and at least one row).
pub open spec fn fitted_cells(img_width: int, img_height: int, cell_width: Option<u32>, cell_height: int) -> (
    int,
    int,
) {
    match cell_width {
        Some(width) => (width as int, cell_height),
        None => if img_height <= 2 * cell_height {
            (img_width, if img_height == 0 {
                1
            } else {
                (img_height + 1) / 2
            })
        } else {
            (img_width * 2 * cell_height / img_height, cell_height)
        },
    }
}

/// Whether sizing stays within `u32`: the doubled height, and the widened
/// image width when the height bounds the image.
pub open spec fn fit_in_range(img_width: int, img_height: int, cell_width: Option<u32>, cell_height: int) -> bool {
    &&& 2 * cell_height <= u32::MAX
    &&& (cell_width is None && img_height > 2 * cell_height) ==> (img_width * 2 <= u32::MAX
        && img_width * 2 * cell_height <= u32::MAX)
}

/// Sizes an image in terminal cells for kitty placement.
pub fn fit_cell_size(img_width: u32, img_height: u32, cell_width: Option<u32>, cell_height: u32) -> (r: (
    u32,
    u32,
))
    requires
        fit_in_range(img_width as int, img_height as int, cell_width, cell_height as int),
    ensures
        (r.0 as int, r.1 as int) == fitted_cells(
            img_width as int,
            img_height as int,
            cell_width,
            cell_height as int,
        ),
{
    match cell_width {
        Some(width) => (width, cell_height),
        None => {
            if img_height <= 2 * cell_height {
                let rows = if img_height == 0 {
                    1
                } else {
                    img_height / 2 + img_height % 2
                };
                (img_width, rows)
            } else {
                let doubled = img_width * 2;
                let widened = doubled * cell_height;
                (widened / img_height, cell_height)
            }
        },
    }
}

/// How many transmission chunks `n` Base64 characters take.
pub open spec fn chunk_count(n: nat) -> nat {
    (n + 4095) / 4096
}

/// The Base64 characters of chunk `index`.
pub open spec fn chunk_of(encoded: Seq<char>, index: int) -> Seq<char> {
    let end = if (index + 1) * 4096 < encoded.len() {
        (index + 1) * 4096
    } else {
        encoded.len() as int
    };
    encoded.subrange(index * 4096, end)
}

/// The control data before chunk `index` of `count`: the first chunk
/// announces the image (RGBA, direct, its size, id, quiet, no cursor
/// move, compression flag), the others only whether more follow.
pub open spec fn chunk_header(index: int, count: int, width: u32, height: u32, compressed: bool) -> Seq<char> {
    let more: nat = if index + 1 < count {
        1
    } else {
        0
    };
    if index == 0 {
        "\x1b_Ga=t,f=32,t=d"@ + (if compressed {
            ",o=z"@
        } else {
            ""@
        }) + ",s="@ + decimal(width as nat) + ",v="@ + decimal(height as nat) + ",i="@ + decimal(
            KITTY_IMAGE_ID as nat,
        ) + ",q=2,N=1,m="@ + decimal(more) + ";"@
    } else {
        "\x1b_Gm="@ + decimal(more) + ",q=2;"@
    }
}

/// The first `k` transmission chunks, each closed by the string terminator.
pub open spec fn kitty_chunks(encoded: Seq<char>, width: u32, height: u32, compressed: bool, k: int) -> Seq<
    char,
>
    decreases k,
{
    if k <= 0 {
        Seq::empty()
    } else {
        kitty_chunks(encoded, width, height, compressed, k - 1) + chunk_header(
            k - 1,
            chunk_count(encoded.len()) as int,
            width,
            height,
            compressed,
        ) + chunk_of(encoded, k - 1) + "\x1b\\"@
    }
}

/// `a - b`, or 0 where `b` is larger.
pub open spec fn saturating_diff(a: int, b: int) -> int {
    if a >= b {
        a - b
    } else {
        0
    }
}

/// The placement: the cursor moves to the cell that centres a
/// `columns` x `rows` image in the viewport, and the image is placed there
/// without moving the cursor.
pub open spec fn kitty_placement(columns: u32, rows: u32, terminal_columns: u16, available_rows: u16) -> Seq<
    char,
> {
    let col = saturating_diff(terminal_columns as int, columns as int) / 2 + 1;
    let row = saturating_diff(available_rows as int, rows as int) / 2 + 1;
    "\x1b["@ + decimal(row as nat) + ";"@ + decimal(col as nat) + "H\x1b_Ga=p,i="@ + decimal(
        KITTY_IMAGE_ID as nat,
    ) + ",p="@ + decimal(KITTY_PLACEMENT_ID as nat) + ",c="@ + decimal(columns as nat) + ",r="@
        + decimal(rows as nat) + ",C=1,q=2;\x1b\\"@
}

/// What is sent for one frame, inside a synchronized update.
pub open spec fn kitty_command(
    encoded: Seq<char>,
    width: u32,
    height: u32,
    compressed: bool,
    columns: u32,
    rows: u32,
    terminal_columns: u16,
    available_rows: u16,
) -> Seq<char> {
    "\x1b[?2026h"@ + kitty_chunks(encoded, width, height, compressed, chunk_count(encoded.len()) as int)
        + kitty_placement(columns, rows, terminal_columns, available_rows) + "\x1b[?2026l"@
}

/// The bytes of ASCII text.
pub open spec fn ascii_bytes(s: Seq<char>) -> Seq<u8> {
    s.map_values(|c: char| c as u8)
}

/// What is transmitted of a frame's pixels: RGBA, zlib-compressed when
/// compression is on.
pub open spec fn kitty_payload(data: Seq<u8>, compressed: bool) -> Seq<u8> {
    if compressed {
        zlib_compress_fast(rgba_of(data))
    } else {
        rgba_of(data)
    }
}

/// The row budget of the placement: the viewport's rows, bounded by the
/// renderer's height when set.
pub open spec fn placement_height(height: Option<u32>, available_rows: u16) -> int {
    match height {
        Some(h) => if h < available_rows {
            h as int
        } else {
            available_rows as int
        },
        None => available_rows as int,
    }
}

impl GraphicRenderer {
    /// A renderer that sizes frames to the viewport.
    pub fn new(compression_enabled: bool) -> (r: Self)
        ensures
            r.width is None,
            r.height is None,
            r.compression_enabled == compression_enabled,
    {
        GraphicRenderer { width: None, height: None, compression_enabled }
    }

    /// Whether sizing `frame` for a viewport of `available_rows` rows stays
    /// within `u32`.
    pub open spec fn sizes_in_range(&self, frame: &Frame, available_rows: u16) -> bool {
        fit_in_range(
            frame.width as int,
            frame.height as int,
            self.width,
            placement_height(self.height, available_rows),
        )
    }

    /// What one frame draws in a viewport: nothing when the viewport is
    /// empty, else the kitty command.
    pub open spec fn frame_output(&self, frame: &Frame, terminal_columns: u16, available_rows: u16) -> Seq<
        u8,
    > {
        if terminal_columns == 0 || available_rows == 0 {
            Seq::empty()
        } else {
            let fitted = fitted_cells(
                frame.width as int,
                frame.height as int,
                self.width,
                placement_height(self.height, available_rows),
            );
            ascii_bytes(
                kitty_command(
                    base64_standard(kitty_payload(frame.data@, self.compression_enabled)),
                    frame.width,
                    frame.height,
                    self.compression_enabled,
                    fitted.0 as u32,
                    fitted.1 as u32,
                    terminal_columns,
                    available_rows,
                ),
            )
        }
    }

    /// The bytes that draw `frame` in a viewport of `terminal_columns` x
    /// `available_rows` cells.
    pub fn render_kitty_at(&self, frame: &Frame, terminal_columns: u16, available_rows: u16) -> (r: Vec<u8>)
        requires
            self.sizes_in_range(frame, available_rows),
        ensures
            r@ == self.frame_output(frame, terminal_columns, available_rows),
    {
        if terminal_columns == 0 || available_rows == 0 {
            return Vec::new();
        }
        let height: u32 = match self.height {
            Some(h) => if h < available_rows as u32 {
                h
            } else {
                available_rows as u32
            },
            None => available_rows as u32,
        };
        let (columns, rows) = fit_cell_size(frame.width, frame.height, self.width, height);
        let rgba = rgb_to_rgba(frame.data.as_slice());
        let payload = if self.compression_enabled {
            compress_fast(rgba.as_slice())
        } else {
            rgba
        };
        let encoded = str_chars(base64_encode(payload.as_slice()).as_str());
        let mut command: Vec<char> = str_chars("\x1b[?2026h");
        push_chunks(&mut command, &encoded, frame.width, frame.height, self.compression_enabled);
        push_placement(&mut command, columns, rows, terminal_columns, available_rows);
        push_str(&mut command, "\x1b[?2026l");
        ascii_encode(&command)
    }
}

/// Appends every transmission chunk of `encoded`.
fn push_chunks(command: &mut Vec<char>, encoded: &Vec<char>, width: u32, height: u32, compressed: bool)
    ensures
        final(command)@ == old(command)@ + kitty_chunks(
            encoded@,
            width,
            height,
            compressed,
            chunk_count(encoded@.len()) as int,
        ),
{
    let len = encoded.len();
    let count: usize = len / KITTY_CHUNK_SIZE + if len % KITTY_CHUNK_SIZE == 0 {
        0
    } else {
        1
    };
    assert(count == chunk_count(len as nat));
    let ghost head = command@;
    let mut index: usize = 0;
    while index < count
        invariant
            index <= count,
            count == chunk_count(encoded@.len()),
            command@ == head + kitty_chunks(encoded@, width, height, compressed, index as int),
        decreases count - index,
    {
        push_chunk(command, encoded, index, count, width, height, compressed);
        index += 1;
    }
}

/// Appends the centred placement of a `columns` x `rows` image.
fn push_placement(command: &mut Vec<char>, columns: u32, rows: u32, terminal_columns: u16, available_rows: u16)
    ensures
        final(command)@ == old(command)@ + kitty_placement(columns, rows, terminal_columns, available_rows),
{
    let col = if terminal_columns as u32 >= columns {
        terminal_columns as u32 - columns
    } else {
        0
    } / 2 + 1;
    let row = if available_rows as u32 >= rows {
        available_rows as u32 - rows
    } else {
        0
    } / 2 + 1;
    push_str(command, "\x1b[");
    push_decimal(command, row as u64);
    push_str(command, ";");
    push_decimal(command, col as u64);
    push_str(command, "H\x1b_Ga=p,i=");
    push_decimal(command, KITTY_IMAGE_ID as u64);
    push_str(command, ",p=");
    push_decimal(command, KITTY_PLACEMENT_ID as u64);
    push_str(command, ",c=");
    push_decimal(command, columns as u64);
    push_str(command, ",r=");
    push_decimal(command, rows as u64);
    push_str(command, ",C=1,q=2;\x1b\\");
}

/// Appends chunk `index` of `count` with its control data and terminator.
fn push_chunk(
    command: &mut Vec<char>,
    encoded: &Vec<char>,
    index: usize,
    count: usize,
    width: u32,
    height: u32,
    compressed: bool,
)
    requires
        index < count,
        count == chunk_count(encoded@.len()),
    ensures
        final(command)@ == old(command)@ + chunk_header(index as int, count as int, width, height, compressed)
            + chunk_of(encoded@, index as int) + "\x1b\\"@,
{
    let ghost start_seq = command@;
    let more: u64 = if index + 1 < count {
        1
    } else {
        0
    };
    if index == 0 {
        push_str(command, "\x1b_Ga=t,f=32,t=d");
        if compressed {
            push_str(command, ",o=z");
        } else {
            push_str(command, "");
        }
        push_str(command, ",s=");
        push_decimal(command, width as u64);
        push_str(command, ",v=");
        push_decimal(command, height as u64);
        push_str(command, ",i=");
        push_decimal(command, KITTY_IMAGE_ID as u64);
        push_str(command, ",q=2,N=1,m=");
        push_decimal(command, more);
        push_str(command, ";");
    } else {
        push_str(command, "\x1b_Gm=");
        push_decimal(command, more);
        push_str(command, ",q=2;");
    }
    assert(command@ == start_seq + chunk_header(index as int, count as int, width, height, compressed));
    let len = encoded.len();
    let start = index * KITTY_CHUNK_SIZE;
    let end = if len - start > KITTY_CHUNK_SIZE {
        start + KITTY_CHUNK_SIZE
    } else {
        len
    };
    let ghost before = command@;
    let mut j = start;
    while j < end
        invariant
            start <= j <= end,
            end <= encoded@.len(),
            command@ == before + encoded@.subrange(start as int, j as int),
        decreases end - j,
    {
        command.push(encoded[j]);
        j += 1;
        assert(command@ =~= before + encoded@.subrange(start as int, j as int));
    }
    push_str(command, "\x1b\\");
}

/// The low byte of each character: the bytes of ASCII text.
pub fn ascii_encode(chars: &Vec<char>) -> (r: Vec<u8>)
    ensures
        r@ == ascii_bytes(chars@),
{
    let mut out: Vec<u8> = Vec::new();
    let mut i: usize = 0;
    while i < chars.len()
        invariant
            i <= chars@.len(),
            out@ == ascii_bytes(chars@.take(i as int)),
        decreases chars@.len() - i,
    {
        out.push(chars[i] as u8);
        i += 1;
        assert(out@ =~= ascii_bytes(chars@.take(i as int)));
    }
    assert(chars@.take(i as int) =~= chars@);
    out
}

} // verus!
