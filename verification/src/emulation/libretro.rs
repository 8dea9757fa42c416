//! The libretro host's decisions: pixel conversion of video frames, joypad
//! queries, the answers to environment commands, and the callback state a
//! loaded core sees. The caller owns the loaded library and the raw
//! pointers; this decides what to read, write and answer.
use vstd::prelude::*;
use crate::input::joypad::{JOYPAD_BUTTON_COUNT, RETRO_DEVICE_JOYPAD};
use crate::text::{push_str, str_chars, string_from_chars};

verus! {

/// A core's pixel format.
#[derive(Clone, Copy, Debug, PartialEq, Eq, Structural)]
pub enum PixelFormat {
    ZeroRgb1555,
    Xrgb8888,
    Rgb565,
}

impl PixelFormat {
    /// The format a core names by its libretro number.
    pub fn from_raw(value: u32) -> (r: Option<PixelFormat>)
        ensures
            r == (if value == 0 {
                Some(PixelFormat::ZeroRgb1555)
            } else if value == 1 {
                Some(PixelFormat::Xrgb8888)
            } else if value == 2 {
                Some(PixelFormat::Rgb565)
            } else {
                None
            }),
    {
        if value == 0 {
            Some(PixelFormat::ZeroRgb1555)
        } else if value == 1 {
            Some(PixelFormat::Xrgb8888)
        } else if value == 2 {
            Some(PixelFormat::Rgb565)
        } else {
            None
        }
    }

    /// The format's libretro number.
    pub fn raw(self) -> (r: u32)
        ensures
            PixelFormat::from_raw_spec(r) == Some(self),
    {
        match self {
            PixelFormat::ZeroRgb1555 => 0,
            PixelFormat::Xrgb8888 => 1,
            PixelFormat::Rgb565 => 2,
        }
    }

    pub open spec fn from_raw_spec(value: u32) -> Option<PixelFormat> {
        if value == 0 {
            Some(PixelFormat::ZeroRgb1555)
        } else if value == 1 {
            Some(PixelFormat::Xrgb8888)
        } else if value == 2 {
            Some(PixelFormat::Rgb565)
        } else {
            None
        }
    }

    pub open spec fn pixel_bytes(self) -> nat {
        match self {
            PixelFormat::Xrgb8888 => 4,
            _ => 2,
        }
    }

    /// Bytes per pixel.
    pub fn bytes_per_pixel(self) -> (r: usize)
        ensures
            r == self.pixel_bytes(),
    {
        match self {
            PixelFormat::Xrgb8888 => 4,
            _ => 2,
        }
    }
}

/// A 5-bit channel scaled to eight bits.
pub open spec fn expand5(value: u8) -> u8 {
    (((value & 0x1f) << 3u8) | ((value & 0x1f) >> 2u8)) as u8
}

/// A 6-bit channel scaled to eight bits.
pub open spec fn expand6(value: u8) -> u8 {
    (((value & 0x3f) << 2u8) | ((value & 0x3f) >> 4u8)) as u8
}

pub fn expand_5(value: u8) -> (r: u8)
    ensures
        r == expand5(value),
{
    let v = value & 0x1f;
    (v << 3u8) | (v >> 2u8)
}

pub fn expand_6(value: u8) -> (r: u8)
    ensures
        r == expand6(value),
{
    let v = value & 0x3f;
    (v << 2u8) | (v >> 4u8)
}

/// Two bytes as a `u16` in the given byte order.
pub open spec fn u16_of(b0: u8, b1: u8, little_endian: bool) -> u16 {
    if little_endian {
        ((b0 as u16) | ((b1 as u16) << 8u16)) as u16
    } else {
        ((b1 as u16) | ((b0 as u16) << 8u16)) as u16
    }
}

/// Four bytes as a `u32` in the given byte order.
pub open spec fn u32_of(b: Seq<u8>, little_endian: bool) -> u32 {
    if little_endian {
        (b[0] as u32) | ((b[1] as u32) << 8u32) | ((b[2] as u32) << 16u32) | ((b[3] as u32) << 24u32)
    } else {
        (b[3] as u32) | ((b[2] as u32) << 8u32) | ((b[1] as u32) << 16u32) | ((b[0] as u32) << 24u32)
    }
}

/// The RGB bytes of one pixel.
pub open spec fn pixel_rgb(p: Seq<u8>, format: PixelFormat, little_endian: bool) -> Seq<u8> {
    match format {
        PixelFormat::ZeroRgb1555 => {
            let v = u16_of(p[0], p[1], little_endian);
            seq![expand5((v >> 10u16) as u8), expand5((v >> 5u16) as u8), expand5(v as u8)]
        },
        PixelFormat::Xrgb8888 => {
            let v = u32_of(p, little_endian);
            seq![(v >> 16u32) as u8, (v >> 8u32) as u8, v as u8]
        },
        PixelFormat::Rgb565 => {
            let v = u16_of(p[0], p[1], little_endian);
            seq![expand5((v >> 11u16) as u8), expand6((v >> 5u16) as u8), expand5(v as u8)]
        },
    }
}

/// The RGB bytes of the first `n` whole pixels of a row.
pub open spec fn row_rgb(row: Seq<u8>, format: PixelFormat, little_endian: bool, n: int) -> Seq<u8>
    decreases n,
{
    if n <= 0 {
        Seq::empty()
    } else {
        let k = format.pixel_bytes() as int;
        row_rgb(row, format, little_endian, n - 1) + pixel_rgb(
            row.subrange((n - 1) * k, n * k),
            format,
            little_endian,
        )
    }
}

/// The RGB bytes of a row: one pixel per whole group of bytes, a trailing
/// partial pixel ignored.
pub open spec fn converted_row(row: Seq<u8>, format: PixelFormat, little_endian: bool) -> Seq<u8> {
    row_rgb(row, format, little_endian, (row.len() as int) / (format.pixel_bytes() as int))
}

fn pixel(row: &[u8], at: usize, format: PixelFormat, little_endian: bool, out: &mut Vec<u8>)
    requires
        at + format.pixel_bytes() <= row@.len(),
    ensures
        final(out)@ == old(out)@ + pixel_rgb(
            row@.subrange(at as int, at + format.pixel_bytes()),
            format,
            little_endian,
        ),
{
    let ghost p = row@.subrange(at as int, at + format.pixel_bytes());
    match format {
        PixelFormat::Xrgb8888 => {
            let (b0, b1, b2, b3) = (row[at], row[at + 1], row[at + 2], row[at + 3]);
            let v: u32 = if little_endian {
                (b0 as u32) | ((b1 as u32) << 8u32) | ((b2 as u32) << 16u32) | ((b3 as u32) << 24u32)
            } else {
                (b3 as u32) | ((b2 as u32) << 8u32) | ((b1 as u32) << 16u32) | ((b0 as u32) << 24u32)
            };
            assert(v == u32_of(p, little_endian));
            out.push((v >> 16u32) as u8);
            out.push((v >> 8u32) as u8);
            out.push(v as u8);
        },
        _ => {
            let (b0, b1) = (row[at], row[at + 1]);
            let v: u16 = if little_endian {
                (b0 as u16) | ((b1 as u16) << 8u16)
            } else {
                (b1 as u16) | ((b0 as u16) << 8u16)
            };
            assert(v == u16_of(p[0], p[1], little_endian));
            if format == PixelFormat::ZeroRgb1555 {
                out.push(expand_5((v >> 10u16) as u8));
                out.push(expand_5((v >> 5u16) as u8));
                out.push(expand_5(v as u8));
            } else {
                out.push(expand_5((v >> 11u16) as u8));
                out.push(expand_6((v >> 5u16) as u8));
                out.push(expand_5(v as u8));
            }
        },
    }
}

/// Appends the RGB bytes of a row of pixels stored in the given byte
/// order.
pub fn convert_row_with(row: &[u8], format: PixelFormat, little_endian: bool, output: &mut Vec<u8>)
    ensures
        final(output)@ == old(output)@ + converted_row(row@, format, little_endian),
{
    let k = format.bytes_per_pixel();
    let len = row.len();
    let n = len / k;
    let ghost start = output@;
    let mut i: usize = 0;
    while i < n
        invariant
            k == format.pixel_bytes(),
            len == row@.len(),
            n == (row@.len() as int) / (k as int),
            i <= n,
            output@ == start + row_rgb(row@, format, little_endian, i as int),
        decreases n - i,
    {
        assert((i + 1) * k <= row@.len()) by (nonlinear_arith)
            requires
                i < n,
                n == (row@.len() as int) / (k as int),
                k > 0,
        ;
        assert(i * k + k == (i + 1) * k) by (nonlinear_arith);
        assert(i * k <= len);
        let at = i * k;
        pixel(row, at, format, little_endian, output);
        i += 1;
    }
}

/// `u16::from_ne_bytes([b0, b1])`: the two bytes read in this machine's
/// byte order, which is little or big endian; which one is not claimed.
#[verifier::external_body]
fn u16_from_native_bytes(b0: u8, b1: u8) -> (r: u16)
    ensures
        r == u16_of(b0, b1, true) || r == u16_of(b0, b1, false),
{
    u16::from_ne_bytes([b0, b1])
}

/// Appends the RGB bytes of a row of pixels stored in this machine's byte
/// order.
pub fn convert_row(row: &[u8], format: PixelFormat, output: &mut Vec<u8>)
    ensures
        exists|little_endian: bool|
            final(output)@ == old(output)@ + converted_row(row@, format, little_endian),
{
    let little = u16_from_native_bytes(1, 0) == 1;
    convert_row_with(row, format, little, output);
}


/// The RGB bytes of the first `n` rows of a frame.
pub open spec fn frame_rgb(
    data: Seq<u8>,
    row_len: int,
    pitch: int,
    format: PixelFormat,
    little_endian: bool,
    n: int,
) -> Seq<u8>
    decreases n,
{
    if n <= 0 {
        Seq::empty()
    } else {
        frame_rgb(data, row_len, pitch, format, little_endian, n - 1) + converted_row(
            data.subrange((n - 1) * pitch, (n - 1) * pitch + row_len),
            format,
            little_endian,
        )
    }
}

/// The RGB bytes of a frame of `width` by `height` pixels whose rows start
/// `pitch` bytes apart; `None` when the sizes overflow or a row is longer
/// than the pitch.
pub open spec fn converted_frame(
    data: Seq<u8>,
    width: usize,
    height: usize,
    pitch: usize,
    format: PixelFormat,
    little_endian: bool,
) -> Option<Seq<u8>> {
    let row_len = width * format.pixel_bytes();
    if row_len > usize::MAX || pitch < row_len || width * height > usize::MAX || width * height * 3
        > usize::MAX {
        None
    } else {
        Some(frame_rgb(data, row_len, pitch as int, format, little_endian, height as int))
    }
}

/// Converts a frame whose bytes are `data`, in the given byte order.
pub fn convert_frame_with(
    data: &[u8],
    width: usize,
    height: usize,
    pitch: usize,
    format: PixelFormat,
    little_endian: bool,
) -> (r: Option<Vec<u8>>)
    requires
        height > 0 && width * format.pixel_bytes() <= usize::MAX ==> (height - 1) * pitch + width
            * format.pixel_bytes() <= data@.len(),
    ensures
        match r {
            Some(v) => converted_frame(data@, width, height, pitch, format, little_endian) == Some(v@),
            None => converted_frame(data@, width, height, pitch, format, little_endian) is None,
        },
{
    let row_len = match width.checked_mul(format.bytes_per_pixel()) {
        Some(n) => n,
        None => {
            return None;
        },
    };
    if pitch < row_len {
        return None;
    }
    let area = match width.checked_mul(height) {
        Some(a) => a,
        None => {
            return None;
        },
    };
    if area.checked_mul(3).is_none() {
        return None;
    }
    let mut pixels: Vec<u8> = Vec::new();
    let dlen = data.len();
    let mut y: usize = 0;
    while y < height
        invariant
            dlen == data@.len(),
            y <= height,
            row_len == width * format.pixel_bytes(),
            pitch >= row_len,
            height > 0 ==> (height - 1) * pitch + row_len <= data@.len(),
            pixels@ == frame_rgb(data@, row_len as int, pitch as int, format, little_endian, y as int),
        decreases height - y,
    {
        assert(y * pitch <= (height - 1) * pitch) by (nonlinear_arith)
            requires
                y < height,
        ;
        let offset = y * pitch;
        let row = vstd::slice::slice_subrange(data, offset, offset + row_len);
        convert_row_with(row, format, little_endian, &mut pixels);
        y += 1;
    }
    Some(pixels)
}

/// Converts a frame stored in this machine's byte order.
pub fn convert_frame(data: &[u8], width: usize, height: usize, pitch: usize, format: PixelFormat) -> (r:
    Option<Vec<u8>>)
    requires
        height > 0 && width * format.pixel_bytes() <= usize::MAX ==> (height - 1) * pitch + width
            * format.pixel_bytes() <= data@.len(),
    ensures
        exists|little_endian: bool|
            match r {
                Some(v) => converted_frame(data@, width, height, pitch, format, little_endian) == Some(
                    v@,
                ),
                None => converted_frame(data@, width, height, pitch, format, little_endian) is None,
            },
{
    let little = u16_from_native_bytes(1, 0) == 1;
    convert_frame_with(data, width, height, pitch, format, little)
}

// ── Joypad queries ─────────────────────────────────────────────────────────

/// The answer to a core's input query: 1 when the queried button of the
/// first joypad is held, else 0 (also for other ports, devices, indices and
/// out-of-range buttons).
pub open spec fn joypad_value(buttons: u16, port: u32, device: u32, index: u32, id: u32) -> i16 {
    if port != 0 || device != RETRO_DEVICE_JOYPAD || index != 0 || id >= JOYPAD_BUTTON_COUNT {
        0
    } else if buttons & (1u16 << (id as u16)) != 0 {
        1
    } else {
        0
    }
}

pub fn joypad_button_value(buttons: u16, port: u32, device: u32, index: u32, id: u32) -> (r: i16)
    ensures
        r == joypad_value(buttons, port, device, index, id),
{
    if port != 0 || device != RETRO_DEVICE_JOYPAD || index != 0 || id >= JOYPAD_BUTTON_COUNT as u32 {
        return 0;
    }
    if buttons & (1u16 << (id as u16)) != 0 {
        1
    } else {
        0
    }
}

// ── Loading a game ─────────────────────────────────────────────────────────

/// Why a core could not load a game.
#[derive(Debug)]
pub enum LoadGameError {
    AlreadyActive,
    /// Preparing the ROM failed, with the message of what failed.
    Prepare(String),
    Rejected,
}

pub open spec fn load_game_error_text(e: LoadGameError) -> Seq<char> {
    match e {
        LoadGameError::AlreadyActive => "another libretro core is already active"@,
        LoadGameError::Prepare(m) => m@,
        LoadGameError::Rejected => "core rejected the ROM"@,
    }
}

impl LoadGameError {
    /// The error's text; a preparation failure shows the message of what
    /// failed.
    pub fn message(&self) -> (r: String)
        ensures
            r@ == load_game_error_text(*self),
    {
        match self {
            LoadGameError::AlreadyActive => "another libretro core is already active".to_owned(),
            LoadGameError::Prepare(m) => m.clone(),
            LoadGameError::Rejected => "core rejected the ROM".to_owned(),
        }
    }
}

/// The extension of the temporary file a zipped ROM is extracted to: the
/// extension of its first entry, else `rom`.
pub fn extracted_rom_extension(entry_name: &str) -> (r: String)
    ensures
        r@ == match crate::pathname::extension(entry_name@) {
            Some(e) => e,
            None => "rom"@,
        },
{
    match crate::pathname::extension_str(entry_name) {
        Some(e) => e,
        None => "rom".to_owned(),
    }
}

// ── The environment callback ───────────────────────────────────────────────

pub const RETRO_ENV_GET_SYSTEM_DIRECTORY: u32 = 9;

pub const RETRO_ENV_SET_PIXEL_FORMAT: u32 = 10;

pub const RETRO_ENV_SET_INPUT_DESCRIPTORS: u32 = 11;

pub const RETRO_ENV_SET_KEYBOARD_CALLBACK: u32 = 12;

pub const RETRO_ENV_SET_HW_RENDER: u32 = 14;

pub const RETRO_ENV_GET_VARIABLE: u32 = 15;

pub const RETRO_ENV_SET_VARIABLES: u32 = 16;

pub const RETRO_ENV_GET_LOG_INTERFACE: u32 = 27;

pub const RETRO_ENV_GET_SAVE_DIRECTORY: u32 = 31;

pub const RETRO_ENV_SET_CONTROLLER_INFO: u32 = 35;

pub const RETRO_ENV_GET_CORE_OPTIONS_VERSION: u32 = 52;

pub const RETRO_ENV_GET_MESSAGE_INTERFACE_VERSION: u32 = 59;

pub const RETRO_ENV_SET_PERFORMANCE_LEVEL: u32 = 8;

pub const RETRO_ENV_GET_VARIABLE_UPDATE: u32 = 17;

pub const RETRO_ENV_SET_FRAME_TIME_CALLBACK: u32 = 21;

pub const RETRO_ENV_SET_GEOMETRY: u32 = 37;

pub const RETRO_ENV_GET_LANGUAGE: u32 = 39;

pub const RETRO_ENV_SET_CORE_OPTIONS_INTL: u32 = 54;

pub const RETRO_ENV_SET_CORE_OPTIONS_DISPLAY: u32 = 55;

pub const RETRO_ENV_GET_INPUT_BITMASKS: u32 = 65587;

pub const RETRO_ENV_GET_CAN_DUPE: u32 = 3;

pub const RETRO_ENV_GET_TARGET_SAMPLE_RATE: u32 = 65617;

pub const RETRO_ENV_SET_SERIALIZATION_QUIRKS: u32 = 87;

/// A serialization quirk: the core's states are incomplete.
pub const RETRO_SERIALIZATION_QUIRK_INCOMPLETE: usize = 1;

/// How the host answers an environment command.
#[derive(Clone, Copy, Debug, PartialEq, Eq, Structural)]
pub enum EnvReply {
    /// Answer with the value, touching nothing.
    Answer(bool),
    /// Write the number where the data points, if it points anywhere, and
    /// answer true.
    WriteUint(u32),
    /// Write `true` where the data points, if anywhere, and answer true.
    WriteTrue,
    /// Write a pointer to the path `.` where the data points, if anywhere,
    /// and answer true.
    WriteDotPath,
    /// Read the pixel format the data points to (see `set_pixel_format`).
    SetPixelFormat,
    /// Read the frame-time callback the data points to (see
    /// `set_frame_time_callback`).
    SetFrameTimeCallback,
    /// Read the serialization quirks the data points to, if anywhere, and
    /// answer true.
    SetSerializationQuirks,
    /// Write the target sample rate (see `target_sample_rate_reply`).
    TargetSampleRate,
}

/// The host's answer to each environment command it knows; unknown
/// commands are declined.
pub open spec fn env_reply_of(cmd: u32) -> EnvReply {
    if cmd == RETRO_ENV_GET_SYSTEM_DIRECTORY {
        EnvReply::WriteDotPath
    } else if cmd == RETRO_ENV_SET_PIXEL_FORMAT {
        EnvReply::SetPixelFormat
    } else if cmd == RETRO_ENV_SET_INPUT_DESCRIPTORS {
        EnvReply::Answer(true)
    } else if cmd == RETRO_ENV_SET_KEYBOARD_CALLBACK {
        EnvReply::Answer(true)
    } else if cmd == RETRO_ENV_SET_HW_RENDER {
        EnvReply::Answer(false)
    } else if cmd == RETRO_ENV_GET_VARIABLE {
        EnvReply::Answer(false)
    } else if cmd == RETRO_ENV_SET_VARIABLES {
        EnvReply::Answer(true)
    } else if cmd == RETRO_ENV_GET_LOG_INTERFACE {
        EnvReply::Answer(false)
    } else if cmd == RETRO_ENV_GET_SAVE_DIRECTORY {
        EnvReply::WriteDotPath
    } else if cmd == RETRO_ENV_SET_CONTROLLER_INFO {
        EnvReply::Answer(true)
    } else if cmd == RETRO_ENV_GET_CORE_OPTIONS_VERSION {
        EnvReply::WriteUint(1)
    } else if cmd == RETRO_ENV_GET_MESSAGE_INTERFACE_VERSION {
        EnvReply::WriteUint(1)
    } else if cmd == RETRO_ENV_SET_PERFORMANCE_LEVEL {
        EnvReply::Answer(true)
    } else if cmd == RETRO_ENV_GET_VARIABLE_UPDATE {
        EnvReply::Answer(false)
    } else if cmd == RETRO_ENV_SET_FRAME_TIME_CALLBACK {
        EnvReply::SetFrameTimeCallback
    } else if cmd == RETRO_ENV_SET_GEOMETRY {
        EnvReply::Answer(true)
    } else if cmd == RETRO_ENV_GET_LANGUAGE {
        EnvReply::WriteUint(0)
    } else if cmd == RETRO_ENV_SET_CORE_OPTIONS_INTL {
        EnvReply::Answer(true)
    } else if cmd == RETRO_ENV_SET_CORE_OPTIONS_DISPLAY {
        EnvReply::Answer(true)
    } else if cmd == RETRO_ENV_GET_INPUT_BITMASKS {
        EnvReply::Answer(false)
    } else if cmd == RETRO_ENV_GET_CAN_DUPE {
        EnvReply::WriteTrue
    } else if cmd == RETRO_ENV_GET_TARGET_SAMPLE_RATE {
        EnvReply::TargetSampleRate
    } else if cmd == RETRO_ENV_SET_SERIALIZATION_QUIRKS {
        EnvReply::SetSerializationQuirks
    } else {
        EnvReply::Answer(false)
    }
}

pub fn env_reply(cmd: u32) -> (r: EnvReply)
    ensures
        r == env_reply_of(cmd),
{
    if cmd == RETRO_ENV_GET_SYSTEM_DIRECTORY {
        EnvReply::WriteDotPath
    } else if cmd == RETRO_ENV_SET_PIXEL_FORMAT {
        EnvReply::SetPixelFormat
    } else if cmd == RETRO_ENV_SET_INPUT_DESCRIPTORS {
        EnvReply::Answer(true)
    } else if cmd == RETRO_ENV_SET_KEYBOARD_CALLBACK {
        EnvReply::Answer(true)
    } else if cmd == RETRO_ENV_SET_HW_RENDER {
        EnvReply::Answer(false)
    } else if cmd == RETRO_ENV_GET_VARIABLE {
        EnvReply::Answer(false)
    } else if cmd == RETRO_ENV_SET_VARIABLES {
        EnvReply::Answer(true)
    } else if cmd == RETRO_ENV_GET_LOG_INTERFACE {
        EnvReply::Answer(false)
    } else if cmd == RETRO_ENV_GET_SAVE_DIRECTORY {
        EnvReply::WriteDotPath
    } else if cmd == RETRO_ENV_SET_CONTROLLER_INFO {
        EnvReply::Answer(true)
    } else if cmd == RETRO_ENV_GET_CORE_OPTIONS_VERSION {
        EnvReply::WriteUint(1)
    } else if cmd == RETRO_ENV_GET_MESSAGE_INTERFACE_VERSION {
        EnvReply::WriteUint(1)
    } else if cmd == RETRO_ENV_SET_PERFORMANCE_LEVEL {
        EnvReply::Answer(true)
    } else if cmd == RETRO_ENV_GET_VARIABLE_UPDATE {
        EnvReply::Answer(false)
    } else if cmd == RETRO_ENV_SET_FRAME_TIME_CALLBACK {
        EnvReply::SetFrameTimeCallback
    } else if cmd == RETRO_ENV_SET_GEOMETRY {
        EnvReply::Answer(true)
    } else if cmd == RETRO_ENV_GET_LANGUAGE {
        EnvReply::WriteUint(0)
    } else if cmd == RETRO_ENV_SET_CORE_OPTIONS_INTL {
        EnvReply::Answer(true)
    } else if cmd == RETRO_ENV_SET_CORE_OPTIONS_DISPLAY {
        EnvReply::Answer(true)
    } else if cmd == RETRO_ENV_GET_INPUT_BITMASKS {
        EnvReply::Answer(false)
    } else if cmd == RETRO_ENV_GET_CAN_DUPE {
        EnvReply::WriteTrue
    } else if cmd == RETRO_ENV_GET_TARGET_SAMPLE_RATE {
        EnvReply::TargetSampleRate
    } else if cmd == RETRO_ENV_SET_SERIALIZATION_QUIRKS {
        EnvReply::SetSerializationQuirks
    } else {
        EnvReply::Answer(false)
    }
}

/// A call that changes the callbacks' shared state.
#[derive(Clone, Copy, Debug, PartialEq, Eq, Structural)]
pub enum CallbackCall {
    TargetSampleRate(Option<u32>),
    JoypadButtons(u16),
    PixelFormat(u32),
    FrameTimeCallback(bool, i64),
}

/// What a call does to the joypad buttons and the frame-time reference.
pub open spec fn call_step(s: CallbackState, t: CallbackState, call: CallbackCall) -> bool {
    match call {
        CallbackCall::JoypadButtons(b) => t.joypad_buttons == b && t.frame_time_reference
            == s.frame_time_reference,
        CallbackCall::FrameTimeCallback(has_callback, reference) => t.joypad_buttons == s.joypad_buttons
            && t.frame_time_reference == (if has_callback && reference > 0 {
            Some(reference)
        } else {
            s.frame_time_reference
        }),
        _ => t.joypad_buttons == s.joypad_buttons && t.frame_time_reference == s.frame_time_reference,
    }
}

/// The joypad buttons after `calls`: those of the last call that set them.
pub open spec fn last_joypad_buttons(initial: u16, calls: Seq<CallbackCall>) -> u16
    decreases calls.len(),
{
    if calls.len() == 0 {
        initial
    } else {
        match calls.last() {
            CallbackCall::JoypadButtons(b) => b,
            _ => last_joypad_buttons(initial, calls.drop_last()),
        }
    }
}

/// The frame-time reference after `calls`: that of the last registration
/// that was taken.
pub open spec fn last_frame_time(initial: Option<i64>, calls: Seq<CallbackCall>) -> Option<i64>
    decreases calls.len(),
{
    if calls.len() == 0 {
        initial
    } else {
        match calls.last() {
            CallbackCall::FrameTimeCallback(has_callback, reference) if has_callback && reference > 0 => Some(
                reference,
            ),
            _ => last_frame_time(initial, calls.drop_last()),
        }
    }
}

/// Over any run of calls, the core's input queries (`input_state`) answer
/// from the buttons of the last call that set them, and every later frame
/// hands the frame-time callback (`frame_time_argument`) the reference of
/// the last registration taken (a refused one changes nothing).
pub proof fn lemma_callback_run(states: Seq<CallbackState>, calls: Seq<CallbackCall>)
    requires
        states.len() == calls.len() + 1,
        forall|i: int| 0 <= i < calls.len() ==> call_step(states[i], states[i + 1], #[trigger] calls[i]),
    ensures
        states.last().joypad_buttons == last_joypad_buttons(states[0].joypad_buttons, calls),
        states.last().frame_time_reference == last_frame_time(states[0].frame_time_reference, calls),
        forall|port: u32, device: u32, index: u32, id: u32|
            joypad_value(states.last().joypad_buttons, port, device, index, id) == joypad_value(
                last_joypad_buttons(states[0].joypad_buttons, calls),
                port,
                device,
                index,
                id,
            ),
    decreases calls.len(),
{
    if calls.len() > 0 {
        let n = calls.len() - 1;
        let prev_states = states.drop_last();
        let prev_calls = calls.drop_last();
        assert forall|i: int| 0 <= i < prev_calls.len() implies call_step(
            prev_states[i],
            prev_states[i + 1],
            #[trigger] prev_calls[i],
        ) by {
            assert(prev_calls[i] == calls[i]);
            assert(prev_states[i] == states[i] && prev_states[i + 1] == states[i + 1]);
        }
        lemma_callback_run(prev_states, prev_calls);
        assert(call_step(states[n], states[n + 1], calls[n]));
        assert(states.last() == states[n + 1]);
        assert(prev_states.last() == states[n]);
        assert(prev_states[0] == states[0]);
    }
}

/// What the core's callbacks share while a game is loaded.
#[derive(Debug)]
pub struct CallbackState {
    pub pixel_format: PixelFormat,
    /// The sample rate asked of the core; zero when none is.
    pub target_sample_rate: u32,
    pub joypad_buttons: u16,
    pub video_capture_enabled: bool,
    pub audio_muted: bool,
    pub serialization_quirks: usize,
    /// The reference of the frame-time callback the core registered.
    pub frame_time_reference: Option<i64>,
}

impl CallbackState {
    /// The state before a game loads: the default pixel format, the
    /// requested sample rate, no buttons, video on, audio on, no quirks,
    /// no frame-time callback.
    pub fn reset(target_sample_rate: Option<u32>) -> (r: Self)
        ensures
            r.pixel_format == PixelFormat::ZeroRgb1555,
            r.target_sample_rate == match target_sample_rate {
                Some(t) => t,
                None => 0,
            },
            r.joypad_buttons == 0,
            r.video_capture_enabled,
            !r.audio_muted,
            r.serialization_quirks == 0,
            r.frame_time_reference is None,
    {
        CallbackState {
            pixel_format: PixelFormat::ZeroRgb1555,
            target_sample_rate: match target_sample_rate {
                Some(t) => t,
                None => 0,
            },
            joypad_buttons: 0,
            video_capture_enabled: true,
            audio_muted: false,
            serialization_quirks: 0,
            frame_time_reference: None,
        }
    }

    /// Sets the sample rate asked of the core (zero for none).
    pub fn set_target_sample_rate(&mut self, sample_rate: Option<u32>)
        ensures
            final(self).target_sample_rate == match sample_rate {
                Some(t) => t,
                None => 0,
            },
            final(self).pixel_format == old(self).pixel_format,
            final(self).joypad_buttons == old(self).joypad_buttons,
            final(self).video_capture_enabled == old(self).video_capture_enabled,
            final(self).audio_muted == old(self).audio_muted,
            final(self).serialization_quirks == old(self).serialization_quirks,
            final(self).frame_time_reference == old(self).frame_time_reference,
            call_step(*old(self), *final(self), CallbackCall::TargetSampleRate(sample_rate)),
    {
        self.target_sample_rate = match sample_rate {
            Some(t) => t,
            None => 0,
        };
    }

    /// Sets the joypad buttons the core reads.
    pub fn set_joypad_buttons(&mut self, buttons: u16)
        ensures
            final(self).joypad_buttons == buttons,
            final(self).pixel_format == old(self).pixel_format,
            final(self).target_sample_rate == old(self).target_sample_rate,
            final(self).video_capture_enabled == old(self).video_capture_enabled,
            final(self).audio_muted == old(self).audio_muted,
            final(self).serialization_quirks == old(self).serialization_quirks,
            final(self).frame_time_reference == old(self).frame_time_reference,
            call_step(*old(self), *final(self), CallbackCall::JoypadButtons(buttons)),
    {
        self.joypad_buttons = buttons;
    }

    /// Takes the pixel format a core announces; an unknown one is refused
    /// and the format stays.
    pub fn set_pixel_format(&mut self, value: u32) -> (r: bool)
        ensures
            r == (PixelFormat::from_raw_spec(value) is Some),
            final(self).pixel_format == match PixelFormat::from_raw_spec(value) {
                Some(f) => f,
                None => old(self).pixel_format,
            },
            final(self).target_sample_rate == old(self).target_sample_rate,
            final(self).joypad_buttons == old(self).joypad_buttons,
            final(self).frame_time_reference == old(self).frame_time_reference,
            final(self).serialization_quirks == old(self).serialization_quirks,
            call_step(*old(self), *final(self), CallbackCall::PixelFormat(value)),
    {
        match PixelFormat::from_raw(value) {
            Some(f) => {
                self.pixel_format = f;
                true
            },
            None => false,
        }
    }

    /// Takes the frame-time callback a core registers: one without a
    /// function or with a reference that is not positive is refused.
    pub fn set_frame_time_callback(&mut self, has_callback: bool, reference: i64) -> (r: bool)
        ensures
            r == (has_callback && reference > 0),
            final(self).frame_time_reference == (if r {
                Some(reference)
            } else {
                old(self).frame_time_reference
            }),
            final(self).pixel_format == old(self).pixel_format,
            final(self).target_sample_rate == old(self).target_sample_rate,
            final(self).joypad_buttons == old(self).joypad_buttons,
            final(self).serialization_quirks == old(self).serialization_quirks,
            call_step(*old(self), *final(self), CallbackCall::FrameTimeCallback(has_callback, reference)),
    {
        if !has_callback || reference <= 0 {
            return false;
        }
        self.frame_time_reference = Some(reference);
        true
    }

    /// The time in microseconds handed to the core's frame-time callback
    /// before each frame: the reference it registered, if one was taken.
    pub fn frame_time_argument(&self) -> (r: Option<i64>)
        ensures
            r == self.frame_time_reference,
    {
        self.frame_time_reference
    }

    /// The target sample rate to write for the core, if one is asked for.
    pub fn target_sample_rate_reply(&self) -> (r: Option<u32>)
        ensures
            r == (if self.target_sample_rate == 0 {
                None
            } else {
                Some(self.target_sample_rate)
            }),
    {
        if self.target_sample_rate == 0 {
            None
        } else {
            Some(self.target_sample_rate)
        }
    }

    /// The answer to an input query.
    pub fn input_state(&self, port: u32, device: u32, index: u32, id: u32) -> (r: i16)
        ensures
            r == joypad_value(self.joypad_buttons, port, device, index, id),
    {
        joypad_button_value(self.joypad_buttons, port, device, index, id)
    }

    /// The format to convert a new frame in, when frames are captured.
    pub fn frame_format(&self) -> (r: Option<PixelFormat>)
        ensures
            r == (if self.video_capture_enabled {
                Some(self.pixel_format)
            } else {
                None
            }),
    {
        if self.video_capture_enabled {
            Some(self.pixel_format)
        } else {
            None
        }
    }

    /// Whether a batch of `frames` audio frames reaches the sink, and the
    /// count reported back to the core (no data: none; muted: all, unheard).
    pub fn audio_batch(&self, has_data: bool, frames: usize) -> (r: (bool, usize))
        ensures
            r == (if !has_data {
                (false, 0usize)
            } else if self.audio_muted {
                (false, frames)
            } else {
                (true, frames)
            }),
    {
        if !has_data {
            (false, 0)
        } else if self.audio_muted {
            (false, frames)
        } else {
            (true, frames)
        }
    }

    /// Whether the core's states can be saved and restored completely:
    /// no incomplete-state quirk, both functions present, and a state size
    /// that is not zero.
    pub fn supports_complete_serialization(
        &self,
        has_serialize: bool,
        has_unserialize: bool,
        state_size: Option<usize>,
    ) -> (r: bool)
        ensures
            r == (self.serialization_quirks & RETRO_SERIALIZATION_QUIRK_INCOMPLETE == 0
                && has_serialize && has_unserialize && (state_size matches Some(n) && n > 0)),
    {
        self.serialization_quirks & RETRO_SERIALIZATION_QUIRK_INCOMPLETE == 0 && has_serialize
            && has_unserialize && match state_size {
            Some(n) => n > 0,
            None => false,
        }
    }
}
} // verus!
