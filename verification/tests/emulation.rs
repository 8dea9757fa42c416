use asoby::emulation::libretro::{
    convert_frame, convert_row, joypad_button_value, CallbackState, LoadGameError, PixelFormat,
};
use asoby::emulation::rewind::{FrameRunner, Rewind};
use asoby::emulation::state::{
    core_name_from_path, encode, parse_state, rzip_unwrap, rzip_wrap, StateBackend, StateError,
    Timestamp, MAX_RZIP_CONTENT, RZIP_DEFAULT_CHUNK_SIZE, RZIP_MAX_CHUNK_SIZE,
};
use asoby::emulation::store::{load_from_path, save_state};
use asoby::input::joypad::{BUTTON_A, JOYPAD_BUTTON_COUNT, RETRO_DEVICE_JOYPAD};
use std::cell::Cell;

// ── Pixel conversion and input queries ─────────────────────────────────────

fn rgb565_row() -> Vec<u8> {
    [0xf800_u16, 0x07e0, 0x001f].into_iter().flat_map(u16::to_ne_bytes).collect()
}

fn rgb1555_row() -> Vec<u8> {
    [0x7c00_u16, 0x03e0, 0x001f].into_iter().flat_map(u16::to_ne_bytes).collect()
}

#[test]
fn converts_rgb565() {
    let input = rgb565_row();
    let mut output = Vec::new();
    convert_row(&input, PixelFormat::Rgb565, &mut output);
    assert_eq!(output, [255, 0, 0, 0, 255, 0, 0, 0, 255]);
}

#[test]
fn libretro_converts_rgb565() {
    let input = rgb565_row();
    let mut output = Vec::new();
    convert_row(&input, PixelFormat::Rgb565, &mut output);
    assert_eq!(output, [255, 0, 0, 0, 255, 0, 0, 0, 255]);
}

#[test]
fn converts_zero_rgb1555() {
    let input = rgb1555_row();
    let mut output = Vec::new();
    convert_row(&input, PixelFormat::ZeroRgb1555, &mut output);
    assert_eq!(output, [255, 0, 0, 0, 255, 0, 0, 0, 255]);
}

#[test]
fn libretro_converts_zero_rgb1555() {
    let input = rgb1555_row();
    let mut output = Vec::new();
    convert_row(&input, PixelFormat::ZeroRgb1555, &mut output);
    assert_eq!(output, [255, 0, 0, 0, 255, 0, 0, 0, 255]);
}

fn xrgb_frame() -> Vec<u8> {
    let mut input = Vec::new();
    for row in [[0x0012_3456_u32, 0x0078_9abc], [0x00de_adbe_u32, 0x00ef_1020]] {
        for pixel in row {
            input.extend_from_slice(&pixel.to_ne_bytes());
        }
        input.extend_from_slice(&[0xaa; 4]);
    }
    input
}

#[test]
fn converts_xrgb8888_and_skips_row_padding() {
    let input = xrgb_frame();
    let output = convert_frame(&input, 2, 2, 12, PixelFormat::Xrgb8888).unwrap();
    assert_eq!(output, [0x12, 0x34, 0x56, 0x78, 0x9a, 0xbc, 0xde, 0xad, 0xbe, 0xef, 0x10, 0x20]);
}

#[test]
fn libretro_converts_xrgb8888_and_skips_row_padding() {
    let input = xrgb_frame();
    let output = convert_frame(&input, 2, 2, 12, PixelFormat::Xrgb8888).unwrap();
    assert_eq!(output, [0x12, 0x34, 0x56, 0x78, 0x9a, 0xbc, 0xde, 0xad, 0xbe, 0xef, 0x10, 0x20]);
}

fn check_query_fields() {
    let buttons: u16 = 1 << BUTTON_A;
    assert_eq!(joypad_button_value(buttons, 0, RETRO_DEVICE_JOYPAD, 0, BUTTON_A as u32), 1);
    assert_eq!(
        joypad_button_value(buttons, 0, RETRO_DEVICE_JOYPAD, 0, JOYPAD_BUTTON_COUNT as u32),
        0
    );
    assert_eq!(joypad_button_value(buttons, 1, RETRO_DEVICE_JOYPAD, 0, BUTTON_A as u32), 0);
    assert_eq!(joypad_button_value(buttons, 0, 0, 0, BUTTON_A as u32), 0);
    assert_eq!(joypad_button_value(buttons, 0, RETRO_DEVICE_JOYPAD, 1, BUTTON_A as u32), 0);
}

#[test]
fn input_state_validates_libretro_query_fields() {
    check_query_fields();
}

#[test]
fn libretro_input_state_validates_libretro_query_fields() {
    check_query_fields();
}

#[test]
fn callback_state_reports_the_pressed_buttons() {
    let mut state = CallbackState::reset(None);
    state.set_joypad_buttons(1 << BUTTON_A);
    assert_eq!(state.input_state(0, RETRO_DEVICE_JOYPAD, 0, BUTTON_A as u32), 1);
    assert_eq!(state.input_state(0, RETRO_DEVICE_JOYPAD, 0, 0), 0);
}

#[test]
fn rom_preparation_error_preserves_the_source_message() {
    let error = LoadGameError::Prepare("ROM bytes unavailable".to_owned());
    assert_eq!(error.message(), "ROM bytes unavailable");
}

// ── Rewind ─────────────────────────────────────────────────────────────────

struct FakeCore {
    state: Cell<u64>,
}

impl StateBackend for FakeCore {
    fn serialize(&self, data: &mut [u8]) -> bool {
        data.copy_from_slice(&self.state.get().to_le_bytes());
        true
    }

    fn unserialize(&self, data: &[u8]) -> bool {
        let mut bytes = [0u8; 8];
        bytes.copy_from_slice(&data[..8]);
        self.state.set(u64::from_le_bytes(bytes));
        true
    }
}

fn step(core: &FakeCore) {
    core.state.set(core.state.get() + 1);
}

fn play_from(core: &FakeCore, rewind: &mut Rewind, start: u64, frames: u64) -> u64 {
    let mut frame = start;
    for _ in 0..frames {
        step(core);
        frame += 1;
        rewind.capture(core, frame);
    }
    frame
}

fn play(core: &FakeCore, rewind: &mut Rewind, frames: u64) -> u64 {
    rewind.capture(core, 0);
    play_from(core, rewind, 0, frames)
}

#[test]
fn captures_every_granularity_frames() {
    let core = FakeCore { state: Cell::new(0) };
    let mut rewind = Rewind::new(8, 2, 1024).unwrap();
    let frames = play(&core, &mut rewind, 6);
    assert_eq!(frames, 6);
    assert_eq!(rewind.frames(), [0, 2, 4, 6]);
}

#[test]
fn rewind_restores_a_state_and_reruns_to_the_target() {
    let core = FakeCore { state: Cell::new(0) };
    let mut rewind = Rewind::new(8, 2, 1024).unwrap();
    play(&core, &mut rewind, 6);
    let mut runs = 0;
    let target = rewind
        .rewind(&core, 6, &mut FrameRunner::new(|| {
            runs += 1;
            step(&core);
        }))
        .unwrap();
    assert_eq!(target, 4);
    assert_eq!(core.state.get(), 4);
    assert_eq!(runs, 2);
}

#[test]
fn repeated_rewinds_step_back_until_the_buffer_starts() {
    let core = FakeCore { state: Cell::new(0) };
    let mut rewind = Rewind::new(8, 2, 1024).unwrap();
    play(&core, &mut rewind, 6);
    let first = rewind.rewind(&core, 6, &mut FrameRunner::new(|| step(&core))).unwrap();
    let second = rewind.rewind(&core, first, &mut FrameRunner::new(|| step(&core))).unwrap();
    assert_eq!((first, second), (4, 2));
    assert_eq!(core.state.get(), 2);
    assert!(rewind.rewind(&core, second, &mut FrameRunner::new(|| step(&core))).is_none());
}

#[test]
fn rewinding_then_playing_forward_keeps_rewind_available() {
    let core = FakeCore { state: Cell::new(0) };
    let mut rewind = Rewind::new(8, 2, 1024).unwrap();
    let frame = play(&core, &mut rewind, 6);
    let target = rewind.rewind(&core, frame, &mut FrameRunner::new(|| step(&core))).unwrap();
    let resumed = play_from(&core, &mut rewind, target, 4);
    let mut runs = 0;
    let target2 = rewind
        .rewind(&core, resumed, &mut FrameRunner::new(|| {
            runs += 1;
            step(&core);
        }))
        .unwrap();
    assert_eq!((target, resumed), (4, 8));
    assert_eq!(target2, 6);
    assert_eq!(core.state.get(), 6);
    assert_eq!(runs, 2);
}

#[test]
fn rewind_is_unavailable_before_granularity_frames() {
    let core = FakeCore { state: Cell::new(0) };
    let mut rewind = Rewind::new(8, 2, 1024).unwrap();
    rewind.capture(&core, 0);
    step(&core);
    rewind.capture(&core, 1);
    assert!(rewind.rewind(&core, 1, &mut FrameRunner::new(|| step(&core))).is_none());
    assert!(rewind.rewind(&core, 0, &mut FrameRunner::new(|| step(&core))).is_none());
}

#[test]
fn budget_evicts_the_oldest_snapshots() {
    let core = FakeCore { state: Cell::new(0) };
    let mut rewind = Rewind::new(8, 1, 100).unwrap();
    play(&core, &mut rewind, 20);
    assert!(rewind.used() <= 100);
    let frames = rewind.frames();
    assert!(frames.len() < 20);
    assert!(frames.first().is_some_and(|f| *f > 0));
}

#[test]
fn zero_state_size_disables_rewind() {
    assert!(Rewind::new(0, 2, 1024).is_none());
    assert!(Rewind::new(8, 0, 1024).is_none());
}

// ── State files ────────────────────────────────────────────────────────────

#[test]
fn core_name_strips_libretro_suffix_and_platform_extension() {
    assert_eq!(core_name_from_path("/cores/fceumm_libretro.dylib"), "fceumm");
    assert_eq!(core_name_from_path("nestopia_libretro.so"), "nestopia");
    assert_eq!(core_name_from_path("genesis_plus_gx_libretro.dll"), "genesis_plus_gx");
    assert_eq!(core_name_from_path("/tmp/custom_core.so"), "custom_core");
    assert_eq!(core_name_from_path("plain_name"), "plain_name");
}

#[test]
fn timestamps_roundtrip_and_format_for_humans() {
    let positive = Timestamp::parse("20260802T151205.903+0800").unwrap();
    assert_eq!(positive.filename(), "20260802T151205.903+0800");
    assert_eq!(positive.human(), "2026-08-02 15:12:05 +08:00");
    let negative = Timestamp::parse("20261101T010000.000-0800").unwrap();
    assert_eq!(negative.human(), "2026-11-01 01:00:00 -08:00");
    assert!(Timestamp::parse("not-a-timestamp").is_none());
    assert!(Timestamp::parse("20260802T151205+0800").is_none());
}

#[test]
fn saved_container_matches_the_retroarch_layout() {
    let container = encode(&[1, 2, 3, 4, 5]).unwrap();
    let mut expected = Vec::new();
    expected.extend_from_slice(b"RASTATE");
    expected.push(1);
    expected.extend_from_slice(b"MEM ");
    expected.extend_from_slice(&5u32.to_le_bytes());
    expected.extend_from_slice(&[1, 2, 3, 4, 5]);
    expected.extend_from_slice(&[0, 0, 0]);
    expected.extend_from_slice(b"END ");
    expected.extend_from_slice(&0u32.to_le_bytes());
    assert_eq!(container, expected);
}

#[test]
fn saved_state_is_an_rzip_file() {
    let backend = FakeCore { state: Cell::new(42) };
    let bytes = save_state(&backend, 8).unwrap();
    assert!(bytes.starts_with(b"#RZIPv\x01#"));
    assert_eq!(rzip_unwrap(&bytes).unwrap(), encode(&42u64.to_le_bytes()).unwrap());
}

#[test]
fn rzip_wrap_matches_the_retroarch_layout() {
    let plain = encode(&[1, 2, 3, 4, 5, 6, 7, 8]).unwrap();
    let wrapped = rzip_wrap(&plain);
    assert_eq!(&wrapped[..8], b"#RZIPv\x01#");
    assert_eq!(
        u32::from_le_bytes(wrapped[8..12].try_into().unwrap()),
        RZIP_DEFAULT_CHUNK_SIZE as u32
    );
    assert_eq!(u64::from_le_bytes(wrapped[12..20].try_into().unwrap()), plain.len() as u64);
    let chunk_len = u32::from_le_bytes(wrapped[20..24].try_into().unwrap()) as usize;
    assert_eq!(wrapped.len(), 20 + 4 + chunk_len);
    assert_eq!(rzip_unwrap(&wrapped).unwrap(), plain);
}

#[test]
fn rzip_roundtrips_across_chunk_boundaries() {
    let near = (0..300_000u32).map(|i| (i % 251) as u8).collect::<Vec<_>>();
    assert_eq!(rzip_unwrap(&rzip_wrap(&near)).unwrap(), near);
    let exact = (0..RZIP_DEFAULT_CHUNK_SIZE as u32).map(|i| (i % 251) as u8).collect::<Vec<_>>();
    assert_eq!(rzip_unwrap(&rzip_wrap(&exact)).unwrap(), exact);
    let one_over =
        (0..RZIP_DEFAULT_CHUNK_SIZE as u32 + 1).map(|i| (i % 251) as u8).collect::<Vec<_>>();
    assert_eq!(rzip_unwrap(&rzip_wrap(&one_over)).unwrap(), one_over);
}

fn retroarch_style_container() -> Vec<u8> {
    let mut bytes = Vec::new();
    bytes.extend_from_slice(b"RASTATE");
    bytes.push(1);
    bytes.extend_from_slice(b"XXXX");
    bytes.extend_from_slice(&4u32.to_le_bytes());
    bytes.extend_from_slice(b"data");
    bytes.extend_from_slice(&[0xaa; 4]);
    bytes.extend_from_slice(b"MEM ");
    bytes.extend_from_slice(&8u32.to_le_bytes());
    bytes.extend_from_slice(&[42, 0, 0, 0, 0, 0, 0, 0]);
    bytes.extend_from_slice(b"END ");
    bytes.extend_from_slice(&0u32.to_le_bytes());
    bytes
}

#[test]
fn load_accepts_an_uncompressed_retroarch_file() {
    let backend = FakeCore { state: Cell::new(7) };
    load_from_path(&backend, Ok(retroarch_style_container())).unwrap();
    assert_eq!(backend.state.get(), 42);
}

#[test]
fn load_accepts_an_rzip_wrapped_retroarch_file() {
    let backend = FakeCore { state: Cell::new(7) };
    load_from_path(&backend, Ok(rzip_wrap(&retroarch_style_container()))).unwrap();
    assert_eq!(backend.state.get(), 42);
}

#[test]
fn load_passes_on_the_read_error() {
    let backend = FakeCore { state: Cell::new(7) };
    let error = load_from_path(&backend, Err(StateError::Io("denied".to_owned()))).unwrap_err();
    assert!(matches!(error, StateError::Io(m) if m == "denied"));
    assert_eq!(backend.state.get(), 7);
}

#[test]
fn saved_state_pads_payloads_to_8_byte_alignment() {
    assert_eq!(encode(&[1u8; 8]).unwrap().len(), 32);
    assert_eq!(encode(&[1u8; 9]).unwrap().len(), 40);
    assert_eq!(encode(&[1u8; 15]).unwrap().len(), 40);
    assert_eq!(encode(&[1u8; 16]).unwrap().len(), 40);
}

#[test]
fn rzip_unwrap_rejects_malformed_headers() {
    let wrapped = rzip_wrap(&encode(&[1u8; 8]).unwrap());
    let mut no_chunk_size = wrapped.clone();
    no_chunk_size[8..12].copy_from_slice(&0u32.to_le_bytes());
    assert!(matches!(rzip_unwrap(&no_chunk_size), Err(StateError::Truncated)));
    let mut huge_chunk_size = wrapped.clone();
    huge_chunk_size[8..12].copy_from_slice(&(RZIP_MAX_CHUNK_SIZE as u32 + 1).to_le_bytes());
    assert!(matches!(rzip_unwrap(&huge_chunk_size), Err(StateError::Truncated)));
    let mut no_total = wrapped.clone();
    no_total[12..20].copy_from_slice(&0u64.to_le_bytes());
    assert!(matches!(rzip_unwrap(&no_total), Err(StateError::Truncated)));
    let mut oversized = wrapped.clone();
    oversized[12..20].copy_from_slice(&(MAX_RZIP_CONTENT as u64 + 1).to_le_bytes());
    assert!(matches!(rzip_unwrap(&oversized), Err(StateError::TooLarge { .. })));
}

#[test]
fn rzip_unwrap_rejects_truncated_or_corrupt_chunks() {
    let wrapped = rzip_wrap(&encode(&[1u8; 64]).unwrap());
    assert!(matches!(rzip_unwrap(&wrapped[..20]), Err(StateError::Truncated)));
    assert!(matches!(rzip_unwrap(&wrapped[..wrapped.len() - 3]), Err(StateError::Truncated)));
    let mut corrupt = wrapped.clone();
    let last = corrupt.len() - 1;
    corrupt[last] ^= 0xff;
    assert!(matches!(rzip_unwrap(&corrupt), Err(StateError::Truncated)));
    let mut lying = wrapped.clone();
    lying[20..24].copy_from_slice(&(wrapped.len() as u32).to_le_bytes());
    assert!(matches!(rzip_unwrap(&lying), Err(StateError::Truncated)));
}

fn container(version: u8, blocks: &[(&[u8; 4], &[u8])], end: bool) -> Vec<u8> {
    let mut bytes = Vec::new();
    bytes.extend_from_slice(b"RASTATE");
    bytes.push(version);
    for (tag, data) in blocks {
        bytes.extend_from_slice(*tag);
        bytes.extend_from_slice(&(data.len() as u32).to_le_bytes());
        bytes.extend_from_slice(data);
    }
    if end {
        bytes.extend_from_slice(b"END ");
        bytes.extend_from_slice(&0u32.to_le_bytes());
    }
    bytes
}

#[test]
fn parse_state_skips_unknown_blocks_and_ignores_padding_bytes() {
    let mut bytes = Vec::new();
    bytes.extend_from_slice(b"RASTATE");
    bytes.push(1);
    bytes.extend_from_slice(b"XXXX");
    bytes.extend_from_slice(&3u32.to_le_bytes());
    bytes.extend_from_slice(b"abc");
    bytes.extend_from_slice(&[0xaa; 5]);
    bytes.extend_from_slice(b"MEM ");
    bytes.extend_from_slice(&8u32.to_le_bytes());
    bytes.extend_from_slice(&[42, 0, 0, 0, 0, 0, 0, 0]);
    bytes.extend_from_slice(b"END ");
    bytes.extend_from_slice(&0u32.to_le_bytes());
    assert_eq!(parse_state(&bytes).unwrap(), &[42, 0, 0, 0, 0, 0, 0, 0]);
}

#[test]
fn parse_state_uses_the_last_mem_block() {
    let bytes = container(
        1,
        &[(b"MEM ", &[7, 0, 0, 0, 0, 0, 0, 0]), (b"MEM ", &[42, 0, 0, 0, 0, 0, 0, 0])],
        true,
    );
    assert_eq!(parse_state(&bytes).unwrap(), &[42, 0, 0, 0, 0, 0, 0, 0]);
}

#[test]
fn parse_state_loads_files_without_an_end_block() {
    let bytes = container(1, &[(b"MEM ", &[42, 0, 0, 0, 0, 0, 0, 0])], false);
    assert_eq!(parse_state(&bytes).unwrap(), &[42, 0, 0, 0, 0, 0, 0, 0]);
}

#[test]
fn parse_state_rejects_an_end_block_without_a_mem_block() {
    let bytes = container(1, &[], true);
    assert!(matches!(parse_state(&bytes), Err(StateError::NotAState)));
}

#[test]
fn parse_state_rejects_truncated_blocks() {
    let mut bytes = Vec::new();
    bytes.extend_from_slice(b"RASTATE");
    bytes.push(1);
    bytes.extend_from_slice(b"MEM ");
    bytes.extend_from_slice(&100u32.to_le_bytes());
    bytes.extend_from_slice(&[0; 8]);
    assert!(matches!(parse_state(&bytes), Err(StateError::Truncated)));
}

#[test]
fn parse_state_rejects_every_other_format() {
    assert!(matches!(parse_state(&[]), Err(StateError::NotAState)));
    assert!(matches!(parse_state(b"RASTATE"), Err(StateError::NotAState)));
    assert!(matches!(parse_state(b"JARO...."), Err(StateError::NotAState)));
    assert!(matches!(parse_state(b"#RZIPv\x01#........"), Err(StateError::NotAState)));
    assert!(matches!(parse_state(&[1, 2, 3, 4, 5, 6, 7, 8]), Err(StateError::NotAState)));
}

#[test]
fn parse_state_rejects_future_versions() {
    let bytes = container(2, &[(b"MEM ", &[42, 0, 0, 0, 0, 0, 0, 0])], false);
    assert!(matches!(parse_state(&bytes), Err(StateError::UnsupportedVersion(2))));
}

#[test]
fn stored_snapshots_are_trimmed_to_the_budget_keeping_the_newest() {
    let mut rewind = Rewind::new(8, 2, 0).unwrap();
    rewind.store(0, &[1; 8]);
    rewind.store(2, &[2; 8]);
    assert_eq!(rewind.frames(), vec![2]);

    let mut roomy = Rewind::new(8, 2, 1 << 20).unwrap();
    roomy.store(0, &[1; 8]);
    roomy.store(2, &[2; 8]);
    assert_eq!(roomy.frames(), vec![0, 2]);
}

#[test]
fn a_refused_restore_changes_nothing_and_an_accepted_one_replays() {
    let core = FakeCore { state: Cell::new(0) };
    let mut rewind = Rewind::new(8, 2, 1024).unwrap();
    play(&core, &mut rewind, 6);
    let mut runs = 0;

    assert_eq!(rewind.replay_from(&core, 2, 4, false, &mut FrameRunner::new(|| runs += 1)), None);
    assert_eq!(runs, 0);
    assert_eq!(rewind.frames(), [0, 2, 4, 6]);

    assert_eq!(rewind.replay_from(&core, 2, 4, true, &mut FrameRunner::new(|| runs += 1)), Some(4));
    assert_eq!(runs, 2);
    assert_eq!(rewind.frames(), [0, 2, 4]);
}

#[test]
fn the_last_taken_frame_time_registration_is_reported_before_each_frame() {
    let mut state = CallbackState::reset(None);
    assert_eq!(state.frame_time_argument(), None);
    assert!(state.set_frame_time_callback(true, 16667));
    assert!(!state.set_frame_time_callback(false, 5));
    assert!(!state.set_frame_time_callback(true, 0));
    state.set_joypad_buttons(1 << BUTTON_A);
    assert_eq!(state.frame_time_argument(), Some(16667));
    assert!(state.set_frame_time_callback(true, 20000));
    assert_eq!(state.frame_time_argument(), Some(20000));
    assert_eq!(state.input_state(0, RETRO_DEVICE_JOYPAD, 0, BUTTON_A as u32), 1);
}
