use asoby::render::ascii::AsciiRenderer as HalfBlockRenderer;
use asoby::render::debug::{iso_format, DebugRenderer};
use asoby::render::viuer::{iterm_supports_kitty_graphics, kitty_streaming_supported, ViuRenderer};
use asoby::render::{create, RenderBackend};
use asoby::renderer::ascii::{average_region, AsciiRenderer};
use asoby::renderer::auto::{needs_probe, select, watch_response, ResponseScan};
use asoby::renderer::block::BlockRenderer;
use asoby::renderer::graphic::{fit_cell_size, GraphicRenderer, KITTY_IMAGE_ID, KITTY_PLACEMENT_ID};
use asoby::renderer::{Frame, RendererMode};
use asoby::input::keys::KeyCode;
use base64::prelude::{Engine as _, BASE64_STANDARD};
use flate2::read::ZlibDecoder;
use std::io::Read;

// ── Character renderer ─────────────────────────────────────────────────────

#[test]
fn average_region_averages_all_pixels() {
    let mut data = vec![0u8; 2 * 2 * 3];
    data[0..3].copy_from_slice(&[255, 0, 0]);
    data[3..6].copy_from_slice(&[0, 255, 0]);
    data[6..9].copy_from_slice(&[0, 0, 255]);
    data[9..12].copy_from_slice(&[255, 255, 255]);
    let frame = Frame { data, width: 2, height: 2 };
    let (r, g, b, count) = average_region(&frame, 0, 0, 2, 2);
    assert_eq!((r, g, b), (127, 127, 127));
    assert_eq!(count, 4);
}

#[test]
fn average_region_ignores_pixels_outside_the_frame_data() {
    let frame = Frame { data: vec![10, 20, 30, 40, 50, 60, 70, 80, 90], width: 3, height: 1 };
    let (r, g, b, count) = average_region(&frame, 0, 0, 5, 1);
    assert_eq!((r, g, b), (40, 50, 60));
    assert_eq!(count, 3);
}

#[test]
fn average_region_empty_region_returns_zero() {
    let frame = Frame { data: vec![0, 0, 0], width: 1, height: 1 };
    assert_eq!(average_region(&frame, 1, 1, 1, 1), (0, 0, 0, 0));
}

#[test]
fn single_cells_render_their_ramp_character() {
    let renderer = AsciiRenderer;
    assert_eq!(
        renderer.compose(1, 1, 1, 1, &vec![Some((255, 255, 255, 9))]),
        b"\x1b[H\x1b[38;2;255;255;255m@\x1b[0m"
    );
    assert_eq!(renderer.compose(1, 1, 1, 1, &vec![Some((0, 0, 0, 0))]), b"\x1b[H\x1b[38;2;0;0;0m \x1b[0m");
    assert_eq!(
        renderer.compose(1, 1, 1, 1, &vec![Some((128, 128, 128, 5))]),
        b"\x1b[H\x1b[38;2;128;128;128m+\x1b[0m"
    );
    assert_eq!(renderer.compose(1, 1, 1, 1, &vec![Some((1, 2, 3, 40))]), b"\x1b[H\x1b[38;2;1;2;3m@\x1b[0m");
}

#[test]
fn character_screen_is_centred_with_blank_padding() {
    let renderer = AsciiRenderer;
    let cells = vec![None, Some((1, 1, 1, 0))];
    let out = renderer.compose(4, 3, 2, 1, &cells);
    let text = String::from_utf8(out).unwrap();
    assert_eq!(text, "\x1b[H      \x1b[38;2;1;1;1m \x1b[0m     ");
    assert!(renderer.compose(0, 3, 0, 0, &vec![]).is_empty());
}

// ── Automatic selection ────────────────────────────────────────────────────

#[test]
fn selects_block_when_alt_screen_is_disabled() {
    assert_eq!(select(true, false), RendererMode::Block);
    assert_eq!(select(true, true), RendererMode::Block);
    assert!(!needs_probe(true, true));
}

#[test]
fn kitty_support_selects_graphics() {
    assert!(needs_probe(false, true));
    assert_eq!(select(false, true), RendererMode::Graphic);
    assert_eq!(select(false, false), RendererMode::Block);
}

#[test]
fn detects_kitty_ok_across_chars() {
    let codes = ['_', 'G', ';', 'O', 'K', '\\'].map(KeyCode::Char);
    let mut previous = None;
    assert!(codes.iter().any(|&code| watch_response(&mut previous, code)));
}

#[test]
fn ignores_non_ok_responses() {
    let codes = ['E', 'R', 'R', 'O', 'R'].map(KeyCode::Char);
    let mut previous = None;
    assert!(!codes.iter().any(|&code| watch_response(&mut previous, code)));
}

#[test]
fn non_char_events_reset_the_sequence() {
    let codes = [KeyCode::Char('O'), KeyCode::Esc, KeyCode::Char('K')];
    let mut previous = None;
    assert!(!codes.iter().any(|&code| watch_response(&mut previous, code)));
}

#[test]
fn completes_only_after_the_response_terminator() {
    let mut scan = ResponseScan::new();
    for c in ['_', 'G', ';', 'O', 'K'] {
        assert!(!scan.feed(KeyCode::Char(c)));
    }
    assert!(scan.feed(KeyCode::Char('\\')));
}

#[test]
fn consumes_fragmented_terminator_with_standalone_esc() {
    let mut scan = ResponseScan::new();
    assert!(!scan.feed(KeyCode::Char('O')));
    assert!(!scan.feed(KeyCode::Char('K')));
    assert!(!scan.feed(KeyCode::Esc));
    assert!(scan.feed(KeyCode::Char('\\')));
}

#[test]
fn ok_without_terminator_never_completes() {
    let mut scan = ResponseScan::new();
    assert!(!scan.feed(KeyCode::Char('O')));
    assert!(!scan.feed(KeyCode::Char('K')));
    assert!(!scan.feed(KeyCode::Char('x')));
    assert!(!scan.feed(KeyCode::Char('y')));
}

// ── Half blocks ────────────────────────────────────────────────────────────

#[test]
fn no_alt_screen_disables_alternate_screen() {
    let renderer = BlockRenderer::new(true);
    assert!(!renderer.use_alternate_screen);
}

#[test]
fn alternate_screen_is_entered_once_and_left_once() {
    let mut renderer = BlockRenderer::new(false);
    assert!(renderer.should_enter_screen(true));
    assert!(!renderer.should_enter_screen(false));
    renderer.screen_entered(true);
    assert!(!renderer.should_enter_screen(true));
    assert!(renderer.leave_screen());
    assert!(!renderer.leave_screen());
}

fn white_cells(n: usize) -> Vec<((u8, u8, u8), (u8, u8, u8))> {
    vec![((255, 255, 255), (255, 255, 255)); n]
}

#[test]
fn frame_repaint_starts_at_terminal_home() {
    let frame = Frame { data: vec![255; 12], width: 2, height: 2 };
    // A square frame in a 2x2 terminal is drawn 2 cells wide and 1 tall.
    let out = BlockRenderer::new(false).render_sized(&frame, 2, 2, 2, 1);
    assert!(out.starts_with("\x1b[H"));
}

#[test]
fn frame_repaint_does_not_emit_newlines() {
    let frame = Frame { data: vec![255; 12], width: 2, height: 2 };
    let out = BlockRenderer::new(false).render_sized(&frame, 2, 2, 2, 1);
    assert!(!out.contains('\n'));
}

#[test]
fn compose_does_not_emit_newlines() {
    let out = BlockRenderer::new(false).compose(2, 2, 2, 2, &white_cells(4));
    assert!(out.starts_with("\x1b[H"));
    assert!(!out.contains('\n'));
}

#[test]
fn scaling_a_uniform_frame_keeps_its_colour() {
    let frame = Frame { data: [10u8, 20, 30].repeat(4), width: 2, height: 2 };
    let out = BlockRenderer::new(false).render_sized(&frame, 4, 1, 2, 1);
    let cell = "\x1b[38;2;10;20;30m\x1b[48;2;10;20;30m\u{2580}";
    assert_eq!(out, format!("\x1b[H\x1b[0m {cell}{cell}\x1b[0m "));
}

#[test]
fn a_frame_with_short_data_is_drawn_black() {
    let frame = Frame { data: vec![255; 5], width: 2, height: 2 };
    let out = BlockRenderer::new(false).render_sized(&frame, 1, 1, 1, 1);
    assert_eq!(out, "\x1b[H\x1b[0m\x1b[38;2;0;0;0m\x1b[48;2;0;0;0m\u{2580}\x1b[0m");
}

#[test]
fn half_block_cells_carry_both_pixels() {
    let cells = vec![((1, 2, 3), (4, 5, 6))];
    let out = BlockRenderer::new(false).compose(3, 1, 1, 1, &cells);
    assert_eq!(out, "\x1b[H\x1b[0m \x1b[38;2;1;2;3m\x1b[48;2;4;5;6m\u{2580}\x1b[0m ");
}

// ── Kitty graphics ─────────────────────────────────────────────────────────

#[test]
fn fit_cell_size_bounds_and_rounds_correctly() {
    assert_eq!(fit_cell_size(200, 200, None, 22), (44, 22));
    assert_eq!(fit_cell_size(200, 100, None, 22), (88, 22));
    assert_eq!(fit_cell_size(80, 40, None, 22), (80, 20));
    assert_eq!(fit_cell_size(80, 39, None, 22), (80, 20));
    assert_eq!(fit_cell_size(200, 200, Some(1), 1), (1, 1));
}

fn test_frame(width: u32, height: u32) -> Frame {
    let data = (0..height)
        .flat_map(|y| (0..width).flat_map(move |x| [x as u8, y as u8, (x ^ y) as u8]))
        .collect();
    Frame { data, width, height }
}

fn rgba_of(frame: &Frame) -> Vec<u8> {
    let mut expected = Vec::new();
    for pixel in frame.data.chunks(3) {
        expected.extend_from_slice(pixel);
        expected.push(0xff);
    }
    expected
}

fn first_payload(output: &str) -> (&str, &str) {
    let command = output.split_once("\x1b_G").unwrap().1;
    let (control, rest) = command.split_once(';').unwrap();
    (control, rest.split_once("\x1b\\").unwrap().0)
}

#[test]
fn graphic_kitty_stream_reuses_image_and_placement_ids() {
    let mut renderer = GraphicRenderer::new(true);
    renderer.width = Some(1);
    renderer.height = Some(1);
    let frame = Frame { data: vec![1, 2, 3, 1, 2, 3, 1, 2, 3, 1, 2, 3], width: 2, height: 2 };
    let output = String::from_utf8(renderer.render_kitty_at(&frame, 80, 24)).unwrap();
    assert!(output.contains(&format!("a=t,f=32,t=d,o=z,s=2,v=2,i={KITTY_IMAGE_ID}")));
    assert!(output.contains(&format!("a=p,i={KITTY_IMAGE_ID},p={KITTY_PLACEMENT_ID},c=1,r=1")));
    assert!(!output.contains("a=T"));
    assert!(output.starts_with("\x1b[?2026h"));
    assert!(output.ends_with("\x1b[?2026l"));
}

#[test]
fn kitty_stream_compresses_rgba_payload_with_zlib() {
    let renderer = GraphicRenderer::new(true);
    let frame = test_frame(4, 4);
    let output = String::from_utf8(renderer.render_kitty_at(&frame, 80, 24)).unwrap();
    let (_, payload) = first_payload(&output);
    let compressed = BASE64_STANDARD.decode(payload).unwrap();
    let mut decoded = Vec::new();
    ZlibDecoder::new(compressed.as_slice()).read_to_end(&mut decoded).unwrap();
    assert_eq!(decoded, rgba_of(&frame));
}

#[test]
fn kitty_stream_sends_uncompressed_rgba_when_compression_is_disabled() {
    let renderer = GraphicRenderer::new(false);
    let frame = test_frame(4, 4);
    let output = String::from_utf8(renderer.render_kitty_at(&frame, 80, 24)).unwrap();
    let (control, payload) = first_payload(&output);
    let decoded = BASE64_STANDARD.decode(payload).unwrap();
    assert_eq!((control.contains("o=z"), decoded), (false, rgba_of(&frame)));
}

#[test]
fn graphic_kitty_stream_silences_every_image_chunk() {
    let renderer = GraphicRenderer::new(true);
    let frame = test_frame(64, 64);
    let output = String::from_utf8(renderer.render_kitty_at(&frame, 80, 24)).unwrap();
    let chunks = output.match_indices("\x1b_Gm=").map(|(i, _)| &output[i..]).collect::<Vec<_>>();
    assert!(chunks.len() > 1);
    assert!(chunks
        .iter()
        .all(|c| c.starts_with("\x1b_Gm=1,q=2;") || c.starts_with("\x1b_Gm=0,q=2;")));
}

#[test]
fn kitty_stream_reserves_status_rows_below_the_image() {
    let renderer = GraphicRenderer::new(true);
    let frame = Frame { data: vec![1; 200 * 200 * 3], width: 200, height: 200 };
    let output = String::from_utf8(renderer.render_kitty_at(&frame, 80, 22)).unwrap();
    assert!(output.contains("\x1b[1;19H"));
    assert!(output.contains("c=44,r=22"));
}

#[test]
fn empty_viewport_draws_nothing() {
    let renderer = GraphicRenderer::new(true);
    assert!(renderer.render_kitty_at(&test_frame(2, 2), 0, 24).is_empty());
    assert!(renderer.render_kitty_at(&test_frame(2, 2), 80, 0).is_empty());
}

// ── Terminal renderer ──────────────────────────────────────────────────────

#[test]
fn scrollback_mode_disables_streaming_protocols() {
    let renderer = ViuRenderer::new(true);
    assert!(!renderer.use_alternate_screen);
    assert!(!renderer.kitty_streaming);
    assert!(!renderer.config.absolute_offset);
}

#[test]
fn automatic_renderer_disables_viuer_protocol_backends() {
    let renderer = ViuRenderer::new(false);
    assert!(!renderer.config.use_kitty && !renderer.config.use_iterm);
}

#[test]
fn kitty_window_id_enables_streaming_without_a_probe() {
    assert!(kitty_streaming_supported(Some("1"), Some("xterm-256color"), None, None));
}

#[test]
fn generic_terminal_does_not_enable_kitty_streaming() {
    assert!(!kitty_streaming_supported(None, Some("xterm-256color"), None, None));
}

#[test]
fn zed_enables_kitty_streaming_without_a_probe() {
    assert!(kitty_streaming_supported(None, Some("xterm-256color"), Some("zed"), None));
}

#[test]
fn recent_iterm_enables_kitty_streaming_without_a_probe() {
    assert!(kitty_streaming_supported(None, Some("xterm-256color"), Some("iTerm.app"), Some("3.6.5")));
}

#[test]
fn older_iterm_falls_back_without_requesting_file_display() {
    assert!(!kitty_streaming_supported(None, Some("xterm-256color"), Some("iTerm.app"), Some("3.4.23")));
}

#[test]
fn iterm_versions_compare_by_leading_digits() {
    assert!(iterm_supports_kitty_graphics("3.5.5"));
    assert!(iterm_supports_kitty_graphics("3.5.5beta2"));
    assert!(iterm_supports_kitty_graphics("4"));
    assert!(!iterm_supports_kitty_graphics("3.5"));
    assert!(!iterm_supports_kitty_graphics("3.5.4"));
    assert!(!iterm_supports_kitty_graphics(""));
    assert!(!iterm_supports_kitty_graphics("99999999999.1"));
}

#[test]
fn streaming_is_detected_only_on_the_alternate_screen_of_a_terminal() {
    let mut renderer = ViuRenderer::new(false);
    renderer.detect_kitty(true, Some("7"), None, None, None);
    assert!(renderer.kitty_streaming);
    renderer.detect_kitty(false, Some("7"), None, None, None);
    assert!(!renderer.kitty_streaming);
    let mut scrollback = ViuRenderer::new(true);
    scrollback.detect_kitty(true, Some("7"), None, None, None);
    assert!(!scrollback.kitty_streaming);
}

#[test]
fn renderer_names_select_backends() {
    match create("debug", "/roms/Super Game.sfc", false) {
        RenderBackend::Debug(d) => assert_eq!(d.base_name, "Super Game"),
        _ => panic!("expected the debug renderer"),
    }
    match create("debug", "/", false) {
        RenderBackend::Debug(d) => assert_eq!(d.base_name, "unknown"),
        _ => panic!("expected the debug renderer"),
    }
    assert!(matches!(create("ascii", "x.nes", true), RenderBackend::Ascii(_)));
    assert!(matches!(create("kitty", "x.nes", true), RenderBackend::Viu(_)));
    let half = HalfBlockRenderer::new(false);
    assert_eq!(half.inner, ViuRenderer::new(false));
}

#[test]
fn debug_frames_are_named_after_the_time() {
    assert_eq!(iso_format(0), "1970-01-01T00-00-00");
    assert_eq!(iso_format(951_782_400), "2000-02-29T00-00-00");
    assert_eq!(iso_format(1_785_684_725), "2026-08-02T15-32-05");
    let mut renderer = DebugRenderer::new("game");
    assert_eq!(renderer.frame_file_name(86_399), "game-1970-01-01T23-59-59.png");
    assert!(renderer.save_due(1_000_000_000));
    assert!(!renderer.save_due(1_500_000_000));
    assert!(renderer.save_due(2_000_000_000));
}
