use asoby::input::keys::KeyCode;
use asoby::renderer::auto::ResponseScan;
use asoby::renderer::RendererMode;
use asoby::terminal::{
    frame_viewport, is_ghostty_values, is_rio_values, probed_renderer, select_renderer,
    InputCapabilities, Lifecycle, RestoreStep,
};

#[test]
fn detects_term_program() {
    assert!(is_ghostty_values(Some("Ghostty"), None));
}

#[test]
fn detects_rio_term_program() {
    assert!(is_rio_values(Some("rio"), None));
}

#[test]
fn detects_rio_term() {
    assert!(is_rio_values(None, Some("rio")));
}

#[test]
fn detects_term() {
    assert!(is_ghostty_values(None, Some("xterm-ghostty")));
}

#[test]
fn rejects_other_terminals() {
    assert!(!is_ghostty_values(Some("iTerm.app"), Some("xterm-256color")));
    assert!(!is_rio_values(Some("iTerm.app"), Some("xterm-256color")));
}

#[test]
fn primary_screen_auto_selects_block_without_probing() {
    assert_eq!(select_renderer(RendererMode::Auto, true, true), Some(RendererMode::Block));
    assert_eq!(select_renderer(RendererMode::Auto, false, false), Some(RendererMode::Block));
    assert_eq!(select_renderer(RendererMode::Auto, false, true), None);
    assert_eq!(probed_renderer(true), RendererMode::Graphic);
    assert_eq!(probed_renderer(false), RendererMode::Block);
}

#[test]
fn explicit_graphic_remains_selected_on_primary_screen() {
    assert_eq!(select_renderer(RendererMode::Graphic, true, true), Some(RendererMode::Graphic));
}

#[test]
fn status_rows_are_reserved_below_the_frame() {
    let viewport = frame_viewport(80, 24, 2);
    assert_eq!((viewport.columns, viewport.rows), (80, 22));
    assert_eq!(frame_viewport(80, 1, 2).rows, 0);
}

#[test]
fn release_events_come_from_windows_or_keyboard_flags() {
    let caps = InputCapabilities::for_session(false, true, true, true);
    assert!(caps.release_events_supported && caps.ghostty && !caps.synthetic_releases);
    let caps = InputCapabilities::for_session(true, false, false, true);
    assert!(caps.release_events_supported && caps.synthetic_releases);
}

#[test]
fn restoring_undoes_each_mode_once_in_order() {
    let mut lifecycle = Lifecycle::started(true, true, false, true, RendererMode::Graphic);
    assert_eq!(
        lifecycle.restore(),
        vec![
            RestoreStep::DeleteImage,
            RestoreStep::LeaveAlternateScreen,
            RestoreStep::PopKeyboardFlags,
            RestoreStep::DisableFocusChange,
            RestoreStep::Flush,
            RestoreStep::DrainInput,
            RestoreStep::DisableRawMode,
        ]
    );
    assert_eq!(lifecycle.restore(), vec![RestoreStep::Flush]);
}

#[test]
fn primary_screen_keeps_the_last_image() {
    let mut lifecycle = Lifecycle::started(false, false, true, true, RendererMode::Graphic);
    assert_eq!(lifecycle.restore(), vec![RestoreStep::Flush, RestoreStep::DisableRawMode]);
    assert!(lifecycle.graphic);
}

#[test]
fn kitty_response_completes_after_terminator() {
    let mut scan = ResponseScan::new();
    for code in ['_', 'G', ';', 'O', 'K'] {
        assert!(!scan.feed(KeyCode::Char(code)));
    }
    assert!(scan.feed(KeyCode::Char('\\')));
}
