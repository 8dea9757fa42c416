use asoby::config::settings::StatusSettings;
use asoby::cores::Detection;
use asoby::emulation::state::StateError;
use asoby::input::bindings::InputBindings;
use asoby::renderer::Frame;
use asoby::input::physical::InputSnapshot;
use asoby::session::{frame_after, frame_decision, saves_on_exit, FrameDecision};
use asoby::session::{
    check_launch_files, detection_error, format_status_line, load_message, message_visible,
    save_message, startup_restore, status_lines, write_status_lines, FrameClock, LatestFrameMailbox,
    LaunchFailure, MailboxTake, StartupRestore,
};

fn frame(value: u8) -> Frame {
    Frame { data: vec![value; 3], width: 1, height: 1 }
}

fn taken_data(mailbox: &mut LatestFrameMailbox<Frame>) -> Option<Vec<u8>> {
    match mailbox.take() {
        MailboxTake::Frame(f) => Some(f.data),
        _ => None,
    }
}

#[test]
fn mailbox_replaces_a_waiting_frame_with_the_latest() {
    let mut mailbox = LatestFrameMailbox::new();
    mailbox.publish(frame(1));
    mailbox.publish(frame(2));
    assert_eq!(taken_data(&mut mailbox).unwrap(), vec![2; 3]);
}

#[test]
fn closed_mailbox_discards_frames_and_rejects_new_ones() {
    let mut mailbox = LatestFrameMailbox::new();
    mailbox.publish(frame(1));
    mailbox.close();
    assert!(matches!(mailbox.take(), MailboxTake::Closed));
    assert!(!mailbox.publish(frame(2)));
}

#[test]
fn mailbox_replaces_an_unconsumed_frame_with_the_latest() {
    let mut mailbox = LatestFrameMailbox::new();
    mailbox.publish(frame(1));
    mailbox.publish(frame(2));
    assert_eq!(taken_data(&mut mailbox).unwrap(), vec![2; 3]);
}

#[test]
fn closed_mailbox_rejects_frames() {
    let mut mailbox: LatestFrameMailbox<Frame> = LatestFrameMailbox::new();
    mailbox.close();
    assert!(!mailbox.publish(frame(1)));
}

#[test]
fn mailbox_requests_another_frame_after_the_current_one_is_received() {
    let mut mailbox = LatestFrameMailbox::new();
    assert!(mailbox.wants_frame());
    mailbox.publish(frame(1));
    assert!(!mailbox.wants_frame());
    assert!(taken_data(&mut mailbox).is_some());
    assert!(matches!(mailbox.take(), MailboxTake::Empty));
    assert!(mailbox.wants_frame());
    mailbox.close();
    assert!(!mailbox.wants_frame());
}

#[test]
fn status_line_centers_and_dims_controls() {
    assert_eq!(format_status_line("Exit", 10), "   \x1b[2mExit\x1b[0m");
}

#[test]
fn status_line_truncates_before_centering() {
    assert_eq!(format_status_line("Exit-escape", 4), "\x1b[2mExit\x1b[0m");
}

#[test]
fn universal_status_switch_hides_both_groups() {
    let lines = status_lines(
        &InputBindings::default(),
        StatusSettings { enabled: false, gamepad: true, controls: true },
    );
    assert!(lines.is_empty());
}

#[test]
fn group_status_switches_are_independent() {
    let lines = status_lines(
        &InputBindings::default(),
        StatusSettings { enabled: true, gamepad: false, controls: true },
    );
    assert_eq!(lines, ["Save-f2 Load-f4 Rewind-r Exit-escape"]);
}

#[test]
fn status_rows_render_gamepad_above_controls() {
    let lines = vec!["Game".to_string(), "Controls".to_string()];
    assert_eq!(
        write_status_lines(&lines, None, 20, 2),
        "\x1b[1;1H\x1b[0m\x1b[K        \x1b[2mGame\x1b[0m\x1b[2;1H\x1b[0m\x1b[K      \x1b[2mControls\x1b[0m"
    );
}

#[test]
fn one_row_terminal_prioritizes_controls() {
    let lines = vec!["Game".to_string(), "Controls".to_string()];
    assert_eq!(
        write_status_lines(&lines, None, 20, 1),
        "\x1b[1;1H\x1b[0m\x1b[K      \x1b[2mControls\x1b[0m"
    );
}

#[test]
fn hidden_status_still_renders_a_message() {
    assert_eq!(write_status_lines(&vec![], Some("Saved"), 10, 2), "\x1b[2;1H\x1b[0mSaved\x1b[0m");
}

#[test]
fn status_message_uses_last_terminal_row() {
    assert_eq!(write_status_lines(&vec![], Some("Saved"), 10, 2), "\x1b[2;1H\x1b[0mSaved\x1b[0m");
}

#[test]
fn status_lines_keep_only_rows_that_fit() {
    let lines = vec!["first".to_owned(), "second".to_owned()];
    let output = write_status_lines(&lines, None, 20, 1);
    assert!(output.contains("second"));
    assert!(!output.contains("first"));
}

#[test]
fn message_does_not_change_the_centered_controls_position() {
    let lines = vec!["Controls".to_string()];
    assert_eq!(
        write_status_lines(&lines, Some("Saved"), 20, 2),
        "\x1b[2;1H\x1b[0m\x1b[K      \x1b[2mControls\x1b[0m\x1b[2;1H\x1b[0mSaved\x1b[0m"
    );
}

#[test]
fn zero_sized_terminal_does_not_render_status() {
    let lines = vec!["Controls".to_string()];
    assert!(write_status_lines(&lines, Some("Saved"), 20, 0).is_empty());
}

#[test]
fn long_messages_are_clipped_to_the_terminal_width() {
    assert_eq!(write_status_lines(&vec![], Some("Loading"), 4, 1), "\x1b[1;1H\x1b[0mLoad\x1b[0m");
}

#[test]
fn launch_checks_the_state_file_before_the_rom() {
    assert_eq!(
        check_launch_files(Some("s.state"), false, "game.nes", false),
        Err(LaunchFailure::MissingState("s.state".to_owned()))
    );
    assert_eq!(
        check_launch_files(None, false, "game.nes", false),
        Err(LaunchFailure::MissingRom("game.nes".to_owned()))
    );
    assert_eq!(check_launch_files(Some("s.state"), true, "game.nes", true), Ok(()));
}

#[test]
fn launch_failures_describe_themselves() {
    assert_eq!(LaunchFailure::MissingRom("a.nes".to_owned()).message(), "file not found: a.nes");
    assert_eq!(
        LaunchFailure::CoreResolution { message: "bad".to_owned(), cores_dir: "/c".to_owned() }
            .message(),
        "bad\n  Place cores in /c or use -c to specify a path"
    );
    assert_eq!(
        LaunchFailure::StartupState { path: "s".to_owned(), message: "m".to_owned() }.message(),
        "failed to load state s: m"
    );
}

#[test]
fn startup_restores_the_requested_state() {
    assert_eq!(
        startup_restore(Some("s.state"), true, true),
        Ok(StartupRestore::StateFile("s.state".to_owned()))
    );
    assert_eq!(
        startup_restore(Some("s.state"), false, false),
        Err(LaunchFailure::UnsupportedStartupState("s.state".to_owned()))
    );
    assert_eq!(startup_restore(None, true, true), Ok(StartupRestore::Newest));
    assert_eq!(startup_restore(None, true, false), Ok(StartupRestore::Nothing));
    assert_eq!(startup_restore(None, false, true), Ok(StartupRestore::Nothing));
}

#[test]
fn undetected_cores_are_explained() {
    assert_eq!(
        detection_error("game.xyz", &Detection::Unknown).unwrap(),
        "No known system uses the '.xyz' extension. Use --core to specify a core explicitly."
    );
    let ambiguous = Detection::Ambiguous { candidates: vec!["genesis_plus_gx", "stella"] };
    assert_eq!(
        detection_error("game.bin", &ambiguous).unwrap(),
        "Multiple cores support \"game.bin\".\n\nSelect one explicitly:\n  asoby game.bin --core genesis_plus_gx\n  asoby game.bin --core stella\n"
    );
    assert!(detection_error("game.nes", &Detection::Detected { core_name: "nestopia" }).is_none());
}

#[test]
fn status_messages_expire_after_two_seconds() {
    assert!(message_visible(1_000, 1_000));
    assert!(message_visible(0, 1_999_999_999));
    assert!(!message_visible(0, 2_000_000_000));
    assert!(message_visible(5, 3));
}

#[test]
fn frame_clock_keeps_the_schedule_and_never_falls_behind() {
    let mut clock = FrameClock::new(0, 10, 25);
    assert!(clock.capture_due(0, true));
    assert!(!clock.capture_due(0, false));
    clock.rendered(3);
    assert_eq!(clock.next_render, 25);
    clock.rendered(100);
    assert_eq!(clock.next_render, 100);
    assert_eq!(clock.frame_done(4), Some(6));
    assert_eq!(clock.next_frame, 10);
    assert_eq!(clock.frame_done(50), None);
    assert_eq!(clock.next_frame, 50);
}

#[test]
fn save_and_load_outcomes_become_status_messages() {
    assert_eq!(save_message(&Ok("x.state".to_owned())), "State saved");
    assert_eq!(save_message(&Err(StateError::SerializationFailed)), "Save failed: core failed to serialize its state");
    assert_eq!(load_message(&Ok(Some("x".to_owned()))), "State loaded");
    assert_eq!(load_message(&Ok(None)), "No save state found");
    assert_eq!(load_message(&Err(StateError::Truncated)), "Load failed: truncated state file");
}

#[test]
fn prepare_returns_structured_failure_for_a_missing_rom() {
    let rom = "/tmp/launch/missing.rom";

    let failure = check_launch_files(None, false, rom, false).unwrap_err();

    assert!(matches!(failure, LaunchFailure::MissingRom(path) if path == rom));
}

#[test]
fn prepare_validates_an_explicit_state_before_the_rom() {
    let state = "/tmp/launch/missing.state";

    let failure = check_launch_files(Some(state), false, "/tmp/launch/missing.rom", false).unwrap_err();

    assert!(matches!(failure, LaunchFailure::MissingState(path) if path == state));
}

#[test]
fn saving_loading_and_rewinding_need_support_and_a_buffer() {
    let snapshot = InputSnapshot {
        joypad_mask: 0,
        quit_requested: false,
        rewind_held: true,
        save_requested: true,
        load_requested: true,
    };
    assert_eq!(
        frame_decision(&snapshot, false, false),
        FrameDecision { save: false, load: false, rewind: false, quit: false }
    );
    assert_eq!(
        frame_decision(&snapshot, true, true),
        FrameDecision { save: true, load: true, rewind: true, quit: false }
    );
    let quitting = InputSnapshot { quit_requested: true, ..InputSnapshot::default() };
    assert_eq!(frame_decision(&quitting, true, true), FrameDecision { save: false, load: false, rewind: false, quit: true });
}

#[test]
fn the_frame_counter_follows_rewinds_and_advances_otherwise() {
    assert_eq!(frame_after(6, Some(4)), (4, true));
    assert_eq!(frame_after(6, None), (7, false));
}

#[test]
fn save_on_exit_needs_serialization_support() {
    assert!(saves_on_exit(true, true));
    assert!(!saves_on_exit(false, true));
    assert!(!saves_on_exit(true, false));
}
