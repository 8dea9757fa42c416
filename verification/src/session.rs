//! A game session's decisions: the status bar under the picture, the
//! mailbox that hands the newest frame to the render thread, why a launch
//! fails, and the loop's frame and render schedule.
use vstd::prelude::*;
use crate::config::settings::{RewindSettings, StatusSettings};
use crate::cores::{Detection, detection_cores};
use crate::emulation::state::StateError;
use crate::input::bindings::{InputBindings, controls_line, gamepad_line};
use crate::input::physical::InputSnapshot;
use crate::renderer::RendererMode;
use crate::text::{decimal, push_chars, push_decimal, push_repeat, push_str, repeat_char, str_chars, string_from_chars};

verus! {

// ── The status bar ─────────────────────────────────────────────────────────

/// Dim text.
pub open spec fn dim_style() -> Seq<char> {
    seq!['\x1b', '[', '2', 'm']
}

/// Back to plain text.
pub open spec fn reset_style() -> Seq<char> {
    seq!['\x1b', '[', '0', 'm']
}

/// A status line for a terminal `width` columns wide: clipped to the
/// width, centred, dimmed.
pub open spec fn status_line_text(status: Seq<char>, width: nat) -> Seq<char> {
    let clipped = if status.len() <= width {
        status
    } else {
        status.take(width as int)
    };
    let padding = ((width - clipped.len()) / 2) as nat;
    repeat_char(' ', padding) + dim_style() + clipped + reset_style()
}

fn push_dim(out: &mut Vec<char>)
    ensures
        final(out)@ == old(out)@ + dim_style(),
{
    out.push('\x1b');
    out.push('[');
    out.push('2');
    out.push('m');
}

fn push_reset(out: &mut Vec<char>)
    ensures
        final(out)@ == old(out)@ + reset_style(),
{
    out.push('\x1b');
    out.push('[');
    out.push('0');
    out.push('m');
}

/// Appends `status_line_text(status, width)`.
fn push_status_line(out: &mut Vec<char>, status: &Vec<char>, width: usize)
    ensures
        final(out)@ == old(out)@ + status_line_text(status@, width as nat),
{
    let clipped = if status.len() <= width {
        crate::text::chars_range(status, 0, status.len())
    } else {
        crate::text::chars_range(status, 0, width)
    };
    assert(status@.subrange(0, status@.len() as int) =~= status@);
    let padding = (width - clipped.len()) / 2;
    push_repeat(out, ' ', padding);
    push_dim(out);
    push_chars(out, &clipped);
    push_reset(out);
}

/// Formats a status line for a terminal `width` columns wide.
pub fn format_status_line(status: &str, width: usize) -> (r: String)
    ensures
        r@ == status_line_text(status@, width as nat),
{
    let chars = str_chars(status);
    let mut out: Vec<char> = Vec::new();
    push_status_line(&mut out, &chars, width);
    string_from_chars(&out)
}

/// The status lines shown: none when the bar is off, else the gamepad
/// line and the controls line as enabled.
pub open spec fn status_lines_of(b: InputBindings, settings: StatusSettings) -> Seq<Seq<char>> {
    if !settings.enabled {
        Seq::empty()
    } else {
        (if settings.gamepad {
            seq![gamepad_line(b.gamepad@)]
        } else {
            Seq::empty()
        }) + (if settings.controls {
            seq![controls_line(b)]
        } else {
            Seq::empty()
        })
    }
}

pub fn status_lines(input_bindings: &InputBindings, settings: StatusSettings) -> (r: Vec<String>)
    ensures
        r@.map_values(|s: String| s@) == status_lines_of(*input_bindings, settings),
{
    let mut lines: Vec<String> = Vec::new();
    if !settings.enabled {
        assert(lines@.map_values(|s: String| s@) =~= status_lines_of(*input_bindings, settings));
        return lines;
    }
    if settings.gamepad {
        lines.push(input_bindings.gamepad_status_line());
    }
    if settings.controls {
        lines.push(input_bindings.controls_status_line());
    }
    assert(lines@.map_values(|s: String| s@) =~= status_lines_of(*input_bindings, settings));
    lines
}

/// The escape sequence that moves the cursor to the start of `row`.
pub open spec fn cursor_to_row(row: nat) -> Seq<char> {
    seq!['\x1b', '['] + decimal(row) + seq![';', '1', 'H']
}

fn push_cursor_to_row(out: &mut Vec<char>, row: u64)
    ensures
        final(out)@ == old(out)@ + cursor_to_row(row as nat),
{
    out.push('\x1b');
    out.push('[');
    push_decimal(out, row);
    out.push(';');
    out.push('1');
    out.push('H');
}

/// The status lines drawn from row `first_row` on, the `k` first of them.
pub open spec fn status_rows(lines: Seq<Seq<char>>, first_row: nat, columns: nat, k: int) -> Seq<char>
    decreases k,
{
    if k <= 0 {
        Seq::empty()
    } else {
        status_rows(lines, first_row, columns, k - 1) + cursor_to_row((first_row + k - 1) as nat)
            + reset_style() + seq!['\x1b', '[', 'K'] + status_line_text(lines[k - 1], columns)
    }
}

/// What the status bar draws at the bottom of a `columns` by `rows`
/// terminal: the last lines that fit, one per row ending at the bottom
/// row, and a message (clipped) over the bottom row.
pub open spec fn status_bar(lines: Seq<Seq<char>>, message: Option<Seq<char>>, columns: nat, rows: nat) -> Seq<
    char,
> {
    if columns == 0 || rows == 0 || (lines.len() == 0 && message is None) {
        Seq::empty()
    } else {
        let first = if lines.len() > rows {
            lines.len() - rows
        } else {
            0
        };
        let visible = lines.skip(first as int);
        let line_count = if visible.len() >= 1 || message is None {
            visible.len()
        } else {
            1
        };
        let first_row = (rows - line_count + 1) as nat;
        status_rows(visible, first_row, columns, visible.len() as int) + match message {
            Some(m) => cursor_to_row(rows) + reset_style() + (if m.len() <= columns {
                m
            } else {
                m.take(columns as int)
            }) + reset_style(),
            None => Seq::empty(),
        }
    }
}

/// The text that draws the status bar.
pub fn write_status_lines(status_lines: &Vec<String>, message: Option<&str>, columns: u16, rows: u16) -> (r:
    String)
    ensures
        r@ == status_bar(
            status_lines@.map_values(|s: String| s@),
            match message {
                Some(m) => Some(m@),
                None => None,
            },
            columns as nat,
            rows as nat,
        ),
{
    let ghost lines = status_lines@.map_values(|s: String| s@);
    let mut out: Vec<char> = Vec::new();
    if columns == 0 || rows == 0 || (status_lines.len() == 0 && message.is_none()) {
        return string_from_chars(&out);
    }
    let available = rows as usize;
    let first = if status_lines.len() > available {
        status_lines.len() - available
    } else {
        0
    };
    let visible_count = status_lines.len() - first;
    let line_count = if visible_count >= 1 || message.is_none() {
        visible_count
    } else {
        1
    };
    let first_row = (rows as usize) - line_count + 1;
    let ghost visible = lines.skip(first as int);
    let n = status_lines.len();
    let mut index: usize = 0;
    while index < visible_count
        invariant
            index <= visible_count,
            n == status_lines@.len(),
            visible_count == status_lines@.len() - first,
            first <= status_lines@.len(),
            lines == status_lines@.map_values(|s: String| s@),
            visible == lines.skip(first as int),
            visible_count <= rows as usize,
            line_count >= visible_count,
            line_count <= rows as usize,
            first_row == rows as usize - line_count + 1,
            out@ == status_rows(visible, first_row as nat, columns as nat, index as int),
        decreases visible_count - index,
    {
        push_cursor_to_row(&mut out, (first_row + index) as u64);
        push_reset(&mut out);
        out.push('\x1b');
        out.push('[');
        out.push('K');
        let line = str_chars(status_lines[first + index].as_str());
        push_status_line(&mut out, &line, columns as usize);
        index += 1;
    }
    match message {
        Some(m) => {
            push_cursor_to_row(&mut out, rows as u64);
            push_reset(&mut out);
            let mc = str_chars(m);
            let clipped = if mc.len() <= columns as usize {
                crate::text::chars_range(&mc, 0, mc.len())
            } else {
                crate::text::chars_range(&mc, 0, columns as usize)
            };
            assert(mc@.subrange(0, mc@.len() as int) =~= mc@);
            push_chars(&mut out, &clipped);
            push_reset(&mut out);
        },
        None => {},
    }
    string_from_chars(&out)
}


// ── The frame mailbox ──────────────────────────────────────────────────────

/// The newest frame waiting for the render thread. The emulation thread
/// publishes; a newer frame replaces one not yet taken; closing discards
/// what waits and refuses what comes. The caller guards this with a lock
/// and lets the render thread wait on a condition variable while `take`
/// finds nothing.
pub struct LatestFrameMailbox<T> {
    pub frame: Option<T>,
    pub closed: bool,
    pub waiting: bool,
}

/// What the render thread finds in the mailbox.
pub enum MailboxTake<T> {
    /// The newest frame, now taken.
    Frame(T),
    /// Nothing yet; the render thread now waits for a frame.
    Empty,
    /// The mailbox is closed.
    Closed,
}

impl<T> LatestFrameMailbox<T> {
    /// An open mailbox, with the render thread waiting for a first frame.
    pub fn new() -> (r: Self)
        ensures
            r.frame is None,
            !r.closed,
            r.waiting,
    {
        LatestFrameMailbox { frame: None, closed: false, waiting: true }
    }

    /// Leaves a frame for the render thread, replacing any not yet taken;
    /// false, with the frame dropped, once the mailbox is closed.
    pub fn publish(&mut self, frame: T) -> (r: bool)
        ensures
            r == !old(self).closed,
            final(self).closed == old(self).closed,
            r ==> final(self).frame == Some(frame) && !final(self).waiting,
            !r ==> final(self).frame == old(self).frame && final(self).waiting == old(self).waiting,
    {
        if self.closed {
            return false;
        }
        self.frame = Some(frame);
        self.waiting = false;
        true
    }

    /// Takes the waiting frame, if any, for the render thread.
    pub fn take(&mut self) -> (r: MailboxTake<T>)
        ensures
            final(self).closed == old(self).closed,
            old(self).closed ==> r is Closed && final(self).frame == old(self).frame
                && final(self).waiting == old(self).waiting,
            !old(self).closed && old(self).frame is Some ==> r == MailboxTake::Frame(
                old(self).frame.unwrap(),
            ) && final(self).frame is None && final(self).waiting == old(self).waiting,
            !old(self).closed && old(self).frame is None ==> r is Empty && final(self).frame is None
                && final(self).waiting,
    {
        if self.closed {
            return MailboxTake::Closed;
        }
        match self.frame.take() {
            Some(frame) => MailboxTake::Frame(frame),
            None => {
                self.waiting = true;
                MailboxTake::Empty
            },
        }
    }

    /// Closes the mailbox, discarding a waiting frame.
    pub fn close(&mut self)
        ensures
            final(self).closed,
            final(self).frame is None,
            !final(self).waiting,
    {
        self.closed = true;
        self.frame = None;
        self.waiting = false;
    }

    /// Whether the render thread is waiting for a frame.
    pub fn wants_frame(&self) -> (r: bool)
        ensures
            r == (self.waiting && !self.closed),
    {
        self.waiting && !self.closed
    }
}

// ── Launching ──────────────────────────────────────────────────────────────

/// What a game session is started with.
#[derive(Debug)]
pub struct Launch {
    pub renderer: RendererMode,
    pub core: Option<String>,
    pub render_fps: u32,
    pub primary_screen: bool,
    pub muted: bool,
    pub rom: String,
    pub cores_dir: String,
    pub states_dir: String,
    pub input_bindings: InputBindings,
    pub rewind: RewindSettings,
    pub status: StatusSettings,
    pub startup_state: Option<String>,
    pub resume: bool,
    pub save_on_exit: bool,
}

/// How a session ended.
#[derive(Debug, PartialEq, Eq)]
pub enum Outcome {
    Completed,
    /// The core refused the ROM.
    LaunchRejected(String),
}

/// Why a session could not start.
#[derive(Debug, PartialEq, Eq)]
pub enum LaunchFailure {
    MissingRom(String),
    MissingState(String),
    CoreResolution { message: String, cores_dir: String },
    UnsupportedStartupState(String),
    StartupState { path: String, message: String },
}

pub open spec fn launch_failure_text(f: LaunchFailure) -> Seq<char> {
    match f {
        LaunchFailure::MissingRom(p) => "file not found: "@ + p@,
        LaunchFailure::MissingState(p) => "state file not found: "@ + p@,
        LaunchFailure::CoreResolution { message, cores_dir } => message@
            + "\n  Place cores in "@ + cores_dir@ + " or use -c to specify a path"@,
        LaunchFailure::UnsupportedStartupState(p) => "core does not support savestates, cannot load "@
            + p@,
        LaunchFailure::StartupState { path, message } => "failed to load state "@ + path@ + ": "@
            + message@,
    }
}

impl LaunchFailure {
    /// The failure's text.
    pub fn message(&self) -> (r: String)
        ensures
            r@ == launch_failure_text(*self),
    {
        let mut out: Vec<char> = Vec::new();
        match self {
            LaunchFailure::MissingRom(p) => {
                push_str(&mut out, "file not found: ");
                push_str(&mut out, p.as_str());
            },
            LaunchFailure::MissingState(p) => {
                push_str(&mut out, "state file not found: ");
                push_str(&mut out, p.as_str());
            },
            LaunchFailure::CoreResolution { message, cores_dir } => {
                push_str(&mut out, message.as_str());
                push_str(&mut out, "\n  Place cores in ");
                push_str(&mut out, cores_dir.as_str());
                push_str(&mut out, " or use -c to specify a path");
            },
            LaunchFailure::UnsupportedStartupState(p) => {
                push_str(&mut out, "core does not support savestates, cannot load ");
                push_str(&mut out, p.as_str());
            },
            LaunchFailure::StartupState { path, message } => {
                push_str(&mut out, "failed to load state ");
                push_str(&mut out, path.as_str());
                push_str(&mut out, ": ");
                push_str(&mut out, message.as_str());
            },
        }
        string_from_chars(&out)
    }
}

/// The files a launch needs must exist: an explicit state file is checked
/// before the ROM.
pub fn check_launch_files(
    startup_state: Option<&str>,
    state_exists: bool,
    rom: &str,
    rom_exists: bool,
) -> (r: Result<(), LaunchFailure>)
    ensures
        match startup_state {
            Some(s) if !state_exists => r matches Err(LaunchFailure::MissingState(p)) && p@ == s@,
            _ => if !rom_exists {
                r matches Err(LaunchFailure::MissingRom(p)) && p@ == rom@
            } else {
                r is Ok
            },
        },
{
    if let Some(state) = startup_state {
        if !state_exists {
            return Err(LaunchFailure::MissingState(state.to_owned()));
        }
    }
    if !rom_exists {
        return Err(LaunchFailure::MissingRom(rom.to_owned()));
    }
    Ok(())
}

/// What to restore when the game has loaded.
#[derive(Debug, PartialEq, Eq)]
pub enum StartupRestore {
    /// Load the state file given on the command line.
    StateFile(String),
    /// Load the game's newest state, if there is one (`--resume`).
    Newest,
    Nothing,
}

/// An explicit state is loaded (refused when the core cannot restore
/// states); else the newest state when resuming and the core can restore
/// states; else nothing.
pub fn startup_restore(startup_state: Option<&str>, resume: bool, serialization_supported: bool) -> (r:
    Result<StartupRestore, LaunchFailure>)
    ensures
        match startup_state {
            Some(s) => if serialization_supported {
                r matches Ok(StartupRestore::StateFile(p)) && p@ == s@
            } else {
                r matches Err(LaunchFailure::UnsupportedStartupState(p)) && p@ == s@
            },
            None => if resume && serialization_supported {
                r == Ok::<StartupRestore, LaunchFailure>(StartupRestore::Newest)
            } else {
                r == Ok::<StartupRestore, LaunchFailure>(StartupRestore::Nothing)
            },
        },
{
    match startup_state {
        Some(s) => {
            if serialization_supported {
                Ok(StartupRestore::StateFile(s.to_owned()))
            } else {
                Err(LaunchFailure::UnsupportedStartupState(s.to_owned()))
            }
        },
        None => {
            if resume && serialization_supported {
                Ok(StartupRestore::Newest)
            } else {
                Ok(StartupRestore::Nothing)
            }
        },
    }
}

/// Why no core was found for a ROM: several candidates (listed with the
/// command that picks each), or no system using its extension.
pub open spec fn detection_problem(rom: Seq<char>, detection: Detection) -> Seq<char> {
    match detection {
        Detection::Ambiguous { .. } => "Multiple cores support \""@ + rom
            + "\".\n\nSelect one explicitly:\n"@ + core_choices(rom, detection_cores(detection)),
        _ => "No known system uses the '."@ + match crate::pathname::extension(rom) {
            Some(e) => e,
            None => "unknown"@,
        } + "' extension. Use --core to specify a core explicitly."@,
    }
}

/// A line per candidate core: `  asoby <rom> --core <core>`.
pub open spec fn core_choices(rom: Seq<char>, cores: Seq<Seq<char>>) -> Seq<char>
    decreases cores.len(),
{
    if cores.len() == 0 {
        Seq::empty()
    } else {
        core_choices(rom, cores.drop_last()) + "  asoby "@ + rom + " --core "@ + cores.last()
            + "\n"@
    }
}

/// The message for a ROM whose core could not be detected; `None` when
/// one core was detected.
pub fn detection_error(rom: &str, detection: &Detection) -> (r: Option<String>)
    ensures
        match detection {
            Detection::Detected { .. } => r is None,
            _ => r matches Some(m) && m@ == detection_problem(rom@, *detection),
        },
{
    match detection {
        Detection::Detected { .. } => None,
        Detection::Unknown => {
            let mut m = str_chars("No known system uses the '.");
            match crate::pathname::extension_str(rom) {
                Some(e) => push_str(&mut m, e.as_str()),
                None => push_str(&mut m, "unknown"),
            }
            push_str(&mut m, "' extension. Use --core to specify a core explicitly.");
            Some(string_from_chars(&m))
        },
        Detection::Ambiguous { candidates } => {
            let ghost cores = detection_cores(*detection);
            let mut m = str_chars("Multiple cores support \"");
            push_str(&mut m, rom);
            push_str(&mut m, "\".\n\nSelect one explicitly:\n");
            let ghost head = m@;
            let mut i: usize = 0;
            while i < candidates.len()
                invariant
                    i <= candidates@.len(),
                    cores == candidates@.map_values(|s: &str| s@),
                    m@ == head + core_choices(rom@, cores.take(i as int)),
                decreases candidates@.len() - i,
            {
                assert(cores.take(i + 1).drop_last() =~= cores.take(i as int));
                push_str(&mut m, "  asoby ");
                push_str(&mut m, rom);
                push_str(&mut m, " --core ");
                push_str(&mut m, candidates[i]);
                push_str(&mut m, "\n");
                i += 1;
            }
            assert(cores.take(i as int) =~= cores);
            Some(string_from_chars(&m))
        },
    }
}

// ── The loop's schedule ────────────────────────────────────────────────────

/// How long a status message stays (two seconds, in nanoseconds).
pub const STATUS_MESSAGE_DURATION: u64 = 2_000_000_000;

/// Whether a message set at `set_at` still shows at `now`.
pub fn message_visible(set_at: u64, now: u64) -> (r: bool)
    ensures
        r == ((if now >= set_at {
            now - set_at
        } else {
            0
        }) < STATUS_MESSAGE_DURATION),
{
    now.saturating_sub(set_at) < STATUS_MESSAGE_DURATION
}

/// When the next emulated frame and the next rendered frame are due, in
/// nanoseconds, and how far apart each kind is.
#[derive(Clone, Copy, Debug, PartialEq, Eq, Structural)]
pub struct FrameClock {
    pub next_frame: u64,
    pub next_render: u64,
    pub frame_duration: u64,
    pub render_duration: u64,
}

impl FrameClock {
    /// A schedule starting at `start`.
    pub fn new(start: u64, frame_duration: u64, render_duration: u64) -> (r: Self)
        ensures
            r == (FrameClock { next_frame: start, next_render: start, frame_duration, render_duration }),
    {
        FrameClock { next_frame: start, next_render: start, frame_duration, render_duration }
    }

    /// Whether this frame is to be shown: a render is due and the render
    /// thread waits for a frame.
    pub fn capture_due(&self, now: u64, renderer_waiting: bool) -> (r: bool)
        ensures
            r == (now >= self.next_render && renderer_waiting),
    {
        now >= self.next_render && renderer_waiting
    }

    /// After a frame was handed to the renderer: the next render is one
    /// render interval later, but never in the past.
    pub fn rendered(&mut self, now: u64)
        requires
            old(self).next_render + old(self).render_duration <= u64::MAX,
        ensures
            final(self).next_render == not_before(
                old(self).next_render + old(self).render_duration,
                now as int,
            ),
            final(self).next_frame == old(self).next_frame,
            final(self).frame_duration == old(self).frame_duration,
            final(self).render_duration == old(self).render_duration,
    {
        let n = self.next_render + self.render_duration;
        self.next_render = if n < now {
            now
        } else {
            n
        };
    }

    /// After a frame ran: the next frame is one frame interval later. When
    /// that is still ahead, the loop sleeps until then (the returned delay);
    /// when it has passed, the schedule restarts from `now` and nothing is
    /// slept.
    pub fn frame_done(&mut self, now: u64) -> (sleep: Option<u64>)
        requires
            old(self).next_frame + old(self).frame_duration <= u64::MAX,
        ensures
            ({
                let due = old(self).next_frame + old(self).frame_duration;
                &&& final(self).next_frame == not_before(due, now as int)
                &&& sleep == if due >= now {
                    Some((due - now) as u64)
                } else {
                    None::<u64>
                }
            }),
            final(self).next_render == old(self).next_render,
            final(self).frame_duration == old(self).frame_duration,
            final(self).render_duration == old(self).render_duration,
    {
        let due = self.next_frame + self.frame_duration;
        if due >= now {
            self.next_frame = due;
            Some(due - now)
        } else {
            self.next_frame = now;
            None
        }
    }
}

/// `due`, or `now` where `due` has already passed.
pub open spec fn not_before(due: int, now: int) -> int {
    if due < now {
        now
    } else {
        due
    }
}

/// The status message after a save: success, or the error.
pub fn save_message(result: &Result<String, StateError>) -> (r: String)
    ensures
        r@ == match result {
            Ok(_) => "State saved"@,
            Err(e) => "Save failed: "@ + e.text(),
        },
{
    match result {
        Ok(_) => "State saved".to_owned(),
        Err(e) => {
            let mut out = str_chars("Save failed: ");
            push_str(&mut out, e.message().as_str());
            string_from_chars(&out)
        },
    }
}

/// The status message after loading the newest state: loaded, none
/// found, or the error.
pub fn load_message(result: &Result<Option<String>, StateError>) -> (r: String)
    ensures
        r@ == match result {
            Ok(Some(_)) => "State loaded"@,
            Ok(None) => "No save state found"@,
            Err(e) => "Load failed: "@ + e.text(),
        },
{
    match result {
        Ok(Some(_)) => "State loaded".to_owned(),
        Ok(None) => "No save state found".to_owned(),
        Err(e) => {
            let mut out = str_chars("Load failed: ");
            push_str(&mut out, e.message().as_str());
            string_from_chars(&out)
        },
    }
}

// ── The per-frame choice of action ──────────────────────────────────────────

/// What a frame does with the player's input.
#[derive(Clone, Copy, Debug, PartialEq, Eq, Structural)]
pub struct FrameDecision {
    pub save: bool,
    pub load: bool,
    pub rewind: bool,
    pub quit: bool,
}

/// The frame's actions: saving and loading only when the core supports
/// complete serialization, rewinding only while the key is held and a
/// rewind buffer exists, and quitting when asked.
pub fn frame_decision(s: &InputSnapshot, serialization_supported: bool, rewind_available: bool) -> (r:
    FrameDecision)
    ensures
        r.save == (serialization_supported && s.save_requested),
        r.load == (serialization_supported && s.load_requested),
        r.rewind == (s.rewind_held && rewind_available),
        r.quit == s.quit_requested,
{
    FrameDecision {
        save: serialization_supported && s.save_requested,
        load: serialization_supported && s.load_requested,
        rewind: s.rewind_held && rewind_available,
        quit: s.quit_requested,
    }
}

/// The frame counter after a frame: the target of a rewind that took
/// place, else one more; and whether the frame was a rewind. Loading a
/// state leaves the counter as it is.
pub fn frame_after(frame: u64, rewound_to: Option<u64>) -> (r: (u64, bool))
    requires
        frame < u64::MAX,
    ensures
        r == match rewound_to {
            Some(t) => (t, true),
            None => ((frame + 1) as u64, false),
        },
{
    match rewound_to {
        Some(t) => (t, true),
        None => (frame + 1, false),
    }
}

/// Whether a state is saved when the session ends: only when asked and the
/// core supports complete serialization.
pub fn saves_on_exit(serialization_supported: bool, save_on_exit: bool) -> (r: bool)
    ensures
        r == (serialization_supported && save_on_exit),
{
    serialization_supported && save_on_exit
}

} // verus!
