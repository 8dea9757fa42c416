//! The terminal session's decisions: which renderer runs, which terminal
//! modes were switched on and how they are switched off again, and what
//! the input side can rely on.
use vstd::prelude::*;
use crate::renderer::{RendererMode, Viewport};
use crate::text::{eq_ignore_case, str_eq_ignore_case};

verus! {

/// How the session draws.
pub struct Settings {
    pub renderer: RendererMode,
    pub primary_screen: bool,
    pub status_lines: Vec<String>,
}

/// What the input side can rely on from the terminal.
#[derive(Clone, Copy, Debug, PartialEq, Eq, Structural)]
pub struct InputCapabilities {
    pub release_events_supported: bool,
    pub ghostty: bool,
    pub synthetic_releases: bool,
}

impl InputCapabilities {
    /// Releases are reported on Windows and wherever the keyboard
    /// enhancement flags were pushed; Rio on Windows synthesizes them.
    pub fn for_session(windows: bool, keyboard_flags: bool, ghostty: bool, rio: bool) -> (r: Self)
        ensures
            r.release_events_supported == (windows || keyboard_flags),
            r.ghostty == ghostty,
            r.synthetic_releases == (windows && rio),
    {
        InputCapabilities {
            release_events_supported: windows || keyboard_flags,
            ghostty,
            synthetic_releases: windows && rio,
        }
    }
}

/// Whether an optional value, compared without regard to ASCII case,
/// equals `name`.
pub open spec fn names(value: Option<Seq<char>>, name: Seq<char>) -> bool {
    match value {
        Some(v) => eq_ignore_case(v, name),
        None => false,
    }
}

fn opt_names(value: Option<&str>, name: &str) -> (r: bool)
    ensures
        r == names(
            match value {
                Some(v) => Some(v@),
                None => None,
            },
            name@,
        ),
{
    match value {
        Some(v) => str_eq_ignore_case(v, name),
        None => false,
    }
}

/// Ghostty names itself in `TERM_PROGRAM` or `TERM`.
pub fn is_ghostty_values(term_program: Option<&str>, term: Option<&str>) -> (r: bool)
    ensures
        r == (names(
            match term_program {
                Some(v) => Some(v@),
                None => None,
            },
            "ghostty"@,
        ) || names(
            match term {
                Some(v) => Some(v@),
                None => None,
            },
            "xterm-ghostty"@,
        )),
{
    opt_names(term_program, "ghostty") || opt_names(term, "xterm-ghostty")
}

/// Rio names itself in `TERM_PROGRAM` or `TERM`.
pub fn is_rio_values(term_program: Option<&str>, term: Option<&str>) -> (r: bool)
    ensures
        r == (names(
            match term_program {
                Some(v) => Some(v@),
                None => None,
            },
            "rio"@,
        ) || names(
            match term {
                Some(v) => Some(v@),
                None => None,
            },
            "rio"@,
        )),
{
    opt_names(term_program, "rio") || opt_names(term, "rio")
}

/// The renderer when no probe is needed: an explicit choice stands; the
/// automatic choice is half blocks on the primary screen or off a terminal.
/// `None` means the terminal is to be probed for kitty graphics.
pub fn select_renderer(mode: RendererMode, primary_screen: bool, stdout_is_terminal: bool) -> (r: Option<
    RendererMode,
>)
    ensures
        r == (match mode {
            RendererMode::Auto => if primary_screen || !stdout_is_terminal {
                Some(RendererMode::Block)
            } else {
                None
            },
            explicit => Some(explicit),
        }),
{
    match mode {
        RendererMode::Auto => if primary_screen || !stdout_is_terminal {
            Some(RendererMode::Block)
        } else {
            None
        },
        explicit => Some(explicit),
    }
}

/// The automatic choice after probing.
pub fn probed_renderer(kitty_supported: bool) -> (r: RendererMode)
    ensures
        r == (if kitty_supported {
            RendererMode::Graphic
        } else {
            RendererMode::Block
        }),
{
    if kitty_supported {
        RendererMode::Graphic
    } else {
        RendererMode::Block
    }
}

/// Graphics are compressed except in Ghostty.
pub fn graphic_compression(ghostty: bool) -> (r: bool)
    ensures
        r == !ghostty,
{
    !ghostty
}

/// The drawing area: the terminal without the rows reserved for status
/// lines.
pub fn frame_viewport(columns: u16, rows: u16, reserved_rows: usize) -> (r: Viewport)
    ensures
        r.columns == columns,
        r.rows == (if reserved_rows < rows {
            rows - reserved_rows
        } else {
            0
        }),
{
    let reserved: u16 = if reserved_rows < 65535 {
        reserved_rows as u16
    } else {
        65535
    };
    Viewport { columns, rows: if reserved < rows { rows - reserved } else { 0 } }
}

/// The terminal modes a session switched on.
#[derive(Clone, Copy, Debug, PartialEq, Eq, Structural)]
pub struct Lifecycle {
    pub raw_mode: bool,
    pub focus: bool,
    pub keyboard_flags: bool,
    pub alternate_screen: bool,
    pub graphic: bool,
    pub preserve_content: bool,
}

/// One step of restoring the terminal.
#[derive(Clone, Copy, Debug, PartialEq, Eq, Structural)]
pub enum RestoreStep {
    /// Delete the kitty image.
    DeleteImage,
    LeaveAlternateScreen,
    PopKeyboardFlags,
    DisableFocusChange,
    Flush,
    /// Read and drop the terminal's pending events (answers to the popped
    /// keyboard mode).
    DrainInput,
    DisableRawMode,
}

/// The steps that restore a terminal, in order.
pub open spec fn restore_plan(l: Lifecycle) -> Seq<RestoreStep> {
    (if l.graphic && !l.preserve_content {
        seq![RestoreStep::DeleteImage]
    } else {
        Seq::empty()
    }) + (if l.alternate_screen {
        seq![RestoreStep::LeaveAlternateScreen]
    } else {
        Seq::empty()
    }) + (if l.keyboard_flags {
        seq![RestoreStep::PopKeyboardFlags]
    } else {
        Seq::empty()
    }) + (if l.focus {
        seq![RestoreStep::DisableFocusChange]
    } else {
        Seq::empty()
    }) + seq![RestoreStep::Flush] + (if l.keyboard_flags {
        seq![RestoreStep::DrainInput]
    } else {
        Seq::empty()
    }) + (if l.raw_mode {
        seq![RestoreStep::DisableRawMode]
    } else {
        Seq::empty()
    })
}

/// The modes left on after restoring: none but a kept image.
pub open spec fn restored(l: Lifecycle) -> Lifecycle {
    Lifecycle {
        raw_mode: false,
        focus: false,
        keyboard_flags: false,
        alternate_screen: false,
        graphic: l.graphic && l.preserve_content,
        preserve_content: l.preserve_content,
    }
}

fn push_if(steps: &mut Vec<RestoreStep>, cond: bool, step: RestoreStep)
    ensures
        final(steps)@ == old(steps)@ + if cond {
            seq![step]
        } else {
            Seq::empty()
        },
{
    if cond {
        steps.push(step);
    }
    assert(steps@ =~= old(steps)@ + if cond {
        seq![step]
    } else {
        Seq::empty()
    });
}

impl Lifecycle {
    /// The modes of a session that entered raw mode and then switched on
    /// focus reporting and the keyboard flags as far as they succeeded: the
    /// alternate screen is used off the primary screen on a terminal, and a
    /// graphic renderer on a terminal leaves an image behind.
    pub fn started(
        focus: bool,
        keyboard_flags: bool,
        primary_screen: bool,
        stdout_is_terminal: bool,
        selected: RendererMode,
    ) -> (r: Self)
        ensures
            r == (Lifecycle {
                raw_mode: true,
                focus,
                keyboard_flags,
                alternate_screen: !primary_screen && stdout_is_terminal,
                graphic: selected == RendererMode::Graphic && stdout_is_terminal,
                preserve_content: primary_screen,
            }),
    {
        Lifecycle {
            raw_mode: true,
            focus,
            keyboard_flags,
            alternate_screen: !primary_screen && stdout_is_terminal,
            graphic: match selected {
                RendererMode::Graphic => stdout_is_terminal,
                _ => false,
            },
            preserve_content: primary_screen,
        }
    }

    /// Restores the terminal: returns the steps to perform, in order (the
    /// image is deleted unless content is preserved, then the screen, the
    /// keyboard flags and focus reporting are switched off, output is
    /// flushed, pending input drained where keyboard flags were on, and raw
    /// mode left last), and records that those modes are off.
    pub fn restore(&mut self) -> (steps: Vec<RestoreStep>)
        ensures
            steps@ == restore_plan(*old(self)),
            *final(self) == restored(*old(self)),
    {
        let mut steps: Vec<RestoreStep> = Vec::new();
        let drain_input = self.keyboard_flags;
        push_if(&mut steps, self.graphic && !self.preserve_content, RestoreStep::DeleteImage);
        if self.graphic && !self.preserve_content {
            self.graphic = false;
        }
        push_if(&mut steps, self.alternate_screen, RestoreStep::LeaveAlternateScreen);
        self.alternate_screen = false;
        push_if(&mut steps, self.keyboard_flags, RestoreStep::PopKeyboardFlags);
        self.keyboard_flags = false;
        push_if(&mut steps, self.focus, RestoreStep::DisableFocusChange);
        self.focus = false;
        steps.push(RestoreStep::Flush);
        push_if(&mut steps, drain_input, RestoreStep::DrainInput);
        push_if(&mut steps, self.raw_mode, RestoreStep::DisableRawMode);
        self.raw_mode = false;
        assert(steps@ =~= restore_plan(*old(self)));
        steps
    }
}

/// Restoring twice undoes each mode once: the second restore only flushes.
pub proof fn lemma_restore_is_idempotent(l: Lifecycle)
    ensures
        restore_plan(restored(l)) =~= seq![RestoreStep::Flush],
        restored(restored(l)) == restored(l),
{
}

} // verus!
