//! Choosing a renderer: graphics when the terminal answers the kitty
//! graphics query, half blocks otherwise; and recognising the answer among
//! the key events the terminal reports.
use vstd::prelude::*;
use crate::input::keys::KeyCode;
use crate::renderer::RendererMode;

verus! {

/// The kitty graphics query: a 1x1 image that is only queried, not shown.
pub const KITTY_QUERY: &'static str = "\x1b_Gi=31,s=1,v=1,a=q,t=d,f=24;AAAA\x1b\\";

/// Whether the terminal is to be probed: only on the alternate screen of a
/// terminal.
pub fn needs_probe(no_alt_screen: bool, stdout_is_terminal: bool) -> (r: bool)
    ensures
        r == (!no_alt_screen && stdout_is_terminal),
{
    !no_alt_screen && stdout_is_terminal
}

/// The automatic choice: graphics when the alternate screen is in use and
/// the probe found kitty graphics support, else half blocks.
pub fn select(no_alt_screen: bool, kitty_supported: bool) -> (r: RendererMode)
    ensures
        r == (if !no_alt_screen && kitty_supported {
            RendererMode::Graphic
        } else {
            RendererMode::Block
        }),
{
    if !no_alt_screen && kitty_supported {
        RendererMode::Graphic
    } else {
        RendererMode::Block
    }
}

/// One step of watching for `OK`: a character is remembered (and completes
/// `OK` when it is `K` after `O`); any other key forgets.
pub open spec fn watch_step(previous: Option<char>, code: KeyCode) -> (Option<char>, bool) {
    match code {
        KeyCode::Char(ch) => (Some(ch), previous == Some('O') && ch == 'K'),
        _ => (None, false),
    }
}

/// Watches key events for the `OK` of the kitty response.
pub fn watch_response(previous: &mut Option<char>, code: KeyCode) -> (r: bool)
    ensures
        (*final(previous), r) == watch_step(*old(previous), code),
{
    match code {
        KeyCode::Char(ch) => {
            let ok = match *previous {
                Some(p) => p == 'O' && ch == 'K',
                None => false,
            };
            *previous = Some(ch);
            ok
        },
        _ => {
            *previous = None;
            false
        },
    }
}

/// Progress through the kitty response `OK ESC \`.
#[derive(Clone, Copy, Debug, PartialEq, Eq, Structural)]
pub struct ResponseScan {
    pub previous: Option<char>,
    pub saw_ok: bool,
}

/// One step of the scan: before `OK` the characters are watched; after it
/// only the terminator `\` completes (anything else, a lone escape among
/// them, is skipped).
pub open spec fn scan_step(scan: ResponseScan, code: KeyCode) -> (ResponseScan, bool) {
    if scan.saw_ok {
        (scan, code == KeyCode::Char('\\'))
    } else {
        let (previous, ok) = watch_step(scan.previous, code);
        (ResponseScan { previous, saw_ok: ok }, false)
    }
}

impl ResponseScan {
    /// A scan that has seen nothing.
    pub fn new() -> (r: Self)
        ensures
            r == (ResponseScan { previous: None, saw_ok: false }),
    {
        ResponseScan { previous: None, saw_ok: false }
    }

    /// Feeds one key event; true once the whole response, terminator
    /// included, has been read, so none of it is left for the game's input.
    pub fn feed(&mut self, code: KeyCode) -> (r: bool)
        ensures
            (*final(self), r) == scan_step(*old(self), code),
    {
        if self.saw_ok {
            return match code {
                KeyCode::Char(c) => c == '\\',
                _ => false,
            };
        }
        self.saw_ok = watch_response(&mut self.previous, code);
        false
    }
}

/// A response that reaches `OK` is complete only when the terminator
/// follows, whatever else comes between: once `OK` was seen, a code other
/// than `\` never completes it, and `\` always does.
pub proof fn lemma_only_terminator_completes(scan: ResponseScan, code: KeyCode)
    requires
        scan.saw_ok,
    ensures
        scan_step(scan, code).1 <==> code == KeyCode::Char('\\'),
        scan_step(scan, code).0 == scan,
{
}

} // verus!
