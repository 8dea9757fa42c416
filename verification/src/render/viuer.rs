//! The terminal renderer: images printed through the terminal image
//! printer, or streamed with the kitty graphics protocol where the
//! terminal is known to support it.
use vstd::prelude::*;
use crate::text::{
    all_digits, digits_value, eq_ignore_case, is_digit, parse_u32_digits, str_chars,
    str_eq_ignore_case,
};

verus! {

/// What the renderer sets of the image printer's configuration.
#[derive(Clone, Copy, Debug, PartialEq, Eq, Structural)]
pub struct ViewConfig {
    /// Whether images are placed at `x`, `y` rather than at the cursor.
    pub absolute_offset: bool,
    pub use_kitty: bool,
    pub use_iterm: bool,
    pub width: Option<u32>,
    pub height: Option<u32>,
    pub x: u16,
    pub y: i16,
}

/// The terminal renderer's state.
#[derive(Clone, Copy, Debug, PartialEq, Eq, Structural)]
pub struct ViuRenderer {
    pub config: ViewConfig,
    pub use_alternate_screen: bool,
    pub kitty_streaming: bool,
    pub screen_active: bool,
}

/// A fresh renderer: the printer's own kitty and iTerm backends are off
/// (frames are streamed by the renderer itself where supported), and
/// keeping the scrollback draws in place on the primary screen.
pub open spec fn default_renderer(keep_scrollback: bool) -> ViuRenderer {
    ViuRenderer {
        config: ViewConfig {
            absolute_offset: !keep_scrollback,
            use_kitty: false,
            use_iterm: false,
            width: None,
            height: None,
            x: 0,
            y: 0,
        },
        use_alternate_screen: !keep_scrollback,
        kitty_streaming: false,
        screen_active: false,
    }
}

/// The half-block renderer starts like the default one.
pub open spec fn halfblock_renderer(keep_scrollback: bool) -> ViuRenderer {
    default_renderer(keep_scrollback)
}

impl ViuRenderer {
    pub fn new(keep_scrollback: bool) -> (r: Self)
        ensures
            r == default_renderer(keep_scrollback),
    {
        ViuRenderer {
            config: ViewConfig {
                absolute_offset: !keep_scrollback,
                use_kitty: false,
                use_iterm: false,
                width: None,
                height: None,
                x: 0,
                y: 0,
            },
            use_alternate_screen: !keep_scrollback,
            kitty_streaming: false,
            screen_active: false,
        }
    }

    pub fn halfblock(keep_scrollback: bool) -> (r: Self)
        ensures
            r == halfblock_renderer(keep_scrollback),
    {
        ViuRenderer::new(keep_scrollback)
    }

    /// Streaming is used on the alternate screen of a terminal that
    /// supports it.
    pub fn detect_kitty(
        &mut self,
        stdout_is_terminal: bool,
        kitty_window_id: Option<&str>,
        term: Option<&str>,
        term_program: Option<&str>,
        term_program_version: Option<&str>,
    )
        ensures
            final(self).kitty_streaming == (old(self).use_alternate_screen && stdout_is_terminal
                && kitty_supported(
                opt_view(kitty_window_id),
                opt_view(term),
                opt_view(term_program),
                opt_view(term_program_version),
            )),
            final(self).config == old(self).config,
            final(self).use_alternate_screen == old(self).use_alternate_screen,
            final(self).screen_active == old(self).screen_active,
    {
        self.kitty_streaming = self.use_alternate_screen && stdout_is_terminal
            && kitty_streaming_supported(kitty_window_id, term, term_program, term_program_version);
    }

    /// Whether setting up should switch to the alternate screen.
    pub fn should_enter_screen(&self, stdout_is_terminal: bool) -> (r: bool)
        ensures
            r == (self.use_alternate_screen && !self.screen_active && stdout_is_terminal),
    {
        self.use_alternate_screen && !self.screen_active && stdout_is_terminal
    }

    /// Records that the alternate screen was entered (`written`) or not.
    pub fn screen_entered(&mut self, written: bool)
        ensures
            *final(self) == (ViuRenderer { screen_active: old(self).screen_active || written, ..*old(self) }),
    {
        if written {
            self.screen_active = true;
        }
    }

    /// Leaving: whether the screen is to be left (it was active) and
    /// whether the streamed image is to be deleted first; streaming and the
    /// screen are then off.
    pub fn leave_screen(&mut self) -> (r: (bool, bool))
        ensures
            r == (old(self).screen_active, old(self).screen_active && old(self).kitty_streaming),
            *final(self) == (if old(self).screen_active {
                ViuRenderer { kitty_streaming: false, screen_active: false, ..*old(self) }
            } else {
                *old(self)
            }),
    {
        if !self.screen_active {
            return (false, false);
        }
        let delete_image = self.kitty_streaming;
        self.kitty_streaming = false;
        self.screen_active = false;
        (true, delete_image)
    }

    /// Centres an image of `width` x `height` pixels (two pixel rows per
    /// cell) in a `columns` x `rows` terminal.
    pub fn center(&mut self, columns: u16, rows: u16, width: u32, height: u32)
        ensures
            final(self).config.x == (if columns >= (width as u16) {
                columns - (width as u16)
            } else {
                0
            }) / 2,
            final(self).config.y == ((if rows >= (((height as int + 1) / 2) as u16) {
                rows - (((height as int + 1) / 2) as u16)
            } else {
                0
            }) / 2) as i16,
            final(self).config.absolute_offset == old(self).config.absolute_offset,
            final(self).config.width == old(self).config.width,
            final(self).config.height == old(self).config.height,
            final(self).use_alternate_screen == old(self).use_alternate_screen,
            final(self).kitty_streaming == old(self).kitty_streaming,
            final(self).screen_active == old(self).screen_active,
    {
        let image_rows: u32 = height / 2 + height % 2;
        let w = width as u16;
        let h = image_rows as u16;
        self.config.x = (if columns >= w {
            columns - w
        } else {
            0
        }) / 2;
        self.config.y = ((if rows >= h {
            rows - h
        } else {
            0
        }) / 2) as i16;
    }
}

/// The text of an optional string.
pub open spec fn opt_view(v: Option<&str>) -> Option<Seq<char>> {
    match v {
        Some(s) => Some(s@),
        None => None,
    }
}

/// The dot-separated parts of `s` (one part when there is no dot).
pub open spec fn split_dots(s: Seq<char>) -> Seq<Seq<char>>
    decreases s.len(),
{
    if s.len() == 0 {
        seq![Seq::empty()]
    } else {
        let init = split_dots(s.drop_last());
        if s.last() == '.' {
            init.push(Seq::empty())
        } else {
            init.update(init.len() - 1, init.last().push(s.last()))
        }
    }
}

/// The digits that start `s`.
pub open spec fn leading_digits(s: Seq<char>) -> Seq<char>
    decreases s.len(),
{
    if s.len() == 0 || !is_digit(s[0]) {
        Seq::empty()
    } else {
        seq![s[0]] + leading_digits(s.drop_first())
    }
}

/// A version component's number: its leading digits, or 0 where there are
/// none or they overflow a `u32`.
pub open spec fn component_number(s: Seq<char>) -> nat {
    let d = leading_digits(s);
    if d.len() == 0 || digits_value(d) > u32::MAX {
        0
    } else {
        digits_value(d)
    }
}

/// Component `k` of a version, 0 where it is missing.
pub open spec fn version_component(v: Seq<char>, k: int) -> nat {
    let parts = split_dots(v);
    if k < parts.len() {
        component_number(parts[k])
    } else {
        0
    }
}

/// iTerm2 streams kitty graphics from version 3.5.5 on.
pub open spec fn iterm_version_supported(v: Seq<char>) -> bool {
    let (a, b, c) = (version_component(v, 0), version_component(v, 1), version_component(v, 2));
    a > 3 || (a == 3 && (b > 5 || (b == 5 && c >= 5)))
}

/// Whether the terminal is known to stream kitty graphics: Kitty itself
/// (a window id, or `TERM=xterm-kitty`), Ghostty, WezTerm, Zed, and recent
/// iTerm2.
pub open spec fn kitty_supported(
    kitty_window_id: Option<Seq<char>>,
    term: Option<Seq<char>>,
    term_program: Option<Seq<char>>,
    term_program_version: Option<Seq<char>>,
) -> bool {
    if kitty_window_id matches Some(id) && id.len() > 0 {
        true
    } else if term matches Some(t) && eq_ignore_case(t, "xterm-kitty"@) {
        true
    } else {
        match term_program {
            None => false,
            Some(p) => if eq_ignore_case(p, "ghostty"@) || eq_ignore_case(p, "wezterm"@) || eq_ignore_case(
                p,
                "zed"@,
            ) {
                true
            } else if eq_ignore_case(p, "iterm.app"@) || eq_ignore_case(p, "iterm2"@) {
                match term_program_version {
                    Some(v) => iterm_version_supported(v),
                    None => false,
                }
            } else {
                false
            },
        }
    }
}

/// Whether the terminal is known to stream kitty graphics without a probe.
pub fn kitty_streaming_supported(
    kitty_window_id: Option<&str>,
    term: Option<&str>,
    term_program: Option<&str>,
    term_program_version: Option<&str>,
) -> (r: bool)
    ensures
        r == kitty_supported(
            opt_view(kitty_window_id),
            opt_view(term),
            opt_view(term_program),
            opt_view(term_program_version),
        ),
{
    if let Some(id) = kitty_window_id {
        if !id.is_empty() {
            return true;
        }
    }
    if let Some(t) = term {
        if str_eq_ignore_case(t, "xterm-kitty") {
            return true;
        }
    }
    let p = match term_program {
        Some(p) => p,
        None => {
            return false;
        },
    };
    if str_eq_ignore_case(p, "ghostty") || str_eq_ignore_case(p, "wezterm") || str_eq_ignore_case(p, "zed") {
        true
    } else if str_eq_ignore_case(p, "iterm.app") || str_eq_ignore_case(p, "iterm2") {
        match term_program_version {
            Some(v) => iterm_supports_kitty_graphics(v),
            None => false,
        }
    } else {
        false
    }
}

/// Splits `s` at its dots.
fn split_dot_parts(s: &Vec<char>) -> (r: Vec<Vec<char>>)
    ensures
        r@.map_values(|p: Vec<char>| p@) == split_dots(s@),
{
    let mut parts: Vec<Vec<char>> = Vec::new();
    let mut current: Vec<char> = Vec::new();
    let mut i: usize = 0;
    while i < s.len()
        invariant
            i <= s@.len(),
            parts@.map_values(|p: Vec<char>| p@).push(current@) == split_dots(s@.take(i as int)),
        decreases s@.len() - i,
    {
        let ghost prev = s@.take(i as int);
        assert(s@.take(i + 1).drop_last() =~= prev);
        if s[i] == '.' {
            parts.push(current);
            current = Vec::new();
            assert(parts@.map_values(|p: Vec<char>| p@).push(current@) =~= split_dots(s@.take(i + 1)));
        } else {
            current.push(s[i]);
            assert(parts@.map_values(|p: Vec<char>| p@).push(current@) =~= split_dots(s@.take(i + 1)));
        }
        i += 1;
    }
    assert(s@.take(i as int) =~= s@);
    parts.push(current);
    parts
}

/// The number of a version component.
fn component_value(part: &Vec<char>) -> (r: u32)
    ensures
        r == component_number(part@),
{
    let mut digits: Vec<char> = Vec::new();
    let mut i: usize = 0;
    assert(part@.skip(0) =~= part@);
    assert(digits@ + leading_digits(part@) =~= leading_digits(part@));
    while i < part.len() && '0' <= part[i] && part[i] <= '9'
        invariant
            i <= part@.len(),
            digits@ == part@.take(i as int),
            all_digits(digits@),
            forall|j: int| 0 <= j < i ==> is_digit(#[trigger] part@[j]),
            leading_digits(part@) == digits@ + leading_digits(part@.skip(i as int)),
        decreases part@.len() - i,
    {
        assert(part@.skip(i as int).drop_first() =~= part@.skip(i + 1));
        digits.push(part[i]);
        i += 1;
        assert(digits@ =~= part@.take(i as int));
    }
    assert(leading_digits(part@.skip(i as int)) =~= Seq::<char>::empty());
    assert(digits@ + Seq::<char>::empty() =~= digits@);
    if digits.len() == 0 {
        return 0;
    }
    match parse_u32_digits(&digits) {
        Some(v) => v,
        None => 0,
    }
}

/// Whether an iTerm2 version string is 3.5.5 or later; components compare
/// by their leading digits, missing ones count as 0.
pub fn iterm_supports_kitty_graphics(version: &str) -> (r: bool)
    ensures
        r == iterm_version_supported(version@),
{
    let parts = split_dot_parts(&str_chars(version));
    let ghost views = parts@.map_values(|p: Vec<char>| p@);
    let a = if parts.len() > 0 {
        component_value(&parts[0])
    } else {
        0
    };
    let b = if parts.len() > 1 {
        component_value(&parts[1])
    } else {
        0
    };
    let c = if parts.len() > 2 {
        component_value(&parts[2])
    } else {
        0
    };
    assert(a == version_component(version@, 0));
    assert(b == version_component(version@, 1));
    assert(c == version_component(version@, 2));
    a > 3 || (a == 3 && (b > 5 || (b == 5 && c >= 5)))
}

} // verus!
