//! The debug renderer: about once a second it saves the frame as an image
//! named after the ROM and the time.
use vstd::prelude::*;
use crate::text::{padded, push_padded, push_str, str_chars, string_from_chars};

verus! {

/// How long the debug renderer waits between saved frames (one second,
/// in nanoseconds).
pub const SAVE_INTERVAL: u64 = 1_000_000_000;

/// Saves a frame about once a second. `last_save` is the time of the last
/// save in nanoseconds since the Unix epoch (0 before the first).
pub struct DebugRenderer {
    pub base_name: String,
    pub last_save: u64,
}

impl DebugRenderer {
    /// A renderer whose files are named after `rom_stem`.
    pub fn new(rom_stem: &str) -> (r: Self)
        ensures
            r.base_name@ == rom_stem@,
            r.last_save == 0,
    {
        DebugRenderer { base_name: rom_stem.to_owned(), last_save: 0 }
    }

    /// Whether a frame drawn at `now` is saved: a second has passed since
    /// the last save (a clock that went back counts as no time). A save is
    /// recorded at `now`.
    pub fn save_due(&mut self, now: u64) -> (r: bool)
        ensures
            r == (now >= old(self).last_save && now - old(self).last_save >= SAVE_INTERVAL),
            final(self).last_save == (if r {
                now
            } else {
                old(self).last_save
            }),
            final(self).base_name == old(self).base_name,
    {
        let due = now >= self.last_save && now - self.last_save >= SAVE_INTERVAL;
        if due {
            self.last_save = now;
        }
        due
    }

    /// The file a frame saved at `unix_secs` goes to.
    pub fn frame_file_name(&self, unix_secs: u64) -> (r: String)
        ensures
            r@ == self.base_name@ + "-"@ + iso_text(unix_secs as nat) + ".png"@,
    {
        let mut out = str_chars(self.base_name.as_str());
        push_str(&mut out, "-");
        let stamp = iso_format(unix_secs);
        push_str(&mut out, stamp.as_str());
        push_str(&mut out, ".png");
        string_from_chars(&out)
    }
}

/// Whether `year` is a leap year of the Gregorian calendar.
pub open spec fn is_leap(year: int) -> bool {
    year % 4 == 0 && (year % 100 != 0 || year % 400 == 0)
}

/// The days of `year`.
pub open spec fn year_days(year: int) -> int {
    if is_leap(year) {
        366
    } else {
        365
    }
}

/// The year `days` days after the start of `year`, and the day within it.
pub open spec fn civil_year(year: int, days: int) -> (int, int)
    decreases days,
    when days >= 0
{
    if days < year_days(year) {
        (year, days)
    } else {
        civil_year(year + 1, days - year_days(year))
    }
}

/// The days of month `m` (from 0) of `year`.
pub open spec fn month_days(year: int, m: int) -> int {
    if m == 1 {
        if is_leap(year) {
            29
        } else {
            28
        }
    } else if m == 3 || m == 5 || m == 8 || m == 10 {
        30
    } else {
        31
    }
}

/// The month (from 0) of day `days` of `year`, counting from month `m`,
/// and the day within it.
pub open spec fn civil_month(year: int, m: int, days: int) -> (int, int)
    decreases 12 - m,
{
    if m >= 12 {
        (0, days)
    } else if days < month_days(year, m) {
        (m, days)
    } else {
        civil_month(year, m + 1, days - month_days(year, m))
    }
}

/// `YYYY-MM-DDTHH-MM-SS` (UTC) for a time in seconds since the Unix epoch.
pub open spec fn iso_text(secs: nat) -> Seq<char> {
    let days = secs / 86400;
    let time = secs % 86400;
    let (year, day_of_year) = civil_year(1970, days as int);
    let (month, day) = civil_month(year, 0, day_of_year);
    padded(year as nat, 4) + "-"@ + padded((month + 1) as nat, 2) + "-"@ + padded((day + 1) as nat, 2) + "T"@
        + padded(time / 3600, 2) + "-"@ + padded((time % 3600) / 60, 2) + "-"@ + padded(time % 60, 2)
}

fn leap(year: u64) -> (r: bool)
    ensures
        r == is_leap(year as int),
{
    year % 4 == 0 && (year % 100 != 0 || year % 400 == 0)
}

fn year_length(year: u64) -> (r: u64)
    ensures
        r == year_days(year as int),
{
    if leap(year) {
        366
    } else {
        365
    }
}

/// Formats a time in seconds since the Unix epoch as `YYYY-MM-DDTHH-MM-SS`.
pub fn iso_format(unix_secs: u64) -> (r: String)
    ensures
        r@ == iso_text(unix_secs as nat),
{
    let days = unix_secs / 86400;
    let time_of_day = unix_secs % 86400;
    let hours = time_of_day / 3600;
    let minutes = (time_of_day % 3600) / 60;
    let seconds = time_of_day % 60;
    let mut y: u64 = 1970;
    let mut remaining = days;
    while remaining >= year_length(y)
        invariant
            remaining <= days,
            y <= 1970 + days - remaining,
            days == unix_secs / 86400,
            civil_year(y as int, remaining as int) == civil_year(1970, days as int),
        decreases remaining,
    {
        remaining -= year_length(y);
        y += 1;
    }
    let mut m: u64 = 0;
    let mut left = remaining;
    let mut found = false;
    let mut month: u64 = 0;
    while m < 12
        invariant
            m <= 12,
            left <= remaining,
            !found ==> civil_month(y as int, m as int, left as int) == civil_month(y as int, 0, remaining as int),
            found ==> civil_month(y as int, 0, remaining as int) == (month as int, left as int),
            found ==> m == 12,
            month < 12,
        decreases 12 - m,
    {
        let md: u64 = if m == 1 {
            if leap(y) {
                29
            } else {
                28
            }
        } else if m == 3 || m == 5 || m == 8 || m == 10 {
            30
        } else {
            31
        };
        if left < md {
            month = m;
            found = true;
            m = 12;
        } else {
            left -= md;
            m += 1;
        }
    }
    if !found {
        month = 0;
    }
    let mut out: Vec<char> = Vec::new();
    push_padded(&mut out, y, 4);
    push_str(&mut out, "-");
    push_padded(&mut out, month + 1, 2);
    push_str(&mut out, "-");
    push_padded(&mut out, left + 1, 2);
    push_str(&mut out, "T");
    push_padded(&mut out, hours, 2);
    push_str(&mut out, "-");
    push_padded(&mut out, minutes, 2);
    push_str(&mut out, "-");
    push_padded(&mut out, seconds, 2);
    string_from_chars(&out)
}

} // verus!
