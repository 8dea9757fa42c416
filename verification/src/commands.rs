//! What the `state list` command prints: a table of the save states that
//! pass the filters, with paths under the home directory shortened to `~`,
//! and a warning per malformed file.
use vstd::prelude::*;
use vstd::utf8::encode_utf8;
use vstd::string::StringSliceAdditionalSpecFns;
use crate::config::keys::ConfigEntry;
use crate::emulation::state::human_form;
use crate::emulation::store::{MalformedState, StateEntry};
use crate::pathname::{components, components_of};
use crate::text::{joined, push_chars, push_joined, push_repeat, push_str, repeat_char, str_chars, str_equal, string_from_chars};

verus! {

/// `path` with the home directory written as `~`: `~` for the home
/// directory itself, `~/` and the rest of the components below it, and
/// the path unchanged elsewhere or when home is the root.
/// The text of the components left after the home directory: joined with
/// `/`, a leading root written as `/` (the case of an empty home).
pub open spec fn rest_text(rest: Seq<Seq<char>>) -> Seq<char> {
    if rest.len() > 0 && rest[0] == seq!['/'] {
        "/"@ + joined(rest.drop_first(), "/"@)
    } else {
        joined(rest, "/"@)
    }
}

pub open spec fn shortened(path: Seq<char>, home: Seq<char>) -> Seq<char> {
    let hc = components(home);
    let pc = components(path);
    if hc == seq![seq!['/']] {
        path
    } else if hc.len() <= pc.len() && pc.take(hc.len() as int) == hc {
        let rest = pc.skip(hc.len() as int);
        if rest.len() == 0 {
            "~"@
        } else {
            "~/"@ + rest_text(rest)
        }
    } else {
        path
    }
}

/// Whether `prefix` starts `s`.
fn starts_with_components(s: &Vec<Vec<char>>, prefix: &Vec<Vec<char>>) -> (r: bool)
    ensures
        r == (prefix@.len() <= s@.len() && s@.map_values(|c: Vec<char>| c@).take(prefix@.len() as int)
            == prefix@.map_values(|c: Vec<char>| c@)),
{
    if prefix.len() > s.len() {
        return false;
    }
    let ghost sv = s@.map_values(|c: Vec<char>| c@);
    let ghost pv = prefix@.map_values(|c: Vec<char>| c@);
    let mut i: usize = 0;
    while i < prefix.len()
        invariant
            i <= prefix@.len() <= s@.len(),
            sv == s@.map_values(|c: Vec<char>| c@),
            pv == prefix@.map_values(|c: Vec<char>| c@),
            sv.take(i as int) == pv.take(i as int),
        decreases prefix@.len() - i,
    {
        if !crate::text::chars_equal(&s[i], &prefix[i]) {
            assert(sv.take(prefix@.len() as int)[i as int] != pv[i as int]);
            return false;
        }
        i += 1;
        assert(sv.take(i as int) =~= sv.take(i - 1).push(sv[i - 1]));
        assert(pv.take(i as int) =~= pv.take(i - 1).push(pv[i - 1]));
    }
    assert(pv.take(i as int) =~= pv);
    true
}

/// Writes a path under the home directory with `~`.
pub fn shorten_home(path: &str, home: &str) -> (r: String)
    ensures
        r@ == shortened(path@, home@),
{
    let pc = components_of(&str_chars(path));
    let hc = components_of(&str_chars(home));
    let ghost pv = pc@.map_values(|c: Vec<char>| c@);
    let ghost hv = hc@.map_values(|c: Vec<char>| c@);
    if hc.len() == 1 && hc[0].len() == 1 && hc[0][0] == '/' {
        assert(hv =~= seq![seq!['/']]) by {
            assert(hv[0] =~= seq!['/']);
        }
        return path.to_owned();
    }
    assert(hv != seq![seq!['/']]) by {
        if hv == seq![seq!['/']] {
            assert(hv[0] == seq!['/']);
            assert(hc@[0]@ == hv[0]);
        }
    }
    if !starts_with_components(&pc, &hc) {
        return path.to_owned();
    }
    if pc.len() == hc.len() {
        return "~".to_owned();
    }
    let mut out: Vec<char> = str_chars("~/");
    let first = &pc[hc.len()];
    let rooted = first.len() == 1 && first[0] == '/';
    let ghost rest = pv.skip(hc@.len() as int);
    assert(rest[0] == pv[hc@.len() as int]);
    assert(rooted == (rest[0] == seq!['/'])) by {
        if first@.len() == 1 {
            assert(first@ =~= seq![first@[0]]);
        }
    }
    let start = if rooted {
        out.push('/');
        hc.len() + 1
    } else {
        hc.len()
    };
    let mut joined_part: Vec<char> = Vec::new();
    let mut k: usize = start;
    assert(pv.skip(start as int).take(0) =~= Seq::<Seq<char>>::empty());
    while k < pc.len()
        invariant
            start <= k <= pc@.len(),
            pv == pc@.map_values(|c: Vec<char>| c@),
            joined_part@ == joined(pv.skip(start as int).take(k - start), "/"@),
        decreases pc@.len() - k,
    {
        let ghost items = pv.skip(start as int).take(k - start);
        push_joined(&mut joined_part, k - start, "/", &pc[k], Ghost(items));
        assert(items.push(pc@[k as int]@) =~= pv.skip(start as int).take(k + 1 - start));
        k += 1;
    }
    assert(pv.skip(start as int).take(k - start) =~= pv.skip(start as int));
    let ghost head = out@;
    push_chars(&mut out, &joined_part);
    if rooted {
        assert(rest.drop_first() =~= pv.skip(start as int));
        assert(rest_text(rest) == "/"@ + joined_part@);
        proof {
            reveal_strlit("/");
            reveal_strlit("~/");
        }
        assert(head =~= "~/"@ + "/"@);
        assert(out@ =~= "~/"@ + rest_text(rest));
    } else {
        assert(rest =~= pv.skip(start as int));
        assert(out@ =~= "~/"@ + rest_text(rest));
    }
    string_from_chars(&out)
}

/// `s` left-aligned in a field of `width` characters, as `{:<width}`
/// writes it.
pub open spec fn left_aligned(s: Seq<char>, width: nat) -> Seq<char> {
    s + if s.len() < width {
        repeat_char(' ', (width - s.len()) as nat)
    } else {
        Seq::empty()
    }
}

fn push_left_aligned(out: &mut Vec<char>, s: &str, width: usize)
    ensures
        final(out)@ == old(out)@ + left_aligned(s@, width as nat),
{
    let chars = str_chars(s);
    push_chars(out, &chars);
    if chars.len() < width {
        push_repeat(out, ' ', width - chars.len());
    }
    assert(out@ =~= old(out)@ + left_aligned(s@, width as nat));
}

/// Whether an entry passes the game and core filters.
pub open spec fn listed(game: Seq<char>, core: Seq<char>, rom: Option<Seq<char>>, core_filter: Option<Seq<char>>) -> bool {
    (match rom {
        Some(r) => game == r,
        None => true,
    }) && (match core_filter {
        Some(c) => core == c,
        None => true,
    })
}

/// The path as shown: with `~` for the home directory when it is known.
pub open spec fn shown_path(path: Seq<char>, home: Option<Seq<char>>) -> Seq<char> {
    match home {
        Some(h) => shortened(path, h),
        None => path,
    }
}

/// The table row of an entry.
pub open spec fn entry_row(e: StateEntry, home: Option<Seq<char>>) -> Seq<char> {
    left_aligned(e.game@, 24) + " "@ + left_aligned(e.core@, 12) + " "@ + left_aligned(
        human_form(e.timestamp@.0),
        25,
    ) + " "@ + shown_path(e.path@, home) + "\n"@
}

/// The rows of the first `k` entries that pass the filters.
pub open spec fn listing_rows(
    entries: Seq<StateEntry>,
    rom: Option<Seq<char>>,
    core: Option<Seq<char>>,
    home: Option<Seq<char>>,
    k: int,
) -> Seq<char>
    decreases k,
{
    if k <= 0 {
        Seq::empty()
    } else {
        listing_rows(entries, rom, core, home, k - 1) + if listed(
            entries[k - 1].game@,
            entries[k - 1].core@,
            rom,
            core,
        ) {
            entry_row(entries[k - 1], home)
        } else {
            Seq::empty()
        }
    }
}

/// The table's header line.
pub open spec fn listing_header() -> Seq<char> {
    left_aligned("GAME"@, 24) + " "@ + left_aligned("CORE"@, 12) + " "@ + left_aligned("SAVED"@, 25)
        + " PATH\n"@
}

/// What `state list` prints: the header and a row per listed entry, or a
/// note that there are none.
pub open spec fn listing_text(
    entries: Seq<StateEntry>,
    rom: Option<Seq<char>>,
    core: Option<Seq<char>>,
    home: Option<Seq<char>>,
) -> Seq<char> {
    if exists|i: int| 0 <= i < entries.len() && listed(entries[i].game@, entries[i].core@, rom, core) {
        listing_header() + listing_rows(entries, rom, core, home, entries.len() as int)
    } else {
        "No save states found.\n"@
    }
}

/// An optional string's text.
pub open spec fn opt_text(v: Option<&str>) -> Option<Seq<char>> {
    match v {
        Some(s) => Some(s@),
        None => None,
    }
}

fn passes(value: &str, filter: Option<&str>) -> (r: bool)
    ensures
        r == match filter {
            Some(f) => value@ == f@,
            None => true,
        },
{
    match filter {
        Some(f) => str_equal(value, f),
        None => true,
    }
}

fn push_entry_row(rows: &mut Vec<char>, e: &StateEntry, home: Option<&str>)
    requires
    ensures
        final(rows)@ == old(rows)@ + entry_row(*e, opt_text(home)),
{
    push_left_aligned(rows, e.game.as_str(), 24);
    push_str(rows, " ");
    push_left_aligned(rows, e.core.as_str(), 12);
    push_str(rows, " ");
    let human = e.timestamp.human();
    push_left_aligned(rows, human.as_str(), 25);
    push_str(rows, " ");
    match home {
        Some(h) => {
            let shown = shorten_home(e.path.as_str(), h);
            push_str(rows, shown.as_str());
        },
        None => push_str(rows, e.path.as_str()),
    }
    push_str(rows, "\n");
}

/// The table of save states for `state list`. Entry paths are absolute;
/// `home` is the home directory where it is known.
pub fn listing(
    entries: &Vec<StateEntry>,
    rom_filter: Option<&str>,
    core_filter: Option<&str>,
    home: Option<&str>,
) -> (r: String)
    requires
    ensures
        r@ == listing_text(entries@, opt_text(rom_filter), opt_text(core_filter), opt_text(home)),
{
    let ghost rom = opt_text(rom_filter);
    let ghost core = opt_text(core_filter);
    let ghost hm = opt_text(home);
    let mut rows: Vec<char> = Vec::new();
    let mut any = false;
    let mut k: usize = 0;
    while k < entries.len()
        invariant
            k <= entries@.len(),
            rom == opt_text(rom_filter),
            core == opt_text(core_filter),
            hm == opt_text(home),
                rows@ == listing_rows(entries@, rom, core, hm, k as int),
            any == exists|i: int| 0 <= i < k && listed(entries@[i].game@, entries@[i].core@, rom, core),
        decreases entries@.len() - k,
    {
        let e = &entries[k];
        let ok = passes(e.game.as_str(), rom_filter) && passes(e.core.as_str(), core_filter);
        assert(ok == listed(e.game@, e.core@, rom, core));
        if ok {
            push_entry_row(&mut rows, e, home);
            any = true;
        }
        assert(rows@ =~= listing_rows(entries@, rom, core, hm, k + 1));
        k += 1;
    }
    if !any {
        return "No save states found.\n".to_owned();
    }
    let mut out: Vec<char> = Vec::new();
    push_left_aligned(&mut out, "GAME", 24);
    push_str(&mut out, " ");
    push_left_aligned(&mut out, "CORE", 12);
    push_str(&mut out, " ");
    push_left_aligned(&mut out, "SAVED", 25);
    push_str(&mut out, " PATH\n");
    push_chars(&mut out, &rows);
    string_from_chars(&out)
}

/// The warning for a malformed file in the states directory.
pub fn malformed_warning(m: &MalformedState) -> (r: String)
    ensures
        r@ == "Warning: skipping malformed state file "@ + m.path@ + ": "@ + m.reason@,
{
    let mut out = str_chars("Warning: skipping malformed state file ");
    push_str(&mut out, m.path.as_str());
    push_str(&mut out, ": ");
    push_str(&mut out, m.reason.as_str());
    string_from_chars(&out)
}

/// The widest of the first `k` byte lengths, at least `floor`.
pub open spec fn widest(lens: Seq<nat>, floor: nat, k: int) -> nat
    decreases k,
{
    if k <= 0 {
        floor
    } else {
        let w = widest(lens, floor, k - 1);
        if lens[k - 1] > w {
            lens[k - 1]
        } else {
            w
        }
    }
}

/// The byte lengths of the entries' keys.
pub open spec fn key_lens(entries: Seq<ConfigEntry>) -> Seq<nat> {
    entries.map_values(|e: ConfigEntry| (encode_utf8(e.key@).len() as usize) as nat)
}

/// The byte lengths of the entries' values.
pub open spec fn value_lens(entries: Seq<ConfigEntry>) -> Seq<nat> {
    entries.map_values(|e: ConfigEntry| (encode_utf8(e.value@).len() as usize) as nat)
}

/// A row of the `config list` table.
pub open spec fn config_row(e: ConfigEntry, kw: nat, vw: nat) -> Seq<char> {
    left_aligned(e.key@, kw) + "  "@ + left_aligned(e.value@, vw) + "  "@ + (if e.configured {
        "config"@
    } else {
        "default"@
    }) + "\n"@
}

/// The rows of the first `k` entries.
pub open spec fn config_rows(entries: Seq<ConfigEntry>, kw: nat, vw: nat, k: int) -> Seq<char>
    decreases k,
{
    if k <= 0 {
        Seq::empty()
    } else {
        config_rows(entries, kw, vw, k - 1) + config_row(entries[k - 1], kw, vw)
    }
}

/// What `config list` prints: a header and a row per key, the columns as
/// wide as their longest entry (in bytes), at least as wide as the header.
pub open spec fn config_table(entries: Seq<ConfigEntry>) -> Seq<char> {
    let kw = widest(key_lens(entries), 3, entries.len() as int);
    let vw = widest(value_lens(entries), 5, entries.len() as int);
    left_aligned("KEY"@, kw) + "  "@ + left_aligned("VALUE"@, vw) + "  SOURCE\n"@ + config_rows(
        entries,
        kw,
        vw,
        entries.len() as int,
    )
}

/// The `config list` table.
pub fn config_list_text(entries: &Vec<ConfigEntry>) -> (r: String)
    ensures
        r@ == config_table(entries@),
{
    let mut kw: usize = 3;
    let mut vw: usize = 5;
    let mut k: usize = 0;
    while k < entries.len()
        invariant
            k <= entries@.len(),
            kw == widest(key_lens(entries@), 3, k as int),
            vw == widest(value_lens(entries@), 5, k as int),
        decreases entries@.len() - k,
    {
        let kl = entries[k].key.len();
        let vl = entries[k].value.as_str().len();
        assert(key_lens(entries@)[k as int] == kl);
        assert(value_lens(entries@)[k as int] == vl);
        if kl > kw {
            kw = kl;
        }
        if vl > vw {
            vw = vl;
        }
        k += 1;
    }
    let mut out: Vec<char> = Vec::new();
    push_left_aligned(&mut out, "KEY", kw);
    push_str(&mut out, "  ");
    push_left_aligned(&mut out, "VALUE", vw);
    push_str(&mut out, "  SOURCE\n");
    let ghost head = out@;
    let mut k: usize = 0;
    while k < entries.len()
        invariant
            k <= entries@.len(),
            kw == widest(key_lens(entries@), 3, entries@.len() as int),
            vw == widest(value_lens(entries@), 5, entries@.len() as int),
            out@ == head + config_rows(entries@, kw as nat, vw as nat, k as int),
        decreases entries@.len() - k,
    {
        let e = &entries[k];
        push_left_aligned(&mut out, e.key, kw);
        push_str(&mut out, "  ");
        push_left_aligned(&mut out, e.value.as_str(), vw);
        push_str(&mut out, "  ");
        if e.configured {
            push_str(&mut out, "config");
        } else {
            push_str(&mut out, "default");
        }
        push_str(&mut out, "\n");
        k += 1;
    }
    string_from_chars(&out)
}

} // verus!
