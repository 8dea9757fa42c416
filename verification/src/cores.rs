//! libretro cores: which core runs a ROM (by header signature, by file
//! extension, or by the files inside a zip), core names and library paths,
//! and where the buildbot publishes them.
use vstd::prelude::*;
use crate::pathname::{extension, join, join_str, extension_str};
use crate::text::{
    first_with_prefix, lemma_first_prefix_stays, starts_with,
    chars_less, eq_ignore_case, is_whitespace, lemma_seq_lt_transitive, lemma_seq_lt_trichotomy,
    lower_seq, push_str, seq_lt, str_chars, str_eq_ignore_case, str_equal, string_from_chars,
    to_ascii_lowercase,
};

verus! {

// ── The systems registry ──────────────────────────────────────────────────

/// The known systems: their file extensions, an optional header signature
/// (offset and bytes), and the core recommended for them.
pub open spec fn systems() -> Seq<(Seq<Seq<char>>, Option<(int, Seq<u8>)>, Seq<char>)> {
    seq![
        (seq!["nes"@, "fds"@, "unf"@, "unif"@], Some((0int, seq![0x4eu8, 0x45u8, 0x53u8, 0x1au8])), "nestopia"@),
        (seq!["sfc"@, "smc"@], None, "snes9x"@),
        (seq!["gen"@, "md"@, "smd"@, "sg"@, "bin"@], Some((0x100int, seq![0x53u8, 0x45u8, 0x47u8, 0x41u8])), "genesis_plus_gx"@),
        (seq!["sms"@], None, "genesis_plus_gx"@),
        (seq!["gg"@], None, "genesis_plus_gx"@),
        (seq!["32x"@], None, "picodrive"@),
        (seq!["gb"@], None, "gambatte"@),
        (seq!["gbc"@], None, "gambatte"@),
        (seq!["gba"@], None, "mgba"@),
        (seq!["a26"@, "bin"@], None, "stella"@),
        (seq!["a52"@], None, "a5200"@),
    ]
}

/// The number of systems.
pub const SYSTEM_COUNT: usize = 11;

/// The recommended core of system `i`.
fn system_core(i: usize) -> (r: &'static str)
    requires
        i < SYSTEM_COUNT,
    ensures
        r@ == systems()[i as int].2,
{
    if i == 0 {
        "nestopia"
    } else if i == 1 {
        "snes9x"
    } else if i == 2 || i == 3 || i == 4 {
        "genesis_plus_gx"
    } else if i == 5 {
        "picodrive"
    } else if i == 6 || i == 7 {
        "gambatte"
    } else if i == 8 {
        "mgba"
    } else if i == 9 {
        "stella"
    } else {
        "a5200"
    }
}

/// The file extensions of system `i`.
fn system_extensions(i: usize) -> (r: Vec<&'static str>)
    requires
        i < SYSTEM_COUNT,
    ensures
        r@.map_values(|s: &str| s@) == systems()[i as int].0,
{
    let mut r: Vec<&'static str> = Vec::new();
    if i == 0 {
        r.push("nes");
        r.push("fds");
        r.push("unf");
        r.push("unif");
    } else if i == 1 {
        r.push("sfc");
        r.push("smc");
    } else if i == 2 {
        r.push("gen");
        r.push("md");
        r.push("smd");
        r.push("sg");
        r.push("bin");
    } else if i == 3 {
        r.push("sms");
    } else if i == 4 {
        r.push("gg");
    } else if i == 5 {
        r.push("32x");
    } else if i == 6 {
        r.push("gb");
    } else if i == 7 {
        r.push("gbc");
    } else if i == 8 {
        r.push("gba");
    } else if i == 9 {
        r.push("a26");
        r.push("bin");
    } else {
        r.push("a52");
    }
    assert(r@.map_values(|s: &str| s@) =~= systems()[i as int].0);
    r
}

// ── Detection results ─────────────────────────────────────────────────────

/// Which core a ROM needs.
#[derive(Debug)]
pub enum Detection {
    Detected { core_name: &'static str },
    Ambiguous { candidates: Vec<&'static str> },
    Unknown,
}

/// The cores a detection names, in order.
pub open spec fn detection_cores(d: Detection) -> Seq<Seq<char>> {
    match d {
        Detection::Detected { core_name } => seq![core_name@],
        Detection::Ambiguous { candidates } => candidates@.map_values(|s: &str| s@),
        Detection::Unknown => Seq::empty(),
    }
}

/// Whether `s` is strictly increasing.
pub open spec fn strictly_sorted(s: Seq<Seq<char>>) -> bool {
    forall|i: int, j: int| 0 <= i < j < s.len() ==> seq_lt(s[i], s[j])
}

/// Whether `d` reports the cores `cands`: each once, in sorted order; one
/// core is detected, several are ambiguous, none is unknown.
pub open spec fn detection_of(d: Detection, cands: Seq<Seq<char>>) -> bool {
    &&& strictly_sorted(detection_cores(d))
    &&& detection_cores(d).to_set() == cands.to_set()
    &&& (d is Unknown <==> cands.len() == 0)
    &&& (d matches Detection::Ambiguous { candidates } ==> candidates@.len() >= 2)
}

/// The cores of `cands`, sorted, each once; the detection they make.
pub fn detection_from_candidates(cands: Vec<&'static str>) -> (r: Detection)
    ensures
        detection_of(r, cands@.map_values(|s: &str| s@)),
{
    let ghost view = cands@.map_values(|s: &str| s@);
    let mut out: Vec<&'static str> = Vec::new();
    let mut i: usize = 0;
    while i < cands.len()
        invariant
            i <= cands@.len(),
            view == cands@.map_values(|s: &str| s@),
            strictly_sorted(out@.map_values(|s: &str| s@)),
            out@.map_values(|s: &str| s@).to_set() == view.take(i as int).to_set(),
        decreases cands@.len() - i,
    {
        let c = cands[i];
        let cc = str_chars(c);
        let ghost before = out@.map_values(|s: &str| s@);
        let mut pos: usize = 0;
        while pos < out.len() && chars_less(&str_chars(out[pos]), &cc)
            invariant
                pos <= out@.len(),
                cc@ == c@,
                before == out@.map_values(|s: &str| s@),
                forall|p: int| 0 <= p < pos ==> seq_lt(#[trigger] before[p], c@),
            decreases out@.len() - pos,
        {
            pos += 1;
        }
        let present = pos < out.len() && str_equal(out[pos], c);
        assert(view.take(i + 1) =~= view.take(i as int).push(c@));
        if !present {
            out.insert(pos, c);
            let ghost after = out@.map_values(|s: &str| s@);
            assert(after =~= before.insert(pos as int, c@));
            assert forall|p: int, q: int| 0 <= p < q < after.len() implies seq_lt(after[p], after[q]) by {
                if p == pos && q > pos {
                    lemma_seq_lt_trichotomy(before[pos as int], c@);
                    if q - 1 > pos {
                        lemma_seq_lt_transitive(c@, before[pos as int], before[q - 1]);
                    }
                } else if q == pos && p < pos {
                } else if p < pos && q > pos {
                }
            }
            assert(after.to_set() =~= before.to_set().insert(c@)) by {
                assert forall|x: Seq<char>| after.to_set().contains(x) <==> before.to_set().insert(c@).contains(x) by {
                    if after.to_set().contains(x) {
                        let k = choose|k: int| 0 <= k < after.len() && after[k] == x;
                        if k < pos {
                            assert(before[k] == x);
                        } else if k > pos {
                            assert(before[k - 1] == x);
                        }
                    }
                    if before.to_set().contains(x) {
                        let k = choose|k: int| 0 <= k < before.len() && before[k] == x;
                        if k < pos {
                            assert(after[k] == x);
                        } else {
                            assert(after[k + 1] == x);
                        }
                    }
                    if x == c@ {
                        assert(after[pos as int] == x);
                    }
                }
            }
        } else {
            assert(before.to_set().contains(c@)) by {
                assert(before[pos as int] == c@);
            }
            assert(before.to_set().insert(c@) =~= before.to_set());
        }
        proof {
            view.take(i as int).lemma_push_to_set_commute(c@);
        }
        i += 1;
    }
    assert(view.take(i as int) =~= view);
    let ghost result = out@.map_values(|s: &str| s@);
    if out.len() == 0 {
        proof {
            assert(result =~= Seq::<Seq<char>>::empty());
            if view.len() > 0 {
                assert(view.to_set().contains(view[0]));
                assert(!result.contains(view[0]));
            }
            assert(result.to_set() =~= Seq::<Seq<char>>::empty().to_set());
        }
        Detection::Unknown
    } else if out.len() == 1 {
        let core_name = out[0];
        assert(seq![core_name@] =~= result);
        proof {
            if view.len() == 0 {
                assert(result.to_set().contains(result[0]));
            }
        }
        Detection::Detected { core_name }
    } else {
        proof {
            if view.len() == 0 {
                assert(result.to_set().contains(result[0]));
            }
        }
        Detection::Ambiguous { candidates: out }
    }
}


// ── Detection by extension, signature and archive contents ────────────────

/// Whether system `i` lists the extension `ext`, ignoring ASCII case.
pub open spec fn system_has_extension(i: int, ext: Seq<char>) -> bool {
    exists|k: int| 0 <= k < systems()[i].0.len() && eq_ignore_case(#[trigger] systems()[i].0[k], ext)
}

/// The recommended cores of the first `n` systems that list `ext`.
pub open spec fn extension_cores(ext: Seq<char>, n: int) -> Seq<Seq<char>>
    decreases n,
{
    if n <= 0 {
        Seq::empty()
    } else {
        extension_cores(ext, n - 1) + if system_has_extension(n - 1, ext) {
            seq![systems()[n - 1].2]
        } else {
            Seq::empty()
        }
    }
}

fn lists_extension(i: usize, ext: &str) -> (r: bool)
    requires
        i < SYSTEM_COUNT,
    ensures
        r == system_has_extension(i as int, ext@),
{
    let exts = system_extensions(i);
    let ghost v = exts@.map_values(|s: &str| s@);
    let mut k: usize = 0;
    while k < exts.len()
        invariant
            k <= exts@.len(),
            i < SYSTEM_COUNT,
            v == exts@.map_values(|s: &str| s@),
            v == systems()[i as int].0,
            forall|j: int| 0 <= j < k ==> !eq_ignore_case(#[trigger] systems()[i as int].0[j], ext@),
        decreases exts@.len() - k,
    {
        assert(v[k as int] == exts@[k as int]@);
        if str_eq_ignore_case(exts[k], ext) {
            return true;
        }
        k += 1;
    }
    false
}

/// The cores of the systems that list `ext`, in registry order.
fn cores_for_extension(ext: &str, out: &mut Vec<&'static str>)
    ensures
        final(out)@.map_values(|s: &str| s@) == old(out)@.map_values(|s: &str| s@) + extension_cores(
            ext@,
            SYSTEM_COUNT as int,
        ),
{
    let ghost start = out@.map_values(|s: &str| s@);
    let mut i: usize = 0;
    while i < SYSTEM_COUNT
        invariant
            i <= SYSTEM_COUNT,
            out@.map_values(|s: &str| s@) == start + extension_cores(ext@, i as int),
        decreases SYSTEM_COUNT - i,
    {
        let ghost before = out@;
        if lists_extension(i, ext) {
            let core = system_core(i);
            out.push(core);
            assert(out@.map_values(|s: &str| s@) =~= before.map_values(|s: &str| s@).push(core@));
        }
        assert(extension_cores(ext@, i + 1) == extension_cores(ext@, i as int) + if system_has_extension(i as int, ext@) {
            seq![systems()[i as int].2]
        } else {
            Seq::empty()
        });
        assert(out@.map_values(|s: &str| s@) =~= start + extension_cores(ext@, i + 1));
        i += 1;
    }
}

/// The core for a ROM with extension `ext`.
pub fn detect_by_extension(ext: &str) -> (r: Detection)
    ensures
        detection_of(r, extension_cores(ext@, SYSTEM_COUNT as int)),
{
    let mut cands: Vec<&'static str> = Vec::new();
    cores_for_extension(ext, &mut cands);
    assert(cands@.map_values(|s: &str| s@) =~= extension_cores(ext@, SYSTEM_COUNT as int));
    detection_from_candidates(cands)
}

/// Whether the header bytes carry system `i`'s signature.
pub open spec fn signature_matches(i: int, header: Seq<u8>) -> bool {
    match systems()[i].1 {
        Some((offset, bytes)) => offset + bytes.len() <= header.len() && header.subrange(
            offset,
            offset + bytes.len(),
        ) == bytes,
        None => false,
    }
}

/// The recommended cores of the first `n` systems whose signature the
/// header carries.
pub open spec fn signature_cores(header: Seq<u8>, n: int) -> Seq<Seq<char>>
    decreases n,
{
    if n <= 0 {
        Seq::empty()
    } else {
        signature_cores(header, n - 1) + if signature_matches(n - 1, header) {
            seq![systems()[n - 1].2]
        } else {
            Seq::empty()
        }
    }
}

fn carries_signature(i: usize, header: &[u8]) -> (r: bool)
    requires
        i < SYSTEM_COUNT,
    ensures
        r == signature_matches(i as int, header@),
{
    if i == 0 {
        let r = header.len() >= 4 && header[0] == 0x4e && header[1] == 0x45 && header[2] == 0x53
            && header[3] == 0x1a;
        assert(r == signature_matches(0, header@)) by {
            if header@.len() >= 4 {
                assert(header@.subrange(0, 4) =~= seq![header@[0], header@[1], header@[2], header@[3]]);
            }
        }
        r
    } else if i == 2 {
        let r = header.len() >= 0x104 && header[0x100] == 0x53 && header[0x101] == 0x45
            && header[0x102] == 0x47 && header[0x103] == 0x41;
        assert(r == signature_matches(2, header@)) by {
            if header@.len() >= 0x104 {
                assert(header@.subrange(0x100, 0x104) =~= seq![
                    header@[0x100],
                    header@[0x101],
                    header@[0x102],
                    header@[0x103],
                ]);
            }
        }
        r
    } else {
        false
    }
}

/// The core whose system signature the first bytes of a ROM (up to 512)
/// carry; `None` when they carry none.
pub fn detect_by_signature(header: &[u8]) -> (r: Option<Detection>)
    ensures
        match r {
            Some(d) => signature_cores(header@, SYSTEM_COUNT as int).len() > 0 && detection_of(
                d,
                signature_cores(header@, SYSTEM_COUNT as int),
            ),
            None => signature_cores(header@, SYSTEM_COUNT as int).len() == 0,
        },
{
    let mut cands: Vec<&'static str> = Vec::new();
    let mut i: usize = 0;
    while i < SYSTEM_COUNT
        invariant
            i <= SYSTEM_COUNT,
            cands@.map_values(|s: &str| s@) == signature_cores(header@, i as int),
        decreases SYSTEM_COUNT - i,
    {
        if carries_signature(i, header) {
            cands.push(system_core(i));
        }
        assert(cands@.map_values(|s: &str| s@) =~= signature_cores(header@, i + 1));
        i += 1;
    }
    if cands.len() == 0 {
        None
    } else {
        Some(detection_from_candidates(cands))
    }
}

/// The cores that the files of a zip archive call for: for each file (not
/// directory), the systems listing its extension.
pub open spec fn zip_cores(entries: Seq<(String, bool)>) -> Seq<Seq<char>>
    decreases entries.len(),
{
    if entries.len() == 0 {
        Seq::empty()
    } else {
        let (name, is_dir) = entries.last();
        zip_cores(entries.drop_last()) + if is_dir {
            Seq::empty()
        } else {
            match extension(name@) {
                Some(ext) => extension_cores(lower_seq(ext), SYSTEM_COUNT as int),
                None => Seq::empty(),
            }
        }
    }
}

/// The core that a zip archive's files call for, given its entries' names
/// and whether each is a directory.
pub fn detect_zip_entries(entries: &Vec<(String, bool)>) -> (r: Detection)
    ensures
        detection_of(r, zip_cores(entries@)),
{
    let mut cands: Vec<&'static str> = Vec::new();
    let mut i: usize = 0;
    while i < entries.len()
        invariant
            i <= entries@.len(),
            cands@.map_values(|s: &str| s@) == zip_cores(entries@.take(i as int)),
        decreases entries@.len() - i,
    {
        assert(entries@.take(i + 1).drop_last() =~= entries@.take(i as int));
        let ghost before = cands@.map_values(|s: &str| s@);
        if !entries[i].1 {
            match extension_str(entries[i].0.as_str()) {
                Some(ext) => {
                    let lower = to_ascii_lowercase(ext.as_str());
                    cores_for_extension(lower.as_str(), &mut cands);
                },
                None => {},
            }
        }
        assert(cands@.map_values(|s: &str| s@) =~= zip_cores(entries@.take(i + 1)));
        i += 1;
    }
    assert(entries@.take(entries@.len() as int) =~= entries@);
    detection_from_candidates(cands)
}

/// The core a ROM needs: for a `.zip`, the files inside (unknown when the
/// archive could not be read); else the header signature when the first
/// bytes could be read and carry one; else the extension.
pub open spec fn rom_detection(
    path: Seq<char>,
    header: Option<Seq<u8>>,
    zip_entries: Option<Seq<(String, bool)>>,
) -> Seq<Seq<char>> {
    let ext = match extension(path) {
        Some(e) => Some(lower_seq(e)),
        None => None,
    };
    if ext == Some("zip"@) {
        match zip_entries {
            Some(e) => zip_cores(e),
            None => Seq::empty(),
        }
    } else if header matches Some(h) && signature_cores(h, SYSTEM_COUNT as int).len() > 0 {
        signature_cores(header.unwrap(), SYSTEM_COUNT as int)
    } else {
        match ext {
            Some(e) => extension_cores(e, SYSTEM_COUNT as int),
            None => Seq::empty(),
        }
    }
}

/// The core a ROM at `path` needs, given what could be read of it: its
/// first bytes (up to 512) and, for a zip archive, its entries.
pub fn detect_rom(path: &str, header: Option<&[u8]>, zip_entries: Option<&Vec<(String, bool)>>) -> (r:
    Detection)
    ensures
        detection_of(
            r,
            rom_detection(
                path@,
                match header {
                    Some(h) => Some(h@),
                    None => None,
                },
                match zip_entries {
                    Some(e) => Some(e@),
                    None => None,
                },
            ),
        ),
{
    let ext = match extension_str(path) {
        Some(e) => Some(to_ascii_lowercase(e.as_str())),
        None => None,
    };
    let is_zip = match &ext {
        Some(e) => str_equal(e.as_str(), "zip"),
        None => false,
    };
    if is_zip {
        return match zip_entries {
            Some(entries) => detect_zip_entries(entries),
            None => detection_from_candidates(Vec::new()),
        };
    }
    if let Some(h) = header {
        if let Some(d) = detect_by_signature(h) {
            return d;
        }
    }
    match &ext {
        Some(e) => detect_by_extension(e.as_str()),
        None => detection_from_candidates(Vec::new()),
    }
}

// ── Core names and library paths ──────────────────────────────────────────

/// The lower-case form that `str::to_lowercase` gives `s` (Unicode's
/// lower-case mapping).
pub uninterp spec fn unicode_lowercase(s: Seq<char>) -> Seq<char>;

/// Lower-cases `s` with `str::to_lowercase`; the result is the named form.
#[verifier::external_body]
fn to_lowercase(s: &str) -> (r: String)
    ensures
        r@ == unicode_lowercase(s@),
{
    s.to_lowercase()
}

/// `s` without leading white space.
pub open spec fn trim_start(s: Seq<char>) -> Seq<char>
    decreases s.len(),
{
    if s.len() > 0 && is_whitespace(s[0]) {
        trim_start(s.skip(1))
    } else {
        s
    }
}

/// `s` without trailing white space.
pub open spec fn trim_end(s: Seq<char>) -> Seq<char>
    decreases s.len(),
{
    if s.len() > 0 && is_whitespace(s.last()) {
        trim_end(s.drop_last())
    } else {
        s
    }
}

/// `s` without leading and trailing white space, as `str::trim` gives it.
pub open spec fn trimmed(s: Seq<char>) -> Seq<char> {
    trim_end(trim_start(s))
}

/// Trims white space from both ends, as `str::trim` does.
pub fn trim(s: &str) -> (r: String)
    ensures
        r@ == trimmed(s@),
{
    let chars = str_chars(s);
    let mut start: usize = 0;
    assert(chars@.skip(0) =~= chars@);
    while start < chars.len() && crate::text::char_is_whitespace(chars[start])
        invariant
            start <= chars@.len(),
            chars@ == s@,
            trim_start(s@) == trim_start(chars@.skip(start as int)),
        decreases chars@.len() - start,
    {
        assert(chars@.skip(start as int).skip(1) =~= chars@.skip(start + 1));
        start += 1;
    }
    let mut end: usize = chars.len();
    assert(chars@.skip(start as int) =~= chars@.subrange(start as int, end as int));
    while end > start && crate::text::char_is_whitespace(chars[end - 1])
        invariant
            start <= end <= chars@.len(),
            trim_end(trim_start(s@)) == trim_end(chars@.subrange(start as int, end as int)),
        decreases end - start,
    {
        assert(chars@.subrange(start as int, end as int).drop_last() =~= chars@.subrange(
            start as int,
            end - 1,
        ));
        end -= 1;
    }
    string_from_chars(&crate::text::chars_range(&chars, start, end))
}

/// A core name as given, normalized: trimmed and lower-cased.
pub open spec fn normalized_core_name(name: Seq<char>) -> Seq<char> {
    unicode_lowercase(trimmed(name))
}

pub fn normalize_core_name(name: &str) -> (r: String)
    ensures
        r@ == normalized_core_name(name@),
{
    let t = trim(name);
    to_lowercase(t.as_str())
}

/// A core name, normalized, or why it cannot name a core file.
pub open spec fn valid_core_name(name: Seq<char>) -> Result<Seq<char>, Seq<char>> {
    let n = normalized_core_name(name);
    if n.len() == 0 {
        Err("Empty core name"@)
    } else if crate::text::has_char(n, '/') || crate::text::has_char(n, '\\') || n == "."@ || n
        == ".."@ {
        Err("Invalid core name: '"@ + n + "'"@)
    } else {
        Ok(n)
    }
}

pub fn validate_core_name(name: &str) -> (r: Result<String, String>)
    ensures
        match r {
            Ok(n) => valid_core_name(name@) == Ok::<Seq<char>, Seq<char>>(n@),
            Err(m) => valid_core_name(name@) == Err::<Seq<char>, Seq<char>>(m@),
        },
{
    let n = normalize_core_name(name);
    let chars = str_chars(n.as_str());
    if chars.len() == 0 {
        return Err("Empty core name".to_owned());
    }
    if crate::text::chars_contain(&chars, '/') || crate::text::chars_contain(&chars, '\\')
        || str_equal(n.as_str(), ".") || str_equal(n.as_str(), "..") {
        let mut m = str_chars("Invalid core name: '");
        push_str(&mut m, n.as_str());
        push_str(&mut m, "'");
        return Err(string_from_chars(&m));
    }
    Ok(n)
}

/// The file name of a core's library: `<name>_libretro.<ext>`.
pub open spec fn core_file_name(name: Seq<char>, ext: Seq<char>) -> Seq<char> {
    name + "_libretro."@ + ext
}

/// Where the library of core `name` is: in `dir`, under its normalized
/// name, with the platform's library extension `ext`.
pub fn resolve_core_library_path(name: &str, dir: &str, ext: &str) -> (r: String)
    ensures
        r@ == join(dir@, core_file_name(normalized_core_name(name@), ext@)),
{
    let n = normalize_core_name(name);
    let mut file = str_chars(n.as_str());
    push_str(&mut file, "_libretro.");
    push_str(&mut file, ext);
    let file = string_from_chars(&file);
    join_str(dir, file.as_str())
}

/// Whether a path names no directory: it has at most one component, so
/// `Path::parent` gives nothing or the empty path.
pub open spec fn is_bare_name(p: Seq<char>) -> bool {
    crate::pathname::components(p).len() <= 1
}

/// Where the core library given as `input` is, with the names of the files
/// in `cores_dir` in `files`: without input, the default core's library in
/// `cores_dir`; an input naming an existing file, that file; a bare name,
/// its library in `cores_dir` when that file is there, else the first file
/// there that starts with the name, else its library path all the same;
/// any other path as it is.
pub open spec fn core_path_choice(
    input: Option<Seq<char>>,
    input_exists: bool,
    cores_dir: Seq<char>,
    default_name: Seq<char>,
    ext: Seq<char>,
    files: Seq<Seq<char>>,
) -> Seq<char> {
    match input {
        None => join(cores_dir, core_file_name(default_name, ext)),
        Some(p) => if input_exists {
            p
        } else if is_bare_name(p) {
            if files.contains(core_file_name(p, ext)) {
                join(cores_dir, core_file_name(p, ext))
            } else {
                match first_with_prefix(files, p) {
                    Some(f) => join(cores_dir, f),
                    None => join(cores_dir, core_file_name(p, ext)),
                }
            }
        } else {
            p
        },
    }
}

/// The first name in `files` starting with `prefix`.
fn find_with_prefix(files: &Vec<String>, prefix: &str) -> (r: Option<usize>)
    ensures
        match first_with_prefix(files@.map_values(|f: String| f@), prefix@) {
            Some(f) => r matches Some(i) && i < files@.len() && files@[i as int]@ == f,
            None => r is None,
        },
{
    let ghost names = files@.map_values(|f: String| f@);
    let p = str_chars(prefix);
    let mut i: usize = 0;
    while i < files.len()
        invariant
            i <= files@.len(),
            names == files@.map_values(|f: String| f@),
            p@ == prefix@,
            first_with_prefix(names.take(i as int), prefix@) is None,
        decreases files@.len() - i,
    {
        assert(names.take(i + 1).drop_last() =~= names.take(i as int));
        let name = str_chars(files[i].as_str());
        if crate::text::chars_start_with(&name, &p) {
            proof {
                lemma_first_prefix_stays(names, prefix@, i as int);
            }
            return Some(i);
        }
        i += 1;
    }
    assert(names.take(files@.len() as int) =~= names);
    None
}

/// Resolves where the core library given as `input` is (see
/// `core_path_choice`); `input_exists` tells whether `input` names an
/// existing file, and `files` lists the names in `cores_dir`.
pub fn resolve_core_path(
    input: Option<&str>,
    input_exists: bool,
    cores_dir: &str,
    default_name: &str,
    ext: &str,
    files: &Vec<String>,
) -> (r: String)
    ensures
        r@ == core_path_choice(
            match input {
                Some(p) => Some(p@),
                None => None,
            },
            input_exists,
            cores_dir@,
            default_name@,
            ext@,
            files@.map_values(|f: String| f@),
        ),
{
    let ghost names = files@.map_values(|f: String| f@);
    let name = match input {
        None => {
            let mut file = str_chars(default_name);
            push_str(&mut file, "_libretro.");
            push_str(&mut file, ext);
            return join_str(cores_dir, string_from_chars(&file).as_str());
        },
        Some(p) => p,
    };
    if input_exists {
        return name.to_owned();
    }
    let parts = crate::pathname::components_of(&str_chars(name));
    if parts.len() > 1 {
        return name.to_owned();
    }
    let mut file = str_chars(name);
    push_str(&mut file, "_libretro.");
    push_str(&mut file, ext);
    let file = string_from_chars(&file);
    assert(file@ =~= core_file_name(name@, ext@));
    assert(is_bare_name(name@));
    let mut i: usize = 0;
    while i < files.len()
        invariant
            i <= files@.len(),
            names == files@.map_values(|f: String| f@),
            input == Some(name),
            !input_exists,
            is_bare_name(name@),
            file@ == core_file_name(name@, ext@),
            forall|j: int| 0 <= j < i ==> names[j] != file@,
        decreases files@.len() - i,
    {
        if str_equal(files[i].as_str(), file.as_str()) {
            assert(names[i as int] == file@);
            assert(names.contains(file@));
            return join_str(cores_dir, file.as_str());
        }
        i += 1;
    }
    assert(!names.contains(file@));
    match find_with_prefix(files, name) {
        Some(j) => join_str(cores_dir, files[j].as_str()),
        None => join_str(cores_dir, file.as_str()),
    }
}

/// What resolving a requested core comes to: a library to use, a core to
/// download and install before using its library, or the error message.
#[derive(Debug)]
pub enum CoreChoice {
    Use(String),
    Install(String),
    NotFound(String),
}

/// Resolves the core asked for as `input` (see `resolve_core_path` for the
/// `candidate` found in the cores directory): an existing file is used as
/// it is; a bare name is used from the cores directory when it is
/// installed or a candidate file exists there, else it is installed; any
/// other missing path is not found.
pub fn choose_core(
    input: &str,
    input_exists: bool,
    installed: bool,
    candidate: &str,
    candidate_exists: bool,
    cores_dir: &str,
    ext: &str,
) -> (r: CoreChoice)
    ensures
        ({
            let library = join(cores_dir@, core_file_name(normalized_core_name(input@), ext@));
            match r {
                CoreChoice::Use(p) => if input_exists {
                    p@ == input@
                } else {
                    is_bare_name(input@) && if installed {
                        p@ == library
                    } else {
                        candidate_exists && p@ == candidate@
                    }
                },
                CoreChoice::Install(p) => !input_exists && is_bare_name(input@) && !installed
                    && !candidate_exists && p@ == library,
                CoreChoice::NotFound(m) => !input_exists && !is_bare_name(input@) && m@ == "Core not found: "@
                    + input@,
            }
        }),
{
    if input_exists {
        return CoreChoice::Use(input.to_owned());
    }
    let parts = crate::pathname::components_of(&str_chars(input));
    if parts.len() > 1 {
        let mut m = str_chars("Core not found: ");
        push_str(&mut m, input);
        return CoreChoice::NotFound(string_from_chars(&m));
    }
    if installed {
        CoreChoice::Use(resolve_core_library_path(input, cores_dir, ext))
    } else if candidate_exists {
        CoreChoice::Use(candidate.to_owned())
    } else {
        CoreChoice::Install(resolve_core_library_path(input, cores_dir, ext))
    }
}

/// The library extension of an operating system, by Rust's name for it.
pub open spec fn core_extension_of(os: Seq<char>) -> Seq<char> {
    if os == "macos"@ {
        "dylib"@
    } else if os == "windows"@ {
        "dll"@
    } else {
        "so"@
    }
}

pub fn core_extension(os: &str) -> (r: &'static str)
    ensures
        r@ == core_extension_of(os@),
{
    if str_equal(os, "macos") {
        "dylib"
    } else if str_equal(os, "windows") {
        "dll"
    } else {
        "so"
    }
}

/// The buildbot directory of nightly cores for an operating system and
/// architecture, where there is one.
pub open spec fn buildbot_url_of(os: Seq<char>, arch: Seq<char>) -> Option<Seq<char>> {
    if os == "macos"@ && arch == "aarch64"@ {
        Some("https://buildbot.libretro.com/nightly/apple/osx/arm64/latest/"@)
    } else if os == "macos"@ && arch == "x86_64"@ {
        Some("https://buildbot.libretro.com/nightly/apple/osx/x86_64/latest/"@)
    } else if os == "linux"@ && arch == "aarch64"@ {
        Some("https://buildbot.libretro.com/nightly/linux/aarch64/latest/"@)
    } else if os == "linux"@ && arch == "x86_64"@ {
        Some("https://buildbot.libretro.com/nightly/linux/x86_64/latest/"@)
    } else if os == "windows"@ && arch == "x86"@ {
        Some("https://buildbot.libretro.com/nightly/windows/x86/latest/"@)
    } else if os == "windows"@ && arch == "x86_64"@ {
        Some("https://buildbot.libretro.com/nightly/windows/x86_64/latest/"@)
    } else {
        None
    }
}

pub fn buildbot_base_url(os: &str, arch: &str) -> (r: Option<&'static str>)
    ensures
        match r {
            Some(u) => buildbot_url_of(os@, arch@) == Some(u@),
            None => buildbot_url_of(os@, arch@) is None,
        },
{
    if str_equal(os, "macos") && str_equal(arch, "aarch64") {
        Some("https://buildbot.libretro.com/nightly/apple/osx/arm64/latest/")
    } else if str_equal(os, "macos") && str_equal(arch, "x86_64") {
        Some("https://buildbot.libretro.com/nightly/apple/osx/x86_64/latest/")
    } else if str_equal(os, "linux") && str_equal(arch, "aarch64") {
        Some("https://buildbot.libretro.com/nightly/linux/aarch64/latest/")
    } else if str_equal(os, "linux") && str_equal(arch, "x86_64") {
        Some("https://buildbot.libretro.com/nightly/linux/x86_64/latest/")
    } else if str_equal(os, "windows") && str_equal(arch, "x86") {
        Some("https://buildbot.libretro.com/nightly/windows/x86/latest/")
    } else if str_equal(os, "windows") && str_equal(arch, "x86_64") {
        Some("https://buildbot.libretro.com/nightly/windows/x86_64/latest/")
    } else {
        None
    }
}

/// The download URL of a core's zip: `<base><name>_libretro.<ext>.zip`.
pub fn core_download_url(base: &str, name: &str, ext: &str) -> (r: String)
    ensures
        r@ == base@ + core_file_name(name@, ext@) + ".zip"@,
{
    let mut out = str_chars(base);
    push_str(&mut out, name);
    push_str(&mut out, "_libretro.");
    push_str(&mut out, ext);
    push_str(&mut out, ".zip");
    string_from_chars(&out)
}

/// The names `strings` hold, sorted, each once.
pub fn sorted_unique(strings: Vec<String>) -> (r: Vec<String>)
    ensures
        strictly_sorted(r@.map_values(|s: String| s@)),
        r@.map_values(|s: String| s@).to_set() == strings@.map_values(|s: String| s@).to_set(),
{
    let ghost view = strings@.map_values(|s: String| s@);
    let mut out: Vec<String> = Vec::new();
    let mut rest = strings;
    let mut i: usize = 0;
    let n = rest.len();
    while rest.len() > 0
        invariant
            i + rest@.len() == n,
            n == view.len(),
            rest@.map_values(|s: String| s@) == view.skip(i as int),
            strictly_sorted(out@.map_values(|s: String| s@)),
            out@.map_values(|s: String| s@).to_set() == view.take(i as int).to_set(),
        decreases rest@.len(),
    {
        let ghost rest_before = rest@;
        let c = rest.remove(0);
        assert(c@ == view[i as int]) by {
            assert(rest_before.map_values(|s: String| s@)[0] == view.skip(i as int)[0]);
        }
        assert(rest@ == rest_before.remove(0));
        assert forall|k: int| 0 <= k < rest@.len() implies #[trigger] rest@[k]@ == view[i + 1 + k] by {
            assert(rest@[k] == rest_before[k + 1]);
            assert(rest_before.map_values(|s: String| s@)[k + 1] == view.skip(i as int)[k + 1]);
        }
        assert(rest@.map_values(|s: String| s@) =~= view.skip(i + 1));
        let cc = str_chars(c.as_str());
        let ghost before = out@.map_values(|s: String| s@);
        let mut pos: usize = 0;
        while pos < out.len() && chars_less(&str_chars(out[pos].as_str()), &cc)
            invariant
                pos <= out@.len(),
                cc@ == c@,
                before == out@.map_values(|s: String| s@),
                forall|p: int| 0 <= p < pos ==> seq_lt(#[trigger] before[p], c@),
            decreases out@.len() - pos,
        {
            pos += 1;
        }
        let present = pos < out.len() && str_equal(out[pos].as_str(), c.as_str());
        assert(view.take(i + 1) =~= view.take(i as int).push(c@));
        let ghost cv = c@;
        if !present {
            out.insert(pos, c);
            let ghost after = out@.map_values(|s: String| s@);
            assert(after =~= before.insert(pos as int, cv));
            assert forall|p: int, q: int| 0 <= p < q < after.len() implies seq_lt(after[p], after[q]) by {
                if p == pos && q > pos {
                    lemma_seq_lt_trichotomy(before[pos as int], cv);
                    if q - 1 > pos {
                        lemma_seq_lt_transitive(cv, before[pos as int], before[q - 1]);
                    }
                }
            }
            assert(after.to_set() =~= before.to_set().insert(cv)) by {
                assert forall|x: Seq<char>| after.to_set().contains(x) <==> before.to_set().insert(cv).contains(x) by {
                    if after.to_set().contains(x) {
                        let k = choose|k: int| 0 <= k < after.len() && after[k] == x;
                        if k < pos {
                            assert(before[k] == x);
                        } else if k > pos {
                            assert(before[k - 1] == x);
                        }
                    }
                    if before.to_set().contains(x) {
                        let k = choose|k: int| 0 <= k < before.len() && before[k] == x;
                        if k < pos {
                            assert(after[k] == x);
                        } else {
                            assert(after[k + 1] == x);
                        }
                    }
                    if x == cv {
                        assert(after[pos as int] == x);
                    }
                }
            }
        } else {
            assert(before.to_set().contains(cv)) by {
                assert(before[pos as int] == cv);
            }
            assert(before.to_set().insert(cv) =~= before.to_set());
        }
        proof {
            view.take(i as int).lemma_push_to_set_commute(cv);
        }
        i += 1;
    }
    assert(view.take(i as int) =~= view);
    out
}

/// The installed core names among a directory's file names: the files
/// named `<name>_libretro.<ext>`, their names lower-cased.
pub open spec fn installed_names(files: Seq<Seq<char>>, ext: Seq<char>) -> Seq<Seq<char>>
    decreases files.len(),
{
    if files.len() == 0 {
        Seq::empty()
    } else {
        let f = files.last();
        let suffix = "_libretro."@ + ext;
        installed_names(files.drop_last(), ext) + if f.len() >= suffix.len() && f.subrange(
            f.len() - suffix.len(),
            f.len() as int,
        ) == suffix {
            seq![unicode_lowercase(f.subrange(0, f.len() - suffix.len()))]
        } else {
            Seq::empty()
        }
    }
}

/// The installed cores, given the file names in the cores directory: each
/// name once, sorted.
pub fn installed_cores(files: &Vec<String>, ext: &str) -> (r: Vec<String>)
    ensures
        strictly_sorted(r@.map_values(|s: String| s@)),
        r@.map_values(|s: String| s@).to_set() == installed_names(
            files@.map_values(|s: String| s@),
            ext@,
        ).to_set(),
{
    let mut suffix = str_chars("_libretro.");
    push_str(&mut suffix, ext);
    let ghost fv = files@.map_values(|s: String| s@);
    let mut names: Vec<String> = Vec::new();
    let mut i: usize = 0;
    while i < files.len()
        invariant
            i <= files@.len(),
            fv == files@.map_values(|s: String| s@),
            suffix@ == "_libretro."@ + ext@,
            names@.map_values(|s: String| s@) == installed_names(fv.take(i as int), ext@),
        decreases files@.len() - i,
    {
        assert(fv.take(i + 1).drop_last() =~= fv.take(i as int));
        assert(fv.take(i + 1).last() == files@[i as int]@);
        let f = str_chars(files[i].as_str());
        if crate::text::chars_end_with(&f, &suffix) {
            let stem = string_from_chars(&crate::text::chars_range(&f, 0, f.len() - suffix.len()));
            let name = to_lowercase(stem.as_str());
            let ghost before = names@;
            names.push(name);
            assert(names@.map_values(|s: String| s@) =~= before.map_values(|s: String| s@).push(name@));
        }
        assert(names@.map_values(|s: String| s@) =~= installed_names(fv.take(i + 1), ext@));
        i += 1;
    }
    assert(fv.take(i as int) =~= fv);
    sorted_unique(names)
}

/// Whether a zip entry's path has a `..` component.
pub open spec fn has_parent_component(name: Seq<char>) -> bool {
    exists|i: int| #[trigger] parent_at(name, i)
}

/// Whether a `..` component starts at `i`.
pub open spec fn parent_at(name: Seq<char>, i: int) -> bool {
    0 <= i && i + 2 <= name.len() && name[i] == '.' && name[i + 1] == '.' && (i == 0 || name[i - 1]
        == '/') && (i + 2 == name.len() || name[i + 2] == '/')
}

fn parent_component(name: &Vec<char>) -> (r: bool)
    ensures
        r == has_parent_component(name@),
{
    let mut i: usize = 0;
    while i < name.len() && name.len() - i >= 2
        invariant
            i <= name@.len(),
            forall|j: int| 0 <= j < i ==> !#[trigger] parent_at(name@, j),
        decreases name@.len() - i,
    {
        if name[i] == '.' && name[i + 1] == '.' && (i == 0 || name[i - 1] == '/') && (i + 2
            == name.len() || name[i + 2] == '/') {
            assert(parent_at(name@, i as int));
            return true;
        }
        i += 1;
    }
    assert forall|j: int| !#[trigger] parent_at(name@, j) by {
        if j >= i {
        }
    }
    false
}

/// What to do with an entry of a downloaded core archive.
#[derive(Debug)]
pub enum ArchiveEntry {
    /// Not a library, or a path escaping the cores directory.
    Skip,
    /// A library to install under `file_name`; `primary` marks the core
    /// itself (the expected name, or any file with the platform's
    /// extension) as opposed to a companion `.dll`.
    Extract { file_name: String, primary: bool },
}

pub open spec fn ends_with(s: Seq<char>, suffix: Seq<char>) -> bool {
    suffix.len() <= s.len() && s.subrange(s.len() - suffix.len(), s.len() as int) == suffix
}

/// The file name an archive entry is installed as, lower-cased for the
/// checks.
pub open spec fn entry_file_name(name: Seq<char>) -> Seq<char> {
    match crate::pathname::file_name(name) {
        Some(f) => f,
        None => name,
    }
}

/// What becomes of the archive entry `name` of a core whose library file is
/// `expected` on a platform whose library extension is `ext`: skipped
/// (`None`: a path escaping the cores directory, or not a library), or
/// installed under its file name, marked as the core itself when it is the
/// expected file or has the platform's extension.
pub open spec fn archive_entry_choice(name: Seq<char>, ext: Seq<char>, expected: Seq<char>) -> Option<
    (Seq<char>, bool),
> {
    let lower = unicode_lowercase(entry_file_name(name));
    if has_parent_component(name) || !(ends_with(lower, "."@ + ext) || ends_with(lower, ".dll"@)) {
        None
    } else {
        Some((entry_file_name(name), lower == unicode_lowercase(expected) || ends_with(lower, "."@ + ext)))
    }
}

/// An entry decision as a plain value.
pub open spec fn archive_entry_view(e: ArchiveEntry) -> Option<(Seq<char>, bool)> {
    match e {
        ArchiveEntry::Skip => None,
        ArchiveEntry::Extract { file_name, primary } => Some((file_name@, primary)),
    }
}

/// Decides about the archive entry `name` of a core whose library file is
/// `expected` on a platform whose library extension is `ext`.
pub fn classify_archive_entry(name: &str, ext: &str, expected: &str) -> (r: ArchiveEntry)
    ensures
        archive_entry_view(r) == archive_entry_choice(name@, ext@, expected@),
{
    let chars = str_chars(name);
    if parent_component(&chars) {
        return ArchiveEntry::Skip;
    }
    let fname = match crate::pathname::file_name_str(name) {
        Some(f) => f,
        None => name.to_owned(),
    };
    let lower = to_lowercase(fname.as_str());
    let lc = str_chars(lower.as_str());
    let mut dot_ext = str_chars(".");
    push_str(&mut dot_ext, ext);
    let with_ext = crate::text::chars_end_with(&lc, &dot_ext);
    let with_dll = crate::text::chars_end_with(&lc, &str_chars(".dll"));
    if !with_ext && !with_dll {
        return ArchiveEntry::Skip;
    }
    let expected_lower = to_lowercase(expected);
    let primary = str_equal(lower.as_str(), expected_lower.as_str()) || with_ext;
    ArchiveEntry::Extract { file_name: fname, primary }
}
// ── Laws of the registry ──────────────────────────────────────────────────

/// The registry's extensions are pairwise different texts.
proof fn lemma_extensions_distinct()
    ensures
        "nes"@ != "fds"@,
        "nes"@ != "unf"@,
        "nes"@ != "unif"@,
        "nes"@ != "sfc"@,
        "nes"@ != "smc"@,
        "nes"@ != "gen"@,
        "nes"@ != "md"@,
        "nes"@ != "smd"@,
        "nes"@ != "sg"@,
        "nes"@ != "bin"@,
        "nes"@ != "sms"@,
        "nes"@ != "gg"@,
        "nes"@ != "32x"@,
        "nes"@ != "gb"@,
        "nes"@ != "gbc"@,
        "nes"@ != "gba"@,
        "nes"@ != "a26"@,
        "nes"@ != "a52"@,
        "fds"@ != "unf"@,
        "fds"@ != "unif"@,
        "fds"@ != "sfc"@,
        "fds"@ != "smc"@,
        "fds"@ != "gen"@,
        "fds"@ != "md"@,
        "fds"@ != "smd"@,
        "fds"@ != "sg"@,
        "fds"@ != "bin"@,
        "fds"@ != "sms"@,
        "fds"@ != "gg"@,
        "fds"@ != "32x"@,
        "fds"@ != "gb"@,
        "fds"@ != "gbc"@,
        "fds"@ != "gba"@,
        "fds"@ != "a26"@,
        "fds"@ != "a52"@,
        "unf"@ != "unif"@,
        "unf"@ != "sfc"@,
        "unf"@ != "smc"@,
        "unf"@ != "gen"@,
        "unf"@ != "md"@,
        "unf"@ != "smd"@,
        "unf"@ != "sg"@,
        "unf"@ != "bin"@,
        "unf"@ != "sms"@,
        "unf"@ != "gg"@,
        "unf"@ != "32x"@,
        "unf"@ != "gb"@,
        "unf"@ != "gbc"@,
        "unf"@ != "gba"@,
        "unf"@ != "a26"@,
        "unf"@ != "a52"@,
        "unif"@ != "sfc"@,
        "unif"@ != "smc"@,
        "unif"@ != "gen"@,
        "unif"@ != "md"@,
        "unif"@ != "smd"@,
        "unif"@ != "sg"@,
        "unif"@ != "bin"@,
        "unif"@ != "sms"@,
        "unif"@ != "gg"@,
        "unif"@ != "32x"@,
        "unif"@ != "gb"@,
        "unif"@ != "gbc"@,
        "unif"@ != "gba"@,
        "unif"@ != "a26"@,
        "unif"@ != "a52"@,
        "sfc"@ != "smc"@,
        "sfc"@ != "gen"@,
        "sfc"@ != "md"@,
        "sfc"@ != "smd"@,
        "sfc"@ != "sg"@,
        "sfc"@ != "bin"@,
        "sfc"@ != "sms"@,
        "sfc"@ != "gg"@,
        "sfc"@ != "32x"@,
        "sfc"@ != "gb"@,
        "sfc"@ != "gbc"@,
        "sfc"@ != "gba"@,
        "sfc"@ != "a26"@,
        "sfc"@ != "a52"@,
        "smc"@ != "gen"@,
        "smc"@ != "md"@,
        "smc"@ != "smd"@,
        "smc"@ != "sg"@,
        "smc"@ != "bin"@,
        "smc"@ != "sms"@,
        "smc"@ != "gg"@,
        "smc"@ != "32x"@,
        "smc"@ != "gb"@,
        "smc"@ != "gbc"@,
        "smc"@ != "gba"@,
        "smc"@ != "a26"@,
        "smc"@ != "a52"@,
        "gen"@ != "md"@,
        "gen"@ != "smd"@,
        "gen"@ != "sg"@,
        "gen"@ != "bin"@,
        "gen"@ != "sms"@,
        "gen"@ != "gg"@,
        "gen"@ != "32x"@,
        "gen"@ != "gb"@,
        "gen"@ != "gbc"@,
        "gen"@ != "gba"@,
        "gen"@ != "a26"@,
        "gen"@ != "a52"@,
        "md"@ != "smd"@,
        "md"@ != "sg"@,
        "md"@ != "bin"@,
        "md"@ != "sms"@,
        "md"@ != "gg"@,
        "md"@ != "32x"@,
        "md"@ != "gb"@,
        "md"@ != "gbc"@,
        "md"@ != "gba"@,
        "md"@ != "a26"@,
        "md"@ != "a52"@,
        "smd"@ != "sg"@,
        "smd"@ != "bin"@,
        "smd"@ != "sms"@,
        "smd"@ != "gg"@,
        "smd"@ != "32x"@,
        "smd"@ != "gb"@,
        "smd"@ != "gbc"@,
        "smd"@ != "gba"@,
        "smd"@ != "a26"@,
        "smd"@ != "a52"@,
        "sg"@ != "bin"@,
        "sg"@ != "sms"@,
        "sg"@ != "gg"@,
        "sg"@ != "32x"@,
        "sg"@ != "gb"@,
        "sg"@ != "gbc"@,
        "sg"@ != "gba"@,
        "sg"@ != "a26"@,
        "sg"@ != "a52"@,
        "bin"@ != "sms"@,
        "bin"@ != "gg"@,
        "bin"@ != "32x"@,
        "bin"@ != "gb"@,
        "bin"@ != "gbc"@,
        "bin"@ != "gba"@,
        "bin"@ != "a26"@,
        "bin"@ != "a52"@,
        "sms"@ != "gg"@,
        "sms"@ != "32x"@,
        "sms"@ != "gb"@,
        "sms"@ != "gbc"@,
        "sms"@ != "gba"@,
        "sms"@ != "a26"@,
        "sms"@ != "a52"@,
        "gg"@ != "32x"@,
        "gg"@ != "gb"@,
        "gg"@ != "gbc"@,
        "gg"@ != "gba"@,
        "gg"@ != "a26"@,
        "gg"@ != "a52"@,
        "32x"@ != "gb"@,
        "32x"@ != "gbc"@,
        "32x"@ != "gba"@,
        "32x"@ != "a26"@,
        "32x"@ != "a52"@,
        "gb"@ != "gbc"@,
        "gb"@ != "gba"@,
        "gb"@ != "a26"@,
        "gb"@ != "a52"@,
        "gbc"@ != "gba"@,
        "gbc"@ != "a26"@,
        "gbc"@ != "a52"@,
        "gba"@ != "a26"@,
        "gba"@ != "a52"@,
        "a26"@ != "a52"@,
{
    reveal_strlit("nes");
    reveal_strlit("fds");
    reveal_strlit("unf");
    reveal_strlit("unif");
    reveal_strlit("sfc");
    reveal_strlit("smc");
    reveal_strlit("gen");
    reveal_strlit("md");
    reveal_strlit("smd");
    reveal_strlit("sg");
    reveal_strlit("bin");
    reveal_strlit("sms");
    reveal_strlit("gg");
    reveal_strlit("32x");
    reveal_strlit("gb");
    reveal_strlit("gbc");
    reveal_strlit("gba");
    reveal_strlit("a26");
    reveal_strlit("a52");
    assert("nes"@ != "fds"@) by { assert("nes"@[0] != "fds"@[0]); }
    assert("nes"@ != "unf"@) by { assert("nes"@[0] != "unf"@[0]); }
    assert("nes"@ != "unif"@) by { assert("nes"@.len() != "unif"@.len()); }
    assert("nes"@ != "sfc"@) by { assert("nes"@[0] != "sfc"@[0]); }
    assert("nes"@ != "smc"@) by { assert("nes"@[0] != "smc"@[0]); }
    assert("nes"@ != "gen"@) by { assert("nes"@[0] != "gen"@[0]); }
    assert("nes"@ != "md"@) by { assert("nes"@.len() != "md"@.len()); }
    assert("nes"@ != "smd"@) by { assert("nes"@[0] != "smd"@[0]); }
    assert("nes"@ != "sg"@) by { assert("nes"@.len() != "sg"@.len()); }
    assert("nes"@ != "bin"@) by { assert("nes"@[0] != "bin"@[0]); }
    assert("nes"@ != "sms"@) by { assert("nes"@[0] != "sms"@[0]); }
    assert("nes"@ != "gg"@) by { assert("nes"@.len() != "gg"@.len()); }
    assert("nes"@ != "32x"@) by { assert("nes"@[0] != "32x"@[0]); }
    assert("nes"@ != "gb"@) by { assert("nes"@.len() != "gb"@.len()); }
    assert("nes"@ != "gbc"@) by { assert("nes"@[0] != "gbc"@[0]); }
    assert("nes"@ != "gba"@) by { assert("nes"@[0] != "gba"@[0]); }
    assert("nes"@ != "a26"@) by { assert("nes"@[0] != "a26"@[0]); }
    assert("nes"@ != "a52"@) by { assert("nes"@[0] != "a52"@[0]); }
    assert("fds"@ != "unf"@) by { assert("fds"@[0] != "unf"@[0]); }
    assert("fds"@ != "unif"@) by { assert("fds"@.len() != "unif"@.len()); }
    assert("fds"@ != "sfc"@) by { assert("fds"@[0] != "sfc"@[0]); }
    assert("fds"@ != "smc"@) by { assert("fds"@[0] != "smc"@[0]); }
    assert("fds"@ != "gen"@) by { assert("fds"@[0] != "gen"@[0]); }
    assert("fds"@ != "md"@) by { assert("fds"@.len() != "md"@.len()); }
    assert("fds"@ != "smd"@) by { assert("fds"@[0] != "smd"@[0]); }
    assert("fds"@ != "sg"@) by { assert("fds"@.len() != "sg"@.len()); }
    assert("fds"@ != "bin"@) by { assert("fds"@[0] != "bin"@[0]); }
    assert("fds"@ != "sms"@) by { assert("fds"@[0] != "sms"@[0]); }
    assert("fds"@ != "gg"@) by { assert("fds"@.len() != "gg"@.len()); }
    assert("fds"@ != "32x"@) by { assert("fds"@[0] != "32x"@[0]); }
    assert("fds"@ != "gb"@) by { assert("fds"@.len() != "gb"@.len()); }
    assert("fds"@ != "gbc"@) by { assert("fds"@[0] != "gbc"@[0]); }
    assert("fds"@ != "gba"@) by { assert("fds"@[0] != "gba"@[0]); }
    assert("fds"@ != "a26"@) by { assert("fds"@[0] != "a26"@[0]); }
    assert("fds"@ != "a52"@) by { assert("fds"@[0] != "a52"@[0]); }
    assert("unf"@ != "unif"@) by { assert("unf"@.len() != "unif"@.len()); }
    assert("unf"@ != "sfc"@) by { assert("unf"@[0] != "sfc"@[0]); }
    assert("unf"@ != "smc"@) by { assert("unf"@[0] != "smc"@[0]); }
    assert("unf"@ != "gen"@) by { assert("unf"@[0] != "gen"@[0]); }
    assert("unf"@ != "md"@) by { assert("unf"@.len() != "md"@.len()); }
    assert("unf"@ != "smd"@) by { assert("unf"@[0] != "smd"@[0]); }
    assert("unf"@ != "sg"@) by { assert("unf"@.len() != "sg"@.len()); }
    assert("unf"@ != "bin"@) by { assert("unf"@[0] != "bin"@[0]); }
    assert("unf"@ != "sms"@) by { assert("unf"@[0] != "sms"@[0]); }
    assert("unf"@ != "gg"@) by { assert("unf"@.len() != "gg"@.len()); }
    assert("unf"@ != "32x"@) by { assert("unf"@[0] != "32x"@[0]); }
    assert("unf"@ != "gb"@) by { assert("unf"@.len() != "gb"@.len()); }
    assert("unf"@ != "gbc"@) by { assert("unf"@[0] != "gbc"@[0]); }
    assert("unf"@ != "gba"@) by { assert("unf"@[0] != "gba"@[0]); }
    assert("unf"@ != "a26"@) by { assert("unf"@[0] != "a26"@[0]); }
    assert("unf"@ != "a52"@) by { assert("unf"@[0] != "a52"@[0]); }
    assert("unif"@ != "sfc"@) by { assert("unif"@.len() != "sfc"@.len()); }
    assert("unif"@ != "smc"@) by { assert("unif"@.len() != "smc"@.len()); }
    assert("unif"@ != "gen"@) by { assert("unif"@.len() != "gen"@.len()); }
    assert("unif"@ != "md"@) by { assert("unif"@.len() != "md"@.len()); }
    assert("unif"@ != "smd"@) by { assert("unif"@.len() != "smd"@.len()); }
    assert("unif"@ != "sg"@) by { assert("unif"@.len() != "sg"@.len()); }
    assert("unif"@ != "bin"@) by { assert("unif"@.len() != "bin"@.len()); }
    assert("unif"@ != "sms"@) by { assert("unif"@.len() != "sms"@.len()); }
    assert("unif"@ != "gg"@) by { assert("unif"@.len() != "gg"@.len()); }
    assert("unif"@ != "32x"@) by { assert("unif"@.len() != "32x"@.len()); }
    assert("unif"@ != "gb"@) by { assert("unif"@.len() != "gb"@.len()); }
    assert("unif"@ != "gbc"@) by { assert("unif"@.len() != "gbc"@.len()); }
    assert("unif"@ != "gba"@) by { assert("unif"@.len() != "gba"@.len()); }
    assert("unif"@ != "a26"@) by { assert("unif"@.len() != "a26"@.len()); }
    assert("unif"@ != "a52"@) by { assert("unif"@.len() != "a52"@.len()); }
    assert("sfc"@ != "smc"@) by { assert("sfc"@[1] != "smc"@[1]); }
    assert("sfc"@ != "gen"@) by { assert("sfc"@[0] != "gen"@[0]); }
    assert("sfc"@ != "md"@) by { assert("sfc"@.len() != "md"@.len()); }
    assert("sfc"@ != "smd"@) by { assert("sfc"@[1] != "smd"@[1]); }
    assert("sfc"@ != "sg"@) by { assert("sfc"@.len() != "sg"@.len()); }
    assert("sfc"@ != "bin"@) by { assert("sfc"@[0] != "bin"@[0]); }
    assert("sfc"@ != "sms"@) by { assert("sfc"@[1] != "sms"@[1]); }
    assert("sfc"@ != "gg"@) by { assert("sfc"@.len() != "gg"@.len()); }
    assert("sfc"@ != "32x"@) by { assert("sfc"@[0] != "32x"@[0]); }
    assert("sfc"@ != "gb"@) by { assert("sfc"@.len() != "gb"@.len()); }
    assert("sfc"@ != "gbc"@) by { assert("sfc"@[0] != "gbc"@[0]); }
    assert("sfc"@ != "gba"@) by { assert("sfc"@[0] != "gba"@[0]); }
    assert("sfc"@ != "a26"@) by { assert("sfc"@[0] != "a26"@[0]); }
    assert("sfc"@ != "a52"@) by { assert("sfc"@[0] != "a52"@[0]); }
    assert("smc"@ != "gen"@) by { assert("smc"@[0] != "gen"@[0]); }
    assert("smc"@ != "md"@) by { assert("smc"@.len() != "md"@.len()); }
    assert("smc"@ != "smd"@) by { assert("smc"@[2] != "smd"@[2]); }
    assert("smc"@ != "sg"@) by { assert("smc"@.len() != "sg"@.len()); }
    assert("smc"@ != "bin"@) by { assert("smc"@[0] != "bin"@[0]); }
    assert("smc"@ != "sms"@) by { assert("smc"@[2] != "sms"@[2]); }
    assert("smc"@ != "gg"@) by { assert("smc"@.len() != "gg"@.len()); }
    assert("smc"@ != "32x"@) by { assert("smc"@[0] != "32x"@[0]); }
    assert("smc"@ != "gb"@) by { assert("smc"@.len() != "gb"@.len()); }
    assert("smc"@ != "gbc"@) by { assert("smc"@[0] != "gbc"@[0]); }
    assert("smc"@ != "gba"@) by { assert("smc"@[0] != "gba"@[0]); }
    assert("smc"@ != "a26"@) by { assert("smc"@[0] != "a26"@[0]); }
    assert("smc"@ != "a52"@) by { assert("smc"@[0] != "a52"@[0]); }
    assert("gen"@ != "md"@) by { assert("gen"@.len() != "md"@.len()); }
    assert("gen"@ != "smd"@) by { assert("gen"@[0] != "smd"@[0]); }
    assert("gen"@ != "sg"@) by { assert("gen"@.len() != "sg"@.len()); }
    assert("gen"@ != "bin"@) by { assert("gen"@[0] != "bin"@[0]); }
    assert("gen"@ != "sms"@) by { assert("gen"@[0] != "sms"@[0]); }
    assert("gen"@ != "gg"@) by { assert("gen"@.len() != "gg"@.len()); }
    assert("gen"@ != "32x"@) by { assert("gen"@[0] != "32x"@[0]); }
    assert("gen"@ != "gb"@) by { assert("gen"@.len() != "gb"@.len()); }
    assert("gen"@ != "gbc"@) by { assert("gen"@[1] != "gbc"@[1]); }
    assert("gen"@ != "gba"@) by { assert("gen"@[1] != "gba"@[1]); }
    assert("gen"@ != "a26"@) by { assert("gen"@[0] != "a26"@[0]); }
    assert("gen"@ != "a52"@) by { assert("gen"@[0] != "a52"@[0]); }
    assert("md"@ != "smd"@) by { assert("md"@.len() != "smd"@.len()); }
    assert("md"@ != "sg"@) by { assert("md"@[0] != "sg"@[0]); }
    assert("md"@ != "bin"@) by { assert("md"@.len() != "bin"@.len()); }
    assert("md"@ != "sms"@) by { assert("md"@.len() != "sms"@.len()); }
    assert("md"@ != "gg"@) by { assert("md"@[0] != "gg"@[0]); }
    assert("md"@ != "32x"@) by { assert("md"@.len() != "32x"@.len()); }
    assert("md"@ != "gb"@) by { assert("md"@[0] != "gb"@[0]); }
    assert("md"@ != "gbc"@) by { assert("md"@.len() != "gbc"@.len()); }
    assert("md"@ != "gba"@) by { assert("md"@.len() != "gba"@.len()); }
    assert("md"@ != "a26"@) by { assert("md"@.len() != "a26"@.len()); }
    assert("md"@ != "a52"@) by { assert("md"@.len() != "a52"@.len()); }
    assert("smd"@ != "sg"@) by { assert("smd"@.len() != "sg"@.len()); }
    assert("smd"@ != "bin"@) by { assert("smd"@[0] != "bin"@[0]); }
    assert("smd"@ != "sms"@) by { assert("smd"@[2] != "sms"@[2]); }
    assert("smd"@ != "gg"@) by { assert("smd"@.len() != "gg"@.len()); }
    assert("smd"@ != "32x"@) by { assert("smd"@[0] != "32x"@[0]); }
    assert("smd"@ != "gb"@) by { assert("smd"@.len() != "gb"@.len()); }
    assert("smd"@ != "gbc"@) by { assert("smd"@[0] != "gbc"@[0]); }
    assert("smd"@ != "gba"@) by { assert("smd"@[0] != "gba"@[0]); }
    assert("smd"@ != "a26"@) by { assert("smd"@[0] != "a26"@[0]); }
    assert("smd"@ != "a52"@) by { assert("smd"@[0] != "a52"@[0]); }
    assert("sg"@ != "bin"@) by { assert("sg"@.len() != "bin"@.len()); }
    assert("sg"@ != "sms"@) by { assert("sg"@.len() != "sms"@.len()); }
    assert("sg"@ != "gg"@) by { assert("sg"@[0] != "gg"@[0]); }
    assert("sg"@ != "32x"@) by { assert("sg"@.len() != "32x"@.len()); }
    assert("sg"@ != "gb"@) by { assert("sg"@[0] != "gb"@[0]); }
    assert("sg"@ != "gbc"@) by { assert("sg"@.len() != "gbc"@.len()); }
    assert("sg"@ != "gba"@) by { assert("sg"@.len() != "gba"@.len()); }
    assert("sg"@ != "a26"@) by { assert("sg"@.len() != "a26"@.len()); }
    assert("sg"@ != "a52"@) by { assert("sg"@.len() != "a52"@.len()); }
    assert("bin"@ != "sms"@) by { assert("bin"@[0] != "sms"@[0]); }
    assert("bin"@ != "gg"@) by { assert("bin"@.len() != "gg"@.len()); }
    assert("bin"@ != "32x"@) by { assert("bin"@[0] != "32x"@[0]); }
    assert("bin"@ != "gb"@) by { assert("bin"@.len() != "gb"@.len()); }
    assert("bin"@ != "gbc"@) by { assert("bin"@[0] != "gbc"@[0]); }
    assert("bin"@ != "gba"@) by { assert("bin"@[0] != "gba"@[0]); }
    assert("bin"@ != "a26"@) by { assert("bin"@[0] != "a26"@[0]); }
    assert("bin"@ != "a52"@) by { assert("bin"@[0] != "a52"@[0]); }
    assert("sms"@ != "gg"@) by { assert("sms"@.len() != "gg"@.len()); }
    assert("sms"@ != "32x"@) by { assert("sms"@[0] != "32x"@[0]); }
    assert("sms"@ != "gb"@) by { assert("sms"@.len() != "gb"@.len()); }
    assert("sms"@ != "gbc"@) by { assert("sms"@[0] != "gbc"@[0]); }
    assert("sms"@ != "gba"@) by { assert("sms"@[0] != "gba"@[0]); }
    assert("sms"@ != "a26"@) by { assert("sms"@[0] != "a26"@[0]); }
    assert("sms"@ != "a52"@) by { assert("sms"@[0] != "a52"@[0]); }
    assert("gg"@ != "32x"@) by { assert("gg"@.len() != "32x"@.len()); }
    assert("gg"@ != "gb"@) by { assert("gg"@[1] != "gb"@[1]); }
    assert("gg"@ != "gbc"@) by { assert("gg"@.len() != "gbc"@.len()); }
    assert("gg"@ != "gba"@) by { assert("gg"@.len() != "gba"@.len()); }
    assert("gg"@ != "a26"@) by { assert("gg"@.len() != "a26"@.len()); }
    assert("gg"@ != "a52"@) by { assert("gg"@.len() != "a52"@.len()); }
    assert("32x"@ != "gb"@) by { assert("32x"@.len() != "gb"@.len()); }
    assert("32x"@ != "gbc"@) by { assert("32x"@[0] != "gbc"@[0]); }
    assert("32x"@ != "gba"@) by { assert("32x"@[0] != "gba"@[0]); }
    assert("32x"@ != "a26"@) by { assert("32x"@[0] != "a26"@[0]); }
    assert("32x"@ != "a52"@) by { assert("32x"@[0] != "a52"@[0]); }
    assert("gb"@ != "gbc"@) by { assert("gb"@.len() != "gbc"@.len()); }
    assert("gb"@ != "gba"@) by { assert("gb"@.len() != "gba"@.len()); }
    assert("gb"@ != "a26"@) by { assert("gb"@.len() != "a26"@.len()); }
    assert("gb"@ != "a52"@) by { assert("gb"@.len() != "a52"@.len()); }
    assert("gbc"@ != "gba"@) by { assert("gbc"@[2] != "gba"@[2]); }
    assert("gbc"@ != "a26"@) by { assert("gbc"@[0] != "a26"@[0]); }
    assert("gbc"@ != "a52"@) by { assert("gbc"@[0] != "a52"@[0]); }
    assert("gba"@ != "a26"@) by { assert("gba"@[0] != "a26"@[0]); }
    assert("gba"@ != "a52"@) by { assert("gba"@[0] != "a52"@[0]); }
    assert("a26"@ != "a52"@) by { assert("a26"@[1] != "a52"@[1]); }
}

/// The registry's extensions are written in lower case, so a system lists
/// an extension, in any case, exactly when it lists its lower-case form.
proof fn lemma_listed_lower(ext: Seq<char>)
    ensures
        forall|i: int|
            0 <= i < SYSTEM_COUNT ==> (#[trigger] system_has_extension(i, ext) <==> systems()[i].0.contains(
                lower_seq(ext),
            )),
        system_has_extension(0, ext) <==> (lower_seq(ext) == "nes"@ || lower_seq(ext) == "fds"@ || lower_seq(ext) == "unf"@ || lower_seq(ext) == "unif"@),
        system_has_extension(1, ext) <==> (lower_seq(ext) == "sfc"@ || lower_seq(ext) == "smc"@),
        system_has_extension(2, ext) <==> (lower_seq(ext) == "gen"@ || lower_seq(ext) == "md"@ || lower_seq(ext) == "smd"@ || lower_seq(ext) == "sg"@ || lower_seq(ext) == "bin"@),
        system_has_extension(3, ext) <==> (lower_seq(ext) == "sms"@),
        system_has_extension(4, ext) <==> (lower_seq(ext) == "gg"@),
        system_has_extension(5, ext) <==> (lower_seq(ext) == "32x"@),
        system_has_extension(6, ext) <==> (lower_seq(ext) == "gb"@),
        system_has_extension(7, ext) <==> (lower_seq(ext) == "gbc"@),
        system_has_extension(8, ext) <==> (lower_seq(ext) == "gba"@),
        system_has_extension(9, ext) <==> (lower_seq(ext) == "a26"@ || lower_seq(ext) == "bin"@),
        system_has_extension(10, ext) <==> (lower_seq(ext) == "a52"@),
{
    reveal_strlit("nes");
    reveal_strlit("fds");
    reveal_strlit("unf");
    reveal_strlit("unif");
    reveal_strlit("sfc");
    reveal_strlit("smc");
    reveal_strlit("gen");
    reveal_strlit("md");
    reveal_strlit("smd");
    reveal_strlit("sg");
    reveal_strlit("bin");
    reveal_strlit("sms");
    reveal_strlit("gg");
    reveal_strlit("32x");
    reveal_strlit("gb");
    reveal_strlit("gbc");
    reveal_strlit("gba");
    reveal_strlit("a26");
    reveal_strlit("a52");
    assert(lower_seq("nes"@) =~= "nes"@);
    assert(lower_seq("fds"@) =~= "fds"@);
    assert(lower_seq("unf"@) =~= "unf"@);
    assert(lower_seq("unif"@) =~= "unif"@);
    assert(lower_seq("sfc"@) =~= "sfc"@);
    assert(lower_seq("smc"@) =~= "smc"@);
    assert(lower_seq("gen"@) =~= "gen"@);
    assert(lower_seq("md"@) =~= "md"@);
    assert(lower_seq("smd"@) =~= "smd"@);
    assert(lower_seq("sg"@) =~= "sg"@);
    assert(lower_seq("bin"@) =~= "bin"@);
    assert(lower_seq("sms"@) =~= "sms"@);
    assert(lower_seq("gg"@) =~= "gg"@);
    assert(lower_seq("32x"@) =~= "32x"@);
    assert(lower_seq("gb"@) =~= "gb"@);
    assert(lower_seq("gbc"@) =~= "gbc"@);
    assert(lower_seq("gba"@) =~= "gba"@);
    assert(lower_seq("a26"@) =~= "a26"@);
    assert(lower_seq("a52"@) =~= "a52"@);
    assert forall|i: int| 0 <= i < SYSTEM_COUNT implies (#[trigger] system_has_extension(i, ext)
        <==> systems()[i].0.contains(lower_seq(ext))) by {
        let exts = systems()[i].0;
        assert forall|k: int| 0 <= k < exts.len() implies lower_seq(#[trigger] exts[k]) == exts[k] by {}
        if system_has_extension(i, ext) {
            let k = choose|k: int| 0 <= k < exts.len() && eq_ignore_case(#[trigger] exts[k], ext);
            assert(exts[k] == lower_seq(ext));
        }
        if exts.contains(lower_seq(ext)) {
            let k = choose|k: int| 0 <= k < exts.len() && exts[k] == lower_seq(ext);
            assert(eq_ignore_case(exts[k], ext));
        }
    }
    assert(systems()[0].0 =~= seq!["nes"@, "fds"@, "unf"@, "unif"@]);
    assert(systems()[0].0.contains(lower_seq(ext)) <==> (lower_seq(ext) == "nes"@ || lower_seq(ext) == "fds"@ || lower_seq(ext) == "unf"@ || lower_seq(ext) == "unif"@)) by {
        if lower_seq(ext) == "nes"@ {
            assert(systems()[0].0[0] == lower_seq(ext));
        }
        if lower_seq(ext) == "fds"@ {
            assert(systems()[0].0[1] == lower_seq(ext));
        }
        if lower_seq(ext) == "unf"@ {
            assert(systems()[0].0[2] == lower_seq(ext));
        }
        if lower_seq(ext) == "unif"@ {
            assert(systems()[0].0[3] == lower_seq(ext));
        }
    }
    assert(systems()[1].0 =~= seq!["sfc"@, "smc"@]);
    assert(systems()[1].0.contains(lower_seq(ext)) <==> (lower_seq(ext) == "sfc"@ || lower_seq(ext) == "smc"@)) by {
        if lower_seq(ext) == "sfc"@ {
            assert(systems()[1].0[0] == lower_seq(ext));
        }
        if lower_seq(ext) == "smc"@ {
            assert(systems()[1].0[1] == lower_seq(ext));
        }
    }
    assert(systems()[2].0 =~= seq!["gen"@, "md"@, "smd"@, "sg"@, "bin"@]);
    assert(systems()[2].0.contains(lower_seq(ext)) <==> (lower_seq(ext) == "gen"@ || lower_seq(ext) == "md"@ || lower_seq(ext) == "smd"@ || lower_seq(ext) == "sg"@ || lower_seq(ext) == "bin"@)) by {
        if lower_seq(ext) == "gen"@ {
            assert(systems()[2].0[0] == lower_seq(ext));
        }
        if lower_seq(ext) == "md"@ {
            assert(systems()[2].0[1] == lower_seq(ext));
        }
        if lower_seq(ext) == "smd"@ {
            assert(systems()[2].0[2] == lower_seq(ext));
        }
        if lower_seq(ext) == "sg"@ {
            assert(systems()[2].0[3] == lower_seq(ext));
        }
        if lower_seq(ext) == "bin"@ {
            assert(systems()[2].0[4] == lower_seq(ext));
        }
    }
    assert(systems()[3].0 =~= seq!["sms"@]);
    assert(systems()[3].0.contains(lower_seq(ext)) <==> (lower_seq(ext) == "sms"@)) by {
        if lower_seq(ext) == "sms"@ {
            assert(systems()[3].0[0] == lower_seq(ext));
        }
    }
    assert(systems()[4].0 =~= seq!["gg"@]);
    assert(systems()[4].0.contains(lower_seq(ext)) <==> (lower_seq(ext) == "gg"@)) by {
        if lower_seq(ext) == "gg"@ {
            assert(systems()[4].0[0] == lower_seq(ext));
        }
    }
    assert(systems()[5].0 =~= seq!["32x"@]);
    assert(systems()[5].0.contains(lower_seq(ext)) <==> (lower_seq(ext) == "32x"@)) by {
        if lower_seq(ext) == "32x"@ {
            assert(systems()[5].0[0] == lower_seq(ext));
        }
    }
    assert(systems()[6].0 =~= seq!["gb"@]);
    assert(systems()[6].0.contains(lower_seq(ext)) <==> (lower_seq(ext) == "gb"@)) by {
        if lower_seq(ext) == "gb"@ {
            assert(systems()[6].0[0] == lower_seq(ext));
        }
    }
    assert(systems()[7].0 =~= seq!["gbc"@]);
    assert(systems()[7].0.contains(lower_seq(ext)) <==> (lower_seq(ext) == "gbc"@)) by {
        if lower_seq(ext) == "gbc"@ {
            assert(systems()[7].0[0] == lower_seq(ext));
        }
    }
    assert(systems()[8].0 =~= seq!["gba"@]);
    assert(systems()[8].0.contains(lower_seq(ext)) <==> (lower_seq(ext) == "gba"@)) by {
        if lower_seq(ext) == "gba"@ {
            assert(systems()[8].0[0] == lower_seq(ext));
        }
    }
    assert(systems()[9].0 =~= seq!["a26"@, "bin"@]);
    assert(systems()[9].0.contains(lower_seq(ext)) <==> (lower_seq(ext) == "a26"@ || lower_seq(ext) == "bin"@)) by {
        if lower_seq(ext) == "a26"@ {
            assert(systems()[9].0[0] == lower_seq(ext));
        }
        if lower_seq(ext) == "bin"@ {
            assert(systems()[9].0[1] == lower_seq(ext));
        }
    }
    assert(systems()[10].0 =~= seq!["a52"@]);
    assert(systems()[10].0.contains(lower_seq(ext)) <==> (lower_seq(ext) == "a52"@)) by {
        if lower_seq(ext) == "a52"@ {
            assert(systems()[10].0[0] == lower_seq(ext));
        }
    }
}
/// Which cores the extension of a ROM calls for, whatever its case: the
/// NES extensions `nestopia`; the Super Nintendo ones `snes9x`; the Mega
/// Drive, Master System and Game Gear ones `genesis_plus_gx`; `32x`
/// `picodrive`; the Game Boy and Game Boy Color ones `gambatte`; `gba`
/// `mgba`; `a26` `stella`; `a52` `a5200`; `bin`, shared by the Mega Drive
/// and the Atari 2600, both `genesis_plus_gx` and `stella`; any other
/// extension none.
pub proof fn lemma_extension_registry(ext: Seq<char>)
    ensures
        ({
            let l = lower_seq(ext);
            let cores = extension_cores(ext, SYSTEM_COUNT as int);
            &&& (l == "nes"@ || l == "fds"@ || l == "unf"@ || l == "unif"@) ==> cores == seq!["nestopia"@]
            &&& (l == "sfc"@ || l == "smc"@) ==> cores == seq!["snes9x"@]
            &&& (l == "gen"@ || l == "md"@ || l == "smd"@ || l == "sg"@ || l == "sms"@ || l == "gg"@) ==> cores == seq!["genesis_plus_gx"@]
            &&& (l == "32x"@) ==> cores == seq!["picodrive"@]
            &&& (l == "gb"@ || l == "gbc"@) ==> cores == seq!["gambatte"@]
            &&& (l == "gba"@) ==> cores == seq!["mgba"@]
            &&& (l == "a26"@) ==> cores == seq!["stella"@]
            &&& (l == "a52"@) ==> cores == seq!["a5200"@]
            &&& (l == "bin"@) ==> cores == seq!["genesis_plus_gx"@, "stella"@]
            &&& !(l == "nes"@ || l == "fds"@ || l == "unf"@ || l == "unif"@ || l == "sfc"@ || l == "smc"@ || l == "gen"@ || l == "md"@ || l == "smd"@ || l == "sg"@ || l == "bin"@ || l == "sms"@ || l == "gg"@ || l == "32x"@ || l == "gb"@ || l == "gbc"@ || l == "gba"@ || l == "a26"@ || l == "a52"@) ==> cores.len() == 0
        }),
{
    lemma_listed_lower(ext);
    reveal_strlit("nes");
    reveal_strlit("fds");
    reveal_strlit("unf");
    reveal_strlit("unif");
    reveal_strlit("sfc");
    reveal_strlit("smc");
    reveal_strlit("gen");
    reveal_strlit("md");
    reveal_strlit("smd");
    reveal_strlit("sg");
    reveal_strlit("bin");
    reveal_strlit("sms");
    reveal_strlit("gg");
    reveal_strlit("32x");
    reveal_strlit("gb");
    reveal_strlit("gbc");
    reveal_strlit("gba");
    reveal_strlit("a26");
    reveal_strlit("a52");
    reveal_strlit("nestopia");
    reveal_strlit("snes9x");
    reveal_strlit("genesis_plus_gx");
    reveal_strlit("picodrive");
    reveal_strlit("gambatte");
    reveal_strlit("mgba");
    reveal_strlit("stella");
    reveal_strlit("a5200");
    lemma_extensions_distinct();
    reveal_with_fuel(extension_cores, 12);
    let l = lower_seq(ext);
    let cores = extension_cores(ext, SYSTEM_COUNT as int);
    if l == "nes"@ {
        assert(systems()[0].0[0] == l);
        assert(cores =~= seq!["nestopia"@]);
    }
    if l == "fds"@ {
        assert(systems()[0].0[1] == l);
        assert(cores =~= seq!["nestopia"@]);
    }
    if l == "unf"@ {
        assert(systems()[0].0[2] == l);
        assert(cores =~= seq!["nestopia"@]);
    }
    if l == "unif"@ {
        assert(systems()[0].0[3] == l);
        assert(cores =~= seq!["nestopia"@]);
    }
    if l == "sfc"@ {
        assert(systems()[1].0[0] == l);
        assert(cores =~= seq!["snes9x"@]);
    }
    if l == "smc"@ {
        assert(systems()[1].0[1] == l);
        assert(cores =~= seq!["snes9x"@]);
    }
    if l == "gen"@ {
        assert(systems()[2].0[0] == l);
        assert(cores =~= seq!["genesis_plus_gx"@]);
    }
    if l == "md"@ {
        assert(systems()[2].0[1] == l);
        assert(cores =~= seq!["genesis_plus_gx"@]);
    }
    if l == "smd"@ {
        assert(systems()[2].0[2] == l);
        assert(cores =~= seq!["genesis_plus_gx"@]);
    }
    if l == "sg"@ {
        assert(systems()[2].0[3] == l);
        assert(cores =~= seq!["genesis_plus_gx"@]);
    }
    if l == "sms"@ {
        assert(systems()[3].0[0] == l);
        assert(cores =~= seq!["genesis_plus_gx"@]);
    }
    if l == "gg"@ {
        assert(systems()[4].0[0] == l);
        assert(cores =~= seq!["genesis_plus_gx"@]);
    }
    if l == "32x"@ {
        assert(systems()[5].0[0] == l);
        assert(cores =~= seq!["picodrive"@]);
    }
    if l == "gb"@ {
        assert(systems()[6].0[0] == l);
        assert(cores =~= seq!["gambatte"@]);
    }
    if l == "gbc"@ {
        assert(systems()[7].0[0] == l);
        assert(cores =~= seq!["gambatte"@]);
    }
    if l == "gba"@ {
        assert(systems()[8].0[0] == l);
        assert(cores =~= seq!["mgba"@]);
    }
    if l == "a26"@ {
        assert(systems()[9].0[0] == l);
        assert(cores =~= seq!["stella"@]);
    }
    if l == "a52"@ {
        assert(systems()[10].0[0] == l);
        assert(cores =~= seq!["a5200"@]);
    }
    if l == "bin"@ {
        assert(systems()[2].0[4] == l);
        assert(systems()[9].0[1] == l);
        assert(cores =~= seq!["genesis_plus_gx"@, "stella"@]);
    }
}

/// A detection of exactly one core is that core.
proof fn lemma_single_detection(d: Detection, c: Seq<char>)
    requires
        detection_of(d, seq![c]),
    ensures
        d matches Detection::Detected { core_name } && core_name@ == c,
{
    let got = detection_cores(d);
    assert(seq![c][0] == c);
    assert(seq![c].to_set().contains(c));
    if let Detection::Ambiguous { candidates } = d {
        assert(got.to_set().contains(got[0]) && got.to_set().contains(got[1]));
        assert(seq![c].to_set().contains(got[0]) ==> got[0] == c);
        assert(seq![c].to_set().contains(got[1]) ==> got[1] == c);
        lemma_seq_lt_trichotomy(got[0], got[1]);
    }
    if let Detection::Detected { core_name } = d {
        assert(got.to_set().contains(c));
        assert(got[0] == core_name@);
    }
}

/// A detection of two cores, `a` before `b`, is ambiguous between them in
/// that order.
proof fn lemma_pair_detection(d: Detection, a: Seq<char>, b: Seq<char>)
    requires
        detection_of(d, seq![a, b]),
        seq_lt(a, b),
    ensures
        d matches Detection::Ambiguous { candidates } && candidates@.map_values(|s: &str| s@) == seq![a, b],
{
    let got = detection_cores(d);
    let both = seq![a, b].to_set();
    lemma_seq_lt_trichotomy(a, b);
    assert(seq![a, b][0] == a && seq![a, b][1] == b);
    assert(both.contains(a) && both.contains(b));
    assert forall|x: Seq<char>| both.contains(x) implies x == a || x == b by {
        let k = choose|k: int| 0 <= k < 2 && seq![a, b][k] == x;
    }
    assert(got.to_set().contains(a) && got.to_set().contains(b));
    if let Detection::Detected { core_name } = d {
        assert(got =~= seq![core_name@]);
        let ka = choose|k: int| 0 <= k < got.len() && got[k] == a;
        let kb = choose|k: int| 0 <= k < got.len() && got[k] == b;
    }
    if let Detection::Ambiguous { candidates } = d {
        assert(got.to_set().contains(got[0]) && got.to_set().contains(got[1]));
        lemma_seq_lt_trichotomy(got[0], got[1]);
        if got.len() > 2 {
            assert(got.to_set().contains(got[2]));
            lemma_seq_lt_trichotomy(got[1], got[2]);
            lemma_seq_lt_trichotomy(got[0], got[2]);
        }
        assert(got.len() == 2);
        assert(got =~= seq![a, b]);
    }
}

/// Detecting a ROM by its extension, in any case, names the core the
/// registry recommends for it: `nestopia` for NES files, `snes9x` for
/// Super Nintendo ones, `genesis_plus_gx` for Mega Drive, Master System
/// and Game Gear ones, `picodrive` for `32x`, `gambatte` for Game Boy and
/// Game Boy Color ones, `mgba` for `gba`, `stella` for `a26`, `a5200` for
/// `a52`; a `bin` file is ambiguous between `genesis_plus_gx` and
/// `stella`; any other extension is unknown.
pub proof fn lemma_detect_by_extension(ext: Seq<char>, d: Detection)
    requires
        detection_of(d, extension_cores(ext, SYSTEM_COUNT as int)),
    ensures
        ({
            let l = lower_seq(ext);
            &&& (l == "nes"@ || l == "fds"@ || l == "unf"@ || l == "unif"@) ==> (d matches Detection::Detected { core_name } && core_name@ == "nestopia"@)
            &&& (l == "sfc"@ || l == "smc"@) ==> (d matches Detection::Detected { core_name } && core_name@ == "snes9x"@)
            &&& (l == "gen"@ || l == "md"@ || l == "smd"@ || l == "sg"@ || l == "sms"@ || l == "gg"@) ==> (d matches Detection::Detected { core_name } && core_name@ == "genesis_plus_gx"@)
            &&& (l == "32x"@) ==> (d matches Detection::Detected { core_name } && core_name@ == "picodrive"@)
            &&& (l == "gb"@ || l == "gbc"@) ==> (d matches Detection::Detected { core_name } && core_name@ == "gambatte"@)
            &&& (l == "gba"@) ==> (d matches Detection::Detected { core_name } && core_name@ == "mgba"@)
            &&& (l == "a26"@) ==> (d matches Detection::Detected { core_name } && core_name@ == "stella"@)
            &&& (l == "a52"@) ==> (d matches Detection::Detected { core_name } && core_name@ == "a5200"@)
            &&& l == "bin"@ ==> (d matches Detection::Ambiguous { candidates } && candidates@.map_values(
                |s: &str| s@,
            ) == seq!["genesis_plus_gx"@, "stella"@])
            &&& !(l == "nes"@ || l == "fds"@ || l == "unf"@ || l == "unif"@ || l == "sfc"@ || l == "smc"@ || l == "gen"@ || l == "md"@ || l == "smd"@ || l == "sg"@ || l == "bin"@ || l == "sms"@ || l == "gg"@ || l == "32x"@ || l == "gb"@ || l == "gbc"@ || l == "gba"@ || l == "a26"@ || l == "a52"@) ==> d is Unknown
        }),
{
    lemma_extension_registry(ext);
    let l = lower_seq(ext);
    if l == "nes"@ || l == "fds"@ || l == "unf"@ || l == "unif"@ {
        lemma_single_detection(d, "nestopia"@);
    }
    if l == "sfc"@ || l == "smc"@ {
        lemma_single_detection(d, "snes9x"@);
    }
    if l == "gen"@ || l == "md"@ || l == "smd"@ || l == "sg"@ || l == "sms"@ || l == "gg"@ {
        lemma_single_detection(d, "genesis_plus_gx"@);
    }
    if l == "32x"@ {
        lemma_single_detection(d, "picodrive"@);
    }
    if l == "gb"@ || l == "gbc"@ {
        lemma_single_detection(d, "gambatte"@);
    }
    if l == "gba"@ {
        lemma_single_detection(d, "mgba"@);
    }
    if l == "a26"@ {
        lemma_single_detection(d, "stella"@);
    }
    if l == "a52"@ {
        lemma_single_detection(d, "a5200"@);
    }
    if l == "bin"@ {
        reveal_strlit("genesis_plus_gx");
        reveal_strlit("stella");
        assert(seq_lt("genesis_plus_gx"@, "stella"@));
        lemma_pair_detection(d, "genesis_plus_gx"@, "stella"@);
    }
    if !(l == "nes"@ || l == "fds"@ || l == "unf"@ || l == "unif"@ || l == "sfc"@ || l == "smc"@ || l == "gen"@ || l == "md"@ || l == "smd"@ || l == "sg"@ || l == "bin"@ || l == "sms"@ || l == "gg"@ || l == "32x"@ || l == "gb"@ || l == "gbc"@ || l == "gba"@ || l == "a26"@ || l == "a52"@) {
        assert(extension_cores(ext, SYSTEM_COUNT as int) =~= Seq::<Seq<char>>::empty());
    }
}

/// The registry sees an extension and its lower-case form alike.
proof fn lemma_extension_cores_lower(ext: Seq<char>, n: int)
    requires
        n <= SYSTEM_COUNT,
    ensures
        extension_cores(lower_seq(ext), n) == extension_cores(ext, n),
    decreases n,
{
    if n > 0 {
        lemma_extension_cores_lower(ext, n - 1);
        lemma_listed_lower(ext);
        lemma_listed_lower(lower_seq(ext));
        assert(lower_seq(lower_seq(ext)) =~= lower_seq(ext));
        assert(system_has_extension(n - 1, ext) == system_has_extension(n - 1, lower_seq(ext)));
    }
}

/// A ROM that is no zip archive, and whose header (if read) carries no
/// signature, is detected as its extension is: `detect_rom` then agrees
/// with `detect_by_extension` on the file's extension.
pub proof fn lemma_detect_rom_by_extension(
    path: Seq<char>,
    ext: Seq<char>,
    header: Option<Seq<u8>>,
    zip_entries: Option<Seq<(String, bool)>>,
    d: Detection,
)
    requires
        extension(path) == Some(ext),
        lower_seq(ext) != "zip"@,
        header matches Some(h) ==> signature_cores(h, SYSTEM_COUNT as int).len() == 0,
        detection_of(d, rom_detection(path, header, zip_entries)),
    ensures
        detection_of(d, extension_cores(ext, SYSTEM_COUNT as int)),
{
    lemma_extension_cores_lower(ext, SYSTEM_COUNT as int);
}

/// The buildbot directory of a machine names that machine: for Linux and
/// Windows it is `nightly/<os>/<arch>/latest/`, for macOS
/// `nightly/apple/osx/<arch>/latest/` with Apple's name `arm64` for
/// `aarch64`. There is one for macOS and Linux on `aarch64` and `x86_64`
/// and for Windows on `x86` and `x86_64`, and for no other machine; so two
/// architectures of one system never share a directory.
pub proof fn lemma_buildbot_directories(os: Seq<char>, arch: Seq<char>, other: Seq<char>)
    ensures
        ({
            let base = "https://buildbot.libretro.com/nightly/"@;
            &&& (os == "linux"@ || os == "windows"@) && buildbot_url_of(os, arch) is Some ==> buildbot_url_of(
                os,
                arch,
            ) == Some(base + os + "/"@ + arch + "/latest/"@)
            &&& os == "macos"@ && buildbot_url_of(os, arch) is Some ==> buildbot_url_of(os, arch) == Some(
                base + "apple/osx/"@ + (if arch == "aarch64"@ {
                    "arm64"@
                } else {
                    arch
                }) + "/latest/"@,
            )
            &&& buildbot_url_of(os, arch) is Some <==> ((os == "macos"@ || os == "linux"@) && (arch
                == "aarch64"@ || arch == "x86_64"@) || os == "windows"@ && (arch == "x86"@ || arch
                == "x86_64"@))
            &&& buildbot_url_of(os, arch) is Some && buildbot_url_of(os, arch) == buildbot_url_of(os, other)
                ==> arch == other
        }),
{
    reveal_strlit("/");
    reveal_strlit("/latest/");
    reveal_strlit("aarch64");
    reveal_strlit("apple/osx/");
    reveal_strlit("arm64");
    reveal_strlit("https://buildbot.libretro.com/nightly/");
    reveal_strlit("https://buildbot.libretro.com/nightly/apple/osx/arm64/latest/");
    reveal_strlit("https://buildbot.libretro.com/nightly/apple/osx/x86_64/latest/");
    reveal_strlit("https://buildbot.libretro.com/nightly/linux/aarch64/latest/");
    reveal_strlit("https://buildbot.libretro.com/nightly/linux/x86_64/latest/");
    reveal_strlit("https://buildbot.libretro.com/nightly/windows/x86/latest/");
    reveal_strlit("https://buildbot.libretro.com/nightly/windows/x86_64/latest/");
    reveal_strlit("linux");
    reveal_strlit("macos");
    reveal_strlit("windows");
    reveal_strlit("x86");
    reveal_strlit("x86_64");
    assert("https://buildbot.libretro.com/nightly/"@ + "apple/osx/"@ + "arm64"@ + "/latest/"@ =~= "https://buildbot.libretro.com/nightly/apple/osx/arm64/latest/"@);
    assert("https://buildbot.libretro.com/nightly/"@ + "apple/osx/"@ + "x86_64"@ + "/latest/"@ =~= "https://buildbot.libretro.com/nightly/apple/osx/x86_64/latest/"@);
    assert("https://buildbot.libretro.com/nightly/"@ + "linux"@ + "/"@ + "aarch64"@ + "/latest/"@ =~= "https://buildbot.libretro.com/nightly/linux/aarch64/latest/"@);
    assert("https://buildbot.libretro.com/nightly/"@ + "linux"@ + "/"@ + "x86_64"@ + "/latest/"@ =~= "https://buildbot.libretro.com/nightly/linux/x86_64/latest/"@);
    assert("https://buildbot.libretro.com/nightly/"@ + "windows"@ + "/"@ + "x86"@ + "/latest/"@ =~= "https://buildbot.libretro.com/nightly/windows/x86/latest/"@);
    assert("https://buildbot.libretro.com/nightly/"@ + "windows"@ + "/"@ + "x86_64"@ + "/latest/"@ =~= "https://buildbot.libretro.com/nightly/windows/x86_64/latest/"@);
    assert("aarch64"@ != "x86_64"@ && "aarch64"@ != "x86"@ && "x86"@ != "x86_64"@) by {
        assert("aarch64"@[0] != "x86_64"@[0] && "aarch64"@[0] != "x86"@[0]);
        assert("x86"@.len() != "x86_64"@.len());
    }
    assert("macos"@ != "linux"@ && "macos"@ != "windows"@ && "linux"@ != "windows"@) by {
        assert("macos"@[0] != "linux"@[0] && "macos"@[0] != "windows"@[0] && "linux"@[0] != "windows"@[0]);
    }
    assert("https://buildbot.libretro.com/nightly/apple/osx/arm64/latest/"@ != "https://buildbot.libretro.com/nightly/apple/osx/x86_64/latest/"@ && "https://buildbot.libretro.com/nightly/linux/aarch64/latest/"@ != "https://buildbot.libretro.com/nightly/linux/x86_64/latest/"@ && "https://buildbot.libretro.com/nightly/windows/x86/latest/"@ != "https://buildbot.libretro.com/nightly/windows/x86_64/latest/"@) by {
        assert("https://buildbot.libretro.com/nightly/apple/osx/arm64/latest/"@[48] != "https://buildbot.libretro.com/nightly/apple/osx/x86_64/latest/"@[48]);
        assert("https://buildbot.libretro.com/nightly/linux/aarch64/latest/"@[44] != "https://buildbot.libretro.com/nightly/linux/x86_64/latest/"@[44]);
        assert("https://buildbot.libretro.com/nightly/windows/x86/latest/"@[49] != "https://buildbot.libretro.com/nightly/windows/x86_64/latest/"@[49]);
    }
}

/// A header is recognised by the signatures of the registry alone: `NES`
/// and 0x1a at its start call for `nestopia`, `SEGA` at offset 0x100 for
/// `genesis_plus_gx`; no other header calls for a core.
pub proof fn lemma_signature_registry(h: Seq<u8>)
    ensures
        signature_cores(h, SYSTEM_COUNT as int) == (if h.len() >= 4 && h[0] == 0x4eu8 && h[1] == 0x45u8
            && h[2] == 0x53u8 && h[3] == 0x1au8 {
            seq!["nestopia"@]
        } else {
            Seq::empty()
        }) + (if h.len() >= 0x104 && h[0x100] == 0x53u8 && h[0x101] == 0x45u8 && h[0x102] == 0x47u8
            && h[0x103] == 0x41u8 {
            seq!["genesis_plus_gx"@]
        } else {
            Seq::empty()
        }),
{
    reveal_with_fuel(signature_cores, 12);
    if h.len() >= 4 {
        assert(h.subrange(0, 4) =~= seq![h[0], h[1], h[2], h[3]]);
    }
    if h.len() >= 0x104 {
        assert(h.subrange(0x100, 0x104) =~= seq![h[0x100], h[0x101], h[0x102], h[0x103]]);
    }
    let nes = h.len() >= 4 && h[0] == 0x4eu8 && h[1] == 0x45u8 && h[2] == 0x53u8 && h[3] == 0x1au8;
    let sega = h.len() >= 0x104 && h[0x100] == 0x53u8 && h[0x101] == 0x45u8 && h[0x102] == 0x47u8
        && h[0x103] == 0x41u8;
    assert(signature_matches(0, h) == nes);
    assert(signature_matches(2, h) == sega);
    assert(signature_cores(h, SYSTEM_COUNT as int) =~= (if nes {
        seq!["nestopia"@]
    } else {
        Seq::empty()
    }) + (if sega {
        seq!["genesis_plus_gx"@]
    } else {
        Seq::empty()
    }));
}

/// The library extension follows the operating system: `dylib` on macOS,
/// `dll` on Windows, `so` everywhere else.
pub proof fn lemma_core_extensions(os: Seq<char>)
    ensures
        os == "macos"@ ==> core_extension_of(os) == "dylib"@,
        os == "windows"@ ==> core_extension_of(os) == "dll"@,
        os != "macos"@ && os != "windows"@ ==> core_extension_of(os) == "so"@,
{
    reveal_strlit("macos");
    reveal_strlit("windows");
    assert("macos"@ != "windows"@) by {
        assert("macos"@[0] != "windows"@[0]);
    }
}

} // verus!
