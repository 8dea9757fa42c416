//! `brew`: homebrew games fetched from the retrobrews repositories, picked
//! by file extension, and where they are cached.
use vstd::prelude::*;
use vstd::string::StringSliceAdditionalSpecFns;
use crate::pathname::{extension, file_name, extension_str, file_name_str, join, join_str};
use crate::text::{eq_ignore_case, push_chars, push_str, str_chars, str_eq_ignore_case, str_equal, string_from_chars};

verus! {

/// The largest download accepted (256 MiB).
pub const MAX_DOWNLOAD_BYTES: u64 = 268435456;

/// A repository of homebrew games for one file extension.
#[derive(Clone, Copy, Debug)]
pub struct Source {
    pub extension: &'static str,
    pub repository: &'static str,
}

/// The repositories, by extension.
pub open spec fn sources() -> Seq<(Seq<char>, Seq<char>)> {
    seq![
        ("gbc"@, "retrobrews/gbc-games"@),
        ("rom"@, "retrobrews/colecovision-games"@),
        ("nes"@, "retrobrews/nes-games"@),
        ("sms"@, "retrobrews/sms-games"@),
        ("gba"@, "retrobrews/gba-games"@),
        ("sfc"@, "retrobrews/snes-games"@),
        ("d64"@, "retrobrews/c64-games"@),
        ("tap"@, "retrobrews/zxspectrum-games"@),
    ]
}

fn source_list() -> (r: Vec<Source>)
    ensures
        r@.map_values(|s: Source| (s.extension@, s.repository@)) == sources(),
{
    let mut r: Vec<Source> = Vec::new();
    r.push(Source { extension: "gbc", repository: "retrobrews/gbc-games" });
    r.push(Source { extension: "rom", repository: "retrobrews/colecovision-games" });
    r.push(Source { extension: "nes", repository: "retrobrews/nes-games" });
    r.push(Source { extension: "sms", repository: "retrobrews/sms-games" });
    r.push(Source { extension: "gba", repository: "retrobrews/gba-games" });
    r.push(Source { extension: "sfc", repository: "retrobrews/snes-games" });
    r.push(Source { extension: "d64", repository: "retrobrews/c64-games" });
    r.push(Source { extension: "tap", repository: "retrobrews/zxspectrum-games" });
    assert(r@.map_values(|s: Source| (s.extension@, s.repository@)) =~= sources());
    r
}

/// The first repository for extension `ext`, compared without regard to
/// ASCII case.
pub open spec fn source_index(ext: Seq<char>) -> Option<int> {
    if exists|i: int| 0 <= i < sources().len() && eq_ignore_case(sources()[i].0, ext) {
        Some(
            choose|i: int|
                0 <= i < sources().len() && eq_ignore_case(sources()[i].0, ext) && forall|j: int|
                    0 <= j < i ==> !eq_ignore_case(sources()[j].0, ext),
        )
    } else {
        None
    }
}

/// The repository of a game file name, or the message that refuses it:
/// it must be a bare file name with a supported extension.
pub open spec fn game_source(game: Seq<char>) -> Result<(Seq<char>, Seq<char>), Seq<char>> {
    if file_name(game) != Some(game) {
        Err("Game must be a filename, not a path: "@ + game)
    } else {
        match extension(game) {
            None => Err("Unsupported homebrew game: "@ + game),
            Some(ext) => match source_index(ext) {
                Some(i) => Ok(sources()[i]),
                None => Err("Unsupported homebrew game extension: ."@ + ext),
            },
        }
    }
}

/// The repository a homebrew game is fetched from.
pub fn source_for(game: &str) -> (r: Result<Source, String>)
    ensures
        match r {
            Ok(s) => game_source(game@) == Ok::<(Seq<char>, Seq<char>), Seq<char>>(
                (s.extension@, s.repository@),
            ),
            Err(m) => game_source(game@) == Err::<(Seq<char>, Seq<char>), Seq<char>>(m@),
        },
{
    let is_name = match file_name_str(game) {
        Some(name) => str_equal(name.as_str(), game),
        None => false,
    };
    if !is_name {
        let mut m = str_chars("Game must be a filename, not a path: ");
        push_str(&mut m, game);
        return Err(string_from_chars(&m));
    }
    let ext = match extension_str(game) {
        Some(e) => e,
        None => {
            let mut m = str_chars("Unsupported homebrew game: ");
            push_str(&mut m, game);
            return Err(string_from_chars(&m));
        },
    };
    match find_source(ext.as_str()) {
        Some(source) => Ok(source),
        None => {
            let mut m = str_chars("Unsupported homebrew game extension: .");
            push_str(&mut m, ext.as_str());
            Err(string_from_chars(&m))
        },
    }
}

/// The first repository for an extension.
fn find_source(ext: &str) -> (r: Option<Source>)
    ensures
        match r {
            Some(s) => source_index(ext@) matches Some(i) && sources()[i] == (
            s.extension@,
            s.repository@,
            ),
            None => source_index(ext@) is None,
        },
{
    let list = source_list();
    let ghost table = list@.map_values(|s: Source| (s.extension@, s.repository@));
    let mut i: usize = 0;
    while i < list.len()
        invariant
            i <= list@.len(),
            table == list@.map_values(|s: Source| (s.extension@, s.repository@)),
            table == sources(),
            forall|j: int| 0 <= j < i ==> !eq_ignore_case(#[trigger] sources()[j].0, ext@),
        decreases list@.len() - i,
    {
        assert(table[i as int] == (list@[i as int].extension@, list@[i as int].repository@));
        if str_eq_ignore_case(list[i].extension, ext) {
            let ghost c = choose|k: int|
                0 <= k < sources().len() && eq_ignore_case(sources()[k].0, ext@) && forall|j: int|
                    0 <= j < k ==> !eq_ignore_case(sources()[j].0, ext@);
            assert(0 <= i < sources().len() && eq_ignore_case(sources()[i as int].0, ext@));
            assert(c == i) by {
                if c < i {
                    assert(!eq_ignore_case(sources()[c].0, ext@));
                } else if c > i {
                    assert(!eq_ignore_case(sources()[i as int].0, ext@));
                }
            }
            return Some(list[i]);
        }
        i += 1;
    }
    None
}

/// Whether a byte is left as it is in a URL path segment.
pub open spec fn unreserved(b: u8) -> bool {
    ||| (0x30 <= b && b <= 0x39)
    ||| (0x41 <= b && b <= 0x5a)
    ||| (0x61 <= b && b <= 0x7a)
    ||| b == 0x2d
    ||| b == 0x2e
    ||| b == 0x5f
    ||| b == 0x7e
}

/// The upper-case hexadecimal digit of a value below sixteen.
pub open spec fn hex_digit(n: int) -> char {
    if n < 10 {
        (n + 48) as char
    } else {
        (n + 55) as char
    }
}

/// `bytes` percent-encoded as a URL path segment.
pub open spec fn percent_encoded(bytes: Seq<u8>) -> Seq<char>
    decreases bytes.len(),
{
    if bytes.len() == 0 {
        Seq::empty()
    } else {
        let b = bytes.last();
        percent_encoded(bytes.drop_last()) + if unreserved(b) {
            seq![b as char]
        } else {
            seq!['%', hex_digit(b as int / 16), hex_digit(b as int % 16)]
        }
    }
}

fn hex(n: u8) -> (c: char)
    requires
        n < 16,
    ensures
        c == hex_digit(n as int),
{
    if n < 10 {
        (n + 48) as char
    } else {
        (n + 55) as char
    }
}

/// Percent-encodes the UTF-8 bytes of `value` for a URL path segment.
pub fn percent_encode_path_segment(value: &str) -> (r: String)
    ensures
        r@ == percent_encoded(value.spec_bytes()),
{
    let bytes = value.as_bytes();
    let mut out: Vec<char> = Vec::new();
    let mut i: usize = 0;
    while i < bytes.len()
        invariant
            i <= bytes@.len(),
            bytes@ == value.spec_bytes(),
            out@ == percent_encoded(bytes@.take(i as int)),
        decreases bytes@.len() - i,
    {
        let b = bytes[i];
        assert(bytes@.take(i + 1).drop_last() =~= bytes@.take(i as int));
        if (0x30 <= b && b <= 0x39) || (0x41 <= b && b <= 0x5a) || (0x61 <= b && b <= 0x7a) || b
            == 0x2d || b == 0x2e || b == 0x5f || b == 0x7e {
            out.push(b as char);
        } else {
            out.push('%');
            out.push(hex(b / 16));
            out.push(hex(b % 16));
        }
        i += 1;
    }
    assert(bytes@.take(bytes@.len() as int) =~= bytes@);
    string_from_chars(&out)
}

/// The download URL of `game` in `source`'s repository.
pub open spec fn source_url_of(repository: Seq<char>, game: Seq<char>) -> Seq<char> {
    "https://raw.githubusercontent.com/"@ + repository + "/refs/heads/master/"@ + game
}

pub fn source_url(source: Source, game: &str) -> (r: String)
    ensures
        r@ == source_url_of(source.repository@, percent_encoded(game.spec_bytes())),
{
    let mut out = str_chars("https://raw.githubusercontent.com/");
    push_str(&mut out, source.repository);
    push_str(&mut out, "/refs/heads/master/");
    let encoded = percent_encode_path_segment(game);
    push_str(&mut out, encoded.as_str());
    string_from_chars(&out)
}

/// The download cache: `asoby/brew` under `XDG_CACHE_HOME`, else under
/// the platform cache directory.
pub fn cache_dir_from(cache_home: Option<&str>, platform_cache: Option<&str>) -> (r: Result<
    String,
    String,
>)
    ensures
        match (cache_home, platform_cache) {
            (Some(base), _) => r matches Ok(d) && d@ == join(join(base@, "asoby"@), "brew"@),
            (None, Some(base)) => r matches Ok(d) && d@ == join(join(base@, "asoby"@), "brew"@),
            (None, None) => r matches Err(m) && m@ == "Could not determine a cache directory"@,
        },
{
    let base = match cache_home {
        Some(b) => b,
        None => match platform_cache {
            Some(b) => b,
            None => {
                return Err("Could not determine a cache directory".to_owned());
            },
        },
    };
    let dir = join_str(base, "asoby");
    Ok(join_str(dir.as_str(), "brew"))
}

/// Refuses a download whose announced length exceeds the maximum.
pub fn check_download_length(length: Option<u64>) -> (r: Result<(), String>)
    ensures
        match length {
            Some(n) if n > MAX_DOWNLOAD_BYTES => r matches Err(m) && m@ == "Download size ("@
                + crate::text::decimal(n as nat) + " bytes) exceeds maximum (268435456 bytes)"@,
            _ => r is Ok,
        },
{
    match length {
        Some(n) => {
            if n > MAX_DOWNLOAD_BYTES {
                let mut m = str_chars("Download size (");
                crate::text::push_decimal(&mut m, n);
                push_str(&mut m, " bytes) exceeds maximum (268435456 bytes)");
                return Err(string_from_chars(&m));
            }
            Ok(())
        },
        None => Ok(()),
    }
}

} // verus!
