//! The configuration key by key: the keys `config get/set/unset/list`
//! accept, their effective values, and the values `config set` writes.
use vstd::prelude::*;
use crate::config::schema::{Config, FieldKind, config_of, item_of, lookup, opt_view, lemma_renderer_names, renderer_named, section_fields};
use crate::config::settings::ConfigError;
use crate::config::toml_doc::{TomlDocument, TomlItem, TomlValue, entries_view, fields_view};
use crate::renderer::renderer_name;
use crate::text::{
    chars_start_with, decimal, decimal_string, first_with_prefix, i64_value, lemma_first_prefix_stays, parse_i64,
    str_chars, str_equal,
};

verus! {

/// The number of configuration keys.
pub const CONFIG_KEY_COUNT: usize = 34;

/// The configuration keys, `section.field`, in order.
pub open spec fn config_keys() -> Seq<Seq<char>> {
    seq![
        "input.up"@,
        "input.down"@,
        "input.left"@,
        "input.right"@,
        "input.a"@,
        "input.b"@,
        "input.x"@,
        "input.y"@,
        "input.start"@,
        "input.select"@,
        "input.l"@,
        "input.r"@,
        "input.l2"@,
        "input.r2"@,
        "input.l3"@,
        "input.r3"@,
        "input.quit"@,
        "input.rewind"@,
        "input.save_state"@,
        "input.load_state"@,
        "display.renderer"@,
        "display.fps"@,
        "display.primary_screen"@,
        "audio.muted"@,
        "rewind.enabled"@,
        "rewind.granularity"@,
        "rewind.buffer_size_mb"@,
        "state.save_on_exit"@,
        "state.resume"@,
        "status.enabled"@,
        "status.gamepad"@,
        "status.controls"@,
        "paths.data_dir"@,
        "paths.cache_dir"@,
    ]
}

/// The section and field of key `i`.
pub open spec fn key_parts(i: int) -> (Seq<char>, Seq<char>) {
    if i == 0 {
        ("input"@, "up"@)
    } else if i == 1 {
        ("input"@, "down"@)
    } else if i == 2 {
        ("input"@, "left"@)
    } else if i == 3 {
        ("input"@, "right"@)
    } else if i == 4 {
        ("input"@, "a"@)
    } else if i == 5 {
        ("input"@, "b"@)
    } else if i == 6 {
        ("input"@, "x"@)
    } else if i == 7 {
        ("input"@, "y"@)
    } else if i == 8 {
        ("input"@, "start"@)
    } else if i == 9 {
        ("input"@, "select"@)
    } else if i == 10 {
        ("input"@, "l"@)
    } else if i == 11 {
        ("input"@, "r"@)
    } else if i == 12 {
        ("input"@, "l2"@)
    } else if i == 13 {
        ("input"@, "r2"@)
    } else if i == 14 {
        ("input"@, "l3"@)
    } else if i == 15 {
        ("input"@, "r3"@)
    } else if i == 16 {
        ("input"@, "quit"@)
    } else if i == 17 {
        ("input"@, "rewind"@)
    } else if i == 18 {
        ("input"@, "save_state"@)
    } else if i == 19 {
        ("input"@, "load_state"@)
    } else if i == 20 {
        ("display"@, "renderer"@)
    } else if i == 21 {
        ("display"@, "fps"@)
    } else if i == 22 {
        ("display"@, "primary_screen"@)
    } else if i == 23 {
        ("audio"@, "muted"@)
    } else if i == 24 {
        ("rewind"@, "enabled"@)
    } else if i == 25 {
        ("rewind"@, "granularity"@)
    } else if i == 26 {
        ("rewind"@, "buffer_size_mb"@)
    } else if i == 27 {
        ("state"@, "save_on_exit"@)
    } else if i == 28 {
        ("state"@, "resume"@)
    } else if i == 29 {
        ("status"@, "enabled"@)
    } else if i == 30 {
        ("status"@, "gamepad"@)
    } else if i == 31 {
        ("status"@, "controls"@)
    } else if i == 32 {
        ("paths"@, "data_dir"@)
    } else {
        ("paths"@, "cache_dir"@)
    }
}

/// Each key is written `section.field` after the section and field it
/// reads and writes: the key's name and the place it stands for agree.
pub proof fn lemma_key_names_their_field(i: int)
    requires
        0 <= i < CONFIG_KEY_COUNT,
    ensures
        config_keys()[i] == key_parts(i).0 + "."@ + key_parts(i).1,
{
    reveal_strlit(".");
    reveal_strlit("a");
    reveal_strlit("audio");
    reveal_strlit("audio.muted");
    reveal_strlit("b");
    reveal_strlit("buffer_size_mb");
    reveal_strlit("cache_dir");
    reveal_strlit("controls");
    reveal_strlit("data_dir");
    reveal_strlit("display");
    reveal_strlit("display.fps");
    reveal_strlit("display.primary_screen");
    reveal_strlit("display.renderer");
    reveal_strlit("down");
    reveal_strlit("enabled");
    reveal_strlit("fps");
    reveal_strlit("gamepad");
    reveal_strlit("granularity");
    reveal_strlit("input");
    reveal_strlit("input.a");
    reveal_strlit("input.b");
    reveal_strlit("input.down");
    reveal_strlit("input.l");
    reveal_strlit("input.l2");
    reveal_strlit("input.l3");
    reveal_strlit("input.left");
    reveal_strlit("input.load_state");
    reveal_strlit("input.quit");
    reveal_strlit("input.r");
    reveal_strlit("input.r2");
    reveal_strlit("input.r3");
    reveal_strlit("input.rewind");
    reveal_strlit("input.right");
    reveal_strlit("input.save_state");
    reveal_strlit("input.select");
    reveal_strlit("input.start");
    reveal_strlit("input.up");
    reveal_strlit("input.x");
    reveal_strlit("input.y");
    reveal_strlit("l");
    reveal_strlit("l2");
    reveal_strlit("l3");
    reveal_strlit("left");
    reveal_strlit("load_state");
    reveal_strlit("muted");
    reveal_strlit("paths");
    reveal_strlit("paths.cache_dir");
    reveal_strlit("paths.data_dir");
    reveal_strlit("primary_screen");
    reveal_strlit("quit");
    reveal_strlit("r");
    reveal_strlit("r2");
    reveal_strlit("r3");
    reveal_strlit("renderer");
    reveal_strlit("resume");
    reveal_strlit("rewind");
    reveal_strlit("rewind.buffer_size_mb");
    reveal_strlit("rewind.enabled");
    reveal_strlit("rewind.granularity");
    reveal_strlit("right");
    reveal_strlit("save_on_exit");
    reveal_strlit("save_state");
    reveal_strlit("select");
    reveal_strlit("start");
    reveal_strlit("state");
    reveal_strlit("state.resume");
    reveal_strlit("state.save_on_exit");
    reveal_strlit("status");
    reveal_strlit("status.controls");
    reveal_strlit("status.enabled");
    reveal_strlit("status.gamepad");
    reveal_strlit("up");
    reveal_strlit("x");
    reveal_strlit("y");
    assert(config_keys()[0] == "input"@ + "."@ + "up"@) by {
        assert("input"@ + "."@ + "up"@ =~= "input.up"@);
    }
    assert(config_keys()[1] == "input"@ + "."@ + "down"@) by {
        assert("input"@ + "."@ + "down"@ =~= "input.down"@);
    }
    assert(config_keys()[2] == "input"@ + "."@ + "left"@) by {
        assert("input"@ + "."@ + "left"@ =~= "input.left"@);
    }
    assert(config_keys()[3] == "input"@ + "."@ + "right"@) by {
        assert("input"@ + "."@ + "right"@ =~= "input.right"@);
    }
    assert(config_keys()[4] == "input"@ + "."@ + "a"@) by {
        assert("input"@ + "."@ + "a"@ =~= "input.a"@);
    }
    assert(config_keys()[5] == "input"@ + "."@ + "b"@) by {
        assert("input"@ + "."@ + "b"@ =~= "input.b"@);
    }
    assert(config_keys()[6] == "input"@ + "."@ + "x"@) by {
        assert("input"@ + "."@ + "x"@ =~= "input.x"@);
    }
    assert(config_keys()[7] == "input"@ + "."@ + "y"@) by {
        assert("input"@ + "."@ + "y"@ =~= "input.y"@);
    }
    assert(config_keys()[8] == "input"@ + "."@ + "start"@) by {
        assert("input"@ + "."@ + "start"@ =~= "input.start"@);
    }
    assert(config_keys()[9] == "input"@ + "."@ + "select"@) by {
        assert("input"@ + "."@ + "select"@ =~= "input.select"@);
    }
    assert(config_keys()[10] == "input"@ + "."@ + "l"@) by {
        assert("input"@ + "."@ + "l"@ =~= "input.l"@);
    }
    assert(config_keys()[11] == "input"@ + "."@ + "r"@) by {
        assert("input"@ + "."@ + "r"@ =~= "input.r"@);
    }
    assert(config_keys()[12] == "input"@ + "."@ + "l2"@) by {
        assert("input"@ + "."@ + "l2"@ =~= "input.l2"@);
    }
    assert(config_keys()[13] == "input"@ + "."@ + "r2"@) by {
        assert("input"@ + "."@ + "r2"@ =~= "input.r2"@);
    }
    assert(config_keys()[14] == "input"@ + "."@ + "l3"@) by {
        assert("input"@ + "."@ + "l3"@ =~= "input.l3"@);
    }
    assert(config_keys()[15] == "input"@ + "."@ + "r3"@) by {
        assert("input"@ + "."@ + "r3"@ =~= "input.r3"@);
    }
    assert(config_keys()[16] == "input"@ + "."@ + "quit"@) by {
        assert("input"@ + "."@ + "quit"@ =~= "input.quit"@);
    }
    assert(config_keys()[17] == "input"@ + "."@ + "rewind"@) by {
        assert("input"@ + "."@ + "rewind"@ =~= "input.rewind"@);
    }
    assert(config_keys()[18] == "input"@ + "."@ + "save_state"@) by {
        assert("input"@ + "."@ + "save_state"@ =~= "input.save_state"@);
    }
    assert(config_keys()[19] == "input"@ + "."@ + "load_state"@) by {
        assert("input"@ + "."@ + "load_state"@ =~= "input.load_state"@);
    }
    assert(config_keys()[20] == "display"@ + "."@ + "renderer"@) by {
        assert("display"@ + "."@ + "renderer"@ =~= "display.renderer"@);
    }
    assert(config_keys()[21] == "display"@ + "."@ + "fps"@) by {
        assert("display"@ + "."@ + "fps"@ =~= "display.fps"@);
    }
    assert(config_keys()[22] == "display"@ + "."@ + "primary_screen"@) by {
        assert("display"@ + "."@ + "primary_screen"@ =~= "display.primary_screen"@);
    }
    assert(config_keys()[23] == "audio"@ + "."@ + "muted"@) by {
        assert("audio"@ + "."@ + "muted"@ =~= "audio.muted"@);
    }
    assert(config_keys()[24] == "rewind"@ + "."@ + "enabled"@) by {
        assert("rewind"@ + "."@ + "enabled"@ =~= "rewind.enabled"@);
    }
    assert(config_keys()[25] == "rewind"@ + "."@ + "granularity"@) by {
        assert("rewind"@ + "."@ + "granularity"@ =~= "rewind.granularity"@);
    }
    assert(config_keys()[26] == "rewind"@ + "."@ + "buffer_size_mb"@) by {
        assert("rewind"@ + "."@ + "buffer_size_mb"@ =~= "rewind.buffer_size_mb"@);
    }
    assert(config_keys()[27] == "state"@ + "."@ + "save_on_exit"@) by {
        assert("state"@ + "."@ + "save_on_exit"@ =~= "state.save_on_exit"@);
    }
    assert(config_keys()[28] == "state"@ + "."@ + "resume"@) by {
        assert("state"@ + "."@ + "resume"@ =~= "state.resume"@);
    }
    assert(config_keys()[29] == "status"@ + "."@ + "enabled"@) by {
        assert("status"@ + "."@ + "enabled"@ =~= "status.enabled"@);
    }
    assert(config_keys()[30] == "status"@ + "."@ + "gamepad"@) by {
        assert("status"@ + "."@ + "gamepad"@ =~= "status.gamepad"@);
    }
    assert(config_keys()[31] == "status"@ + "."@ + "controls"@) by {
        assert("status"@ + "."@ + "controls"@ =~= "status.controls"@);
    }
    assert(config_keys()[32] == "paths"@ + "."@ + "data_dir"@) by {
        assert("paths"@ + "."@ + "data_dir"@ =~= "paths.data_dir"@);
    }
    assert(config_keys()[33] == "paths"@ + "."@ + "cache_dir"@) by {
        assert("paths"@ + "."@ + "cache_dir"@ =~= "paths.cache_dir"@);
    }
}

/// The kind of the field of key `i`.
pub open spec fn key_kind(i: int) -> FieldKind {
    if i == 0 {
        FieldKind::Str
    } else if i == 1 {
        FieldKind::Str
    } else if i == 2 {
        FieldKind::Str
    } else if i == 3 {
        FieldKind::Str
    } else if i == 4 {
        FieldKind::Str
    } else if i == 5 {
        FieldKind::Str
    } else if i == 6 {
        FieldKind::Str
    } else if i == 7 {
        FieldKind::Str
    } else if i == 8 {
        FieldKind::Str
    } else if i == 9 {
        FieldKind::Str
    } else if i == 10 {
        FieldKind::OptStr
    } else if i == 11 {
        FieldKind::OptStr
    } else if i == 12 {
        FieldKind::OptStr
    } else if i == 13 {
        FieldKind::OptStr
    } else if i == 14 {
        FieldKind::OptStr
    } else if i == 15 {
        FieldKind::OptStr
    } else if i == 16 {
        FieldKind::Str
    } else if i == 17 {
        FieldKind::Str
    } else if i == 18 {
        FieldKind::Str
    } else if i == 19 {
        FieldKind::Str
    } else if i == 20 {
        FieldKind::Renderer
    } else if i == 21 {
        FieldKind::U32
    } else if i == 22 {
        FieldKind::Bool
    } else if i == 23 {
        FieldKind::Bool
    } else if i == 24 {
        FieldKind::Bool
    } else if i == 25 {
        FieldKind::U64
    } else if i == 26 {
        FieldKind::Usize
    } else if i == 27 {
        FieldKind::Bool
    } else if i == 28 {
        FieldKind::Bool
    } else if i == 29 {
        FieldKind::Bool
    } else if i == 30 {
        FieldKind::Bool
    } else if i == 31 {
        FieldKind::Bool
    } else if i == 32 {
        FieldKind::OptStr
    } else {
        FieldKind::OptStr
    }
}

pub open spec fn bool_text(b: bool) -> Seq<char> {
    if b {
        "true"@
    } else {
        "false"@
    }
}

/// The effective value of key `i` as text: what the configuration holds
/// or its default, with the directories as resolved; `None` for an
/// optional key that is not set.
pub open spec fn effective_value(c: Config, i: int, data_base: Seq<char>, cache_base: Seq<char>) -> Option<Seq<char>> {
    if i == 0 {
        Some(c.input.up@)
    } else if i == 1 {
        Some(c.input.down@)
    } else if i == 2 {
        Some(c.input.left@)
    } else if i == 3 {
        Some(c.input.right@)
    } else if i == 4 {
        Some(c.input.a@)
    } else if i == 5 {
        Some(c.input.b@)
    } else if i == 6 {
        Some(c.input.x@)
    } else if i == 7 {
        Some(c.input.y@)
    } else if i == 8 {
        Some(c.input.start@)
    } else if i == 9 {
        Some(c.input.select@)
    } else if i == 10 {
        opt_view(c.input.l)
    } else if i == 11 {
        opt_view(c.input.r)
    } else if i == 12 {
        opt_view(c.input.l2)
    } else if i == 13 {
        opt_view(c.input.r2)
    } else if i == 14 {
        opt_view(c.input.l3)
    } else if i == 15 {
        opt_view(c.input.r3)
    } else if i == 16 {
        Some(c.input.quit@)
    } else if i == 17 {
        Some(c.input.rewind@)
    } else if i == 18 {
        Some(c.input.save_state@)
    } else if i == 19 {
        Some(c.input.load_state@)
    } else if i == 20 {
        Some(renderer_name(c.display.renderer))
    } else if i == 21 {
        Some(decimal(c.display.fps as nat))
    } else if i == 22 {
        Some(bool_text(c.display.primary_screen))
    } else if i == 23 {
        Some(bool_text(c.audio.muted))
    } else if i == 24 {
        Some(bool_text(c.rewind.enabled))
    } else if i == 25 {
        Some(decimal(c.rewind.granularity as nat))
    } else if i == 26 {
        Some(decimal(c.rewind.buffer_size_mb as nat))
    } else if i == 27 {
        Some(bool_text(c.state.save_on_exit))
    } else if i == 28 {
        Some(bool_text(c.state.resume))
    } else if i == 29 {
        Some(bool_text(c.status.enabled))
    } else if i == 30 {
        Some(bool_text(c.status.gamepad))
    } else if i == 31 {
        Some(bool_text(c.status.controls))
    } else if i == 32 {
        Some(data_base)
    } else {
        Some(cache_base)
    }
}

/// `config get` reports, for each key, the field that key names: when the
/// file sets `section.field` of key `i` (below the directory keys) to a
/// text, a boolean, an in-range integer or a renderer name, the key's
/// effective value is that value as text, whatever the other fields hold.
pub proof fn lemma_effective_value_is_own_field(
    c: Config,
    doc: Seq<(Seq<char>, TomlItem)>,
    i: int,
    v: TomlValue,
    data_base: Seq<char>,
    cache_base: Seq<char>,
)
    requires
        config_of(c, doc),
        0 <= i < 32,
        lookup(section_fields(doc, key_parts(i).0), key_parts(i).1) == Some(v),
    ensures
        ({
            let got = effective_value(c, i, data_base, cache_base);
            match v {
                TomlValue::String(t) => {
                    &&& (key_kind(i) == FieldKind::Str || key_kind(i) == FieldKind::OptStr) ==> got
                        == Some(t@)
                    &&& (key_kind(i) == FieldKind::Renderer && renderer_named(t@) is Some) ==> got
                        == Some(t@)
                },
                TomlValue::Boolean(b) => key_kind(i) == FieldKind::Bool ==> got == Some(bool_text(b)),
                TomlValue::Integer(n) => ((key_kind(i) == FieldKind::U32 || key_kind(i) == FieldKind::U64
                    || key_kind(i) == FieldKind::Usize) && 0 <= n <= u32::MAX) ==> got == Some(
                    decimal(n as nat),
                ),
                TomlValue::Other(..) => true,
            }
        }),
{
    if let TomlValue::String(t) = v {
        if renderer_named(t@) is Some {
            lemma_renderer_names(renderer_named(t@).unwrap(), t@);
        }
    }
}

/// A key the file does not set reports its default, as the documentation
/// lists them: the arrow keys for the d-pad, `x`, `z`, `s`, `a` for A, B,
/// X, Y, `enter` and `rshift` for Start and Select, no shoulder buttons,
/// `escape` to quit, `r` to rewind, `f2` and `f4` to save and load; the
/// `auto` renderer at 60 frames per second on the alternate screen, sound
/// on, rewind on every 2 frames within 20 MiB, no save on exit or resume,
/// and the whole status line shown.
pub proof fn lemma_unset_keys_default(
    c: Config,
    doc: Seq<(Seq<char>, TomlItem)>,
    i: int,
    data_base: Seq<char>,
    cache_base: Seq<char>,
)
    requires
        config_of(c, doc),
        0 <= i < 32,
        lookup(section_fields(doc, key_parts(i).0), key_parts(i).1) is None,
    ensures
        ({
            let got = effective_value(c, i, data_base, cache_base);
            &&& i == 0 ==> got == Some("up"@)
            &&& i == 1 ==> got == Some("down"@)
            &&& i == 2 ==> got == Some("left"@)
            &&& i == 3 ==> got == Some("right"@)
            &&& i == 4 ==> got == Some("x"@)
            &&& i == 5 ==> got == Some("z"@)
            &&& i == 6 ==> got == Some("s"@)
            &&& i == 7 ==> got == Some("a"@)
            &&& i == 8 ==> got == Some("enter"@)
            &&& i == 9 ==> got == Some("rshift"@)
            &&& i == 10 ==> got == None::<Seq<char>>
            &&& i == 11 ==> got == None::<Seq<char>>
            &&& i == 12 ==> got == None::<Seq<char>>
            &&& i == 13 ==> got == None::<Seq<char>>
            &&& i == 14 ==> got == None::<Seq<char>>
            &&& i == 15 ==> got == None::<Seq<char>>
            &&& i == 16 ==> got == Some("escape"@)
            &&& i == 17 ==> got == Some("r"@)
            &&& i == 18 ==> got == Some("f2"@)
            &&& i == 19 ==> got == Some("f4"@)
            &&& i == 20 ==> got == Some("auto"@)
            &&& i == 21 ==> got == Some("60"@)
            &&& i == 22 ==> got == Some("false"@)
            &&& i == 23 ==> got == Some("false"@)
            &&& i == 24 ==> got == Some("true"@)
            &&& i == 25 ==> got == Some("2"@)
            &&& i == 26 ==> got == Some("20"@)
            &&& i == 27 ==> got == Some("false"@)
            &&& i == 28 ==> got == Some("false"@)
            &&& i == 29 ==> got == Some("true"@)
            &&& i == 30 ==> got == Some("true"@)
            &&& i == 31 ==> got == Some("true"@)
        }),
{
    reveal_strlit("2");
    reveal_strlit("20");
    reveal_strlit("60");
    reveal_strlit("a");
    reveal_strlit("auto");
    reveal_strlit("down");
    reveal_strlit("enter");
    reveal_strlit("escape");
    reveal_strlit("f2");
    reveal_strlit("f4");
    reveal_strlit("false");
    reveal_strlit("left");
    reveal_strlit("r");
    reveal_strlit("right");
    reveal_strlit("rshift");
    reveal_strlit("s");
    reveal_strlit("true");
    reveal_strlit("up");
    reveal_strlit("x");
    reveal_strlit("z");
    reveal_with_fuel(decimal, 3);
}

/// The directory keys report the directories in use: `paths.data_dir` the
/// data directory and `paths.cache_dir` the cache directory, as resolved.
pub proof fn lemma_directory_keys(c: Config, data_base: Seq<char>, cache_base: Seq<char>)
    ensures
        key_parts(32) == ("paths"@, "data_dir"@),
        effective_value(c, 32, data_base, cache_base) == Some(data_base),
        key_parts(33) == ("paths"@, "cache_dir"@),
        effective_value(c, 33, data_base, cache_base) == Some(cache_base),
{
}

/// The effective value of key `i`.
pub fn effective_text(c: &Config, i: usize, data_base: &str, cache_base: &str) -> (r: Option<String>)
    requires
        i < CONFIG_KEY_COUNT,
    ensures
        opt_view(r) == effective_value(*c, i as int, data_base@, cache_base@),
{
    if i == 0 {
        Some(c.input.up.clone())
    } else if i == 1 {
        Some(c.input.down.clone())
    } else if i == 2 {
        Some(c.input.left.clone())
    } else if i == 3 {
        Some(c.input.right.clone())
    } else if i == 4 {
        Some(c.input.a.clone())
    } else if i == 5 {
        Some(c.input.b.clone())
    } else if i == 6 {
        Some(c.input.x.clone())
    } else if i == 7 {
        Some(c.input.y.clone())
    } else if i == 8 {
        Some(c.input.start.clone())
    } else if i == 9 {
        Some(c.input.select.clone())
    } else if i == 10 {
        clone_opt(&c.input.l)
    } else if i == 11 {
        clone_opt(&c.input.r)
    } else if i == 12 {
        clone_opt(&c.input.l2)
    } else if i == 13 {
        clone_opt(&c.input.r2)
    } else if i == 14 {
        clone_opt(&c.input.l3)
    } else if i == 15 {
        clone_opt(&c.input.r3)
    } else if i == 16 {
        Some(c.input.quit.clone())
    } else if i == 17 {
        Some(c.input.rewind.clone())
    } else if i == 18 {
        Some(c.input.save_state.clone())
    } else if i == 19 {
        Some(c.input.load_state.clone())
    } else if i == 20 {
        Some(c.display.renderer.name().to_owned())
    } else if i == 21 {
        Some(decimal_string(c.display.fps as u64))
    } else if i == 22 {
        Some(bool_string(c.display.primary_screen))
    } else if i == 23 {
        Some(bool_string(c.audio.muted))
    } else if i == 24 {
        Some(bool_string(c.rewind.enabled))
    } else if i == 25 {
        Some(decimal_string(c.rewind.granularity as u64))
    } else if i == 26 {
        Some(decimal_string(c.rewind.buffer_size_mb as u64))
    } else if i == 27 {
        Some(bool_string(c.state.save_on_exit))
    } else if i == 28 {
        Some(bool_string(c.state.resume))
    } else if i == 29 {
        Some(bool_string(c.status.enabled))
    } else if i == 30 {
        Some(bool_string(c.status.gamepad))
    } else if i == 31 {
        Some(bool_string(c.status.controls))
    } else if i == 32 {
        Some(data_base.to_owned())
    } else {
        Some(cache_base.to_owned())
    }
}

/// The text, section and field of key `i`.
pub fn key_entry(i: usize) -> (r: (&'static str, &'static str, &'static str))
    requires
        i < CONFIG_KEY_COUNT,
    ensures
        r.0@ == config_keys()[i as int],
        (r.1@, r.2@) == key_parts(i as int),
{
    if i == 0 {
        ("input.up", "input", "up")
    } else if i == 1 {
        ("input.down", "input", "down")
    } else if i == 2 {
        ("input.left", "input", "left")
    } else if i == 3 {
        ("input.right", "input", "right")
    } else if i == 4 {
        ("input.a", "input", "a")
    } else if i == 5 {
        ("input.b", "input", "b")
    } else if i == 6 {
        ("input.x", "input", "x")
    } else if i == 7 {
        ("input.y", "input", "y")
    } else if i == 8 {
        ("input.start", "input", "start")
    } else if i == 9 {
        ("input.select", "input", "select")
    } else if i == 10 {
        ("input.l", "input", "l")
    } else if i == 11 {
        ("input.r", "input", "r")
    } else if i == 12 {
        ("input.l2", "input", "l2")
    } else if i == 13 {
        ("input.r2", "input", "r2")
    } else if i == 14 {
        ("input.l3", "input", "l3")
    } else if i == 15 {
        ("input.r3", "input", "r3")
    } else if i == 16 {
        ("input.quit", "input", "quit")
    } else if i == 17 {
        ("input.rewind", "input", "rewind")
    } else if i == 18 {
        ("input.save_state", "input", "save_state")
    } else if i == 19 {
        ("input.load_state", "input", "load_state")
    } else if i == 20 {
        ("display.renderer", "display", "renderer")
    } else if i == 21 {
        ("display.fps", "display", "fps")
    } else if i == 22 {
        ("display.primary_screen", "display", "primary_screen")
    } else if i == 23 {
        ("audio.muted", "audio", "muted")
    } else if i == 24 {
        ("rewind.enabled", "rewind", "enabled")
    } else if i == 25 {
        ("rewind.granularity", "rewind", "granularity")
    } else if i == 26 {
        ("rewind.buffer_size_mb", "rewind", "buffer_size_mb")
    } else if i == 27 {
        ("state.save_on_exit", "state", "save_on_exit")
    } else if i == 28 {
        ("state.resume", "state", "resume")
    } else if i == 29 {
        ("status.enabled", "status", "enabled")
    } else if i == 30 {
        ("status.gamepad", "status", "gamepad")
    } else if i == 31 {
        ("status.controls", "status", "controls")
    } else if i == 32 {
        ("paths.data_dir", "paths", "data_dir")
    } else {
        ("paths.cache_dir", "paths", "cache_dir")
    }
}

/// The kind of key `i`.
fn key_kind_of(i: usize) -> (r: FieldKind)
    requires
        i < CONFIG_KEY_COUNT,
    ensures
        r == key_kind(i as int),
{
    if i == 0 {
        FieldKind::Str
    } else if i == 1 {
        FieldKind::Str
    } else if i == 2 {
        FieldKind::Str
    } else if i == 3 {
        FieldKind::Str
    } else if i == 4 {
        FieldKind::Str
    } else if i == 5 {
        FieldKind::Str
    } else if i == 6 {
        FieldKind::Str
    } else if i == 7 {
        FieldKind::Str
    } else if i == 8 {
        FieldKind::Str
    } else if i == 9 {
        FieldKind::Str
    } else if i == 10 {
        FieldKind::OptStr
    } else if i == 11 {
        FieldKind::OptStr
    } else if i == 12 {
        FieldKind::OptStr
    } else if i == 13 {
        FieldKind::OptStr
    } else if i == 14 {
        FieldKind::OptStr
    } else if i == 15 {
        FieldKind::OptStr
    } else if i == 16 {
        FieldKind::Str
    } else if i == 17 {
        FieldKind::Str
    } else if i == 18 {
        FieldKind::Str
    } else if i == 19 {
        FieldKind::Str
    } else if i == 20 {
        FieldKind::Renderer
    } else if i == 21 {
        FieldKind::U32
    } else if i == 22 {
        FieldKind::Bool
    } else if i == 23 {
        FieldKind::Bool
    } else if i == 24 {
        FieldKind::Bool
    } else if i == 25 {
        FieldKind::U64
    } else if i == 26 {
        FieldKind::Usize
    } else if i == 27 {
        FieldKind::Bool
    } else if i == 28 {
        FieldKind::Bool
    } else if i == 29 {
        FieldKind::Bool
    } else if i == 30 {
        FieldKind::Bool
    } else if i == 31 {
        FieldKind::Bool
    } else if i == 32 {
        FieldKind::OptStr
    } else {
        FieldKind::OptStr
    }
}
fn bool_string(b: bool) -> (r: String)
    ensures
        r@ == bool_text(b),
{
    if b {
        "true".to_owned()
    } else {
        "false".to_owned()
    }
}

fn clone_opt(o: &Option<String>) -> (r: Option<String>)
    ensures
        opt_view(r) == opt_view(*o),
{
    match o {
        Some(s) => Some(s.clone()),
        None => None,
    }
}

/// The key suggested for an unknown `key`: the first configuration key
/// that starts with it.
pub open spec fn key_suggestion(key: Seq<char>) -> Option<Seq<char>> {
    first_with_prefix(config_keys(), key)
}

/// The key to suggest for an unknown `key` (see `key_suggestion`).
pub fn suggest_key(key: &str) -> (r: Option<&'static str>)
    ensures
        match key_suggestion(key@) {
            Some(s) => r matches Some(t) && t@ == s,
            None => r is None,
        },
{
    let p = str_chars(key);
    let mut i: usize = 0;
    while i < CONFIG_KEY_COUNT
        invariant
            i <= CONFIG_KEY_COUNT,
            p@ == key@,
            first_with_prefix(config_keys().take(i as int), key@) is None,
        decreases CONFIG_KEY_COUNT - i,
    {
        assert(config_keys().take(i + 1).drop_last() =~= config_keys().take(i as int));
        let name = key_entry(i).0;
        if chars_start_with(&str_chars(name), &p) {
            proof {
                lemma_first_prefix_stays(config_keys(), key@, i as int);
            }
            return Some(name);
        }
        i += 1;
    }
    assert(config_keys().take(CONFIG_KEY_COUNT as int) =~= config_keys());
    None
}

/// The index of `key` among the configuration keys, or the error naming
/// an unknown key.
pub fn config_key(key: &str) -> (r: Result<usize, ConfigError>)
    ensures
        match r {
            Ok(i) => i < CONFIG_KEY_COUNT && config_keys()[i as int] == key@,
            Err(e) => (e matches ConfigError::UnknownKey(k) && k@ == key@) && forall|i: int|
                0 <= i < CONFIG_KEY_COUNT ==> config_keys()[i] != key@,
        },
{
    let mut i: usize = 0;
    while i < CONFIG_KEY_COUNT
        invariant
            i <= CONFIG_KEY_COUNT,
            forall|j: int| 0 <= j < i ==> config_keys()[j] != key@,
        decreases CONFIG_KEY_COUNT - i,
    {
        let entry = key_entry(i);
        if str_equal(entry.0, key) {
            return Ok(i);
        }
        i += 1;
    }
    Err(ConfigError::UnknownKey(key.to_owned()))
}

/// Whether the document sets key `i` itself.
pub open spec fn key_stored(doc: Seq<(Seq<char>, TomlItem)>, i: int) -> bool {
    match item_of(doc, key_parts(i).0) {
        Some(TomlItem::Table(f)) => lookup(fields_view(f@), key_parts(i).1) is Some,
        _ => false,
    }
}

fn table_has(fields: &Vec<(String, crate::config::toml_doc::TomlValue)>, name: &str) -> (r: bool)
    ensures
        r == (lookup(fields_view(fields@), name@) is Some),
{
    let ghost f = fields_view(fields@);
    let mut i: usize = fields.len();
    assert(f.take(i as int) =~= f);
    while i > 0
        invariant
            i <= fields@.len(),
            f == fields_view(fields@),
            lookup(f, name@) == lookup(f.take(i as int), name@),
        decreases i,
    {
        assert(f.take(i as int).last() == (fields@[i - 1].0@, fields@[i - 1].1));
        if str_equal(fields[i - 1].0.as_str(), name) {
            return true;
        }
        assert(f.take(i as int).drop_last() =~= f.take(i - 1));
        i -= 1;
    }
    false
}

/// Whether `doc` sets key `i` itself.
pub fn key_is_stored(doc: &TomlDocument, i: usize) -> (r: bool)
    requires
        i < CONFIG_KEY_COUNT,
    ensures
        r == key_stored(entries_view(doc.entries@), i as int),
{
    let (_, section, name) = key_entry(i);
    let ghost d = entries_view(doc.entries@);
    let mut j: usize = doc.entries.len();
    assert(d.take(j as int) =~= d);
    while j > 0
        invariant
            j <= doc.entries@.len(),
            d == entries_view(doc.entries@),
            i < CONFIG_KEY_COUNT,
            section@ == key_parts(i as int).0,
            name@ == key_parts(i as int).1,
            item_of(d, section@) == item_of(d.take(j as int), section@),
        decreases j,
    {
        assert(d.take(j as int).last() == (doc.entries@[j - 1].0@, doc.entries@[j - 1].1));
        if str_equal(doc.entries[j - 1].0.as_str(), section) {
            return match &doc.entries[j - 1].1 {
                TomlItem::Table(fields) => table_has(fields, name),
                TomlItem::Value(_) => false,
            };
        }
        assert(d.take(j as int).drop_last() =~= d.take(j - 1));
        j -= 1;
    }
    false
}

/// A line of `config list`: the key, its effective value (`<unset>` for
/// an optional key not set), and whether the file sets it.
#[derive(Debug)]
pub struct ConfigEntry {
    pub key: &'static str,
    pub value: String,
    pub configured: bool,
}

/// The lines of `config list` (`list`), one per key in order, for the
/// configuration `c` read from `doc` (an empty document when there is no
/// file) with the data and cache directories resolved.
pub fn list(c: &Config, doc: &TomlDocument, data_base: &str, cache_base: &str) -> (r: Vec<ConfigEntry>)
    ensures
        r@.len() == CONFIG_KEY_COUNT,
        forall|i: int|
            0 <= i < CONFIG_KEY_COUNT ==> {
                &&& (#[trigger] r@[i]).key@ == config_keys()[i]
                &&& r@[i].value@ == match effective_value(*c, i, data_base@, cache_base@) {
                    Some(v) => v,
                    None => "<unset>"@,
                }
                &&& r@[i].configured == key_stored(entries_view(doc.entries@), i)
            },
{
    let mut out: Vec<ConfigEntry> = Vec::new();
    let mut i: usize = 0;
    while i < CONFIG_KEY_COUNT
        invariant
            i <= CONFIG_KEY_COUNT,
            out@.len() == i,
            forall|j: int|
                0 <= j < i ==> {
                    &&& (#[trigger] out@[j]).key@ == config_keys()[j]
                    &&& out@[j].value@ == match effective_value(*c, j, data_base@, cache_base@) {
                        Some(v) => v,
                        None => "<unset>"@,
                    }
                    &&& out@[j].configured == key_stored(entries_view(doc.entries@), j)
                },
        decreases CONFIG_KEY_COUNT - i,
    {
        let value = match effective_text(c, i, data_base, cache_base) {
            Some(v) => v,
            None => "<unset>".to_owned(),
        };
        out.push(ConfigEntry { key: key_entry(i).0, value, configured: key_is_stored(doc, i) });
        i += 1;
    }
    out
}

/// The effective value of `key` (`config get`), or why there is none.
pub fn get(key: &str, c: &Config, data_base: &str, cache_base: &str) -> (r: Result<String, ConfigError>)
    ensures
        match r {
            Ok(v) => exists|i: int|
                0 <= i < CONFIG_KEY_COUNT && config_keys()[i] == key@ && effective_value(
                    *c,
                    i,
                    data_base@,
                    cache_base@,
                ) == Some(v@),
            Err(ConfigError::UnknownKey(k)) => k@ == key@ && forall|i: int|
                0 <= i < CONFIG_KEY_COUNT ==> config_keys()[i] != key@,
            Err(ConfigError::UnsetKey(k)) => k@ == key@ && exists|i: int|
                0 <= i < CONFIG_KEY_COUNT && config_keys()[i] == key@ && effective_value(
                    *c,
                    i,
                    data_base@,
                    cache_base@,
                ) is None,
            Err(_) => false,
        },
{
    let i = match config_key(key) {
        Ok(i) => i,
        Err(e) => {
            return Err(e);
        },
    };
    match effective_text(c, i, data_base, cache_base) {
        Some(v) => Ok(v),
        None => Err(ConfigError::UnsetKey(key.to_owned())),
    }
}

/// A value that `config set` writes: a boolean or integer where the key
/// holds one, text otherwise.
#[derive(Debug, PartialEq, Eq)]
pub enum EditValue {
    Boolean(bool),
    Integer(i64),
    Text(String),
}

/// Whether key `i` holds a boolean.
pub open spec fn boolean_key(i: int) -> bool {
    key_kind(i) == FieldKind::Bool
}

/// Whether key `i` holds an integer.
pub open spec fn integer_key(i: int) -> bool {
    key_kind(i) == FieldKind::U32 || key_kind(i) == FieldKind::U64 || key_kind(i) == FieldKind::Usize
}

/// Whether `e` is the error `config set` gives when `value` does not fit
/// key `i`: neither `true` nor `false` for a boolean key, no decimal
/// integer for an integer key.
pub open spec fn value_error(i: int, value: Seq<char>, e: ConfigError) -> bool {
    e matches ConfigError::InvalidValue { key, value: v, expected } && key@ == config_keys()[i] && v@
        == value && (if boolean_key(i) {
        value != "true"@ && value != "false"@ && expected@ == "true or false"@
    } else {
        integer_key(i) && i64_value(value) is None && expected@ == "a decimal integer"@
    })
}

/// Reads the text `value` for key `i` as `config set` does: `true` or
/// `false` for a boolean key, a decimal integer for an integer key, and
/// the text itself for the rest.
pub fn parse_value(i: usize, value: &str) -> (r: Result<EditValue, ConfigError>)
    requires
        i < CONFIG_KEY_COUNT,
    ensures
        match r {
            Ok(EditValue::Boolean(b)) => boolean_key(i as int) && ((value@ == "true"@ && b) || (
            value@ == "false"@ && !b)),
            Ok(EditValue::Integer(n)) => integer_key(i as int) && i64_value(value@) == Some(n),
            Ok(EditValue::Text(t)) => !boolean_key(i as int) && !integer_key(i as int) && t@
                == value@,
            Err(e) => value_error(i as int, value@, e),
        },
{
    let kind = key_kind_of(i);
    match kind {
        FieldKind::Bool => {
            if str_equal(value, "true") {
                Ok(EditValue::Boolean(true))
            } else if str_equal(value, "false") {
                Ok(EditValue::Boolean(false))
            } else {
                Err(
                    ConfigError::InvalidValue {
                        key: key_entry(i).0.to_owned(),
                        value: value.to_owned(),
                        expected: "true or false".to_owned(),
                    },
                )
            }
        },
        FieldKind::U32 | FieldKind::U64 | FieldKind::Usize => match parse_i64(value) {
            Some(n) => Ok(EditValue::Integer(n)),
            None => Err(
                ConfigError::InvalidValue {
                    key: key_entry(i).0.to_owned(),
                    value: value.to_owned(),
                    expected: "a decimal integer".to_owned(),
                },
            ),
        },
        _ => Ok(EditValue::Text(value.to_owned())),
    }
}

} // verus!
