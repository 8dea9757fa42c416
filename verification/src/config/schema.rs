//! The configuration file's structure: seven sections of typed fields,
//! each with a default, read from a TOML document the way serde reads it
//! (unknown fields refused, missing ones defaulted).
use vstd::prelude::*;
use crate::config::toml_doc::{
    TomlDocument, TomlItem, TomlValue, entries_view, fields_view, invalid_type, invalid_type_message,
    push_signed, signed_decimal,
};
use crate::renderer::{RendererMode, renderer_name};
use crate::text::{joined, push_joined, push_str, str_chars, str_equal, string_from_chars};

verus! {

/// The type a field reads.
#[derive(Clone, Copy, Debug, PartialEq, Eq, Structural)]
pub enum FieldKind {
    Str,
    OptStr,
    Bool,
    U32,
    U64,
    Usize,
    Renderer,
}

/// The `[input]` section.
#[derive(Debug)]
pub struct InputConfig {
    pub up: String,
    pub down: String,
    pub left: String,
    pub right: String,
    pub a: String,
    pub b: String,
    pub x: String,
    pub y: String,
    pub start: String,
    pub select: String,
    pub l: Option<String>,
    pub r: Option<String>,
    pub l2: Option<String>,
    pub r2: Option<String>,
    pub l3: Option<String>,
    pub r3: Option<String>,
    pub quit: String,
    pub rewind: String,
    pub save_state: String,
    pub load_state: String,
}

/// The `[display]` section.
#[derive(Debug)]
pub struct DisplayConfig {
    pub renderer: RendererMode,
    pub fps: u32,
    pub primary_screen: bool,
}

/// The `[audio]` section.
#[derive(Debug)]
pub struct AudioConfig {
    pub muted: bool,
}

/// The `[rewind]` section.
#[derive(Debug)]
pub struct RewindConfig {
    pub enabled: bool,
    pub granularity: u64,
    pub buffer_size_mb: usize,
}

/// The `[state]` section.
#[derive(Debug)]
pub struct StateConfig {
    pub save_on_exit: bool,
    pub resume: bool,
}

/// The `[status]` section.
#[derive(Debug)]
pub struct StatusConfig {
    pub enabled: bool,
    pub gamepad: bool,
    pub controls: bool,
}

/// The `[paths]` section.
#[derive(Debug)]
pub struct PathsConfig {
    pub data_dir: Option<String>,
    pub cache_dir: Option<String>,
}

/// The whole configuration.
#[derive(Debug)]
pub struct Config {
    pub input: InputConfig,
    pub display: DisplayConfig,
    pub audio: AudioConfig,
    pub rewind: RewindConfig,
    pub state: StateConfig,
    pub status: StatusConfig,
    pub paths: PathsConfig,
}

/// The sections, in declaration order.
pub open spec fn section_names() -> Seq<Seq<char>> {
    seq!["input"@, "display"@, "audio"@, "rewind"@, "state"@, "status"@, "paths"@]
}

/// The struct name serde reports for a section.
pub open spec fn section_struct(i: int) -> Seq<char> {
    if i == 0 {
        "struct InputConfig"@
    } else if i == 1 {
        "struct DisplayConfig"@
    } else if i == 2 {
        "struct AudioConfig"@
    } else if i == 3 {
        "struct RewindConfig"@
    } else if i == 4 {
        "struct StateConfig"@
    } else if i == 5 {
        "struct StatusConfig"@
    } else {
        "struct PathsConfig"@
    }
}

/// The fields of a section, in declaration order.
pub open spec fn section_schema(i: int) -> Seq<(Seq<char>, FieldKind)> {
    if i == 0 {
        seq![("up"@, FieldKind::Str), ("down"@, FieldKind::Str), ("left"@, FieldKind::Str), ("right"@, FieldKind::Str), ("a"@, FieldKind::Str), ("b"@, FieldKind::Str), ("x"@, FieldKind::Str), ("y"@, FieldKind::Str), ("start"@, FieldKind::Str), ("select"@, FieldKind::Str), ("l"@, FieldKind::OptStr), ("r"@, FieldKind::OptStr), ("l2"@, FieldKind::OptStr), ("r2"@, FieldKind::OptStr), ("l3"@, FieldKind::OptStr), ("r3"@, FieldKind::OptStr), ("quit"@, FieldKind::Str), ("rewind"@, FieldKind::Str), ("save_state"@, FieldKind::Str), ("load_state"@, FieldKind::Str)]
    } else if i == 1 {
        seq![("renderer"@, FieldKind::Renderer), ("fps"@, FieldKind::U32), ("primary_screen"@, FieldKind::Bool)]
    } else if i == 2 {
        seq![("muted"@, FieldKind::Bool)]
    } else if i == 3 {
        seq![("enabled"@, FieldKind::Bool), ("granularity"@, FieldKind::U64), ("buffer_size_mb"@, FieldKind::Usize)]
    } else if i == 4 {
        seq![("save_on_exit"@, FieldKind::Bool), ("resume"@, FieldKind::Bool)]
    } else if i == 5 {
        seq![("enabled"@, FieldKind::Bool), ("gamepad"@, FieldKind::Bool), ("controls"@, FieldKind::Bool)]
    } else {
        seq![("data_dir"@, FieldKind::OptStr), ("cache_dir"@, FieldKind::OptStr)]
    }
}

/// The section names, as `section_names` lists them.
fn section_name_list() -> (r: Vec<&'static str>)
    ensures
        r@.map_values(|s: &str| s@) == section_names(),
{
    let mut r: Vec<&'static str> = Vec::new();
    r.push("input");
    r.push("display");
    r.push("audio");
    r.push("rewind");
    r.push("state");
    r.push("status");
    r.push("paths");
    assert(r@.map_values(|s: &str| s@) =~= section_names());
    r
}

/// The struct name of section `i`.
fn section_struct_name(i: usize) -> (r: &'static str)
    requires
        i < 7,
    ensures
        r@ == section_struct(i as int),
{
    if i == 0 {
        "struct InputConfig"
    } else if i == 1 {
        "struct DisplayConfig"
    } else if i == 2 {
        "struct AudioConfig"
    } else if i == 3 {
        "struct RewindConfig"
    } else if i == 4 {
        "struct StateConfig"
    } else if i == 5 {
        "struct StatusConfig"
    } else {
        "struct PathsConfig"
    }
}

/// The fields of section `i`, as `section_schema` lists them.
fn section_schema_list(i: usize) -> (r: Vec<(&'static str, FieldKind)>)
    requires
        i < 7,
    ensures
        r@.map_values(|p: (&str, FieldKind)| (p.0@, p.1)) == section_schema(i as int),
{
    let mut r: Vec<(&'static str, FieldKind)> = Vec::new();
    if i == 0 {
        r.push(("up", FieldKind::Str));
        r.push(("down", FieldKind::Str));
        r.push(("left", FieldKind::Str));
        r.push(("right", FieldKind::Str));
        r.push(("a", FieldKind::Str));
        r.push(("b", FieldKind::Str));
        r.push(("x", FieldKind::Str));
        r.push(("y", FieldKind::Str));
        r.push(("start", FieldKind::Str));
        r.push(("select", FieldKind::Str));
        r.push(("l", FieldKind::OptStr));
        r.push(("r", FieldKind::OptStr));
        r.push(("l2", FieldKind::OptStr));
        r.push(("r2", FieldKind::OptStr));
        r.push(("l3", FieldKind::OptStr));
        r.push(("r3", FieldKind::OptStr));
        r.push(("quit", FieldKind::Str));
        r.push(("rewind", FieldKind::Str));
        r.push(("save_state", FieldKind::Str));
        r.push(("load_state", FieldKind::Str));
    } else if i == 1 {
        r.push(("renderer", FieldKind::Renderer));
        r.push(("fps", FieldKind::U32));
        r.push(("primary_screen", FieldKind::Bool));
    } else if i == 2 {
        r.push(("muted", FieldKind::Bool));
    } else if i == 3 {
        r.push(("enabled", FieldKind::Bool));
        r.push(("granularity", FieldKind::U64));
        r.push(("buffer_size_mb", FieldKind::Usize));
    } else if i == 4 {
        r.push(("save_on_exit", FieldKind::Bool));
        r.push(("resume", FieldKind::Bool));
    } else if i == 5 {
        r.push(("enabled", FieldKind::Bool));
        r.push(("gamepad", FieldKind::Bool));
        r.push(("controls", FieldKind::Bool));
    } else {
        r.push(("data_dir", FieldKind::OptStr));
        r.push(("cache_dir", FieldKind::OptStr));
    }
    assert(r@.map_values(|p: (&str, FieldKind)| (p.0@, p.1)) =~= section_schema(i as int));
    r
}

/// The kind of field `name` in `schema`.
pub open spec fn kind_of(schema: Seq<(Seq<char>, FieldKind)>, name: Seq<char>) -> Option<FieldKind>
    decreases schema.len(),
{
    if schema.len() == 0 {
        None
    } else if schema.last().0 == name {
        Some(schema.last().1)
    } else {
        kind_of(schema.drop_last(), name)
    }
}

/// The position of `name` in `names`.
pub open spec fn index_in(names: Seq<Seq<char>>, name: Seq<char>) -> Option<int>
    decreases names.len(),
{
    if names.len() == 0 {
        None
    } else if names.last() == name {
        Some(names.len() - 1)
    } else {
        index_in(names.drop_last(), name)
    }
}

/// `name` in backticks.
pub open spec fn backticked(name: Seq<char>) -> Seq<char> {
    "`"@ + name + "`"@
}

/// serde's list of the names it expected: `a`; `a` or `b`; one of `a`, `b`, ….
pub open spec fn one_of(names: Seq<Seq<char>>) -> Seq<char> {
    if names.len() == 1 {
        backticked(names[0])
    } else if names.len() == 2 {
        backticked(names[0]) + " or "@ + backticked(names[1])
    } else {
        "one of "@ + joined(names.map_values(|n: Seq<char>| backticked(n)), ", "@)
    }
}

/// serde's message for a field the struct does not have.
pub open spec fn unknown_field(name: Seq<char>, names: Seq<Seq<char>>) -> Seq<char> {
    "unknown field `"@ + name + "`, expected "@ + one_of(names)
}

/// The renderer mode a configuration name stands for.
pub open spec fn renderer_named(s: Seq<char>) -> Option<RendererMode> {
    if s == "auto"@ {
        Some(RendererMode::Auto)
    } else if s == "graphic"@ {
        Some(RendererMode::Graphic)
    } else if s == "block"@ {
        Some(RendererMode::Block)
    } else if s == "ascii"@ {
        Some(RendererMode::Ascii)
    } else {
        None
    }
}

/// A renderer mode is read back from its own configuration name, and a
/// name is read as a mode only when it is that mode's name: reading is
/// the inverse of naming, so no two names give one mode.
pub proof fn lemma_renderer_names(m: RendererMode, s: Seq<char>)
    ensures
        renderer_named(renderer_name(m)) == Some(m),
        renderer_named(s) matches Some(k) ==> s == renderer_name(k),
{
    reveal_strlit("auto");
    reveal_strlit("graphic");
    reveal_strlit("block");
    reveal_strlit("ascii");
    assert("auto"@ != "graphic"@ && "auto"@ != "block"@ && "auto"@ != "ascii"@) by {
        assert("auto"@[0] != "graphic"@[0] && "auto"@[0] != "block"@[0]);
        assert("auto"@[1] != "ascii"@[1]);
    }
    assert("graphic"@ != "block"@ && "graphic"@ != "ascii"@ && "block"@ != "ascii"@) by {
        assert("graphic"@[0] != "block"@[0] && "graphic"@[0] != "ascii"@[0] && "block"@[0] != "ascii"@[0]);
    }
}

/// serde's message for a renderer name that is none of the modes.
pub open spec fn unknown_variant(s: Seq<char>) -> Seq<char> {
    "unknown variant `"@ + s + "`, expected one of `auto`, `graphic`, `block`, `ascii`"@
}

/// serde's message for an integer out of the field's range.
pub open spec fn invalid_value(i: int, expected: Seq<char>) -> Seq<char> {
    "invalid value: integer `"@ + signed_decimal(i) + "`, expected "@ + expected
}

/// Why `v` does not fit a field of kind `kind`, if it does not.
pub open spec fn field_check(kind: FieldKind, v: TomlValue) -> Option<Seq<char>> {
    match kind {
        FieldKind::Str | FieldKind::OptStr => match v {
            TomlValue::String(_) => None,
            _ => Some(invalid_type(v, "a string"@)),
        },
        FieldKind::Bool => match v {
            TomlValue::Boolean(_) => None,
            _ => Some(invalid_type(v, "a boolean"@)),
        },
        FieldKind::U32 => match v {
            TomlValue::Integer(i) => if 0 <= i <= u32::MAX {
                None
            } else {
                Some(invalid_value(i as int, "u32"@))
            },
            _ => Some(invalid_type(v, "u32"@)),
        },
        FieldKind::U64 => match v {
            TomlValue::Integer(i) => if 0 <= i {
                None
            } else {
                Some(invalid_value(i as int, "u64"@))
            },
            _ => Some(invalid_type(v, "u64"@)),
        },
        FieldKind::Usize => match v {
            TomlValue::Integer(i) => if 0 <= i <= usize::MAX {
                None
            } else {
                Some(invalid_value(i as int, "usize"@))
            },
            _ => Some(invalid_type(v, "usize"@)),
        },
        FieldKind::Renderer => match v {
            TomlValue::String(s) => if renderer_named(s@) is Some {
                None
            } else {
                Some(unknown_variant(s@))
            },
            _ => Some(invalid_type(v, "enum RendererMode"@)),
        },
    }
}

/// The names of a schema's fields.
pub open spec fn schema_names(schema: Seq<(Seq<char>, FieldKind)>) -> Seq<Seq<char>> {
    schema.map_values(|p: (Seq<char>, FieldKind)| p.0)
}

/// Why the entry `name = v` does not fit `schema`, if it does not.
pub open spec fn entry_error(name: Seq<char>, v: TomlValue, schema: Seq<(Seq<char>, FieldKind)>) -> Option<
    Seq<char>,
> {
    match kind_of(schema, name) {
        None => Some(unknown_field(name, schema_names(schema))),
        Some(k) => field_check(k, v),
    }
}

/// The first reason, in key order, why a table does not fit `schema`.
pub open spec fn section_error(
    fields: Seq<(Seq<char>, TomlValue)>,
    schema: Seq<(Seq<char>, FieldKind)>,
) -> Option<Seq<char>>
    decreases fields.len(),
{
    if fields.len() == 0 {
        None
    } else {
        match section_error(fields.drop_last(), schema) {
            Some(e) => Some(e),
            None => entry_error(fields.last().0, fields.last().1, schema),
        }
    }
}

/// Why the top-level entry `name` does not fit the configuration.
pub open spec fn top_error(name: Seq<char>, item: TomlItem) -> Option<Seq<char>> {
    match index_in(section_names(), name) {
        None => Some(unknown_field(name, section_names())),
        Some(i) => match item {
            TomlItem::Value(v) => Some(invalid_type(v, section_struct(i))),
            TomlItem::Table(fields) => section_error(fields_view(fields@), section_schema(i)),
        },
    }
}

/// The first reason, in key order, why a document is not a configuration.
pub open spec fn document_error(doc: Seq<(Seq<char>, TomlItem)>) -> Option<Seq<char>>
    decreases doc.len(),
{
    if doc.len() == 0 {
        None
    } else {
        match document_error(doc.drop_last()) {
            Some(e) => Some(e),
            None => top_error(doc.last().0, doc.last().1),
        }
    }
}

/// The value of field `name` in a table.
pub open spec fn lookup(fields: Seq<(Seq<char>, TomlValue)>, name: Seq<char>) -> Option<TomlValue>
    decreases fields.len(),
{
    if fields.len() == 0 {
        None
    } else if fields.last().0 == name {
        Some(fields.last().1)
    } else {
        lookup(fields.drop_last(), name)
    }
}

/// The top-level entry `name`.
pub open spec fn item_of(doc: Seq<(Seq<char>, TomlItem)>, name: Seq<char>) -> Option<TomlItem>
    decreases doc.len(),
{
    if doc.len() == 0 {
        None
    } else if doc.last().0 == name {
        Some(doc.last().1)
    } else {
        item_of(doc.drop_last(), name)
    }
}

/// The fields of section `name`; none when it is missing.
pub open spec fn section_fields(doc: Seq<(Seq<char>, TomlItem)>, name: Seq<char>) -> Seq<
    (Seq<char>, TomlValue),
> {
    match item_of(doc, name) {
        Some(TomlItem::Table(f)) => fields_view(f@),
        _ => Seq::empty(),
    }
}

pub open spec fn opt_view(o: Option<String>) -> Option<Seq<char>> {
    match o {
        Some(s) => Some(s@),
        None => None,
    }
}

pub open spec fn str_or(f: Seq<(Seq<char>, TomlValue)>, name: Seq<char>, d: Seq<char>) -> Seq<char> {
    match lookup(f, name) {
        Some(TomlValue::String(s)) => s@,
        _ => d,
    }
}

pub open spec fn opt_str_or(f: Seq<(Seq<char>, TomlValue)>, name: Seq<char>, d: Option<Seq<char>>) -> Option<
    Seq<char>,
> {
    match lookup(f, name) {
        Some(TomlValue::String(s)) => Some(s@),
        _ => d,
    }
}

pub open spec fn bool_or(f: Seq<(Seq<char>, TomlValue)>, name: Seq<char>, d: bool) -> bool {
    match lookup(f, name) {
        Some(TomlValue::Boolean(b)) => b,
        _ => d,
    }
}

pub open spec fn u32_or(f: Seq<(Seq<char>, TomlValue)>, name: Seq<char>, d: u32) -> u32 {
    match lookup(f, name) {
        Some(TomlValue::Integer(i)) => if 0 <= i <= u32::MAX {
            i as u32
        } else {
            d
        },
        _ => d,
    }
}

pub open spec fn u64_or(f: Seq<(Seq<char>, TomlValue)>, name: Seq<char>, d: u64) -> u64 {
    match lookup(f, name) {
        Some(TomlValue::Integer(i)) => if 0 <= i {
            i as u64
        } else {
            d
        },
        _ => d,
    }
}

pub open spec fn usize_or(f: Seq<(Seq<char>, TomlValue)>, name: Seq<char>, d: usize) -> usize {
    match lookup(f, name) {
        Some(TomlValue::Integer(i)) => if 0 <= i <= usize::MAX {
            i as usize
        } else {
            d
        },
        _ => d,
    }
}

pub open spec fn renderer_or(f: Seq<(Seq<char>, TomlValue)>, name: Seq<char>, d: RendererMode) -> RendererMode {
    match lookup(f, name) {
        Some(TomlValue::String(s)) => match renderer_named(s@) {
            Some(m) => m,
            None => d,
        },
        _ => d,
    }
}

/// The fields of an optional table.
pub open spec fn opt_fields(f: Option<&Vec<(String, TomlValue)>>) -> Seq<(Seq<char>, TomlValue)> {
    match f {
        Some(v) => fields_view(v@),
        None => Seq::empty(),
    }
}

fn find_field(fields: &Vec<(String, TomlValue)>, name: &str) -> (r: Option<usize>)
    ensures
        match r {
            Some(j) => j < fields@.len() && lookup(fields_view(fields@), name@) == Some(fields@[j as int].1),
            None => lookup(fields_view(fields@), name@) is None,
        },
{
    let ghost f = fields_view(fields@);
    let mut i: usize = fields.len();
    assert(f.take(i as int) =~= f);
    while i > 0
        invariant
            i <= fields@.len(),
            f == fields_view(fields@),
            lookup(f, name@) == lookup(f.take(i as int), name@),
        decreases i,
    {
        assert(f.take(i as int).last() == (fields@[i - 1].0@, fields@[i - 1].1));
        if str_equal(fields[i - 1].0.as_str(), name) {
            return Some(i - 1);
        }
        assert(f.take(i as int).drop_last() =~= f.take(i - 1));
        i -= 1;
    }
    None
}

/// The fields of section `name` of `doc`, when it is a table.
fn section_of<'a>(doc: &'a TomlDocument, name: &str) -> (r: Option<&'a Vec<(String, TomlValue)>>)
    ensures
        opt_fields(r) == section_fields(entries_view(doc.entries@), name@),
{
    let ghost d = entries_view(doc.entries@);
    let mut i: usize = doc.entries.len();
    assert(d.take(i as int) =~= d);
    while i > 0
        invariant
            i <= doc.entries@.len(),
            d == entries_view(doc.entries@),
            item_of(d, name@) == item_of(d.take(i as int), name@),
        decreases i,
    {
        assert(d.take(i as int).last() == (doc.entries@[i - 1].0@, doc.entries@[i - 1].1));
        if str_equal(doc.entries[i - 1].0.as_str(), name) {
            return match &doc.entries[i - 1].1 {
                TomlItem::Table(f) => Some(f),
                TomlItem::Value(_) => None,
            };
        }
        assert(d.take(i as int).drop_last() =~= d.take(i - 1));
        i -= 1;
    }
    None
}

fn read_str(f: Option<&Vec<(String, TomlValue)>>, name: &str, d: &str) -> (r: String)
    ensures
        r@ == str_or(opt_fields(f), name@, d@),
{
    if let Some(fields) = f {
        if let Some(j) = find_field(fields, name) {
            if let TomlValue::String(s) = &fields[j].1 {
                return s.clone();
            }
        }
    }
    d.to_owned()
}

fn read_opt_str(f: Option<&Vec<(String, TomlValue)>>, name: &str, d: Option<&str>) -> (r: Option<String>)
    ensures
        opt_view(r) == opt_str_or(
            opt_fields(f),
            name@,
            match d {
                Some(s) => Some(s@),
                None => None,
            },
        ),
{
    if let Some(fields) = f {
        if let Some(j) = find_field(fields, name) {
            if let TomlValue::String(s) = &fields[j].1 {
                return Some(s.clone());
            }
        }
    }
    match d {
        Some(s) => Some(s.to_owned()),
        None => None,
    }
}

fn read_bool(f: Option<&Vec<(String, TomlValue)>>, name: &str, d: bool) -> (r: bool)
    ensures
        r == bool_or(opt_fields(f), name@, d),
{
    if let Some(fields) = f {
        if let Some(j) = find_field(fields, name) {
            if let TomlValue::Boolean(b) = &fields[j].1 {
                return *b;
            }
        }
    }
    d
}

fn read_u32(f: Option<&Vec<(String, TomlValue)>>, name: &str, d: u32) -> (r: u32)
    ensures
        r == u32_or(opt_fields(f), name@, d),
{
    if let Some(fields) = f {
        if let Some(j) = find_field(fields, name) {
            if let TomlValue::Integer(i) = &fields[j].1 {
                if 0 <= *i && *i <= 0xffff_ffff {
                    return *i as u32;
                }
            }
        }
    }
    d
}

fn read_u64(f: Option<&Vec<(String, TomlValue)>>, name: &str, d: u64) -> (r: u64)
    ensures
        r == u64_or(opt_fields(f), name@, d),
{
    if let Some(fields) = f {
        if let Some(j) = find_field(fields, name) {
            if let TomlValue::Integer(i) = &fields[j].1 {
                if 0 <= *i {
                    return *i as u64;
                }
            }
        }
    }
    d
}

fn read_usize(f: Option<&Vec<(String, TomlValue)>>, name: &str, d: usize) -> (r: usize)
    ensures
        r == usize_or(opt_fields(f), name@, d),
{
    if let Some(fields) = f {
        if let Some(j) = find_field(fields, name) {
            if let TomlValue::Integer(i) = &fields[j].1 {
                if 0 <= *i && (*i as u64) <= (usize::MAX as u64) {
                    return *i as usize;
                }
            }
        }
    }
    d
}

fn renderer_by_name(s: &str) -> (r: Option<RendererMode>)
    ensures
        r == renderer_named(s@),
{
    if str_equal(s, "auto") {
        Some(RendererMode::Auto)
    } else if str_equal(s, "graphic") {
        Some(RendererMode::Graphic)
    } else if str_equal(s, "block") {
        Some(RendererMode::Block)
    } else if str_equal(s, "ascii") {
        Some(RendererMode::Ascii)
    } else {
        None
    }
}

fn read_renderer(f: Option<&Vec<(String, TomlValue)>>, name: &str, d: RendererMode) -> (r: RendererMode)
    ensures
        r == renderer_or(opt_fields(f), name@, d),
{
    if let Some(fields) = f {
        if let Some(j) = find_field(fields, name) {
            if let TomlValue::String(s) = &fields[j].1 {
                if let Some(m) = renderer_by_name(s.as_str()) {
                    return m;
                }
            }
        }
    }
    d
}


/// Whether `c` holds the values that `doc` gives each field, defaults
/// standing in for missing ones.
pub open spec fn config_of(c: Config, doc: Seq<(Seq<char>, TomlItem)>) -> bool {
    let input_f = section_fields(doc, "input"@);
    let display_f = section_fields(doc, "display"@);
    let audio_f = section_fields(doc, "audio"@);
    let rewind_f = section_fields(doc, "rewind"@);
    let state_f = section_fields(doc, "state"@);
    let status_f = section_fields(doc, "status"@);
    let paths_f = section_fields(doc, "paths"@);
    &&& c.input.up@ == str_or(input_f, "up"@, "up"@)
    &&& c.input.down@ == str_or(input_f, "down"@, "down"@)
    &&& c.input.left@ == str_or(input_f, "left"@, "left"@)
    &&& c.input.right@ == str_or(input_f, "right"@, "right"@)
    &&& c.input.a@ == str_or(input_f, "a"@, "x"@)
    &&& c.input.b@ == str_or(input_f, "b"@, "z"@)
    &&& c.input.x@ == str_or(input_f, "x"@, "s"@)
    &&& c.input.y@ == str_or(input_f, "y"@, "a"@)
    &&& c.input.start@ == str_or(input_f, "start"@, "enter"@)
    &&& c.input.select@ == str_or(input_f, "select"@, "rshift"@)
    &&& opt_view(c.input.l) == opt_str_or(input_f, "l"@, None::<Seq<char>>)
    &&& opt_view(c.input.r) == opt_str_or(input_f, "r"@, None::<Seq<char>>)
    &&& opt_view(c.input.l2) == opt_str_or(input_f, "l2"@, None::<Seq<char>>)
    &&& opt_view(c.input.r2) == opt_str_or(input_f, "r2"@, None::<Seq<char>>)
    &&& opt_view(c.input.l3) == opt_str_or(input_f, "l3"@, None::<Seq<char>>)
    &&& opt_view(c.input.r3) == opt_str_or(input_f, "r3"@, None::<Seq<char>>)
    &&& c.input.quit@ == str_or(input_f, "quit"@, "escape"@)
    &&& c.input.rewind@ == str_or(input_f, "rewind"@, "r"@)
    &&& c.input.save_state@ == str_or(input_f, "save_state"@, "f2"@)
    &&& c.input.load_state@ == str_or(input_f, "load_state"@, "f4"@)
    &&& c.display.renderer == renderer_or(display_f, "renderer"@, RendererMode::Auto)
    &&& c.display.fps == u32_or(display_f, "fps"@, 60)
    &&& c.display.primary_screen == bool_or(display_f, "primary_screen"@, false)
    &&& c.audio.muted == bool_or(audio_f, "muted"@, false)
    &&& c.rewind.enabled == bool_or(rewind_f, "enabled"@, true)
    &&& c.rewind.granularity == u64_or(rewind_f, "granularity"@, 2)
    &&& c.rewind.buffer_size_mb == usize_or(rewind_f, "buffer_size_mb"@, 20)
    &&& c.state.save_on_exit == bool_or(state_f, "save_on_exit"@, false)
    &&& c.state.resume == bool_or(state_f, "resume"@, false)
    &&& c.status.enabled == bool_or(status_f, "enabled"@, true)
    &&& c.status.gamepad == bool_or(status_f, "gamepad"@, true)
    &&& c.status.controls == bool_or(status_f, "controls"@, true)
    &&& opt_view(c.paths.data_dir) == opt_str_or(paths_f, "data_dir"@, None::<Seq<char>>)
    &&& opt_view(c.paths.cache_dir) == opt_str_or(paths_f, "cache_dir"@, None::<Seq<char>>)
}

/// The configuration that `doc` describes, which must be valid.
fn build_config(doc: &TomlDocument) -> (c: Config)
    ensures
        config_of(c, entries_view(doc.entries@)),
{
    let input_f = section_of(doc, "input");
    let display_f = section_of(doc, "display");
    let audio_f = section_of(doc, "audio");
    let rewind_f = section_of(doc, "rewind");
    let state_f = section_of(doc, "state");
    let status_f = section_of(doc, "status");
    let paths_f = section_of(doc, "paths");
    Config {
        input: InputConfig {
            up: read_str(input_f, "up", "up"),
            down: read_str(input_f, "down", "down"),
            left: read_str(input_f, "left", "left"),
            right: read_str(input_f, "right", "right"),
            a: read_str(input_f, "a", "x"),
            b: read_str(input_f, "b", "z"),
            x: read_str(input_f, "x", "s"),
            y: read_str(input_f, "y", "a"),
            start: read_str(input_f, "start", "enter"),
            select: read_str(input_f, "select", "rshift"),
            l: read_opt_str(input_f, "l", None),
            r: read_opt_str(input_f, "r", None),
            l2: read_opt_str(input_f, "l2", None),
            r2: read_opt_str(input_f, "r2", None),
            l3: read_opt_str(input_f, "l3", None),
            r3: read_opt_str(input_f, "r3", None),
            quit: read_str(input_f, "quit", "escape"),
            rewind: read_str(input_f, "rewind", "r"),
            save_state: read_str(input_f, "save_state", "f2"),
            load_state: read_str(input_f, "load_state", "f4"),
        },
        display: DisplayConfig {
            renderer: read_renderer(display_f, "renderer", RendererMode::Auto),
            fps: read_u32(display_f, "fps", 60),
            primary_screen: read_bool(display_f, "primary_screen", false),
        },
        audio: AudioConfig {
            muted: read_bool(audio_f, "muted", false),
        },
        rewind: RewindConfig {
            enabled: read_bool(rewind_f, "enabled", true),
            granularity: read_u64(rewind_f, "granularity", 2),
            buffer_size_mb: read_usize(rewind_f, "buffer_size_mb", 20),
        },
        state: StateConfig {
            save_on_exit: read_bool(state_f, "save_on_exit", false),
            resume: read_bool(state_f, "resume", false),
        },
        status: StatusConfig {
            enabled: read_bool(status_f, "enabled", true),
            gamepad: read_bool(status_f, "gamepad", true),
            controls: read_bool(status_f, "controls", true),
        },
        paths: PathsConfig {
            data_dir: read_opt_str(paths_f, "data_dir", None),
            cache_dir: read_opt_str(paths_f, "cache_dir", None),
        },
    }
}

impl Default for Config {
    /// The defaults of every field.
    fn default() -> (c: Self)
        ensures
            config_of(c, Seq::empty()),
    {
        Config {
            input: InputConfig {
                up: "up".to_owned(),
                down: "down".to_owned(),
                left: "left".to_owned(),
                right: "right".to_owned(),
                a: "x".to_owned(),
                b: "z".to_owned(),
                x: "s".to_owned(),
                y: "a".to_owned(),
                start: "enter".to_owned(),
                select: "rshift".to_owned(),
                l: None,
                r: None,
                l2: None,
                r2: None,
                l3: None,
                r3: None,
                quit: "escape".to_owned(),
                rewind: "r".to_owned(),
                save_state: "f2".to_owned(),
                load_state: "f4".to_owned(),
            },
            display: DisplayConfig {
                renderer: RendererMode::Auto,
                fps: 60,
                primary_screen: false,
            },
            audio: AudioConfig {
                muted: false,
            },
            rewind: RewindConfig {
                enabled: true,
                granularity: 2,
                buffer_size_mb: 20,
            },
            state: StateConfig {
                save_on_exit: false,
                resume: false,
            },
            status: StatusConfig {
                enabled: true,
                gamepad: true,
                controls: true,
            },
            paths: PathsConfig {
                data_dir: None,
                cache_dir: None,
            },
        }
    }
}


/// The message naming the expected fields, as `one_of` builds it.
fn one_of_text(names: &Vec<&'static str>) -> (r: Vec<char>)
    requires
        names@.len() >= 1,
    ensures
        r@ == one_of(names@.map_values(|s: &str| s@)),
{
    let ghost v = names@.map_values(|s: &str| s@);
    if names.len() == 1 {
        let mut out = str_chars("`");
        push_str(&mut out, names[0]);
        push_str(&mut out, "`");
        return out;
    }
    if names.len() == 2 {
        let mut out = str_chars("`");
        push_str(&mut out, names[0]);
        push_str(&mut out, "`");
        push_str(&mut out, " or ");
        push_str(&mut out, "`");
        push_str(&mut out, names[1]);
        push_str(&mut out, "`");
        return out;
    }
    let ghost bt = v.map_values(|n: Seq<char>| backticked(n));
    let mut list: Vec<char> = Vec::new();
    let mut i: usize = 0;
    while i < names.len()
        invariant
            i <= names@.len(),
            v == names@.map_values(|s: &str| s@),
            bt == v.map_values(|n: Seq<char>| backticked(n)),
            list@ == joined(bt.take(i as int), ", "@),
        decreases names@.len() - i,
    {
        let mut item = str_chars("`");
        push_str(&mut item, names[i]);
        push_str(&mut item, "`");
        assert(bt.take(i + 1) =~= bt.take(i as int).push(item@));
        push_joined(&mut list, i, ", ", &item, Ghost(bt.take(i as int)));
        i += 1;
    }
    assert(bt.take(i as int) =~= bt);
    let mut out = str_chars("one of ");
    crate::text::push_chars(&mut out, &list);
    out
}

/// The message for a field `name` that none of `names` is.
fn unknown_field_message(name: &str, names: &Vec<&'static str>) -> (r: String)
    requires
        names@.len() >= 1,
    ensures
        r@ == unknown_field(name@, names@.map_values(|s: &str| s@)),
{
    let mut out = str_chars("unknown field `");
    push_str(&mut out, name);
    push_str(&mut out, "`, expected ");
    let list = one_of_text(names);
    crate::text::push_chars(&mut out, &list);
    string_from_chars(&out)
}

/// Why `v` does not fit a field of kind `kind`.
fn check_field(kind: FieldKind, v: &TomlValue) -> (r: Option<String>)
    ensures
        opt_view(r) == field_check(kind, *v),
{
    match kind {
        FieldKind::Str | FieldKind::OptStr => match v {
            TomlValue::String(_) => None,
            _ => Some(invalid_type_message(v, "a string")),
        },
        FieldKind::Bool => match v {
            TomlValue::Boolean(_) => None,
            _ => Some(invalid_type_message(v, "a boolean")),
        },
        FieldKind::U32 => match v {
            TomlValue::Integer(i) => if 0 <= *i && *i <= 0xffff_ffff {
                None
            } else {
                Some(invalid_value_message(*i, "u32"))
            },
            _ => Some(invalid_type_message(v, "u32")),
        },
        FieldKind::U64 => match v {
            TomlValue::Integer(i) => if 0 <= *i {
                None
            } else {
                Some(invalid_value_message(*i, "u64"))
            },
            _ => Some(invalid_type_message(v, "u64")),
        },
        FieldKind::Usize => match v {
            TomlValue::Integer(i) => if 0 <= *i && (*i as u64) <= (usize::MAX as u64) {
                None
            } else {
                Some(invalid_value_message(*i, "usize"))
            },
            _ => Some(invalid_type_message(v, "usize")),
        },
        FieldKind::Renderer => match v {
            TomlValue::String(s) => if renderer_by_name(s.as_str()).is_some() {
                None
            } else {
                let mut out = str_chars("unknown variant `");
                push_str(&mut out, s.as_str());
                push_str(&mut out, "`, expected one of `auto`, `graphic`, `block`, `ascii`");
                Some(string_from_chars(&out))
            },
            _ => Some(invalid_type_message(v, "enum RendererMode")),
        },
    }
}

fn invalid_value_message(i: i64, expected: &str) -> (r: String)
    ensures
        r@ == invalid_value(i as int, expected@),
{
    let mut out = str_chars("invalid value: integer `");
    push_signed(&mut out, i);
    push_str(&mut out, "`, expected ");
    push_str(&mut out, expected);
    string_from_chars(&out)
}

/// The kind of field `name` in `schema`.
fn schema_kind(schema: &Vec<(&'static str, FieldKind)>, name: &str) -> (r: Option<FieldKind>)
    ensures
        r == kind_of(schema@.map_values(|p: (&str, FieldKind)| (p.0@, p.1)), name@),
{
    let ghost sv = schema@.map_values(|p: (&str, FieldKind)| (p.0@, p.1));
    let mut i: usize = schema.len();
    assert(sv.take(i as int) =~= sv);
    while i > 0
        invariant
            i <= schema@.len(),
            sv == schema@.map_values(|p: (&str, FieldKind)| (p.0@, p.1)),
            kind_of(sv, name@) == kind_of(sv.take(i as int), name@),
        decreases i,
    {
        assert(sv.take(i as int).last() == (schema@[i - 1].0@, schema@[i - 1].1));
        if str_equal(schema[i - 1].0, name) {
            return Some(schema[i - 1].1);
        }
        assert(sv.take(i as int).drop_last() =~= sv.take(i - 1));
        i -= 1;
    }
    None
}

/// The names of a schema, in order.
fn schema_name_list(schema: &Vec<(&'static str, FieldKind)>) -> (r: Vec<&'static str>)
    ensures
        r@.map_values(|s: &str| s@) == schema_names(schema@.map_values(|p: (&str, FieldKind)| (p.0@, p.1))),
{
    let mut r: Vec<&'static str> = Vec::new();
    let mut i: usize = 0;
    while i < schema.len()
        invariant
            i <= schema@.len(),
            r@.len() == i,
            forall|j: int| 0 <= j < i ==> #[trigger] r@[j] == schema@[j].0,
        decreases schema@.len() - i,
    {
        r.push(schema[i].0);
        i += 1;
    }
    assert(r@.map_values(|s: &str| s@) =~= schema_names(schema@.map_values(|p: (&str, FieldKind)| (p.0@, p.1))));
    r
}

/// The first error of a prefix is the first error of the whole.
proof fn lemma_section_error_persists(
    fields: Seq<(Seq<char>, TomlValue)>,
    schema: Seq<(Seq<char>, FieldKind)>,
    k: int,
)
    requires
        0 <= k <= fields.len(),
        section_error(fields.take(k), schema) is Some,
    ensures
        section_error(fields, schema) == section_error(fields.take(k), schema),
    decreases fields.len() - k,
{
    if k < fields.len() {
        assert(fields.take(k + 1).drop_last() =~= fields.take(k));
        lemma_section_error_persists(fields, schema, k + 1);
    } else {
        assert(fields.take(k) =~= fields);
    }
}

proof fn lemma_document_error_persists(doc: Seq<(Seq<char>, TomlItem)>, k: int)
    requires
        0 <= k <= doc.len(),
        document_error(doc.take(k)) is Some,
    ensures
        document_error(doc) == document_error(doc.take(k)),
    decreases doc.len() - k,
{
    if k < doc.len() {
        assert(doc.take(k + 1).drop_last() =~= doc.take(k));
        lemma_document_error_persists(doc, k + 1);
    } else {
        assert(doc.take(k) =~= doc);
    }
}

/// The first reason why a table does not fit section `i`.
fn check_section(fields: &Vec<(String, TomlValue)>, i: usize) -> (r: Option<String>)
    requires
        i < 7,
    ensures
        opt_view(r) == section_error(fields_view(fields@), section_schema(i as int)),
{
    let schema = section_schema_list(i);
    let names = schema_name_list(&schema);
    let ghost f = fields_view(fields@);
    let ghost sv = section_schema(i as int);
    let mut j: usize = 0;
    while j < fields.len()
        invariant
            j <= fields@.len(),
            f == fields_view(fields@),
            sv == section_schema(i as int),
            schema@.map_values(|p: (&str, FieldKind)| (p.0@, p.1)) == sv,
            names@.map_values(|s: &str| s@) == schema_names(sv),
            section_error(f.take(j as int), sv) is None,
        decreases fields@.len() - j,
    {
        assert(f.take(j + 1).drop_last() =~= f.take(j as int));
        assert(f.take(j + 1).last() == (fields@[j as int].0@, fields@[j as int].1));
        let name = fields[j].0.as_str();
        let error = match schema_kind(&schema, name) {
            None => {
                assert(sv.len() >= 1);
                Some(unknown_field_message(name, &names))
            },
            Some(k) => check_field(k, &fields[j].1),
        };
        if error.is_some() {
            proof {
                lemma_section_error_persists(f, sv, j + 1);
            }
            return error;
        }
        j += 1;
    }
    assert(f.take(j as int) =~= f);
    None
}

/// The index of section `name`.
fn section_index(names: &Vec<&'static str>, name: &str) -> (r: Option<usize>)
    ensures
        match r {
            Some(i) => i < names@.len() && index_in(names@.map_values(|s: &str| s@), name@) == Some(i as int),
            None => index_in(names@.map_values(|s: &str| s@), name@) is None,
        },
{
    let ghost v = names@.map_values(|s: &str| s@);
    let mut i: usize = names.len();
    assert(v.take(i as int) =~= v);
    while i > 0
        invariant
            i <= names@.len(),
            v == names@.map_values(|s: &str| s@),
            index_in(v, name@) == index_in(v.take(i as int), name@),
        decreases i,
    {
        assert(v.take(i as int).last() == names@[i - 1]@);
        if str_equal(names[i - 1], name) {
            return Some(i - 1);
        }
        assert(v.take(i as int).drop_last() =~= v.take(i - 1));
        i -= 1;
    }
    None
}

/// The first reason, in key order, why `doc` is not a configuration.
pub fn check_document(doc: &TomlDocument) -> (r: Option<String>)
    ensures
        opt_view(r) == document_error(entries_view(doc.entries@)),
{
    let names = section_name_list();
    let ghost d = entries_view(doc.entries@);
    let mut j: usize = 0;
    while j < doc.entries.len()
        invariant
            j <= doc.entries@.len(),
            d == entries_view(doc.entries@),
            names@.map_values(|s: &str| s@) == section_names(),
            document_error(d.take(j as int)) is None,
        decreases doc.entries@.len() - j,
    {
        assert(d.take(j + 1).drop_last() =~= d.take(j as int));
        assert(d.take(j + 1).last() == (doc.entries@[j as int].0@, doc.entries@[j as int].1));
        let name = doc.entries[j].0.as_str();
        let error = match section_index(&names, name) {
            None => Some(unknown_field_message(name, &names)),
            Some(i) => match &doc.entries[j].1 {
                TomlItem::Value(v) => Some(invalid_type_message(v, section_struct_name(i))),
                TomlItem::Table(fields) => check_section(fields, i),
            },
        };
        if error.is_some() {
            proof {
                lemma_document_error_persists(d, j + 1);
            }
            return error;
        }
        j += 1;
    }
    assert(d.take(j as int) =~= d);
    None
}

/// The configuration a document describes, or serde's first objection to
/// it: fields missing from the document take their defaults.
pub fn config_from_document(doc: &TomlDocument) -> (r: Result<Config, String>)
    ensures
        match r {
            Ok(c) => document_error(entries_view(doc.entries@)) is None && config_of(
                c,
                entries_view(doc.entries@),
            ),
            Err(e) => document_error(entries_view(doc.entries@)) == Some(e@),
        },
{
    match check_document(doc) {
        Some(e) => Err(e),
        None => Ok(build_config(doc)),
    }
}
} // verus!
