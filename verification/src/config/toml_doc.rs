//! A TOML document as the configuration reads it: top-level entries, each a
//! table of values or a bare value. Nested tables, arrays, floats and
//! datetimes only ever stand where they are refused, so they keep their
//! kind and text.
use vstd::prelude::*;
use toml::{Table, Value};
use crate::text::{decimal, push_decimal, push_str, str_chars};

verus! {

/// A TOML value.
#[derive(Debug)]
pub enum TomlValue {
    String(String),
    Integer(i64),
    Boolean(bool),
    /// Any other value: its TOML type name and its TOML text.
    Other(&'static str, String),
}

/// A top-level entry's value.
#[derive(Debug)]
pub enum TomlItem {
    Table(Vec<(String, TomlValue)>),
    Value(TomlValue),
}

/// A parsed document: its top-level entries in key order.
#[derive(Debug)]
pub struct TomlDocument {
    pub entries: Vec<(String, TomlItem)>,
}

/// The entries of a table, keyed by their names' characters.
pub open spec fn fields_view(fields: Seq<(String, TomlValue)>) -> Seq<(Seq<char>, TomlValue)> {
    fields.map_values(|p: (String, TomlValue)| (p.0@, p.1))
}

/// The top-level entries, keyed by their names' characters.
pub open spec fn entries_view(entries: Seq<(String, TomlItem)>) -> Seq<(Seq<char>, TomlItem)> {
    entries.map_values(|p: (String, TomlItem)| (p.0@, p.1))
}

/// The document that the `toml` crate reads from `contents` (a
/// `toml::Table`, whose keys come in sorted order), or its error message.
pub uninterp spec fn toml_document(contents: Seq<char>) -> Result<TomlDocument, Seq<char>>;

/// Parses `contents` with `toml`'s `Table` parser and keeps, of each value,
/// what the configuration reads: strings, integers and booleans as they
/// are, any other value as its type name and TOML text. The result is the
/// named document or the parser's error message.
#[verifier::external_body]
pub fn parse_toml(contents: &str) -> (r: Result<TomlDocument, String>)
    ensures
        match r {
            Ok(d) => toml_document(contents@) == Ok::<TomlDocument, Seq<char>>(d),
            Err(e) => toml_document(contents@) == Err::<TomlDocument, Seq<char>>(e@),
        },
{
    let table = contents.parse::<Table>().map_err(|e| e.to_string())?;
    let scalar = |v: &Value| match v {
        Value::String(s) => TomlValue::String(s.clone()),
        Value::Integer(i) => TomlValue::Integer(*i),
        Value::Boolean(b) => TomlValue::Boolean(*b),
        v => TomlValue::Other(v.type_str(), v.to_string()),
    };
    Ok(TomlDocument { entries: table.into_iter().map(|(k, v)| (k, match v {
        Value::Table(t) => TomlItem::Table(t.into_iter().map(|(k, v)| (k, scalar(&v))).collect()),
        v => TomlItem::Value(scalar(&v)),
    })).collect() })
}

/// Decimal text of a signed integer.
pub open spec fn signed_decimal(i: int) -> Seq<char> {
    if i < 0 {
        "-"@ + decimal((-i) as nat)
    } else {
        decimal(i as nat)
    }
}

/// Appends the decimal text of `i`.
pub fn push_signed(out: &mut Vec<char>, i: i64)
    ensures
        final(out)@ == old(out)@ + signed_decimal(i as int),
{
    if i < 0 {
        push_str(out, "-");
        let magnitude = (0i128 - i as i128) as u64;
        push_decimal(out, magnitude);
    } else {
        push_decimal(out, i as u64);
    }
}

/// How serde describes a value it did not expect.
pub open spec fn unexpected(v: TomlValue) -> Seq<char> {
    match v {
        TomlValue::String(s) => "string \""@ + s@ + "\""@,
        TomlValue::Integer(i) => "integer `"@ + signed_decimal(i as int) + "`"@,
        TomlValue::Boolean(b) => if b {
            "boolean `true`"@
        } else {
            "boolean `false`"@
        },
        TomlValue::Other(kind, text) => if kind@ == "float"@ {
            "floating point `"@ + text@ + "`"@
        } else if kind@ == "array"@ {
            "sequence"@
        } else if kind@ == "table"@ {
            "map"@
        } else {
            kind@ + " `"@ + text@ + "`"@
        },
    }
}

/// Appends `unexpected(v)`.
pub fn push_unexpected(out: &mut Vec<char>, v: &TomlValue)
    ensures
        final(out)@ == old(out)@ + unexpected(*v),
{
    match v {
        TomlValue::String(s) => {
            push_str(out, "string \"");
            push_str(out, s.as_str());
            push_str(out, "\"");
        },
        TomlValue::Integer(i) => {
            push_str(out, "integer `");
            push_signed(out, *i);
            push_str(out, "`");
        },
        TomlValue::Boolean(b) => {
            if *b {
                push_str(out, "boolean `true`");
            } else {
                push_str(out, "boolean `false`");
            }
        },
        TomlValue::Other(kind, text) => {
            if crate::text::str_equal(kind, "float") {
                push_str(out, "floating point `");
                push_str(out, text.as_str());
                push_str(out, "`");
            } else if crate::text::str_equal(kind, "array") {
                push_str(out, "sequence");
            } else if crate::text::str_equal(kind, "table") {
                push_str(out, "map");
            } else {
                push_str(out, kind);
                push_str(out, " `");
                push_str(out, text.as_str());
                push_str(out, "`");
            }
        },
    }
}

/// serde's message for a value of the wrong type.
pub open spec fn invalid_type(v: TomlValue, expected: Seq<char>) -> Seq<char> {
    "invalid type: "@ + unexpected(v) + ", expected "@ + expected
}

/// The message for a value of the wrong type.
pub fn invalid_type_message(v: &TomlValue, expected: &str) -> (r: String)
    ensures
        r@ == invalid_type(*v, expected@),
{
    let mut out = str_chars("invalid type: ");
    push_unexpected(&mut out, v);
    push_str(&mut out, ", expected ");
    push_str(&mut out, expected);
    crate::text::string_from_chars(&out)
}

} // verus!
