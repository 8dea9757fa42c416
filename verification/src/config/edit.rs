//! `config set` and `config unset`: the file is edited in place with
//! `toml_edit` (keeping its comments and layout), and the edited text must
//! still be a valid configuration before it is written.
use vstd::prelude::*;
use toml_edit::{DocumentMut, Item, Table};
use crate::config::keys::{value_error, boolean_key, config_key, config_keys, integer_key, key_entry, key_parts, parse_value, EditValue, CONFIG_KEY_COUNT};
use crate::config::schema::{Config, config_of, document_error, top_error};
use crate::config::settings::{file_config_outcome, config_from_file, settings_error, ConfigError, is_parse_error, settings_outcome, Settings};
use crate::config::toml_doc::{TomlDocument, TomlItem, entries_view, parse_toml, toml_document};
use crate::text::i64_value;
use crate::text::{push_str, str_chars, string_from_chars};

verus! {

/// The text `toml_edit` writes for the document `contents` after setting
/// `name` in the table `section` (created when missing) to `value`, or
/// its parse error.
pub uninterp spec fn document_with(contents: Seq<char>, section: Seq<char>, name: Seq<char>, value: EditValue) -> Result<
    Seq<char>,
    Seq<char>,
>;

/// The text `toml_edit` writes for the document `contents` after removing
/// `name` from the table `section`, and whether it was there; or the
/// parse error.
pub uninterp spec fn document_without(contents: Seq<char>, section: Seq<char>, name: Seq<char>) -> Result<
    (Seq<char>, bool),
    Seq<char>,
>;

/// Whether every top-level entry of a document that `toml` reads is a
/// table, so that indexing into any of them cannot fail.
pub open spec fn tables_only(contents: Seq<char>) -> bool {
    match toml_document(contents) {
        Ok(doc) => forall|j: int| 0 <= j < doc.entries@.len() ==> (#[trigger] doc.entries@[j]).1 is Table,
        Err(_) => true,
    }
}

/// Sets `section.name` to `value` in the document `contents` with
/// `toml_edit` (a missing section becomes a table). Claims only that the
/// result is the named text or parse error. `toml_edit` panics when the
/// section holds a plain value; `requires` leaves that out (`toml` parses
/// with the same parser, so a document it rejects `toml_edit` rejects too).
#[verifier::external_body]
fn toml_set(contents: &str, section: &str, name: &str, value: &EditValue) -> (r: Result<String, String>)
    requires
        tables_only(contents@),
    ensures
        match r {
            Ok(t) => document_with(contents@, section@, name@, *value) == Ok::<Seq<char>, Seq<char>>(t@),
            Err(e) => document_with(contents@, section@, name@, *value) == Err::<Seq<char>, Seq<char>>(e@),
        },
{
    let mut document = contents.parse::<DocumentMut>().map_err(|e| e.to_string())?;
    document.entry(section).or_insert(Item::Table(Table::new()))[name] = match value {
        EditValue::Boolean(b) => toml_edit::value(*b),
        EditValue::Integer(i) => toml_edit::value(*i),
        EditValue::Text(t) => toml_edit::value(t.as_str()),
    };
    Ok(document.to_string())
}

/// Removes `section.name` from the document `contents` with `toml_edit`.
/// Claims only that the result is the named text and removal flag, or the
/// parse error.
#[verifier::external_body]
fn toml_remove(contents: &str, section: &str, name: &str) -> (r: Result<(String, bool), String>)
    ensures
        match r {
            Ok((t, removed)) => document_without(contents@, section@, name@) == Ok::<
                (Seq<char>, bool),
                Seq<char>,
            >((t@, removed)),
            Err(e) => document_without(contents@, section@, name@) == Err::<(Seq<char>, bool), Seq<char>>(e@),
        },
{
    let mut document = contents.parse::<DocumentMut>().map_err(|e| e.to_string())?;
    let removed = document.get_mut(section).and_then(Item::as_table_like_mut).and_then(|t| t.remove(name));
    Ok((document.to_string(), removed.is_some()))
}

/// A document that `toml` reads as a configuration has only tables at the
/// top level.
proof fn lemma_valid_document_has_tables(doc: Seq<(Seq<char>, TomlItem)>)
    requires
        document_error(doc) is None,
    ensures
        forall|j: int| 0 <= j < doc.len() ==> (#[trigger] doc[j]).1 is Table,
    decreases doc.len(),
{
    if doc.len() > 0 {
        lemma_valid_document_has_tables(doc.drop_last());
        assert forall|j: int| 0 <= j < doc.len() implies (#[trigger] doc[j]).1 is Table by {
            if j < doc.len() - 1 {
                assert(doc.drop_last()[j] == doc[j]);
            } else {
                if doc.last().1 is Value {
                    assert(top_error(doc.last().0, doc.last().1) is Some);
                }
            }
        }
    }
}

/// Whether `text` is a configuration file that reads as `c` and gives
/// valid settings.
pub open spec fn valid_file(text: Seq<char>, c: Config) -> bool {
    &&& toml_document(text) matches Ok(doc)
    &&& document_error(entries_view(doc.entries@)) is None
    &&& config_of(c, entries_view(doc.entries@))
    &&& settings_error(c) is None
}

/// Whether `text` reads as a configuration and every configuration it
/// reads as gives valid settings.
pub open spec fn file_accepted(text: Seq<char>) -> bool {
    &&& toml_document(text) matches Ok(doc)
    &&& document_error(entries_view(doc.entries@)) is None
    &&& forall|c: Config| config_of(c, entries_view(doc.entries@)) ==> settings_error(c) is None
}

/// Whether the current file (if any) is valid.
pub open spec fn current_valid(contents: Option<&str>) -> bool {
    match contents {
        None => true,
        Some(t) => exists|c: Config| valid_file(t@, c),
    }
}

/// Whether the current file (if any) is accepted; with no file, the
/// empty document must read.
pub open spec fn current_accepted(contents: Option<&str>) -> bool {
    match contents {
        None => toml_document(""@) is Ok,
        Some(t) => file_accepted(t@),
    }
}

/// The text edited: the file's, or an empty document.
pub open spec fn current_text(contents: Option<&str>) -> Seq<char> {
    match contents {
        Some(t) => t@,
        None => ""@,
    }
}

/// Whether `v` is what `config set` reads from `value` for key `i`.
pub open spec fn value_for(i: int, value: Seq<char>, v: EditValue) -> bool {
    match v {
        EditValue::Boolean(b) => boolean_key(i) && ((value == "true"@ && b) || (value == "false"@ && !b)),
        EditValue::Integer(n) => integer_key(i) && i64_value(value) == Some(n),
        EditValue::Text(t) => !boolean_key(i) && !integer_key(i) && t@ == value,
    }
}

/// Whether `key` names configuration key `i`.
pub open spec fn names_key(key: Seq<char>, i: int) -> bool {
    0 <= i < CONFIG_KEY_COUNT && config_keys()[i] == key
}

/// Checks that `toml` reads `contents` with only tables at the top level.
fn check_tables(contents: &str) -> (r: Result<(), String>)
    ensures
        r is Ok ==> tables_only(contents@),
        match toml_document(contents@) {
            Err(m) => (r matches Err(e) && e@ == m),
            Ok(doc) => (r is Ok <==> forall|j: int| 0 <= j < doc.entries@.len() ==> (#[trigger] doc.entries@[j]).1 is Table)
                && (r matches Err(e) ==> e@ == not_a_table()),
        },
{
    match parse_toml(contents) {
        Err(m) => Err(m),
        Ok(doc) => {
            let mut j: usize = 0;
            while j < doc.entries.len()
                invariant
                    j <= doc.entries@.len(),
                    toml_document(contents@) == Ok::<TomlDocument, Seq<char>>(doc),
                    forall|k: int| 0 <= k < j ==> (#[trigger] doc.entries@[k]).1 is Table,
                decreases doc.entries@.len() - j,
            {
                match &doc.entries[j].1 {
                    TomlItem::Table(_) => {},
                    TomlItem::Value(_) => {
                        assert(!(doc.entries@[j as int].1 is Table));
                        assert(!(forall|k: int| 0 <= k < doc.entries@.len() ==> (#[trigger] doc.entries@[k]).1 is Table));
                        let m = "a top-level entry is not a table".to_owned();
                        proof {
                            reveal_strlit("a top-level entry is not a table");
                        }
                        return Err(m);
                    },
                }
                j += 1;
            }
            Ok(())
        },
    }
}

/// Why an edit refuses a document with an entry other than a table at
/// the top level.
pub open spec fn not_a_table() -> Seq<char> {
    "a top-level entry is not a table"@
}

/// Whether `e` is the error of an edit that `toml_edit` refused with
/// `message`.
pub open spec fn is_edit_error(e: ConfigError, path: Seq<char>, message: Seq<char>) -> bool {
    e matches ConfigError::Invalid { path: p, reason } && p@ == path && reason@
        == "could not edit TOML document: "@ + message
}

/// Whether `e` is the error of the checks on the current file before an
/// edit: it does not read as a valid configuration, or it has an entry
/// other than a table at the top level (or, with no file, the empty
/// document does not read).
pub open spec fn current_error(contents: Option<&str>, path: Seq<char>, e: ConfigError) -> bool {
    ||| (contents matches Some(t) && file_config_outcome(t@, path, Err::<Config, ConfigError>(e)))
    ||| (current_valid(contents) && !tables_only(current_text(contents)) && is_edit_error(e, path, not_a_table()))
    ||| (contents is None && (toml_document(""@) matches Err(m) && is_edit_error(e, path, m)))
}

/// Whether `e` is an error `config set` gives for `key`, `value` and the
/// current file: the key is unknown; the current file fails its checks;
/// the value does not fit the key; `toml_edit` refuses the edit; or the
/// edited file does not read as a valid configuration.
pub open spec fn set_error(key: Seq<char>, value: Seq<char>, contents: Option<&str>, path: Seq<char>, e: ConfigError) -> bool {
    ||| ((forall|i: int| !names_key(key, i)) && (e matches ConfigError::UnknownKey(k) && k@ == key))
    ||| ((exists|i: int| names_key(key, i)) && current_error(contents, path, e))
    ||| exists|i: int|
        names_key(key, i) && current_valid(contents) && tables_only(current_text(contents)) && {
            ||| (forall|v: EditValue| !value_for(i, value, v)) && value_error(i, value, e)
            ||| exists|v: EditValue|
                value_for(i, value, v) && match document_with(
                    current_text(contents),
                    key_parts(i).0,
                    key_parts(i).1,
                    v,
                ) {
                    Err(m) => is_edit_error(e, path, m),
                    Ok(t) => file_config_outcome(t, path, Err::<Config, ConfigError>(e)),
                }
        }
}

/// Whether `e` is an error `config unset` gives for `key` and the current
/// file: the key is unknown; the current file does not read as a valid
/// configuration; `toml_edit` refuses the removal; or the edited file does
/// not read as a valid configuration.
pub open spec fn unset_error(key: Seq<char>, contents: Option<&str>, path: Seq<char>, e: ConfigError) -> bool {
    ||| ((forall|i: int| !names_key(key, i)) && (e matches ConfigError::UnknownKey(k) && k@ == key))
    ||| ((exists|i: int| names_key(key, i)) && (contents matches Some(t) && file_config_outcome(
        t@,
        path,
        Err::<Config, ConfigError>(e),
    )))
    ||| exists|i: int|
        names_key(key, i) && current_valid(contents) && (contents matches Some(t) && match document_without(
            t@,
            key_parts(i).0,
            key_parts(i).1,
        ) {
            Err(m) => is_edit_error(e, path, m),
            Ok((text, _)) => file_config_outcome(text, path, Err::<Config, ConfigError>(e)),
        })
}

fn edit_error(path: &str, message: &str) -> (r: ConfigError)
    ensures
        r matches ConfigError::Invalid { path: p, reason } && p@ == path@ && reason@
            == "could not edit TOML document: "@ + message@,
{
    let mut reason = str_chars("could not edit TOML document: ");
    push_str(&mut reason, message);
    ConfigError::Invalid { path: path.to_owned(), reason: string_from_chars(&reason) }
}

/// Checks the current file (if any) before an edit.
fn check_current(contents: Option<&str>, path: &str) -> (r: Result<(), ConfigError>)
    ensures
        r is Ok ==> current_valid(contents) && tables_only(current_text(contents)),
        (current_accepted(contents) && tables_only(current_text(contents))) ==> r is Ok,
        r matches Err(e) ==> !(e is UnknownKey) && current_error(contents, path@, e),
{
    match config_from_file(contents, path) {
        Err(e) => {
            return Err(e);
        },
        Ok(c) => {
            proof {
                if let Some(t) = contents {
                    assert(valid_file(t@, c));
                }
            }
        },
    }
    let text = match contents {
        Some(t) => t,
        None => "",
    };
    proof {
        reveal_strlit("");
    }
    match check_tables(text) {
        Err(m) => Err(edit_error(path, m.as_str())),
        Ok(()) => Ok(()),
    }
}

/// Sets key `i` to `v` in `text` and checks the result.
fn edited(text: &str, i: usize, v: &EditValue, path: &str) -> (r: Result<(String, Config), ConfigError>)
    requires
        tables_only(text@),
        i < CONFIG_KEY_COUNT,
    ensures
        r matches Ok((t, c)) ==> document_with(text@, key_parts(i as int).0, key_parts(i as int).1, *v)
            == Ok::<Seq<char>, Seq<char>>(t@) && valid_file(t@, c),
        (document_with(text@, key_parts(i as int).0, key_parts(i as int).1, *v) matches Ok(t)
            && file_accepted(t)) ==> r is Ok,
        r matches Err(e) ==> !(e is UnknownKey) && match document_with(text@, key_parts(i as int).0, key_parts(i as int).1, *v) {
            Err(m) => is_edit_error(e, path@, m),
            Ok(t) => file_config_outcome(t, path@, Err::<Config, ConfigError>(e)),
        },
{
    let (_, section, name) = key_entry(i);
    let t = match toml_set(text, section, name, v) {
        Ok(t) => t,
        Err(m) => {
            return Err(edit_error(path, m.as_str()));
        },
    };
    match config_from_file(Some(t.as_str()), path) {
        Ok(c) => Ok((t, c)),
        Err(e) => Err(e),
    }
}

/// `config set`: checks the key and the current file, reads `value` for
/// the key, sets it in the file's text (an empty document when there is
/// no file) and checks the result. Returns the text to write and the
/// configuration it reads as. Fails exactly when the key is unknown, the
/// current file is invalid, the value does not fit the key, or the edited
/// file is invalid.
pub fn set_value(key: &str, value: &str, contents: Option<&str>, path: &str) -> (r: Result<
    (String, Config),
    ConfigError,
>)
    ensures
        (forall|i: int| !names_key(key@, i)) <==> (r matches Err(ConfigError::UnknownKey(k)) && k@ == key@),
        r matches Ok((text, c)) ==> {
            &&& current_valid(contents)
            &&& exists|i: int, v: EditValue|
                names_key(key@, i) && value_for(i, value@, v) && document_with(
                    current_text(contents),
                    key_parts(i).0,
                    key_parts(i).1,
                    v,
                ) == Ok::<Seq<char>, Seq<char>>(text@)
            &&& valid_file(text@, c)
        },
        ((exists|i: int| names_key(key@, i)) && current_accepted(contents) && tables_only(
            current_text(contents),
        ) && (forall|i: int|
            names_key(key@, i) ==> (exists|v: EditValue| value_for(i, value@, v)) && (forall|v: EditValue|
                value_for(i, value@, v) ==> (document_with(
                    current_text(contents),
                    key_parts(i).0,
                    key_parts(i).1,
                    v,
                ) matches Ok(t) && file_accepted(t))))) ==> r is Ok,
        r matches Err(e) ==> set_error(key@, value@, contents, path@, e),
{
    let i = match config_key(key) {
        Ok(i) => i,
        Err(e) => {
            return Err(e);
        },
    };
    assert(names_key(key@, i as int));
    if let Err(e) = check_current(contents, path) {
        return Err(e);
    }
    let v = match parse_value(i, value) {
        Ok(v) => v,
        Err(e) => {
            return Err(e);
        },
    };
    assert(value_for(i as int, value@, v));
    let text = match contents {
        Some(t) => t,
        None => "",
    };
    assert(text@ == current_text(contents));
    edited(text, i, &v, path)
}

/// `config unset`: checks the key and the current file; with no file
/// nothing changes. Otherwise removes the key from the file's text and
/// checks the result. Returns the text to write (`None` when the key was
/// not in the file, or there is no file) and the configuration after the
/// change.
pub fn unset_value(key: &str, contents: Option<&str>, path: &str) -> (r: Result<
    (Option<String>, Config),
    ConfigError,
>)
    ensures
        (forall|i: int| !names_key(key@, i)) <==> (r matches Err(ConfigError::UnknownKey(k)) && k@ == key@),
        r matches Ok((write, c)) ==> {
            &&& current_valid(contents)
            &&& match contents {
                None => write is None && config_of(c, Seq::empty()),
                Some(t) => exists|i: int, text: Seq<char>, removed: bool|
                    names_key(key@, i) && document_without(t@, key_parts(i).0, key_parts(i).1) == Ok::<
                        (Seq<char>, bool),
                        Seq<char>,
                    >((text, removed)) && valid_file(text, c) && match write {
                        Some(w) => removed && w@ == text,
                        None => !removed,
                    },
            }
        },
        ((exists|i: int| names_key(key@, i)) && current_accepted(contents) && match contents {
            None => true,
            Some(t) => forall|i: int|
                names_key(key@, i) ==> (document_without(t@, key_parts(i).0, key_parts(i).1) matches Ok(
                    (text, removed),
                ) && file_accepted(text)),
        }) ==> r is Ok,
        r matches Err(e) ==> unset_error(key@, contents, path@, e),
{
    let i = match config_key(key) {
        Ok(i) => i,
        Err(e) => {
            return Err(e);
        },
    };
    assert(names_key(key@, i as int));
    let current = match config_from_file(contents, path) {
        Err(e) => {
            return Err(e);
        },
        Ok(c) => {
            proof {
                if let Some(t) = contents {
                    assert(valid_file(t@, c));
                }
            }
            c
        },
    };
    let text = match contents {
        None => {
            return Ok((None, current));
        },
        Some(t) => t,
    };
    let (_, section, name) = key_entry(i);
    let (edited, removed) = match toml_remove(text, section, name) {
        Ok(p) => p,
        Err(m) => {
            return Err(edit_error(path, m.as_str()));
        },
    };
    let c = match config_from_file(Some(edited.as_str()), path) {
        Ok(c) => c,
        Err(e) => {
            return Err(e);
        },
    };
    if removed {
        Ok((Some(edited), c))
    } else {
        Ok((None, c))
    }
}

} // verus!
