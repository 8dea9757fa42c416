//! Settings: the configuration once validated, with the key bindings
//! built, and the errors of reading, validating and editing it.
use vstd::prelude::*;
use crate::config::schema::{
    Config, config_from_document, config_of, document_error, lemma_renderer_names, lookup, opt_view,
    section_fields,
};
use crate::config::keys::key_suggestion;
use crate::config::toml_doc::{TomlDocument, TomlValue, entries_view, parse_toml, toml_document};
use crate::input::bindings::{InputBindings, bindings_error, built_from};
use crate::input::joypad::{
    BUTTON_A, BUTTON_B, BUTTON_DOWN, BUTTON_L, BUTTON_L2, BUTTON_L3, BUTTON_LEFT, BUTTON_R,
    BUTTON_R2, BUTTON_R3, BUTTON_RIGHT, BUTTON_SELECT, BUTTON_START, BUTTON_UP, BUTTON_X,
    BUTTON_Y,
};
use crate::renderer::{RendererMode, renderer_name};
use crate::pathname::{join, join_str};
use crate::text::{is_blank, push_str, str_chars, str_equal, str_is_blank, string_from_chars};

verus! {

#[derive(Clone, Copy, Debug, PartialEq, Eq, Structural)]
pub struct DisplaySettings {
    pub renderer: RendererMode,
    pub fps: u32,
    pub primary_screen: bool,
}

#[derive(Clone, Copy, Debug, PartialEq, Eq, Structural)]
pub struct AudioSettings {
    pub muted: bool,
}

#[derive(Clone, Copy, Debug, PartialEq, Eq, Structural)]
pub struct StateSettings {
    pub save_on_exit: bool,
    pub resume: bool,
}

#[derive(Clone, Copy, Debug, PartialEq, Eq, Structural)]
pub struct StatusSettings {
    pub enabled: bool,
    pub gamepad: bool,
    pub controls: bool,
}

#[derive(Clone, Copy, Debug, PartialEq, Eq, Structural)]
pub struct RewindSettings {
    pub enabled: bool,
    pub granularity: u64,
    /// The rewind buffer's budget in bytes.
    pub buffer_size: usize,
}

#[derive(Debug, PartialEq, Eq)]
pub struct PathSettings {
    pub data_dir: Option<String>,
    pub cache_dir: Option<String>,
}

#[derive(Debug)]
pub struct Settings {
    pub input_bindings: InputBindings,
    pub display: DisplaySettings,
    pub audio: AudioSettings,
    pub rewind: RewindSettings,
    pub state: StateSettings,
    pub status: StatusSettings,
    pub paths: PathSettings,
}

/// Why reading, validating or editing the configuration failed. Paths are
/// kept as text; the errors of the system and of the TOML parser as their
/// messages.
#[derive(Debug)]
pub enum ConfigError {
    PathUnavailable,
    EmptyOverride,
    Read { path: String, message: String },
    Write { path: String, message: String },
    Parse { path: String, message: String },
    Invalid { path: String, reason: String },
    UnknownKey(String),
    UnsetKey(String),
    InvalidValue { key: String, value: String, expected: String },
    EditorUnavailable,
    InvalidEditor(String),
    EditorLaunch { editor: String, message: String },
    EditorFailed(String),
}

/// The text of an error, as the command line shows it.
pub open spec fn config_error_text(e: ConfigError) -> Seq<char> {
    match e {
        ConfigError::PathUnavailable => "could not determine the config directory"@,
        ConfigError::EmptyOverride => "ASOBY_CONFIG must not be empty"@,
        ConfigError::Read { path, message } => "failed to read config "@ + path@ + ": "@ + message@,
        ConfigError::Write { path, message } => "failed to write config "@ + path@ + ": "@
            + message@,
        ConfigError::Parse { path, message } => "failed to parse config "@ + path@ + ": "@
            + message@,
        ConfigError::Invalid { path, reason } => "invalid config "@ + path@ + ": "@ + reason@,
        ConfigError::UnknownKey(key) => "unknown config key \""@ + key@ + "\""@ + match key_suggestion(key@) {
            Some(s) => ". Did you mean \""@ + s + "\"?"@,
            None => Seq::empty(),
        },
        ConfigError::UnsetKey(key) => "config key \""@ + key@ + "\" is unset"@,
        ConfigError::InvalidValue { key, value, expected } => "invalid value \""@ + value@
            + "\" for config key \""@ + key@ + "\": expected "@ + expected@,
        ConfigError::EditorUnavailable => "VISUAL and EDITOR are not set"@,
        ConfigError::InvalidEditor(editor) => "invalid editor command \""@ + editor@ + "\""@,
        ConfigError::EditorLaunch { editor, message } => "failed to launch editor \""@ + editor@
            + "\": "@ + message@,
        ConfigError::EditorFailed(editor) => "editor \""@ + editor@ + "\" exited unsuccessfully"@,
    }
}

impl ConfigError {
    /// The error's text.
    pub fn message(&self) -> (r: String)
        ensures
            r@ == config_error_text(*self),
    {
        let mut out: Vec<char> = Vec::new();
        match self {
            ConfigError::PathUnavailable => push_str(&mut out, "could not determine the config directory"),
            ConfigError::EmptyOverride => push_str(&mut out, "ASOBY_CONFIG must not be empty"),
            ConfigError::Read { path, message } => {
                push_str(&mut out, "failed to read config ");
                push_str(&mut out, path.as_str());
                push_str(&mut out, ": ");
                push_str(&mut out, message.as_str());
            },
            ConfigError::Write { path, message } => {
                push_str(&mut out, "failed to write config ");
                push_str(&mut out, path.as_str());
                push_str(&mut out, ": ");
                push_str(&mut out, message.as_str());
            },
            ConfigError::Parse { path, message } => {
                push_str(&mut out, "failed to parse config ");
                push_str(&mut out, path.as_str());
                push_str(&mut out, ": ");
                push_str(&mut out, message.as_str());
            },
            ConfigError::Invalid { path, reason } => {
                push_str(&mut out, "invalid config ");
                push_str(&mut out, path.as_str());
                push_str(&mut out, ": ");
                push_str(&mut out, reason.as_str());
            },
            ConfigError::UnknownKey(key) => {
                push_str(&mut out, "unknown config key \"");
                push_str(&mut out, key.as_str());
                push_str(&mut out, "\"");
                if let Some(s) = crate::config::keys::suggest_key(key.as_str()) {
                    push_str(&mut out, ". Did you mean \"");
                    push_str(&mut out, s);
                    push_str(&mut out, "\"?");
                }
            },
            ConfigError::UnsetKey(key) => {
                push_str(&mut out, "config key \"");
                push_str(&mut out, key.as_str());
                push_str(&mut out, "\" is unset");
            },
            ConfigError::InvalidValue { key, value, expected } => {
                push_str(&mut out, "invalid value \"");
                push_str(&mut out, value.as_str());
                push_str(&mut out, "\" for config key \"");
                push_str(&mut out, key.as_str());
                push_str(&mut out, "\": expected ");
                push_str(&mut out, expected.as_str());
            },
            ConfigError::EditorUnavailable => push_str(&mut out, "VISUAL and EDITOR are not set"),
            ConfigError::InvalidEditor(editor) => {
                push_str(&mut out, "invalid editor command \"");
                push_str(&mut out, editor.as_str());
                push_str(&mut out, "\"");
            },
            ConfigError::EditorLaunch { editor, message } => {
                push_str(&mut out, "failed to launch editor \"");
                push_str(&mut out, editor.as_str());
                push_str(&mut out, "\": ");
                push_str(&mut out, message.as_str());
            },
            ConfigError::EditorFailed(editor) => {
                push_str(&mut out, "editor \"");
                push_str(&mut out, editor.as_str());
                push_str(&mut out, "\" exited unsuccessfully");
            },
        }
        string_from_chars(&out)
    }
}

/// Whether a configured directory is absolute or starts at the home
/// directory (`~` or `~/…`).
pub open spec fn absolute_or_tilde(v: Seq<char>) -> bool {
    ||| v == "~"@
    ||| (v.len() >= 2 && v[0] == '~' && v[1] == '/')
    ||| (v.len() >= 1 && v[0] == '/')
}

pub fn is_absolute_or_tilde(value: &str) -> (r: bool)
    ensures
        r == absolute_or_tilde(value@),
{
    let chars = str_chars(value);
    str_equal(value, "~") || (chars.len() >= 2 && chars[0] == '~' && chars[1] == '/') || (
    chars.len() >= 1 && chars[0] == '/')
}

/// Why a configured directory is refused, if it is.
pub open spec fn path_error(name: Seq<char>, value: Option<Seq<char>>) -> Option<Seq<char>> {
    match value {
        None => None,
        Some(v) => if v.len() == 0 {
            Some("[paths] "@ + name + " must not be empty"@)
        } else if !absolute_or_tilde(v) {
            Some("[paths] "@ + name + " must be an absolute path or start with \"~/\""@)
        } else {
            None
        },
    }
}

/// One mebibyte.
pub const MEBIBYTE: usize = 1048576;

/// The gamepad entries of the `[input]` section: the ten fixed buttons,
/// then the shoulder and stick buttons that are bound.
pub open spec fn gamepad_entries(c: Config) -> Seq<(Seq<char>, usize, Seq<char>)> {
    let i = c.input;
    let fixed = seq![
        ("up"@, BUTTON_UP, i.up@),
        ("down"@, BUTTON_DOWN, i.down@),
        ("left"@, BUTTON_LEFT, i.left@),
        ("right"@, BUTTON_RIGHT, i.right@),
        ("a"@, BUTTON_A, i.a@),
        ("b"@, BUTTON_B, i.b@),
        ("x"@, BUTTON_X, i.x@),
        ("y"@, BUTTON_Y, i.y@),
        ("start"@, BUTTON_START, i.start@),
        ("select"@, BUTTON_SELECT, i.select@),
    ];
    fixed + optional_entry("l"@, BUTTON_L, i.l) + optional_entry("r"@, BUTTON_R, i.r)
        + optional_entry("l2"@, BUTTON_L2, i.l2) + optional_entry("r2"@, BUTTON_R2, i.r2)
        + optional_entry("l3"@, BUTTON_L3, i.l3) + optional_entry("r3"@, BUTTON_R3, i.r3)
}

pub open spec fn optional_entry(name: Seq<char>, button: usize, key: Option<String>) -> Seq<
    (Seq<char>, usize, Seq<char>),
> {
    match key {
        Some(k) => seq![(name, button, k@)],
        None => Seq::empty(),
    }
}

/// The first reason why a configuration is invalid: fps out of 1–240, a
/// zero rewind granularity or buffer, a configured directory that is empty
/// or relative, a buffer too large for memory, or bindings refused.
pub open spec fn settings_error(c: Config) -> Option<Seq<char>> {
    if !(1 <= c.display.fps <= 240) {
        Some("[display] fps must be between 1 and 240"@)
    } else if c.rewind.granularity == 0 {
        Some("[rewind] granularity must be at least 1"@)
    } else if c.rewind.buffer_size_mb == 0 {
        Some("[rewind] buffer_size_mb must be at least 1"@)
    } else if path_error("data_dir"@, opt_view(c.paths.data_dir)) is Some {
        path_error("data_dir"@, opt_view(c.paths.data_dir))
    } else if path_error("cache_dir"@, opt_view(c.paths.cache_dir)) is Some {
        path_error("cache_dir"@, opt_view(c.paths.cache_dir))
    } else if c.rewind.buffer_size_mb * MEBIBYTE > usize::MAX {
        Some("[rewind] buffer_size_mb is too large"@)
    } else {
        bindings_error(
            gamepad_entries(c),
            c.input.quit@,
            c.input.rewind@,
            c.input.save_state@,
            c.input.load_state@,
            c.rewind.enabled,
        )
    }
}

/// Whether `s` holds the settings of the (valid) configuration `c`.
pub open spec fn settings_of(s: Settings, c: Config) -> bool {
    &&& s.display == DisplaySettings {
        renderer: c.display.renderer,
        fps: c.display.fps,
        primary_screen: c.display.primary_screen,
    }
    &&& s.audio == AudioSettings { muted: c.audio.muted }
    &&& s.rewind.enabled == c.rewind.enabled
    &&& s.rewind.granularity == c.rewind.granularity
    &&& s.rewind.buffer_size == c.rewind.buffer_size_mb * MEBIBYTE
    &&& s.state == StateSettings { save_on_exit: c.state.save_on_exit, resume: c.state.resume }
    &&& s.status == StatusSettings {
        enabled: c.status.enabled,
        gamepad: c.status.gamepad,
        controls: c.status.controls,
    }
    &&& opt_view(s.paths.data_dir) == opt_view(c.paths.data_dir)
    &&& opt_view(s.paths.cache_dir) == opt_view(c.paths.cache_dir)
    &&& built_from(
        s.input_bindings,
        gamepad_entries(c),
        c.input.quit@,
        c.input.rewind@,
        c.input.save_state@,
        c.input.load_state@,
        c.rewind.enabled,
    )
}

/// Whether `r` is the outcome of validating `c` read from `path`.
pub open spec fn settings_outcome(c: Config, path: Seq<char>, r: Result<Settings, ConfigError>) -> bool {
    match settings_error(c) {
        Some(reason) => r matches Err(ConfigError::Invalid { path: p, reason: m }) && p@ == path
            && m@ == reason,
        None => r matches Ok(s) && settings_of(s, c),
    }
}

fn invalid(path: &str, reason: String) -> (r: ConfigError)
    ensures
        r matches ConfigError::Invalid { path: p, reason: m } && p@ == path@ && m@ == reason@,
{
    ConfigError::Invalid { path: path.to_owned(), reason }
}

fn check_path(name: &str, value: &Option<String>) -> (r: Option<String>)
    ensures
        opt_view(r) == path_error(name@, opt_view(*value)),
{
    match value {
        None => None,
        Some(v) => {
            if v.as_str().is_empty() {
                let mut m = str_chars("[paths] ");
                push_str(&mut m, name);
                push_str(&mut m, " must not be empty");
                Some(string_from_chars(&m))
            } else if !is_absolute_or_tilde(v.as_str()) {
                let mut m = str_chars("[paths] ");
                push_str(&mut m, name);
                push_str(&mut m, " must be an absolute path or start with \"~/\"");
                Some(string_from_chars(&m))
            } else {
                None
            }
        },
    }
}

fn clone_opt(o: &Option<String>) -> (r: Option<String>)
    ensures
        opt_view(r) == opt_view(*o),
{
    match o {
        Some(s) => Some(s.clone()),
        None => None,
    }
}

/// Validates a configuration read from `path` and builds its settings.
pub fn settings_from_config(config: &Config, path: &str) -> (r: Result<Settings, ConfigError>)
    ensures
        settings_outcome(*config, path@, r),
{
    let fps = config.display.fps;
    if !(1 <= fps && fps <= 240) {
        return Err(invalid(path, "[display] fps must be between 1 and 240".to_owned()));
    }
    if config.rewind.granularity == 0 {
        return Err(invalid(path, "[rewind] granularity must be at least 1".to_owned()));
    }
    if config.rewind.buffer_size_mb == 0 {
        return Err(invalid(path, "[rewind] buffer_size_mb must be at least 1".to_owned()));
    }
    if let Some(reason) = check_path("data_dir", &config.paths.data_dir) {
        return Err(invalid(path, reason));
    }
    if let Some(reason) = check_path("cache_dir", &config.paths.cache_dir) {
        return Err(invalid(path, reason));
    }
    let buffer_size = match config.rewind.buffer_size_mb.checked_mul(MEBIBYTE) {
        Some(size) => size,
        None => {
            return Err(invalid(path, "[rewind] buffer_size_mb is too large".to_owned()));
        },
    };
    let input = &config.input;
    let mut gamepad: Vec<(&str, usize, &str)> = Vec::new();
    gamepad.push(("up", BUTTON_UP, input.up.as_str()));
    gamepad.push(("down", BUTTON_DOWN, input.down.as_str()));
    gamepad.push(("left", BUTTON_LEFT, input.left.as_str()));
    gamepad.push(("right", BUTTON_RIGHT, input.right.as_str()));
    gamepad.push(("a", BUTTON_A, input.a.as_str()));
    gamepad.push(("b", BUTTON_B, input.b.as_str()));
    gamepad.push(("x", BUTTON_X, input.x.as_str()));
    gamepad.push(("y", BUTTON_Y, input.y.as_str()));
    gamepad.push(("start", BUTTON_START, input.start.as_str()));
    gamepad.push(("select", BUTTON_SELECT, input.select.as_str()));
    let ghost fixed = gamepad@.map_values(|e: (&str, usize, &str)| crate::input::bindings::entry_view(e));
    push_optional(&mut gamepad, "l", BUTTON_L, &input.l);
    push_optional(&mut gamepad, "r", BUTTON_R, &input.r);
    push_optional(&mut gamepad, "l2", BUTTON_L2, &input.l2);
    push_optional(&mut gamepad, "r2", BUTTON_R2, &input.r2);
    push_optional(&mut gamepad, "l3", BUTTON_L3, &input.l3);
    push_optional(&mut gamepad, "r3", BUTTON_R3, &input.r3);
    assert(gamepad@.map_values(|e: (&str, usize, &str)| crate::input::bindings::entry_view(e))
        =~= gamepad_entries(*config));
    let bindings = match InputBindings::new(
        gamepad.as_slice(),
        input.quit.as_str(),
        input.rewind.as_str(),
        input.save_state.as_str(),
        input.load_state.as_str(),
        config.rewind.enabled,
    ) {
        Ok(b) => b,
        Err(reason) => {
            return Err(invalid(path, reason));
        },
    };
    Ok(
        Settings {
            input_bindings: bindings,
            display: DisplaySettings {
                renderer: config.display.renderer,
                fps,
                primary_screen: config.display.primary_screen,
            },
            audio: AudioSettings { muted: config.audio.muted },
            rewind: RewindSettings {
                enabled: config.rewind.enabled,
                granularity: config.rewind.granularity,
                buffer_size,
            },
            state: StateSettings {
                save_on_exit: config.state.save_on_exit,
                resume: config.state.resume,
            },
            status: StatusSettings {
                enabled: config.status.enabled,
                gamepad: config.status.gamepad,
                controls: config.status.controls,
            },
            paths: PathSettings {
                data_dir: clone_opt(&config.paths.data_dir),
                cache_dir: clone_opt(&config.paths.cache_dir),
            },
        },
    )
}

/// Appends the entry of an optional button when a key is bound to it.
fn push_optional<'a>(
    gamepad: &mut Vec<(&'a str, usize, &'a str)>,
    name: &'a str,
    button: usize,
    key: &'a Option<String>,
)
    ensures
        final(gamepad)@.map_values(|e: (&str, usize, &str)| crate::input::bindings::entry_view(e))
            == old(gamepad)@.map_values(|e: (&str, usize, &str)| crate::input::bindings::entry_view(e))
            + optional_entry(name@, button, *key),
{
    let ghost before = gamepad@;
    if let Some(k) = key {
        gamepad.push((name, button, k.as_str()));
    }
    assert(gamepad@.map_values(|e: (&str, usize, &str)| crate::input::bindings::entry_view(e))
        =~= before.map_values(|e: (&str, usize, &str)| crate::input::bindings::entry_view(e))
        + optional_entry(name@, button, *key));
}


/// Whether `r` is a parse error for `path` with message `m`.
pub open spec fn is_parse_error<T>(r: Result<T, ConfigError>, path: Seq<char>, m: Seq<char>) -> bool {
    r matches Err(ConfigError::Parse { path: p, message }) && p@ == path && message@ == m
}

/// Whether `r` is the outcome of reading settings from the document `doc`
/// of the file at `path`.
pub open spec fn document_outcome(doc: TomlDocument, path: Seq<char>, r: Result<Settings, ConfigError>) -> bool {
    match document_error(entries_view(doc.entries@)) {
        Some(m) => is_parse_error(r, path, m),
        None => exists|c: Config| config_of(c, entries_view(doc.entries@)) && settings_outcome(c, path, r),
    }
}

/// The renderer a configuration asks for is the one used: when the
/// document's `[display] renderer` is the name of a mode, the settings read
/// from it, if valid, draw with that mode.
pub proof fn lemma_renderer_setting(
    doc: TomlDocument,
    path: Seq<char>,
    r: Result<Settings, ConfigError>,
    name: String,
    m: RendererMode,
)
    requires
        document_outcome(doc, path, r),
        lookup(section_fields(entries_view(doc.entries@), "display"@), "renderer"@) == Some(
            TomlValue::String(name),
        ),
        name@ == renderer_name(m),
    ensures
        r matches Ok(s) ==> s.display.renderer == m,
{
    lemma_renderer_names(m, name@);
}

/// The settings that a parsed document describes.
pub fn settings_from_document(doc: &TomlDocument, path: &str) -> (r: Result<Settings, ConfigError>)
    ensures
        document_outcome(*doc, path@, r),
{
    match config_from_document(doc) {
        Err(message) => Err(ConfigError::Parse { path: path.to_owned(), message }),
        Ok(config) => settings_from_config(&config, path),
    }
}

/// The settings that the text of a config file at `path` describes.
pub fn parse_settings(contents: &str, path: &str) -> (r: Result<Settings, ConfigError>)
    ensures
        match toml_document(contents@) {
            Err(m) => is_parse_error(r, path@, m),
            Ok(doc) => document_outcome(doc, path@, r),
        },
{
    match parse_toml(contents) {
        Err(message) => Err(ConfigError::Parse { path: path.to_owned(), message }),
        Ok(doc) => settings_from_document(&doc, path),
    }
}

/// The settings of the config file at `path`, given its text, or the
/// defaults' when there is no file.
pub fn load_settings(contents: Option<&str>, path: &str) -> (r: Result<Settings, ConfigError>)
    ensures
        match contents {
            None => exists|c: Config| config_of(c, Seq::empty()) && settings_outcome(c, path@, r),
            Some(text) => match toml_document(text@) {
                Err(m) => is_parse_error(r, path@, m),
                Ok(doc) => document_outcome(doc, path@, r),
            },
        },
{
    match contents {
        None => {
            let config = Config::default();
            settings_from_config(&config, path)
        },
        Some(text) => parse_settings(text, path),
    }
}

/// Whether `r` is what the configuration file at `path` with text `text`
/// reads as: its configuration, checked to give valid settings, or the
/// first error found.
pub open spec fn file_config_outcome(text: Seq<char>, path: Seq<char>, r: Result<Config, ConfigError>) -> bool {
    match toml_document(text) {
        Err(m) => is_parse_error(r, path, m),
        Ok(doc) => match document_error(entries_view(doc.entries@)) {
            Some(m) => is_parse_error(r, path, m),
            None => match r {
                Ok(c) => config_of(c, entries_view(doc.entries@)) && settings_error(c) is None,
                Err(e) => exists|c: Config|
                    config_of(c, entries_view(doc.entries@)) && settings_outcome(
                        c,
                        path,
                        Err::<Settings, ConfigError>(e),
                    ),
            },
        },
    }
}

/// The configuration of the file at `path`, given its text (the defaults
/// when there is none), checked to give valid settings.
pub fn config_from_file(contents: Option<&str>, path: &str) -> (r: Result<Config, ConfigError>)
    ensures
        match contents {
            None => r matches Ok(c) && config_of(c, Seq::empty()),
            Some(text) => file_config_outcome(text@, path@, r),
        },
{
    match contents {
        None => Ok(Config::default()),
        Some(text) => {
            let doc = match parse_toml(text) {
                Err(message) => {
                    return Err(ConfigError::Parse { path: path.to_owned(), message });
                },
                Ok(doc) => doc,
            };
            let config = match config_from_document(&doc) {
                Err(message) => {
                    return Err(ConfigError::Parse { path: path.to_owned(), message });
                },
                Ok(config) => config,
            };
            match settings_from_config(&config, path) {
                Ok(_) => Ok(config),
                Err(e) => Err(e),
            }
        },
    }
}

/// Where the config file is: `ASOBY_CONFIG` when set (it must not be
/// empty), else `asoby/config.toml` under `XDG_CONFIG_HOME` when set and
/// not empty, else under `~/.config`.
pub open spec fn config_path_for(
    config_override: Option<Seq<char>>,
    xdg_config_home: Option<Seq<char>>,
    home: Option<Seq<char>>,
) -> Result<Seq<char>, ConfigError> {
    match config_override {
        Some(p) => if p.len() == 0 {
            Err(ConfigError::EmptyOverride)
        } else {
            Ok(p)
        },
        None => match xdg_config_home {
            Some(x) if x.len() > 0 => Ok(join(join(x, "asoby"@), "config.toml"@)),
            _ => match home {
                Some(h) => Ok(join(join(join(h, ".config"@), "asoby"@), "config.toml"@)),
                None => Err(ConfigError::PathUnavailable),
            },
        },
    }
}

/// The config file's path from the environment's values; the system's
/// own config directory is not consulted on Unix.
pub fn resolve_config_path(
    config_override: Option<&str>,
    xdg_config_home: Option<&str>,
    home: Option<&str>,
    os_config_dir: Option<&str>,
) -> (r: Result<String, ConfigError>)
    ensures
        match config_path_for(
            match config_override {
                Some(p) => Some(p@),
                None => None,
            },
            match xdg_config_home {
                Some(p) => Some(p@),
                None => None,
            },
            match home {
                Some(p) => Some(p@),
                None => None,
            },
        ) {
            Ok(p) => r matches Ok(q) && q@ == p,
            Err(ConfigError::EmptyOverride) => r matches Err(ConfigError::EmptyOverride),
            Err(_) => r matches Err(ConfigError::PathUnavailable),
        },
{
    if let Some(path) = config_override {
        if path.is_empty() {
            return Err(ConfigError::EmptyOverride);
        }
        return Ok(path.to_owned());
    }
    if let Some(path) = xdg_config_home {
        if !path.is_empty() {
            let dir = join_str(path, "asoby");
            return Ok(join_str(dir.as_str(), "config.toml"));
        }
    }
    match home {
        Some(h) => {
            let dir = join_str(h, ".config");
            let dir = join_str(dir.as_str(), "asoby");
            Ok(join_str(dir.as_str(), "config.toml"))
        },
        None => Err(ConfigError::PathUnavailable),
    }
}

/// The words that `shell_words::split` splits `s` into, or `None` when the
/// quoting is unbalanced.
pub uninterp spec fn shell_split(s: Seq<char>) -> Option<Seq<Seq<char>>>;

/// Splits a command line into words with `shell_words::split`; the result
/// is the named split.
#[verifier::external_body]
fn split_words(s: &str) -> (r: Option<Vec<String>>)
    ensures
        match r {
            Some(words) => shell_split(s@) == Some(words@.map_values(|w: String| w@)),
            None => shell_split(s@) is None,
        },
{
    shell_words::split(s).ok()
}

/// The editor command of `VISUAL`, else of `EDITOR`, whichever is set and
/// not blank first.
pub open spec fn chosen_editor(visual: Option<Seq<char>>, editor: Option<Seq<char>>) -> Option<Seq<char>> {
    match visual {
        Some(v) if !is_blank(v) => Some(v),
        _ => match editor {
            Some(e) if !is_blank(e) => Some(e),
            _ => None,
        },
    }
}

pub open spec fn opt_str_view(o: Option<&str>) -> Option<Seq<char>> {
    match o {
        Some(s) => Some(s@),
        None => None,
    }
}

/// The program and arguments that `config edit` runs, before the config
/// file's path: the chosen editor command split into words.
pub fn edit(visual: Option<&str>, editor: Option<&str>) -> (r: Result<(String, Vec<String>), ConfigError>)
    ensures
        match chosen_editor(opt_str_view(visual), opt_str_view(editor)) {
            None => r matches Err(ConfigError::EditorUnavailable),
            Some(command) => match shell_split(command) {
                Some(words) if words.len() > 0 => r matches Ok((program, args)) && program@ == words[0]
                    && args@.map_values(|w: String| w@) == words.skip(1),
                _ => r matches Err(ConfigError::InvalidEditor(e)) && e@ == command,
            },
        },
{
    let command = match visual {
        Some(v) if !str_is_blank(v) => v,
        _ => match editor {
            Some(e) if !str_is_blank(e) => e,
            _ => {
                return Err(ConfigError::EditorUnavailable);
            },
        },
    };
    let words = match split_words(command) {
        Some(words) => words,
        None => {
            return Err(ConfigError::InvalidEditor(command.to_owned()));
        },
    };
    if words.len() == 0 {
        return Err(ConfigError::InvalidEditor(command.to_owned()));
    }
    let program = words[0].clone();
    let mut args: Vec<String> = Vec::new();
    let mut i: usize = 1;
    while i < words.len()
        invariant
            1 <= i <= words@.len(),
            args@.len() == i - 1,
            forall|j: int| 0 <= j < i - 1 ==> #[trigger] args@[j]@ == words@[j + 1]@,
        decreases words@.len() - i,
    {
        args.push(words[i].clone());
        i += 1;
    }
    assert(args@.map_values(|w: String| w@) =~= words@.map_values(|w: String| w@).skip(1));
    Ok((program, args))
}
} // verus!
