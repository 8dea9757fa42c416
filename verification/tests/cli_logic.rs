//! What the command-line scenarios check, asked of the library functions
//! that decide them.
use asoby::brew::source_for;
use asoby::commands::{config_list_text, listing};
use asoby::config::edit::{set_value, unset_value};
use asoby::config::keys::{config_key, get, list};
use asoby::config::schema::Config;
use asoby::config::settings::config_from_file;
use asoby::config::toml_doc::parse_toml;
use asoby::paths::BaseDirs;
use asoby::cores::validate_core_name;
use asoby::emulation::state::Timestamp;
use asoby::emulation::store::{sort_entries, StateEntry};
use asoby::session::{check_launch_files, LaunchFailure};

fn entry(root: &str, core: &str, game: &str, stamp: &str) -> StateEntry {
    StateEntry {
        core: core.to_string(),
        game: game.to_string(),
        timestamp: Timestamp::parse(stamp).unwrap(),
        path: format!("{root}/{core}/{game}/{game}.{stamp}.state"),
        counter: 1,
    }
}

#[test]
fn brew_rejects_unsupported_extensions_without_network() {
    let error = source_for("game.bin").unwrap_err();
    assert!(error.contains("Unsupported homebrew game extension: .bin"));
}

#[test]
fn core_install_rejects_invalid_names_without_network() {
    let error = validate_core_name("a/b").unwrap_err();
    assert!(error.contains("Invalid core name"));
}

#[test]
fn state_list_shows_core_game_saved_and_absolute_path() {
    let state = entry("/tmp/states", "fceumm", "Super Mario Bros.nes", "20260802T151205.903+0800");
    let path = state.path.clone();

    let stdout = listing(&sort_entries(vec![state]), None, None, None);

    assert!(stdout.contains("CORE"));
    assert!(stdout.contains("GAME"));
    assert!(stdout.contains("SAVED"));
    assert!(stdout.contains("PATH"));
    assert!(stdout.contains("fceumm"));
    assert!(stdout.contains("Super Mario Bros.nes"));
    assert!(stdout.contains("2026-08-02 15:12:05 +08:00"));
    assert!(stdout.contains(&path));
    assert!(!stdout.contains("SIZE"));
}

#[test]
fn state_list_filters_by_rom_and_core() {
    let entries = sort_entries(vec![
        entry("/tmp/states", "fceumm", "Super Mario Bros.nes", "20260802T151205.903+0800"),
        entry("/tmp/states", "nestopia", "Super Mario Bros.nes", "20260802T154831.027+0800"),
        entry("/tmp/states", "fceumm", "Contra.zip", "20260802T160011.412+0800"),
    ]);

    let stdout = listing(&entries, Some("Super Mario Bros.nes"), None, None);
    assert!(stdout.contains("20260802T151205.903+0800"));
    assert!(stdout.contains("20260802T154831.027+0800"));
    assert!(!stdout.contains("Contra"));

    let stdout = listing(&entries, Some("Super Mario Bros.nes"), Some("nestopia"), None);
    assert!(stdout.contains("nestopia"));
    assert!(stdout.contains("20260802T154831.027+0800"));
    assert!(!stdout.contains("fceumm"));
    assert!(!stdout.contains("20260802T151205.903+0800"));
}

#[test]
fn state_list_empty_reports_no_states() {
    let stdout = listing(&Vec::new(), None, None, None);
    assert!(stdout.contains("No save states found."));
}

#[test]
fn nonexistent_state_path_fails_clearly() {
    let failure = check_launch_files(Some("/nonexistent/path.state"), false, "missing.rom", false).unwrap_err();
    assert!(matches!(failure, LaunchFailure::MissingState(_)));
    assert!(failure.message().contains("state file not found"));
}

#[test]
fn config_get_prints_effective_values() {
    let config = Config::default();
    let value = |key: &str| get(key, &config, "/data/asoby", "/cache/asoby");

    assert_eq!(value("input.a").unwrap(), "x");
    assert_eq!(value("rewind.enabled").unwrap(), "true");
    assert_eq!(value("status.controls").unwrap(), "true");
    assert_eq!(value("display.renderer").unwrap(), "auto");
    assert_eq!(value("display.fps").unwrap(), "60");
    assert_eq!(value("display.primary_screen").unwrap(), "false");
    assert_eq!(value("audio.muted").unwrap(), "false");
    assert!(value("input.l").unwrap_err().message().contains("is unset"));
}

#[test]
fn config_set_paths_data_dir_rejects_relative_values() {
    let error = set_value("paths.data_dir", "relative", None, "/tmp/config.toml").unwrap_err();
    assert!(error.message().contains("absolute"));
}

#[test]
fn config_get_paths_data_dir_uses_xdg_env_when_unset() {
    let config = Config::default();
    assert_eq!(get("paths.data_dir", &config, "/xdg/data/asoby", "/xdg/cache/asoby").unwrap(), "/xdg/data/asoby");
}

const CONFIG: &str = "/tmp/asoby-test/config.toml";

/// Base directories of a machine whose home is `/home/player`, with the
/// given XDG data home.
fn dirs(xdg_data_home: Option<&str>) -> BaseDirs {
    BaseDirs {
        xdg_data_home: xdg_data_home.map(str::to_string),
        xdg_cache_home: None,
        data_local_dir: Some("/home/player/.local/share".to_string()),
        cache_dir: Some("/home/player/.cache".to_string()),
        home_dir: Some("/home/player".to_string()),
    }
}

/// The line `config get` or `config set` prints for `key` under `config`.
fn effective(key: &str, config: &Config, dirs: &BaseDirs) -> Result<String, String> {
    let data = dirs.data_base(config.paths.data_dir.as_deref());
    let cache = dirs.cache_base(config.paths.cache_dir.as_deref());
    get(key, config, &data, &cache).map_err(|e| e.message())
}

/// `config set`: the new file text and the printed line.
fn set(file: &Option<String>, key: &str, value: &str) -> Result<(String, String), String> {
    let (text, config) = set_value(key, value, file.as_deref(), CONFIG).map_err(|e| e.message())?;
    let line = format!("{key} = {}", effective(key, &config, &dirs(None))?);
    Ok((text, line))
}

/// `config unset`: the new file text and the printed line.
fn unset(file: &Option<String>, key: &str) -> Result<(Option<String>, String), String> {
    let (write, config) = unset_value(key, file.as_deref(), CONFIG).map_err(|e| e.message())?;
    let value = effective(key, &config, &dirs(None)).unwrap_or_else(|_| "<unset>".to_string());
    Ok((write, format!("{key} = {value}")))
}

/// `config get` with a file.
fn get_with(file: &str, key: &str, xdg_data_home: Option<&str>) -> Result<String, String> {
    config_key(key).map_err(|e| e.message())?;
    let config = config_from_file(Some(file), CONFIG).map_err(|e| e.message())?;
    effective(key, &config, &dirs(xdg_data_home))
}

#[test]
fn config_list_shows_supported_keys_values_and_sources() {
    let file = "[rewind]\nenabled = false\n";
    let config = config_from_file(Some(file), CONFIG).unwrap();
    let document = parse_toml(file).unwrap();
    let d = dirs(None);
    let data = d.data_base(config.paths.data_dir.as_deref());
    let cache = d.cache_base(config.paths.cache_dir.as_deref());

    let stdout = config_list_text(&list(&config, &document, &data, &cache));

    assert!(stdout.starts_with("KEY"));
    assert_eq!(stdout.lines().count(), 35);
    let configured = stdout.lines().find(|line| line.starts_with("rewind.enabled")).unwrap();
    assert!(configured.contains("false"));
    assert!(configured.ends_with("config"));
    let default = stdout.lines().find(|line| line.starts_with("input.a")).unwrap();
    assert!(default.contains("x"));
    assert!(default.ends_with("default"));
    let resume = stdout.lines().find(|line| line.starts_with("state.resume")).unwrap();
    assert!(resume.contains("false"));
    assert!(resume.ends_with("default"));
    let optional = stdout.lines().find(|line| line.starts_with("input.l ")).unwrap();
    assert!(optional.contains("<unset>"));
    assert!(optional.ends_with("default"));
}

#[test]
fn config_set_creates_minimal_typed_overrides() {
    let mut file: Option<String> = None;

    let (text, line) = set(&file, "rewind.buffer_size_mb", "64").unwrap();
    assert_eq!(line, "rewind.buffer_size_mb = 64");
    assert_eq!(text, "[rewind]\nbuffer_size_mb = 64\n");
    file = Some(text);

    let (text, line) = set(&file, "state.save_on_exit", "true").unwrap();
    assert_eq!(line, "state.save_on_exit = true");
    assert!(text.contains("buffer_size_mb = 64"));
    assert!(text.contains("save_on_exit = true"));
    file = Some(text);

    let (text, line) = set(&file, "state.resume", "true").unwrap();
    assert_eq!(line, "state.resume = true");
    assert!(text.contains("resume = true"));
    file = Some(text);

    let (text, line) = set(&file, "status.gamepad", "false").unwrap();
    assert_eq!(line, "status.gamepad = false");
    assert!(text.contains("gamepad = false"));
}

#[test]
fn config_set_preserves_comments_and_rejects_invalid_candidates() {
    let file = Some("# controls rewind\n[rewind]\nenabled = true # keep this\n\n[input]\na = \"v\"\n".to_string());

    let (valid, _) = set(&file, "rewind.granularity", "4").unwrap();
    assert!(valid.contains("# controls rewind"));
    assert!(valid.contains("enabled = true # keep this"));
    assert!(valid.contains("granularity = 4"));
    let file = Some(valid);

    let error = set(&file, "input.b", "v").unwrap_err();
    assert!(error.contains("already bound"));

    let error = set(&file, "rewind.enabled", "yes").unwrap_err();
    assert!(error.contains("expected true or false"));
}

#[test]
fn config_set_supports_display_and_audio_settings() {
    let mut file: Option<String> = None;
    for (key, value, expected) in [
        ("display.renderer", "ascii", "display.renderer = ascii"),
        ("display.fps", "30", "display.fps = 30"),
        ("display.primary_screen", "true", "display.primary_screen = true"),
        ("audio.muted", "true", "audio.muted = true"),
    ] {
        let (text, line) = set(&file, key, value).unwrap();
        assert_eq!(line, expected);
        file = Some(text);
    }

    assert_eq!(
        file.unwrap(),
        "[display]\nrenderer = \"ascii\"\nfps = 30\nprimary_screen = true\n\n[audio]\nmuted = true\n"
    );
}

#[test]
fn config_unset_restores_defaults_and_is_idempotent() {
    let file = Some("input = { l = \"q\" }\n[rewind]\nenabled = false\n".to_string());

    let (write, line) = unset(&file, "rewind.enabled").unwrap();
    assert_eq!(line, "rewind.enabled = true");
    let file = Some(write.unwrap());

    let (write, line) = unset(&file, "rewind.enabled").unwrap();
    assert_eq!(line, "rewind.enabled = true");
    assert!(write.is_none());

    let (write, line) = unset(&file, "input.l").unwrap();
    assert_eq!(line, "input.l = <unset>");
    assert!(!write.unwrap().contains("l ="));
}

#[test]
fn config_mutations_reject_unknown_keys_and_malformed_files() {
    let error = set(&None, "rewind.unknown", "1").unwrap_err();
    assert!(error.contains("unknown config key"));

    let error = config_key("rewind.buffer_size").unwrap_err().message();
    assert!(error.contains("Did you mean \"rewind.buffer_size_mb\"?"));

    let error = set(&Some("[rewind\n".to_string()), "rewind.enabled", "false").unwrap_err();
    assert!(error.contains("failed to parse config"));
}

#[test]
fn config_get_paths_data_dir_uses_config_value() {
    assert_eq!(get_with("[paths]\ndata_dir = \"/custom/data\"\n", "paths.data_dir", None).unwrap(), "/custom/data");
}

#[test]
fn config_get_paths_data_dir_expands_tilde() {
    assert_eq!(
        get_with("[paths]\ndata_dir = \"~/asoby-data\"\n", "paths.data_dir", None).unwrap(),
        "/home/player/asoby-data"
    );
}

#[test]
fn config_get_paths_data_dir_wins_over_xdg_env() {
    assert_eq!(
        get_with("[paths]\ndata_dir = \"/custom/data\"\n", "paths.data_dir", Some("/xdg/data")).unwrap(),
        "/custom/data"
    );
}

#[test]
fn config_set_paths_data_dir_stores_raw_and_reports_effective() {
    let (text, line) = set(&None, "paths.data_dir", "~/asoby-data").unwrap();
    assert_eq!(line, "paths.data_dir = /home/player/asoby-data");
    assert_eq!(text, "[paths]\ndata_dir = \"~/asoby-data\"\n");

    let (_, line) = unset(&Some(text), "paths.data_dir").unwrap();
    assert_ne!(line, "paths.data_dir = <unset>");
}

#[test]
fn state_list_shortens_home_paths_with_tilde() {
    let home = "/home/player";
    let state = entry("/home/player/data/asoby/states", "fceumm", "game.nes", "20260802T151205.903+0800");

    let stdout = listing(&vec![state], None, None, Some(home));

    assert!(stdout.contains("~/data/asoby/states/fceumm/game.nes/game.nes.20260802T151205.903+0800.state"));
    assert!(!stdout.contains(home));
}

#[test]
fn sorting_keeps_the_order_of_equal_entries() {
    let first = entry("/a", "fceumm", "game.nes", "20260802T151205.903+0800");
    let second = entry("/b", "fceumm", "game.nes", "20260802T151205.903+0800");
    let earlier = entry("/c", "fceumm", "game.nes", "20260802T151204.903+0800");
    let sorted = sort_entries(vec![first, second, earlier]);
    let paths: Vec<&str> = sorted.iter().map(|e| e.path.as_str()).collect();
    assert_eq!(paths[0], "/c/fceumm/game.nes/game.nes.20260802T151204.903+0800.state");
    assert_eq!(paths[1], "/a/fceumm/game.nes/game.nes.20260802T151205.903+0800.state");
    assert_eq!(paths[2], "/b/fceumm/game.nes/game.nes.20260802T151205.903+0800.state");
}

