use asoby::commands::config_list_text;
use asoby::config::edit::{set_value, unset_value};
use asoby::config::keys::ConfigEntry;
use asoby::config::keys::{get, list};
use asoby::config::settings::ConfigError;
use asoby::config::toml_doc::parse_toml;

#[test]
fn set_creates_the_section_in_a_new_file() {
    let (text, config) = set_value("display.fps", "30", None, "c.toml").unwrap();
    assert_eq!(config.display.fps, 30);
    assert!(text.contains("[display]"));
    assert!(text.contains("fps = 30"));
}

#[test]
fn set_keeps_comments_and_other_keys() {
    let current = "# my settings\n[audio]\nmuted = true\n";
    let (text, config) = set_value("rewind.enabled", "false", Some(current), "c.toml").unwrap();
    assert!(text.contains("# my settings"));
    assert!(text.contains("muted = true"));
    assert!(text.contains("enabled = false"));
    assert!(config.audio.muted);
    assert!(!config.rewind.enabled);
}

#[test]
fn set_writes_text_values_as_strings() {
    let (text, config) = set_value("paths.data_dir", "~/games", None, "c.toml").unwrap();
    assert!(text.contains("data_dir = \"~/games\""));
    assert_eq!(config.paths.data_dir.as_deref(), Some("~/games"));
}

#[test]
fn set_rejects_unknown_keys_and_bad_values() {
    assert!(matches!(set_value("display.speed", "1", None, "c.toml"), Err(ConfigError::UnknownKey(k)) if k == "display.speed"));
    match set_value("display.fps", "fast", None, "c.toml") {
        Err(ConfigError::InvalidValue { key, value, expected }) => {
            assert_eq!((key.as_str(), value.as_str(), expected.as_str()), ("display.fps", "fast", "a decimal integer"));
        }
        _ => panic!("expected an invalid value"),
    }
    assert!(matches!(set_value("audio.muted", "yes", None, "c.toml"), Err(ConfigError::InvalidValue { .. })));
}

#[test]
fn set_rejects_a_result_that_is_not_a_valid_configuration() {
    let error = set_value("display.fps", "0", None, "c.toml").unwrap_err();
    assert!(error.message().contains("fps"));
    let error = set_value("paths.cache_dir", "relative", None, "c.toml").unwrap_err();
    assert!(error.message().contains("absolute"));
}

#[test]
fn set_refuses_to_edit_an_invalid_file() {
    assert!(set_value("display.fps", "30", Some("[display]\nfps = 0\n"), "c.toml").is_err());
}

#[test]
fn unset_removes_the_override() {
    let (write, config) = unset_value("display.fps", Some("[display]\nfps = 30\n"), "c.toml").unwrap();
    let text = write.unwrap();
    assert!(!text.contains("fps"));
    assert_eq!(config.display.fps, 60);
}

#[test]
fn unset_without_a_file_or_override_changes_nothing() {
    let (write, config) = unset_value("display.fps", None, "c.toml").unwrap();
    assert!(write.is_none());
    assert_eq!(config.display.fps, 60);
    let (write, _) = unset_value("display.fps", Some("[audio]\nmuted = true\n"), "c.toml").unwrap();
    assert!(write.is_none());
    assert!(matches!(unset_value("nope", None, "c.toml"), Err(ConfigError::UnknownKey(_))));
}

#[test]
fn effective_values_and_their_sources_are_listed() {
    let text = "[display]\nfps = 30\n";
    let (_, config) = set_value("audio.muted", "true", Some(text), "c.toml").unwrap();
    let document = parse_toml(text).unwrap();
    let entries = list(&config, &document, "/data", "/cache");
    let fps = entries.iter().find(|e| e.key == "display.fps").unwrap();
    assert_eq!((fps.value.as_str(), fps.configured), ("30", true));
    let muted = entries.iter().find(|e| e.key == "audio.muted").unwrap();
    assert_eq!((muted.value.as_str(), muted.configured), ("true", false));
    assert_eq!(get("paths.data_dir", &config, "/data", "/cache").unwrap(), "/data");
    assert_eq!(get("input.r2", &config, "/data", "/cache").unwrap_err().message(), "config key \"input.r2\" is unset");
}

#[test]
fn config_list_columns_fit_the_longest_entry() {
    let entries = vec![
        ConfigEntry { key: "a.b", value: "1".to_owned(), configured: true },
        ConfigEntry { key: "display.fps", value: "60".to_owned(), configured: false },
    ];
    assert_eq!(
        config_list_text(&entries),
        "KEY          VALUE  SOURCE\na.b          1      config\ndisplay.fps  60     default\n"
    );
}

#[test]
fn get_after_set_reads_the_value_back() {
    let (text, config) = set_value("display.fps", "45", Some("# keep\n"), "c.toml").unwrap();
    assert_eq!(get("display.fps", &config, "/data", "/cache").unwrap(), "45");
    let (_, reread) = set_value("audio.muted", "true", Some(&text), "c.toml").unwrap();
    assert_eq!(get("display.fps", &reread, "/data", "/cache").unwrap(), "45");
    assert_eq!(get("audio.muted", &reread, "/data", "/cache").unwrap(), "true");
}

#[test]
fn unset_twice_leaves_the_file_alone_the_second_time() {
    let (write, first) = unset_value("display.fps", Some("[display]\nfps = 30\n"), "c.toml").unwrap();
    let text = write.unwrap();
    let (again, second) = unset_value("display.fps", Some(&text), "c.toml").unwrap();
    assert!(again.is_none());
    assert_eq!(first.display.fps, 60);
    assert_eq!(second.display.fps, 60);
}

#[test]
fn unknown_keys_suggest_a_key_they_begin() {
    let error = set_value("rewind.buffer_size", "1", None, "c.toml").unwrap_err();
    assert_eq!(
        error.message(),
        "unknown config key \"rewind.buffer_size\". Did you mean \"rewind.buffer_size_mb\"?"
    );
    let error = set_value("display.speed", "1", None, "c.toml").unwrap_err();
    assert_eq!(error.message(), "unknown config key \"display.speed\"");
}
