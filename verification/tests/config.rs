use asoby::config::settings::{
    edit, load_settings, parse_settings, resolve_config_path, AudioSettings, ConfigError,
    DisplaySettings, PathSettings, StatusSettings,
};
use asoby::renderer::RendererMode;

fn parse(text: &str) -> Result<asoby::config::settings::Settings, ConfigError> {
    parse_settings(text, "config.toml")
}

#[test]
fn asobou_config_has_highest_priority() {
    let path = resolve_config_path(Some("custom.toml"), Some("/xdg"), Some("/home/user"), Some("/native")).unwrap();
    assert_eq!(path, "custom.toml");
}

#[test]
fn xdg_config_home_is_used_when_override_is_absent() {
    let path = resolve_config_path(None, Some("/xdg"), Some("/home/user"), Some("/native")).unwrap();
    assert_eq!(path, "/xdg/asoby/config.toml");
}

#[test]
fn unix_fallback_uses_dot_config() {
    let path = resolve_config_path(None, None, Some("/home/user"), Some("/native")).unwrap();
    assert_eq!(path, "/home/user/.config/asoby/config.toml");
}

#[test]
fn missing_config_uses_default_bindings() {
    let settings = load_settings(None, "missing.toml").unwrap();
    assert_eq!(settings.input_bindings.quit_name(), "escape");
}

#[test]
fn partial_config_keeps_unspecified_defaults() {
    let settings = parse("[input]\na = \"v\"\n").unwrap();
    assert_eq!(settings.input_bindings.quit_name(), "escape");
    assert_eq!(settings.input_bindings.rewind_name(), "r");
    assert!(settings.input_bindings.rewind_enabled());
    assert_eq!(
        settings.display,
        DisplaySettings { renderer: RendererMode::Auto, fps: 60, primary_screen: false }
    );
    assert_eq!(settings.audio, AudioSettings { muted: false });
    assert!(settings.rewind.enabled);
    assert_eq!(settings.rewind.granularity, 2);
    assert_eq!(settings.rewind.buffer_size, 20 * 1024 * 1024);
}

#[test]
fn display_and_audio_settings_are_configurable() {
    let settings = parse(
        "[display]\nrenderer = \"ascii\"\nfps = 30\nprimary_screen = true\n\n[audio]\nmuted = true\n",
    )
    .unwrap();
    assert_eq!(
        settings.display,
        DisplaySettings { renderer: RendererMode::Ascii, fps: 30, primary_screen: true }
    );
    assert_eq!(settings.audio, AudioSettings { muted: true });
}

#[test]
fn display_fps_must_be_in_range() {
    for fps in [0, 241] {
        let error = parse(&format!("[display]\nfps = {fps}\n")).unwrap_err();
        assert!(error.message().contains("fps"));
    }
}

#[test]
fn status_defaults_to_both_groups_visible() {
    let settings = parse("").unwrap();
    assert_eq!(settings.status, StatusSettings { enabled: true, gamepad: true, controls: true });
}

#[test]
fn status_groups_are_independently_configurable() {
    let settings = parse("[status]\nenabled = true\ngamepad = false\ncontrols = true\n").unwrap();
    assert_eq!(settings.status, StatusSettings { enabled: true, gamepad: false, controls: true });
}

#[test]
fn unknown_status_config_fields_are_rejected() {
    let error = parse("[status]\nsession = true\n").unwrap_err();
    assert!(error.message().contains("session"));
}

#[test]
fn rewind_can_be_disabled() {
    let settings = parse("[rewind]\nenabled = false\n").unwrap();
    assert!(!settings.rewind.enabled);
    assert!(!settings.input_bindings.rewind_enabled());
}

#[test]
fn rewind_settings_are_tunable() {
    let settings = parse("[rewind]\ngranularity = 5\nbuffer_size_mb = 64\n").unwrap();
    assert!(settings.rewind.enabled);
    assert_eq!(settings.rewind.granularity, 5);
    assert_eq!(settings.rewind.buffer_size, 64 * 1024 * 1024);
}

#[test]
fn zero_granularity_is_rejected() {
    let error = parse("[rewind]\ngranularity = 0\n").unwrap_err();
    assert!(error.message().contains("granularity"));
}

#[test]
fn zero_buffer_size_is_rejected() {
    let error = parse("[rewind]\nbuffer_size_mb = 0\n").unwrap_err();
    assert!(error.message().contains("buffer_size_mb"));
}

#[test]
fn duplicate_keys_are_rejected() {
    let error = parse("[input]\na = \"z\"\n").unwrap_err();
    assert!(error.message().contains("already bound"));
}

#[test]
fn combinations_are_rejected() {
    let error = parse("[input]\na = \"ctrl+x\"\n").unwrap_err();
    assert!(error.message().contains("key combinations"));
}

#[test]
fn save_on_exit_defaults_to_false() {
    let settings = parse("[rewind]\nenabled = false\n").unwrap();
    assert!(!settings.state.save_on_exit);
}

#[test]
fn save_on_exit_parses_when_enabled() {
    let settings = parse("[state]\nsave_on_exit = true\n").unwrap();
    assert!(settings.state.save_on_exit);
}

#[test]
fn resume_defaults_to_false() {
    let settings = parse("[rewind]\nenabled = false\n").unwrap();
    assert!(!settings.state.resume);
}

#[test]
fn resume_parses_when_enabled() {
    let settings = parse("[state]\nresume = true\n").unwrap();
    assert!(settings.state.resume);
}

#[test]
fn save_and_load_bindings_are_configurable() {
    let settings = parse("[input]\nsave_state = \"f1\"\nload_state = \"f3\"\n").unwrap();
    assert!(settings.input_bindings.controls_status_line().contains("Save-f1 Load-f3"));
}

#[test]
fn unknown_state_config_fields_are_rejected() {
    let error = parse("[state]\nprune = true\n").unwrap_err();
    assert!(error.message().contains("prune"));
}

#[test]
fn paths_settings_default_to_unset() {
    let settings = parse("").unwrap();
    assert_eq!(settings.paths, PathSettings { data_dir: None, cache_dir: None });
}

const ABSOLUTE_DATA_DIR: &str = "/custom/data";

#[test]
fn paths_settings_carry_raw_configured_values() {
    let settings =
        parse(&format!("[paths]\ndata_dir = '{ABSOLUTE_DATA_DIR}'\ncache_dir = '~/cache'\n")).unwrap();
    assert_eq!(
        settings.paths,
        PathSettings { data_dir: Some(ABSOLUTE_DATA_DIR.into()), cache_dir: Some("~/cache".into()) }
    );
}

#[test]
fn relative_paths_values_are_rejected() {
    for value in ["relative", "~user/data", "./data"] {
        let error = parse(&format!("[paths]\ndata_dir = \"{value}\"\n")).unwrap_err();
        assert!(error.message().contains("absolute"), "{value}: {}", error.message());
    }
}

#[test]
fn empty_path_values_are_rejected() {
    let error = parse("[paths]\ncache_dir = \"\"\n").unwrap_err();
    assert!(error.message().contains("empty"));
}

#[test]
fn absolute_and_tilde_path_values_are_accepted() {
    for value in [ABSOLUTE_DATA_DIR, "~", "~/games"] {
        let settings = parse(&format!("[paths]\ndata_dir = '{value}'\n")).unwrap();
        assert_eq!(settings.paths.data_dir.as_deref(), Some(value));
    }
}

#[test]
fn unknown_paths_config_fields_are_rejected() {
    let error = parse("[paths]\nsaves_dir = \"/tmp\"\n").unwrap_err();
    assert!(error.message().contains("saves_dir"));
}

#[test]
fn invalid_toml_is_a_parse_error() {
    let error = parse("[display\n").unwrap_err();
    assert!(matches!(error, ConfigError::Parse { .. }));
    assert!(error.message().contains("config.toml"));
}

#[test]
fn wrongly_typed_values_are_rejected() {
    let error = parse("[display]\nfps = \"fast\"\n").unwrap_err();
    assert!(error.message().contains("invalid type: string \"fast\", expected u32"));
    let error = parse("[display]\nrenderer = \"fancy\"\n").unwrap_err();
    assert!(error.message().contains("fancy"));
}

#[test]
fn editor_prefers_visual_and_splits_arguments() {
    let (program, args) = edit(Some("code --wait"), Some("vi")).unwrap();
    assert_eq!(program, "code");
    assert_eq!(args, vec!["--wait".to_string()]);
    let (program, args) = edit(None, Some("vi")).unwrap();
    assert_eq!((program.as_str(), args.len()), ("vi", 0));
    assert!(matches!(edit(None, None), Err(ConfigError::EditorUnavailable)));
}
