use asoby::paths::{brew_cache_dir, cores_dir, resolve_cache_base_from, resolve_data_base_from, states_dir, BaseDirs};

#[test]
fn config_data_dir_wins_over_xdg_env() {
    let base = resolve_data_base_from(Some("/xdg"), Some("/config"), Some("/platform"), Some("/home/user"));
    assert_eq!(base, "/config");
}

#[test]
fn xdg_data_home_is_used_when_config_is_unset() {
    let base = resolve_data_base_from(Some("/xdg"), None, Some("/platform"), None);
    assert_eq!(base, "/xdg/asoby");
}

#[test]
fn empty_xdg_vars_are_treated_as_unset() {
    let base = resolve_data_base_from(Some(""), None, Some("/platform"), None);
    assert_eq!(base, "/platform/asoby");
}

#[test]
fn config_data_dir_wins_over_platform() {
    let base = resolve_data_base_from(None, Some("/config"), Some("/platform"), None);
    assert_eq!(base, "/config");
}

#[test]
fn config_data_dir_expands_tilde() {
    let base = resolve_data_base_from(None, Some("~/games"), Some("/platform"), Some("/home/user"));
    assert_eq!(base, "/home/user/games");
}

#[test]
fn bare_tilde_expands_to_home() {
    let base = resolve_data_base_from(None, Some("~"), Some("/platform"), Some("/home/user"));
    assert_eq!(base, "/home/user");
}

#[test]
fn absolute_config_value_passes_through() {
    let base = resolve_data_base_from(None, Some("/custom/data"), Some("/platform"), Some("/home/user"));
    assert_eq!(base, "/custom/data");
}

#[test]
fn platform_fallback_appends_asobou() {
    let base = resolve_data_base_from(None, None, Some("/platform"), None);
    assert_eq!(base, "/platform/asoby");
}

#[test]
fn cache_resolution_follows_the_same_precedence() {
    let base = resolve_cache_base_from(Some("/xdg"), Some("/config"), Some("/platform"), Some("/home/user"));
    assert_eq!(base, "/config");
    let base = resolve_cache_base_from(Some("/xdg"), None, Some("/platform"), Some("/home/user"));
    assert_eq!(base, "/xdg/asoby");
    let base = resolve_cache_base_from(None, Some("~/cache"), Some("/platform"), Some("/home/user"));
    assert_eq!(base, "/home/user/cache");
}

fn sample_dirs() -> BaseDirs {
    BaseDirs {
        xdg_data_home: None,
        xdg_cache_home: None,
        data_local_dir: Some("/platform/data".to_owned()),
        cache_dir: Some("/platform/cache".to_owned()),
        home_dir: Some("/home/user".to_owned()),
    }
}

#[test]
fn feature_dirs_are_subdirectories_of_the_base() {
    let dirs = sample_dirs();
    assert_eq!(cores_dir(&dirs, None), format!("{}/cores", dirs.data_base(None)));
    assert_eq!(states_dir(&dirs, None), format!("{}/states", dirs.data_base(None)));
    assert_eq!(brew_cache_dir(&dirs, None), format!("{}/brew", dirs.cache_base(None)));
    assert_eq!(cores_dir(&dirs, None), "/platform/data/asoby/cores");
}

#[test]
fn relative_configured_dir_is_kept_without_home() {
    assert_eq!(resolve_data_base_from(None, Some("data"), Some("/platform"), None), "data");
    assert_eq!(cores_dir(&sample_dirs(), Some("~/x")), "/home/user/x/cores");
}
