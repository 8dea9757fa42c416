use asoby::brew::{cache_dir_from, source_for, source_url};

#[test]
fn supported_extensions_select_the_expected_repository() {
    let cases = [
        ("game.gbc", "retrobrews/gbc-games"),
        ("game.rom", "retrobrews/colecovision-games"),
        ("game.nes", "retrobrews/nes-games"),
        ("game.sms", "retrobrews/sms-games"),
        ("game.gba", "retrobrews/gba-games"),
        ("game.sfc", "retrobrews/snes-games"),
        ("game.d64", "retrobrews/c64-games"),
        ("game.tap", "retrobrews/zxspectrum-games"),
    ];
    for (game, repository) in cases {
        assert_eq!(source_for(game).unwrap().repository, repository);
    }
}

#[test]
fn unsupported_extension_is_rejected() {
    let error = source_for("game.bin").unwrap_err();
    assert!(error.contains(".bin"));
}

#[test]
fn path_is_rejected() {
    let error = source_for("games/game.nes").unwrap_err();
    assert!(error.contains("filename"));
}

#[test]
fn url_encodes_the_game_filename() {
    let source = source_for("my game.nes").unwrap();
    assert_eq!(
        source_url(source, "my game.nes"),
        "https://raw.githubusercontent.com/retrobrews/nes-games/refs/heads/master/my%20game.nes"
    );
}

#[test]
fn cache_directory_uses_xdg_cache_home() {
    let directory = cache_dir_from(Some("/cache"), Some("/other")).unwrap();
    assert_eq!(directory, "/cache/asoby/brew");
}

#[test]
fn cache_directory_uses_platform_cache_when_xdg_is_unset() {
    let directory = cache_dir_from(None, Some("/cache")).unwrap();
    assert_eq!(directory, "/cache/asoby/brew");
}

#[test]
fn missing_cache_directory_is_an_error() {
    assert_eq!(cache_dir_from(None, None).unwrap_err(), "Could not determine a cache directory");
}

#[test]
fn reserved_and_multibyte_characters_are_percent_encoded() {
    let source = source_for("a&b é.nes").unwrap();
    assert_eq!(
        source_url(source, "a&b é.nes"),
        "https://raw.githubusercontent.com/retrobrews/nes-games/refs/heads/master/a%26b%20%C3%A9.nes"
    );
}
