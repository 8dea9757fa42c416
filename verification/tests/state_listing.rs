use asoby::commands::shorten_home;

#[test]
fn paths_under_home_are_shortened() {
    let home = "/home/user";
    assert_eq!(shorten_home("/home/user/games/s.state", home), "~/games/s.state");
    assert_eq!(shorten_home("/home/user", home), "~");
}

#[test]
fn paths_outside_home_stay_absolute() {
    let home = "/home/user";
    assert_eq!(shorten_home("/opt/asoby/s.state", home), "/opt/asoby/s.state");
}

#[test]
fn root_home_is_not_shortened() {
    assert_eq!(shorten_home("/etc/passwd", "/"), "/etc/passwd");
}

#[test]
fn home_prefix_matches_whole_components() {
    assert_eq!(shorten_home("/home/username/x", "/home/user"), "/home/username/x");
    assert_eq!(shorten_home("/home/user/x", "/home/user/"), "~/x");
}

#[test]
fn an_empty_home_prefixes_every_path() {
    assert_eq!(shorten_home("games/s.state", ""), "~/games/s.state");
    assert_eq!(shorten_home("/a/b", ""), "~//a/b");
}
