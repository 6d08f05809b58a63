use std::path::PathBuf;

use dev_dashboard::paths::{
    daemon_file_in, get_config_path, get_daemon_dir, get_daemon_file_path, place_below,
};

#[test]
fn places_below_a_directory() {
    let place = place_below(Some(PathBuf::from("/home/me/.config")), "projects.conf");
    assert_eq!(place.base, Some(PathBuf::from("/home/me/.config")));
    assert_eq!(place.names, vec!["dev-dashboard", "projects.conf"]);
}

#[test]
fn places_without_a_directory() {
    let place = place_below(None, "projects.conf");
    assert_eq!(place.base, None);
    assert_eq!(place.names, vec![".", "dev-dashboard", "projects.conf"]);
}

#[test]
fn daemon_has_a_file_of_its_own() {
    let dir = place_below(Some(PathBuf::from("/c")), "daemons");
    let file = daemon_file_in(dir, "web");
    assert_eq!(file.base, Some(PathBuf::from("/c")));
    assert_eq!(file.names, vec!["dev-dashboard", "daemons", "web.json"]);
}

#[test]
fn configuration_directory_is_asked_for() {
    let base = dirs::config_dir();
    let config = get_config_path();
    assert_eq!(config.base, base);
    assert!(config.names.ends_with(&["dev-dashboard".to_string(), "projects.conf".to_string()]));
    assert_eq!(get_daemon_dir().base, base);
    let file = get_daemon_file_path("api");
    assert_eq!(file.base, base);
    assert_eq!(file.names.last().unwrap(), "api.json");
}
