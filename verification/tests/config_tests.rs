use gdpm::config::{
    configuration_directory, get_configuration_file, get_project_configuration, global_config_path,
    GLOBAL_CONFIG_FILENAME, PROJECT_CONFIG_FILENAME,
};
use gdpm::paths::join;

#[test]
fn test_get_or_create_global_directory() {
    assert_eq!(configuration_directory("/home/user/.config"), "/home/user/.config/gdpm");
}

#[test]
fn test_get_or_create_directory() {
    let dir = configuration_directory("/home/user/.config");
    assert_eq!(dir, "/home/user/.config/gdpm");
    assert_eq!(join(&dir, "foo"), "/home/user/.config/gdpm/foo");
}

#[test]
fn test_get_file() {
    let dir = configuration_directory("/home/user/.config");
    assert_eq!(get_configuration_file(&dir, "foo"), "/home/user/.config/gdpm/foo");
}

#[test]
fn test_get_or_create_file() {
    let dir = configuration_directory("/home/user/.config");
    assert_eq!(dir, "/home/user/.config/gdpm");
    assert_eq!(get_configuration_file(&dir, "foo"), "/home/user/.config/gdpm/foo");
}

#[test]
fn test_get_global_config_path() {
    let dir = configuration_directory("/home/user/.config");
    assert_eq!(
        global_config_path("/home/user/.config"),
        get_configuration_file(&dir, GLOBAL_CONFIG_FILENAME)
    );
    assert_eq!(global_config_path("/home/user/.config"), "/home/user/.config/gdpm/gdpm.cfg");
    assert_eq!(GLOBAL_CONFIG_FILENAME, "gdpm.cfg");
}

#[test]
fn test_get_project_config_path() {
    assert_eq!(get_project_configuration("/"), "/project.godot");
    assert_eq!(get_project_configuration("/games/demo"), "/games/demo/project.godot");
    assert_eq!(get_project_configuration("."), "./project.godot");
    assert_eq!(PROJECT_CONFIG_FILENAME, "project.godot");
}

#[test]
fn test_join_paths() {
    assert_eq!(join("/a/", "b"), "/a/b");
    assert_eq!(join("/a", "/b"), "/b");
    assert_eq!(join("", "b"), "b");
    assert_eq!(join("a", ""), "a/");
}
