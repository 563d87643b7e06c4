use gdpm::errors::PluginError;
use gdpm::install::{addon_path, engine_install_paths, install_plan, plan_install, sync_install_result, InstallPlan};
use gdpm::paths::{path_is_relative, with_extension};
use gdpm::plugins::{Dependency, DependencySource};
use gdpm::types::version::{GodotVersion, SystemVersion};

fn dep(name: &str, source: &str) -> Dependency {
    Dependency {
        name: name.to_string(),
        version: "1.0".to_string(),
        checksum: String::new(),
        source: DependencySource::from_value(source),
    }
}

#[test]
fn test_with_extension() {
    assert_eq!(with_extension("/a/download", "zip"), "/a/download.zip");
    assert_eq!(with_extension("/a/Godot_v4.2-stable_linux.x86_64", "x86_64"), "/a/Godot_v4.2-stable_linux.x86_64");
    assert_eq!(with_extension("/a/Godot_v4.2-stable_macos.universal", "app"), "/a/Godot_v4.2-stable_macos.app");
    assert_eq!(with_extension("/a.b/c", "d"), "/a.b/c.d");
    assert_eq!(with_extension("/a/.hidden", "d"), "/a/.hidden.d");
    assert!(path_is_relative("../x"));
    assert!(!path_is_relative("/x"));
}

#[test]
fn test_engine_install_paths() {
    let v = GodotVersion::parse("4.2", SystemVersion::LinuxX64).unwrap();
    let p = engine_install_paths("/cfg/gdpm/engines", &v, SystemVersion::LinuxX64);
    assert_eq!(p.version_path, "/cfg/gdpm/engines/4.2");
    assert_eq!(p.extraction_path, "/cfg/gdpm/engines/4.2/temp");
    assert_eq!(p.zip_path, "/cfg/gdpm/engines/4.2/download.zip");
    assert_eq!(p.executable_source, "/cfg/gdpm/engines/4.2/temp/Godot_v4.2-stable_linux.x86_64");
    assert_eq!(p.executable_target, "/cfg/gdpm/engines/4.2/godot.x86_64");
    assert_eq!(p.mono_source, None);

    let v = GodotVersion::parse("4.2.rc1.mono", SystemVersion::Win64).unwrap();
    let p = engine_install_paths("/e", &v, SystemVersion::Win64);
    assert_eq!(p.executable_source, "/e/4.2.rc1.mono/temp/Godot_v4.2-rc1_mono_win64/Godot_v4.2-rc1_mono_win64.exe");
    assert_eq!(p.executable_target, "/e/4.2.rc1.mono/godot.exe");
    assert_eq!(p.mono_source.as_deref(), Some("/e/4.2.rc1.mono/temp/Godot_v4.2-rc1_mono_win64/GodotSharp"));
}

#[test]
fn test_install_plan() {
    assert_eq!(addon_path("/proj", &dep("gut", ".")), "/proj/addons/gut");
    match install_plan(&dep("gut", "."), "/proj") {
        InstallPlan::FromProject(p) => assert_eq!(p, "/proj"),
        other => panic!("unexpected {:?}", other),
    }
    match install_plan(&dep("gut", "../other"), "/proj") {
        InstallPlan::CopyFrom(src, addons) => {
            assert_eq!(src, "/proj/../other");
            assert_eq!(addons, "/proj/addons");
        },
        other => panic!("unexpected {:?}", other),
    }
    match install_plan(&dep("gut", "/abs/other"), "/proj") {
        InstallPlan::CopyFrom(src, _) => assert_eq!(src, "/abs/other"),
        other => panic!("unexpected {:?}", other),
    }
    match install_plan(&dep("gut", "git@host:gut.git"), "/proj") {
        InstallPlan::CloneSsh(url, work, clone, addons) => {
            assert_eq!(url, "git@host:gut.git");
            assert_eq!(work, "/proj/.gdpm");
            assert_eq!(clone, "/proj/.gdpm/gut");
            assert_eq!(addons, "/proj/addons");
        },
        other => panic!("unexpected {:?}", other),
    }
}

#[test]
fn test_install_plan_git_http() {
    match install_plan(&dep("gut", "https://github.com/example/repo"), "/proj") {
        InstallPlan::CloneHttp(url, work, clone, addons) => {
            assert_eq!(url, "https://github.com/example/repo");
            assert_eq!(work, "/proj/.gdpm");
            assert_eq!(clone, "/proj/.gdpm/gut");
            assert_eq!(addons, "/proj/addons");
        },
        other => panic!("unexpected {:?}", other),
    }
}

#[test]
fn test_plan_install_already_installed() {
    match plan_install(&dep("gut", "."), "/proj", true) {
        Err(PluginError::AlreadyInstalled(n)) => assert_eq!(n, "gut"),
        other => panic!("unexpected {:?}", other),
    }
    match plan_install(&dep("gut", "."), "/proj", false) {
        Ok(InstallPlan::FromProject(p)) => assert_eq!(p, "/proj"),
        other => panic!("unexpected {:?}", other),
    }
}

#[test]
fn test_sync_install_result() {
    assert!(matches!(sync_install_result(Err(PluginError::AlreadyInstalled("gut".to_string()))), Ok(None)));
    match sync_install_result(Err(PluginError::MissingProperty("name".to_string()))) {
        Err(PluginError::MissingProperty(n)) => assert_eq!(n, "name"),
        other => panic!("unexpected {:?}", other),
    }
}
