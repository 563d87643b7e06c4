use gdpm::errors::ProjectError;
use gdpm::project::{GdProjectInfo, ProjectHandler};
use gdpm::settings::{GdSettings, GdValue};
use gdpm::types::version::{GodotVersion, SystemVersion};

const SYS: SystemVersion = SystemVersion::LinuxX64;

fn s(v: &str) -> GdValue {
    GdValue::String(v.to_string())
}

fn project(name: Option<&str>, version: Option<&str>, engine: Option<&str>) -> GdSettings {
    let mut settings = GdSettings::new();
    if let Some(n) = name {
        settings.set_property("application", "config/name", s(n));
    }
    if let Some(v) = version {
        settings.set_property("application", "config/version", s(v));
    }
    if let Some(e) = engine {
        settings.set_property("engine", "version", s(e));
    }
    settings.set_property("application", "run/main_scene", s("res://main.tscn"));
    settings
}

#[test]
fn test_project_info() {
    let info = GdProjectInfo::from_settings(project(Some("Demo"), Some("1.2"), Some("4.2")), SYS).unwrap();
    assert_eq!(info.get_versioned_name(), "Demo (v1.2)");
    assert_eq!(info.get_engine_version(), Some(&GodotVersion::parse("4.2", SYS).unwrap()));
    assert_eq!(info.get_project_name(), "Demo");
    assert_eq!(info.get_main_scene().map(|x| x.as_str()), Some("res://main.tscn"));

    let info = GdProjectInfo::from_settings(project(Some("Demo"), None, None), SYS).unwrap();
    assert_eq!(info.get_versioned_name(), "Demo");
    assert_eq!(info.get_engine_version(), None);
    assert_eq!(info.get_version(), None);
}

#[test]
fn test_project_info_errors() {
    match GdProjectInfo::from_settings(project(None, None, None), SYS) {
        Err(ProjectError::MissingProperty(p)) => assert_eq!(p, "application -> config/name"),
        other => panic!("unexpected {:?}", other),
    }
    assert!(matches!(
        GdProjectInfo::from_settings(project(Some("Demo"), None, Some("garbage")), SYS),
        Err(ProjectError::VersionError(_))
    ));
}

#[test]
fn test_set_and_unset_project_engine() {
    let mut handler = ProjectHandler::new(project(Some("Demo"), None, None), SYS);
    let v = GodotVersion::parse("3.5.rc2.mono", SYS).unwrap();
    handler.set_project_engine(&v);
    assert_eq!(handler.get_project_info().unwrap().get_engine_version(), Some(&v));
    handler.unset_project_engine().unwrap();
    assert_eq!(handler.get_project_info().unwrap().get_engine_version(), None);
    assert!(matches!(handler.unset_project_engine(), Err(ProjectError::ConfigError(_))));
}
