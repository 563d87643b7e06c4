use gdpm::engine::{EngineHandler, EngineInfo};
use gdpm::errors::EngineError;
use gdpm::settings::{GdSettings, GdValue};
use gdpm::types::version::{GodotVersion, SystemVersion};

const SYS: SystemVersion = SystemVersion::LinuxX64;

fn gdv(s: &str) -> GodotVersion {
    GodotVersion::parse(s, SYS).unwrap()
}

fn engine_value(path: &str, version: &str) -> GdValue {
    GdValue::Object(vec![
        ("path".to_string(), GdValue::String(path.to_string())),
        ("version".to_string(), GdValue::String(version.to_string())),
    ])
}

fn engine(path: &str, version: &str) -> EngineInfo {
    EngineInfo { path: path.to_string(), version: gdv(version) }
}

#[test]
fn test_new() {
    assert!(
        EngineInfo::new(true, gdv("1.0.0"), "/".to_string()).is_ok(),
        "engine info retrieving should work if file exists"
    );
    assert!(
        EngineInfo::new(false, gdv("1.0.0"), "/".to_string()).is_err(),
        "engine info retrieving should NOT work if file does not exist"
    );
    match EngineInfo::new(false, gdv("1.0.0"), "/bin/godot".to_string()) {
        Err(EngineError::EngineMissingFromPath(v, p)) => {
            assert_eq!(v, gdv("1.0.0"));
            assert_eq!(p, "/bin/godot");
        },
        other => panic!("unexpected {:?}", other),
    }
}

#[test]
fn engine_test_from_settings() {
    let mut settings = GdSettings::new();
    settings.set_property("engines", "1-0-0", engine_value("/hello", "1.0.0"));
    settings.set_property("engines", "2-0-0", engine_value("/hi", "2.0.0"));
    let engine_list = EngineInfo::from_settings(settings, SYS);
    assert_eq!(engine_list, vec![engine("/hello", "1.0.0"), engine("/hi", "2.0.0")]);
}

#[test]
fn test_from_gdvalue_defaults_and_non_objects() {
    assert_eq!(EngineInfo::from_gdvalue(&GdValue::Int(3), SYS), None);
    let v = GdValue::Object(vec![("version".to_string(), GdValue::String("3.5".to_string()))]);
    assert_eq!(EngineInfo::from_gdvalue(&v, SYS), Some(engine("unknown", "3.5")));
}

#[test]
fn test_to_gdvalue_roundtrip() {
    let e = engine("/opt/godot", "4.2.rc1.mono");
    let v = e.to_gdvalue();
    assert_eq!(v, engine_value("/opt/godot", "4.2.rc1.mono"));
    assert_eq!(EngineInfo::from_gdvalue(&v, SYS), Some(e));
}

#[test]
fn test_slug_and_names() {
    let e = engine("/opt/godot", "4.2.1");
    assert_eq!(e.get_slug(), "4-2-1");
    assert!(e.has_same_slug(&gdv("4.2.1")));
    assert!(!e.has_same_slug(&gdv("4.2")));
    assert!(e.is_version_4());
    assert!(!engine("/a", "3.5").is_version_4());
    assert!(engine("/a", "4").is_version_4());
    assert!(engine("/a", "4.rc1").is_version_4());
    assert!(!engine("/a", "40.1").is_version_4());
    colored::control::set_override(false);
    assert_eq!(e.get_name(), "4.2.1");
    assert_eq!(e.get_verbose_name(), "4.2.1 (/opt/godot)");
    colored::control::set_override(true);
    assert_eq!(e.get_name(), "\x1b[32m4.2.1\x1b[0m");
    assert_eq!(e.get_verbose_name(), "\x1b[32m4.2.1\x1b[0m (\x1b[33m/opt/godot\x1b[0m)");
    colored::control::unset_override();
}

#[test]
fn test_register_then_get() {
    let mut handler = EngineHandler::new(GdSettings::new(), SYS);
    assert!(handler.list().is_empty());
    assert_eq!(handler.get_default().unwrap(), None);

    handler.register(engine("/a/godot", "4.2")).unwrap();
    assert_eq!(handler.list(), vec![engine("/a/godot", "4.2")]);
    assert_eq!(handler.get_version(&gdv("4.2")).unwrap(), engine("/a/godot", "4.2"));
    // The first engine registered becomes the default.
    assert_eq!(handler.get_default().unwrap(), Some(gdv("4.2")));

    handler.register(engine("/b/godot", "3.5")).unwrap();
    assert_eq!(handler.get_default().unwrap(), Some(gdv("4.2")));
    assert_eq!(handler.list().len(), 2);

    // Registering the same version again replaces it.
    handler.register(engine("/c/godot", "4.2")).unwrap();
    assert_eq!(handler.get_version(&gdv("4.2")).unwrap(), engine("/c/godot", "4.2"));
    assert_eq!(handler.list().len(), 2);
    assert_eq!(handler.has_version(&gdv("3.5")), Some(engine("/b/godot", "3.5")));
    assert_eq!(handler.has_version(&gdv("1.0")), None);

    let config = handler.into_config();
    assert_eq!(config.get_property("engines", "4-2"), Some(&engine_value("/c/godot", "4.2")));
    assert_eq!(config.get_property("", "default_engine"), Some(&GdValue::String("4.2".to_string())));
}

#[test]
fn test_get_version_missing() {
    let handler = EngineHandler::new(GdSettings::new(), SYS);
    match handler.get_version(&gdv("1.0")) {
        Err(EngineError::EngineNotFound(v)) => assert_eq!(v, gdv("1.0")),
        other => panic!("unexpected {:?}", other),
    }
}

#[test]
fn test_default_set_unset() {
    let mut handler = EngineHandler::new(GdSettings::new(), SYS);
    handler.update_all(vec![engine("/a", "3.5"), engine("/b", "4.1")]);
    assert_eq!(handler.get_default().unwrap(), None);
    assert!(matches!(handler.set_as_default(&gdv("9.9")), Err(EngineError::EngineNotFound(_))));
    handler.set_as_default(&gdv("4.1")).unwrap();
    assert_eq!(handler.get_default().unwrap(), Some(gdv("4.1")));
    handler.unset_default().unwrap();
    assert_eq!(handler.get_default().unwrap(), None);
    assert!(matches!(handler.unset_default(), Err(EngineError::ConfigError(_))));
}

#[test]
fn test_default_errors() {
    let mut settings = GdSettings::new();
    settings.set_property("", "default_engine", GdValue::String("nope".to_string()));
    let handler = EngineHandler::new(settings, SYS);
    assert!(matches!(handler.get_default(), Err(EngineError::VersionError(_))));

    let mut settings = GdSettings::new();
    settings.set_property("", "default_engine", GdValue::String("4.0".to_string()));
    let handler = EngineHandler::new(settings, SYS);
    assert!(matches!(handler.get_default(), Err(EngineError::EngineNotFound(_))));
}

#[test]
fn test_unregister() {
    let mut handler = EngineHandler::new(GdSettings::new(), SYS);
    handler.register(engine("/a", "3.5")).unwrap();
    handler.register(engine("/b", "4.1")).unwrap();
    assert!(matches!(handler.unregister(&gdv("1.0")), Err(EngineError::EngineNotFound(_))));

    // Unregistering the default engine removes the default too.
    handler.unregister(&gdv("3.5")).unwrap();
    assert_eq!(handler.get_version(&gdv("3.5")).ok(), None);
    assert_eq!(handler.get_default().unwrap(), None);
    assert_eq!(handler.list(), vec![engine("/b", "4.1")]);

    handler.set_as_default(&gdv("4.1")).unwrap();
    handler.unregister(&gdv("4.1")).unwrap();
    assert!(handler.list().is_empty());
    assert_eq!(handler.get_default().unwrap(), None);
}

#[test]
fn test_verbose_name_escapes_inner_reset() {
    colored::control::set_override(true);
    let e = engine("/a\x1b[0mb", "4.2.1");
    assert_eq!(e.get_verbose_name(), "\x1b[32m4.2.1\x1b[0m (\x1b[33m/a\x1b[0m\x1b[33mb\x1b[0m)");
    colored::control::unset_override();
}

#[test]
fn test_uninstall_plan() {
    let mut handler = EngineHandler::new(GdSettings::new(), SYS);
    let (templates, result) = handler.uninstall(&gdv("4.2"), true, true);
    assert!(!templates);
    assert!(matches!(result, Err(EngineError::EngineNotFound(_))));

    handler.register(engine("/a/godot", "4.2")).unwrap();
    let (templates, result) = handler.uninstall(&gdv("4.2"), true, false);
    assert!(templates);
    assert!(matches!(result, Err(EngineError::EngineNotInstalled(_))));
    assert_eq!(handler.list().len(), 1);

    let (templates, result) = handler.uninstall(&gdv("4.2"), false, true);
    assert!(!templates);
    assert!(result.is_ok());
    assert!(handler.list().is_empty());
    assert_eq!(handler.get_default().unwrap(), None);
}

#[test]
fn test_registration_is_readable() {
    let handler = EngineHandler::new(GdSettings::new(), SYS);
    assert!(handler.registration_is_readable(&engine("/a/godot", "4.2")));
    let bad = EngineInfo {
        path: "/b/godot".to_string(),
        version: GodotVersion::new("", gdpm::types::version::GodotVersionKind::Stable, SYS, true),
    };
    assert!(!handler.registration_is_readable(&bad));
}
