use gdpm::engine::{EngineHandler, EngineInfo};
use gdpm::remote::{cache_is_readable, read_versions_from_cache, write_versions_in_cache};
use gdpm::settings::{GdSettings, GdValue};
use gdpm::types::version::{GodotVersion, GodotVersionKind, SystemVersion};

const SYS: SystemVersion = SystemVersion::LinuxX64;

fn gdv(s: &str) -> GodotVersion {
    GodotVersion::parse(s, SYS).unwrap()
}

#[test]
fn test_version_value() {
    let v = gdv("4.2.beta3.mono");
    let value = v.to_gdvalue();
    assert_eq!(
        value,
        GdValue::Object(vec![
            ("version".to_string(), GdValue::String("4.2".to_string())),
            ("kind".to_string(), GdValue::String("beta3".to_string())),
            ("mono".to_string(), GdValue::Boolean(true)),
        ])
    );
    assert_eq!(GodotVersion::from_gdvalue(&value, SYS), Some(v));
    assert_eq!(GodotVersion::from_gdvalue(&GdValue::Null, SYS), None);
    let bare = GdValue::Object(vec![("system".to_string(), GdValue::String("win64".to_string()))]);
    assert_eq!(
        GodotVersion::from_gdvalue(&bare, SYS),
        Some(GodotVersion::new("unknown", GodotVersionKind::Stable, SystemVersion::Win64, false))
    );
}

#[test]
fn test_remote_cache_roundtrip() {
    let versions = vec![gdv("3.5"), gdv("4.0.rc2"), gdv("4.2.mono")];
    let cache = write_versions_in_cache(&versions);
    assert!(cache.get_property("remote", "4.0.rc2").is_some());
    assert!(cache_is_readable(&cache));
    assert_eq!(read_versions_from_cache(&cache, SYS), versions);
    assert!(read_versions_from_cache(&GdSettings::new(), SYS).is_empty());

    let mut bad = GdSettings::new();
    bad.set_property(
        "remote",
        "x",
        GdValue::Object(vec![("kind".to_string(), GdValue::String("gamma".to_string()))]),
    );
    assert!(!cache_is_readable(&bad));
}

#[test]
fn test_engine_checks() {
    let mut settings = GdSettings::new();
    settings.set_property(
        "engines",
        "x",
        GdValue::Object(vec![("version".to_string(), GdValue::String("4.2.win64".to_string()))]),
    );
    let handler = EngineHandler::new(settings, SYS);
    assert!(handler.engines_are_readable());
    assert!(handler.engines_are_canonical());
    assert!(handler.is_canonical(&gdv("4.2.win64")));
    assert!(!handler.is_canonical(&GodotVersion::new("", GodotVersionKind::Stable, SYS, true)));

    let mut settings = GdSettings::new();
    settings.set_property("engines", "y", GdValue::Object(vec![]));
    let handler = EngineHandler::new(settings, SYS);
    assert!(!handler.engines_are_readable());
    assert!(!handler.engines_are_canonical());

    let mut handler = EngineHandler::new(GdSettings::new(), SYS);
    // An engine of another system is registered, and read back with this machine's.
    let other = EngineInfo { version: gdv("4.2.win64"), path: "/w".to_string() };
    assert!(handler.register(other).is_err());
    assert_eq!(handler.list(), vec![EngineInfo { version: gdv("4.2"), path: "/w".to_string() }]);
}
