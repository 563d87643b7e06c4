use gdpm::downloader::download::Downloader;
use gdpm::downloader::version::{GodotVersion, GodotVersionKind, SystemVersion};
use gdpm::downloader::version as mirror;
use gdpm::types::version as engine;

#[test]
fn test_get_official_editor_url_for_version() {
    let root = "http://localhost/subdir/";
    let check = |(v, k, s, m): (&str, GodotVersionKind, SystemVersion, bool), expected: &str| {
        assert_eq!(
            Downloader::get_official_editor_url_for_version(GodotVersion::new(v, k, m), s, root),
            expected
        );
    };

    check(
        ("1.2.3", GodotVersionKind::Stable, SystemVersion::Win64, false),
        "http://localhost/subdir/1.2.3-stable/Godot_v1.2.3-stable_win64.exe.zip",
    );
    check(
        ("1.2.3", GodotVersionKind::Beta(1), SystemVersion::Win32, false),
        "http://localhost/subdir/1.2.3-beta1/Godot_v1.2.3-beta1_win32.exe.zip",
    );
    check(
        ("1.2.3", GodotVersionKind::ReleaseCandidate(2), SystemVersion::LinuxServer64, false),
        "http://localhost/subdir/1.2.3-rc2/Godot_v1.2.3-rc2_linux_server.64.zip",
    );
    check(
        ("1.2.3", GodotVersionKind::ReleaseCandidate(2), SystemVersion::LinuxServer64, true),
        "http://localhost/subdir/1.2.3-rc2/Godot_v1.2.3-rc2_mono_linux_server_64.zip",
    );
}

#[test]
fn test_get_official_export_templates_url_for_version() {
    let root = "http://localhost/subdir/";
    let check = |(v, k, m): (&str, GodotVersionKind, bool), expected: &str| {
        assert_eq!(
            Downloader::get_official_export_templates_url_for_version(GodotVersion::new(v, k, m), root),
            expected
        );
    };

    check(
        ("1.2.3", GodotVersionKind::Stable, false),
        "http://localhost/subdir/1.2.3-stable/Godot_v1.2.3-stable_export_templates.tpz",
    );
    check(
        ("1.2.3", GodotVersionKind::Beta(1), false),
        "http://localhost/subdir/1.2.3-beta1/Godot_v1.2.3-beta1_export_templates.tpz",
    );
    check(
        ("1.2.3", GodotVersionKind::ReleaseCandidate(2), false),
        "http://localhost/subdir/1.2.3-rc2/Godot_v1.2.3-rc2_export_templates.tpz",
    );
    check(
        ("1.2.3", GodotVersionKind::ReleaseCandidate(2), true),
        "http://localhost/subdir/1.2.3-rc2/Godot_v1.2.3-rc2_mono_export_templates.tpz",
    );
}

#[test]
fn test_try_official_urls() {
    let v = GodotVersion::new("3.0", GodotVersionKind::Stable, false);
    assert_eq!(
        Downloader::try_official_editor_url_for_version(v, SystemVersion::X1164, "not a url"),
        None
    );
    let v = GodotVersion::new("3.0", GodotVersionKind::Stable, false);
    assert_eq!(
        Downloader::try_official_export_templates_url_for_version(v, "https://example.org/godot/").as_deref(),
        Some("https://example.org/godot/3.0-stable/Godot_v3.0-stable_export_templates.tpz")
    );
}

#[test]
fn test_editor_route() {
    let v = GodotVersion::new("3.0", GodotVersionKind::Alpha(1), true);
    assert_eq!(
        Downloader::editor_route(&v, SystemVersion::OSX),
        "3.0-alpha1/Godot_v3.0-alpha1_mono_osx.64.zip"
    );
}

#[test]
fn test_mirror_names_for_engine() {
    let v = engine::GodotVersion::new("4.2", engine::GodotVersionKind::Beta(3), engine::SystemVersion::LinuxX64, true);
    assert_eq!(
        mirror::GodotVersion::for_engine(&v),
        Some(mirror::GodotVersion::new("4.2", mirror::GodotVersionKind::Beta(3), true))
    );
    assert_eq!(mirror::SystemVersion::for_engine(engine::SystemVersion::LinuxX64), Some(mirror::SystemVersion::X1164));
    assert_eq!(mirror::SystemVersion::for_engine(engine::SystemVersion::MacOS), Some(mirror::SystemVersion::OSX));
    assert_eq!(mirror::SystemVersion::for_engine(engine::SystemVersion::LinuxArm64), None);
    let custom = engine::GodotVersion::new(
        "4.2",
        engine::GodotVersionKind::Custom("dev".to_string()),
        engine::SystemVersion::Win64,
        false,
    );
    assert_eq!(mirror::GodotVersion::for_engine(&custom), None);
}

#[test]
fn test_mirror_linux_systems() {
    assert!(SystemVersion::X1132.is_linux());
    assert!(SystemVersion::X1164.is_linux());
    assert!(SystemVersion::LinuxServer64.is_linux());
    assert!(SystemVersion::LinuxHeadless64.is_linux());
    assert!(!SystemVersion::Win32.is_linux());
    assert!(!SystemVersion::Win64.is_linux());
    assert!(!SystemVersion::OSX.is_linux());
}
