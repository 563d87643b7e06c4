use gdpm::testutils::{get_engine_archive_name_from_version, get_template_archive_name_from_version};
use gdpm::types::version::{GodotVersion, SystemVersion};

#[test]
fn test_get_engine_archive_name_from_version() {
    fn check(version: &str, filename: &str) {
        let gd_version = GodotVersion::parse(version, SystemVersion::LinuxX64).unwrap();
        assert_eq!(get_engine_archive_name_from_version(&gd_version), filename);
    }

    check("4.3.mono.win32", "Godot_v4.3-stable_mono_win32.zip");
    check("4.3.win32", "Godot_v4.3-stable_win32.exe.zip");
    check("4.2.1.win64", "Godot_v4.2.1-stable_win64.exe.zip");
    check("4.3.beta1.mono.win64", "Godot_v4.3-beta1_mono_win64.zip");
    check("4.3.macos", "Godot_v4.3-stable_macos.universal.zip");
}

#[test]
fn test_get_template_archive_name_from_version() {
    let v = GodotVersion::parse("4.3.rc2.mono", SystemVersion::LinuxX64).unwrap();
    assert_eq!(get_template_archive_name_from_version(&v), "Godot_v4.3-rc2_mono_export_templates.tgz");
    let v = GodotVersion::parse("4.3", SystemVersion::LinuxX64).unwrap();
    assert_eq!(get_template_archive_name_from_version(&v), "Godot_v4.3-stable_export_templates.tgz");
}
