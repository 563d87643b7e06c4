//! Names of the official archives of a version.
use vstd::prelude::*;

use crate::types::version::{kind_string, GodotVersion, SystemVersion, VersionModel};

verus! {

/// The end of the name of an official editor archive, by system and build.
pub open spec fn package_suffix(s: SystemVersion, mono: bool) -> Seq<char> {
    match (s, mono) {
        (SystemVersion::Win32, true) => "mono_win32.zip"@,
        (SystemVersion::Win32, false) => "win32.exe.zip"@,
        (SystemVersion::Win64, true) => "mono_win64.zip"@,
        (SystemVersion::Win64, false) => "win64.exe.zip"@,
        (SystemVersion::WinArm64, true) => "mono_windows_arm64.zip"@,
        (SystemVersion::WinArm64, false) => "windows_arm64.exe.zip"@,
        (SystemVersion::MacOS, true) => "mono_macos.universal.zip"@,
        (SystemVersion::MacOS, false) => "macos.universal.zip"@,
        (SystemVersion::LinuxX32, true) => "mono_linux_x86_32.zip"@,
        (SystemVersion::LinuxX32, false) => "linux.x86_32.zip"@,
        (SystemVersion::LinuxX64, true) => "mono_linux_x86_64.zip"@,
        (SystemVersion::LinuxX64, false) => "linux.x86_64.zip"@,
        (SystemVersion::LinuxArm32, true) => "mono_linux_arm32.zip"@,
        (SystemVersion::LinuxArm32, false) => "linux.arm32.zip"@,
        (SystemVersion::LinuxArm64, true) => "mono_linux_arm64.zip"@,
        (SystemVersion::LinuxArm64, false) => "linux.arm64.zip"@,
    }
}

/// The name of the official editor archive of a version.
pub open spec fn engine_archive_name(v: VersionModel) -> Seq<char> {
    "Godot_v"@ + v.version + "-"@ + kind_string(v.kind) + "_"@ + package_suffix(v.system, v.mono)
}

/// The name of the official export templates archive of a version.
pub open spec fn template_archive_name(v: VersionModel) -> Seq<char> {
    "Godot_v"@ + v.version + "-"@ + kind_string(v.kind) + (if v.mono {
        "_mono"@
    } else {
        Seq::<char>::empty()
    }) + "_export_templates.tgz"@
}

/// The end of the name of an official editor archive.
fn package_comp(s: SystemVersion, mono: bool) -> (res: &'static str)
    ensures
        res@ == package_suffix(s, mono),
{
    match (s, mono) {
        (SystemVersion::Win32, true) => "mono_win32.zip",
        (SystemVersion::Win32, false) => "win32.exe.zip",
        (SystemVersion::Win64, true) => "mono_win64.zip",
        (SystemVersion::Win64, false) => "win64.exe.zip",
        (SystemVersion::WinArm64, true) => "mono_windows_arm64.zip",
        (SystemVersion::WinArm64, false) => "windows_arm64.exe.zip",
        (SystemVersion::MacOS, true) => "mono_macos.universal.zip",
        (SystemVersion::MacOS, false) => "macos.universal.zip",
        (SystemVersion::LinuxX32, true) => "mono_linux_x86_32.zip",
        (SystemVersion::LinuxX32, false) => "linux.x86_32.zip",
        (SystemVersion::LinuxX64, true) => "mono_linux_x86_64.zip",
        (SystemVersion::LinuxX64, false) => "linux.x86_64.zip",
        (SystemVersion::LinuxArm32, true) => "mono_linux_arm32.zip",
        (SystemVersion::LinuxArm32, false) => "linux.arm32.zip",
        (SystemVersion::LinuxArm64, true) => "mono_linux_arm64.zip",
        (SystemVersion::LinuxArm64, false) => "linux.arm64.zip",
    }
}

/// The name of the official editor archive of a version.
pub fn get_engine_archive_name_from_version(version: &GodotVersion) -> (res: String)
    ensures
        res@ == engine_archive_name(version@),
{
    let mut builder = String::from_str("Godot_v");
    builder.append(version.version());
    builder.append("-");
    let k = version.kind().to_string();
    builder.append(k.as_str());
    builder.append("_");
    builder.append(package_comp(version.system(), version.mono()));
    builder
}

/// The name of the official export templates archive of a version.
pub fn get_template_archive_name_from_version(version: &GodotVersion) -> (res: String)
    ensures
        res@ == template_archive_name(version@),
{
    let mut builder = String::from_str("Godot_v");
    builder.append(version.version());
    builder.append("-");
    let k = version.kind().to_string();
    builder.append(k.as_str());
    if version.mono() {
        builder.append("_mono");
    }
    builder.append("_export_templates.tgz");
    proof {
        reveal_strlit("_mono");
    }
    assert(builder@ =~= template_archive_name(version@));
    builder
}

} // verus!
