use gdpm::types::version::{GodotVersion, GodotVersionKind, SystemVersion};

fn gdv(s: &str) -> GodotVersion {
    GodotVersion::parse(s, SystemVersion::LinuxX64).unwrap()
}

#[test]
fn test_export_template_name() {
    assert_eq!(gdv("3.1.2").get_export_template_name(), "3.1.2.stable");
    assert_eq!(gdv("3.1.2.mono").get_export_template_name(), "3.1.2.stable.mono");
}

#[test]
fn test_parse_version() {
    let cases: Vec<(&str, &str, GodotVersionKind, SystemVersion, bool)> = vec![
        ("3.0", "3.0", GodotVersionKind::Stable, SystemVersion::LinuxX64, false),
        ("3.0.stable.win64", "3.0", GodotVersionKind::Stable, SystemVersion::Win64, false),
        ("3.0.rc1.win32", "3.0", GodotVersionKind::ReleaseCandidate(1), SystemVersion::Win32, false),
        ("3.0.alpha2.mono", "3.0", GodotVersionKind::Alpha(2), SystemVersion::LinuxX64, true),
        ("3.0.beta1.mono.linux-arm64", "3.0", GodotVersionKind::Beta(1), SystemVersion::LinuxArm64, true),
        ("3.0.rc1.mono.linux-x32", "3.0", GodotVersionKind::ReleaseCandidate(1), SystemVersion::LinuxX32, true),
        ("3.0.mono.macos", "3.0", GodotVersionKind::Stable, SystemVersion::MacOS, true),
        ("4.2.1", "4.2.1", GodotVersionKind::Stable, SystemVersion::LinuxX64, false),
    ];
    for (input, number, kind, system, mono) in cases {
        assert_eq!(gdv(input), GodotVersion::new(number, kind, system, mono), "{}", input);
    }
}

#[test]
fn test_parse_version_errors() {
    assert!(GodotVersion::parse("3.0.foo", SystemVersion::LinuxX64).is_err());
    assert!(GodotVersion::parse("3.0.stable.3", SystemVersion::LinuxX64).is_err());
    assert!(GodotVersion::parse("unknown", SystemVersion::LinuxX64).is_err());
    let e = GodotVersion::parse("x", SystemVersion::Win64).unwrap_err();
    assert_eq!(e.message(), "Wrong version: x");
}

#[test]
fn test_version_to_string_roundtrip() {
    for s in ["3.1.2", "3.1.2.mono", "4.0.rc3", "4.0.beta12.mono", "4.3.alpha1"] {
        let v = gdv(s);
        assert_eq!(v.to_string(), s);
        assert_eq!(gdv(v.to_string().as_str()), v);
    }
    assert_eq!(gdv("4.3.stable").to_string(), "4.3");
}

#[test]
fn test_version_slug() {
    assert_eq!(gdv("4.2.1").slug(), "4-2-1");
    assert_eq!(gdv("3.5.rc1.mono").slug(), "3-5-rc1-mono");
}

#[test]
fn test_version_accessors() {
    let v = gdv("3.5.beta2.mono.win64");
    assert_eq!(v.version(), "3.5");
    assert_eq!(v.kind(), &GodotVersionKind::Beta(2));
    assert!(v.mono());
    assert_eq!(v.system(), SystemVersion::Win64);
    assert!(v.same_as(&GodotVersion::new("3.5", GodotVersionKind::Beta(2), SystemVersion::Win64, true)));
    assert!(!v.same_as(&GodotVersion::new("3.5", GodotVersionKind::Beta(2), SystemVersion::Win32, true)));
}

#[test]
fn test_kind_names() {
    assert_eq!(GodotVersionKind::ReleaseCandidate(4).to_string(), "rc4");
    assert_eq!(GodotVersionKind::Custom("foo".to_string()).to_string(), "custom.foo");
    assert_eq!(GodotVersionKind::parse("beta3").unwrap(), GodotVersionKind::Beta(3));
    assert!(GodotVersionKind::parse("gamma").is_err());
    assert!(GodotVersionKind::Stable.is_stable());
}

#[test]
fn test_system_names() {
    assert_eq!(SystemVersion::parse("win-arm64").unwrap(), SystemVersion::WinArm64);
    assert!(SystemVersion::parse("amiga").is_err());
    assert_eq!(SystemVersion::LinuxArm64.to_string(), "linux-arm64");
    assert_eq!(SystemVersion::determine_system_kind("linux", "x86_64"), SystemVersion::LinuxX64);
    assert_eq!(SystemVersion::determine_system_kind("windows", "x86_64"), SystemVersion::Win64);
    assert_eq!(SystemVersion::determine_system_kind("macos", "aarch64"), SystemVersion::MacOS);
    assert!(SystemVersion::LinuxX32.is_linux());
    assert!(!SystemVersion::MacOS.is_linux());
    assert_eq!(SystemVersion::Win64.get_extension(), "exe");
}

#[test]
fn test_host_system() {
    assert_eq!(SystemVersion::determine_system_kind("linux", "aarch64"), SystemVersion::LinuxArm64);
    assert!(SystemVersion::determine_system_kind("linux", "x86").is_linux());
    assert!(!SystemVersion::determine_system_kind("windows", "x86_64").is_linux());
    assert_eq!(SystemVersion::determine_system_kind("macos", "aarch64"), SystemVersion::MacOS);
    assert!(!SystemVersion::is_supported_target("windows", "aarch64"));
    assert!(!SystemVersion::is_supported_target("freebsd", "x86_64"));
}
