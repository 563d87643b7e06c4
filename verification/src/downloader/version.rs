//! Versions, as the official download mirror names them.
use vstd::prelude::*;

use crate::text::{
    chars_eq_str, chars_of, chars_skip, chars_starts_with_str, dec_string, parse_u16,
    parse_u16_chars, push_char, starts_with, u16_to_string,
};

verus! {

/// System version.
#[derive(Debug, Clone, Copy, PartialEq, Eq, Structural)]
pub enum SystemVersion {
    /// Windows 32-bit
    Win32,
    /// Windows 64-bit
    Win64,
    /// Linux 32-bit
    X1132,
    /// Linux 64-bit
    X1164,
    /// MacOS
    OSX,
    /// Server (Linux 64-bit)
    LinuxServer64,
    /// Headless (Linux 64-bit)
    LinuxHeadless64,
}

/// Godot version kind.
#[derive(Debug, Clone, Copy, PartialEq, Eq, Structural)]
pub enum GodotVersionKind {
    /// Stable release.
    Stable,
    /// Release candidate.
    ReleaseCandidate(u16),
    /// Alpha release.
    Alpha(u16),
    /// Beta release.
    Beta(u16),
}

/// The contents of a [`GodotVersion`].
pub struct VersionModel {
    /// Version numbers, as written.
    pub version: Seq<char>,
    /// Kind.
    pub kind: GodotVersionKind,
    /// Mono build.
    pub mono: bool,
}

/// Godot version.
#[derive(Debug, PartialEq)]
pub struct GodotVersion {
    version: String,
    kind: GodotVersionKind,
    mono: bool,
}

impl View for GodotVersion {
    type V = VersionModel;

    closed spec fn view(&self) -> VersionModel {
        VersionModel { version: self.version@, kind: self.kind, mono: self.mono }
    }
}

impl Clone for GodotVersion {
    fn clone(&self) -> (res: Self)
        ensures
            res@ == self@,
    {
        GodotVersion { version: self.version.clone(), kind: self.kind, mono: self.mono }
    }
}

/// The system a build target stands for, given its operating system and
/// architecture as Rust names them.
pub open spec fn host_system(os: Seq<char>, arch: Seq<char>) -> Option<SystemVersion> {
    if os == "windows"@ {
        if arch == "x86"@ {
            Some(SystemVersion::Win32)
        } else if arch == "x86_64"@ {
            Some(SystemVersion::Win64)
        } else {
            None
        }
    } else if os == "linux"@ {
        if arch == "x86"@ {
            Some(SystemVersion::X1132)
        } else if arch == "x86_64"@ {
            Some(SystemVersion::X1164)
        } else {
            None
        }
    } else if os == "macos"@ {
        Some(SystemVersion::OSX)
    } else {
        None
    }
}

/// Linux-based systems: the desktop builds, and the 64-bit server and
/// headless builds.
pub open spec fn is_linux_system(s: SystemVersion) -> bool {
    s == SystemVersion::X1132 || s == SystemVersion::X1164 || s == SystemVersion::LinuxServer64
        || s == SystemVersion::LinuxHeadless64
}

/// Executable extension of a system.
pub open spec fn extension(s: SystemVersion) -> Seq<char> {
    match s {
        SystemVersion::Win32 | SystemVersion::Win64 => "exe"@,
        SystemVersion::X1132 | SystemVersion::X1164 => "x11"@,
        SystemVersion::LinuxHeadless64 => "headless.x11"@,
        SystemVersion::LinuxServer64 => "server.x11"@,
        SystemVersion::OSX => "osx"@,
    }
}

/// Archive basename of a system, for a mono build or not.
pub open spec fn archive_basename(s: SystemVersion, mono: bool) -> Seq<char> {
    match s {
        SystemVersion::Win32 => if mono { "mono_win32"@ } else { "win32.exe"@ },
        SystemVersion::Win64 => if mono { "mono_win64"@ } else { "win64.exe"@ },
        SystemVersion::X1132 => if mono { "mono_x11_32"@ } else { "x11.32"@ },
        SystemVersion::X1164 => if mono { "mono_x11_64"@ } else { "x11.64"@ },
        SystemVersion::OSX => if mono { "mono_osx.64"@ } else { "osx.universal"@ },
        SystemVersion::LinuxServer64 => if mono { "mono_linux_server_64"@ } else { "linux_server.64"@ },
        SystemVersion::LinuxHeadless64 => if mono { "mono_linux_headless_64"@ } else { "linux_server.64"@ },
    }
}

/// Distinct builds have distinct archives: two systems, each with or
/// without mono, share an archive basename only when they are the same
/// build, but for the server and headless builds without mono, which the
/// mirror publishes as one archive.  In particular the 32-bit and 64-bit
/// Linux builds never share an archive.
#[verifier::spinoff_prover]
#[verifier::rlimit(40)]
pub proof fn law_archive_basename_distinct(s1: SystemVersion, m1: bool, s2: SystemVersion, m2: bool)
    requires
        archive_basename(s1, m1) == archive_basename(s2, m2),
        !(!m1 && (s1 == SystemVersion::LinuxServer64 || s1 == SystemVersion::LinuxHeadless64)),
    ensures
        s1 == s2,
        m1 == m2,
{
    reveal_strlit("mono_win32");
    reveal_strlit("win32.exe");
    reveal_strlit("mono_win64");
    reveal_strlit("win64.exe");
    reveal_strlit("mono_x11_32");
    reveal_strlit("x11.32");
    reveal_strlit("mono_x11_64");
    reveal_strlit("x11.64");
    reveal_strlit("mono_osx.64");
    reveal_strlit("osx.universal");
    reveal_strlit("mono_linux_server_64");
    reveal_strlit("linux_server.64");
    reveal_strlit("mono_linux_headless_64");
    assert("win32.exe"@[3] != "win64.exe"@[3]);
    assert("x11.32"@[4] != "x11.64"@[4]);
    assert("mono_win32"@[8] != "mono_win64"@[8]);
    assert("mono_x11_32"@[9] != "mono_x11_64"@[9]);
    assert("mono_x11_32"@[5] != "mono_osx.64"@[5]);
    assert("mono_x11_64"@[5] != "mono_osx.64"@[5]);
    let b1 = archive_basename(s1, m1);
    let b2 = archive_basename(s2, m2);
    assert(b1.len() == b2.len());
    if b1.len() > 9 {
        assert(b1[3] == b2[3] && b1[4] == b2[4] && b1[5] == b2[5] && b1[8] == b2[8] && b1[9] == b2[9]);
    } else if b1.len() > 4 {
        assert(b1[3] == b2[3] && b1[4] == b2[4]);
    }
}

/// A system is a Linux one exactly when its name starts with `linux`, and
/// exactly when its executable extension ends with `x11`.
pub proof fn law_linux_systems(s: SystemVersion)
    ensures
        is_linux_system(s) == starts_with(system_name(s), "linux"@),
        is_linux_system(s) == crate::text::ends_with(extension(s), "x11"@),
{
    reveal_strlit("linux");
    reveal_strlit("x11");
    reveal_strlit("win32");
    reveal_strlit("win64");
    reveal_strlit("linux32");
    reveal_strlit("linux64");
    reveal_strlit("osx");
    reveal_strlit("linuxserver64");
    reveal_strlit("linuxheadless64");
    reveal_strlit("exe");
    reveal_strlit("headless.x11");
    reveal_strlit("server.x11");
    let n = system_name(s);
    let e = extension(s);
    if n.len() >= 5 {
        assert(n.subrange(0, 5)[0] == n[0]);
    }
    assert(e.len() >= 3);
    assert(e.subrange(e.len() - 3, e.len() as int)[0] == e[e.len() - 3]);
    assert(e.subrange(e.len() - 3, e.len() as int)[1] == e[e.len() - 2]);
    if is_linux_system(s) {
        assert(n.subrange(0, 5) =~= "linux"@);
        assert(e.subrange(e.len() - 3, e.len() as int) =~= "x11"@);
    }
}

/// The name of a system.
pub open spec fn system_name(s: SystemVersion) -> Seq<char> {
    match s {
        SystemVersion::Win32 => "win32"@,
        SystemVersion::Win64 => "win64"@,
        SystemVersion::X1132 => "linux32"@,
        SystemVersion::X1164 => "linux64"@,
        SystemVersion::OSX => "osx"@,
        SystemVersion::LinuxServer64 => "linuxserver64"@,
        SystemVersion::LinuxHeadless64 => "linuxheadless64"@,
    }
}

/// How a kind is written: the number always follows the name.
pub open spec fn kind_string(k: GodotVersionKind) -> Seq<char> {
    match k {
        GodotVersionKind::Stable => "stable"@,
        GodotVersionKind::ReleaseCandidate(n) => "rc"@ + dec_string(n as nat),
        GodotVersionKind::Alpha(n) => "alpha"@ + dec_string(n as nat),
        GodotVersionKind::Beta(n) => "beta"@ + dec_string(n as nat),
    }
}

/// The kind a name stands for; `None` where no kind is meant, or where
/// the number after the name does not parse.
pub open spec fn kind_from_name(s: Seq<char>) -> Option<GodotVersionKind> {
    if s == "stable"@ {
        Some(GodotVersionKind::Stable)
    } else if starts_with(s, "rc"@) {
        match parse_u16(s.skip(2)) {
            Some(n) => Some(GodotVersionKind::ReleaseCandidate(n)),
            None => None,
        }
    } else if starts_with(s, "alpha"@) {
        match parse_u16(s.skip(5)) {
            Some(n) => Some(GodotVersionKind::Alpha(n)),
            None => None,
        }
    } else if starts_with(s, "beta"@) {
        match parse_u16(s.skip(4)) {
            Some(n) => Some(GodotVersionKind::Beta(n)),
            None => None,
        }
    } else {
        None
    }
}

/// How a version is written.
pub open spec fn version_string(v: VersionModel) -> Seq<char> {
    v.version + (if v.kind != GodotVersionKind::Stable {
        seq!['.'] + kind_string(v.kind)
    } else {
        Seq::<char>::empty()
    }) + (if v.mono {
        ".mono"@
    } else {
        Seq::<char>::empty()
    })
}

impl SystemVersion {
    /// Determine system kind from the target's operating system and
    /// architecture names.  Only the supported pairs are accepted.
    pub fn determine_system_kind(os: &str, arch: &str) -> (res: SystemVersion)
        requires
            host_system(os@, arch@) is Some,
        ensures
            host_system(os@, arch@) == Some(res),
    {
        let os = chars_of(os);
        let arch = chars_of(arch);
        if chars_eq_str(os.as_slice(), "windows") {
            if chars_eq_str(arch.as_slice(), "x86") {
                SystemVersion::Win32
            } else {
                SystemVersion::Win64
            }
        } else if chars_eq_str(os.as_slice(), "linux") {
            if chars_eq_str(arch.as_slice(), "x86") {
                SystemVersion::X1132
            } else {
                SystemVersion::X1164
            }
        } else {
            SystemVersion::OSX
        }
    }

    /// Whether the operating system and architecture name a supported target.
    pub fn is_supported_target(os: &str, arch: &str) -> (res: bool)
        ensures
            res == (host_system(os@, arch@) is Some),
    {
        let os = chars_of(os);
        let arch = chars_of(arch);
        if chars_eq_str(os.as_slice(), "windows") || chars_eq_str(os.as_slice(), "linux") {
            chars_eq_str(arch.as_slice(), "x86") || chars_eq_str(arch.as_slice(), "x86_64")
        } else {
            chars_eq_str(os.as_slice(), "macos")
        }
    }

    /// Check if system is linux-based.
    pub fn is_linux(&self) -> (res: bool)
        ensures
            res == is_linux_system(*self),
    {
        match self {
            SystemVersion::X1132 | SystemVersion::X1164 | SystemVersion::LinuxServer64
            | SystemVersion::LinuxHeadless64 => true,
            _ => false,
        }
    }

    /// Get executable extension for current system.
    pub fn get_extension(&self) -> (res: &'static str)
        ensures
            res@ == extension(*self),
    {
        match self {
            SystemVersion::Win32 | SystemVersion::Win64 => "exe",
            SystemVersion::X1132 | SystemVersion::X1164 => "x11",
            SystemVersion::LinuxHeadless64 => "headless.x11",
            SystemVersion::LinuxServer64 => "server.x11",
            SystemVersion::OSX => "osx",
        }
    }

    /// Get archive basename for current system.
    pub fn get_archive_basename(&self, with_mono: bool) -> (res: &'static str)
        ensures
            res@ == archive_basename(*self, with_mono),
    {
        match self {
            SystemVersion::Win32 => if with_mono { "mono_win32" } else { "win32.exe" },
            SystemVersion::Win64 => if with_mono { "mono_win64" } else { "win64.exe" },
            SystemVersion::X1132 => if with_mono { "mono_x11_32" } else { "x11.32" },
            SystemVersion::X1164 => if with_mono { "mono_x11_64" } else { "x11.64" },
            SystemVersion::OSX => if with_mono { "mono_osx.64" } else { "osx.universal" },
            SystemVersion::LinuxServer64 => if with_mono { "mono_linux_server_64" } else { "linux_server.64" },
            SystemVersion::LinuxHeadless64 => if with_mono { "mono_linux_headless_64" } else { "linux_server.64" },
        }
    }

    /// The name of the system.
    pub fn to_string(&self) -> (res: String)
        ensures
            res@ == system_name(*self),
    {
        let name = match self {
            SystemVersion::Win32 => "win32",
            SystemVersion::Win64 => "win64",
            SystemVersion::X1132 => "linux32",
            SystemVersion::X1164 => "linux64",
            SystemVersion::OSX => "osx",
            SystemVersion::LinuxServer64 => "linuxserver64",
            SystemVersion::LinuxHeadless64 => "linuxheadless64",
        };
        String::from_str(name)
    }
}

/// The kind a name stands for, read from its characters.
fn kind_from_chars(part: &[char]) -> (res: Option<GodotVersionKind>)
    ensures
        res == kind_from_name(part@),
{
    proof {
        reveal_strlit("rc");
        reveal_strlit("alpha");
        reveal_strlit("beta");
    }
    if chars_eq_str(part, "stable") {
        Some(GodotVersionKind::Stable)
    } else if chars_starts_with_str(part, "rc") {
        let rest = chars_skip(part, 2);
        match parse_u16_chars(rest.as_slice()) {
            Some(n) => Some(GodotVersionKind::ReleaseCandidate(n)),
            None => None,
        }
    } else if chars_starts_with_str(part, "alpha") {
        let rest = chars_skip(part, 5);
        match parse_u16_chars(rest.as_slice()) {
            Some(n) => Some(GodotVersionKind::Alpha(n)),
            None => None,
        }
    } else if chars_starts_with_str(part, "beta") {
        let rest = chars_skip(part, 4);
        match parse_u16_chars(rest.as_slice()) {
            Some(n) => Some(GodotVersionKind::Beta(n)),
            None => None,
        }
    } else {
        None
    }
}

impl GodotVersionKind {
    /// The kind a name stands for.  The name must be `stable`, or `rc`,
    /// `alpha` or `beta` followed by a number.
    pub fn from(s: &str) -> (res: Self)
        requires
            kind_from_name(s@) is Some,
        ensures
            kind_from_name(s@) == Some(res),
    {
        let cs = chars_of(s);
        match kind_from_chars(cs.as_slice()) {
            Some(k) => k,
            None => GodotVersionKind::Stable,
        }
    }

    /// The kind a name stands for, or `None` where the name stands for no kind.
    pub fn try_from_name(s: &str) -> (res: Option<Self>)
        ensures
            res == kind_from_name(s@),
    {
        let cs = chars_of(s);
        kind_from_chars(cs.as_slice())
    }

    /// How the kind is written.
    pub fn to_string(&self) -> (res: String)
        ensures
            res@ == kind_string(*self),
    {
        match self {
            GodotVersionKind::Stable => String::from_str("stable"),
            GodotVersionKind::ReleaseCandidate(n) => {
                let mut res = String::from_str("rc");
                let d = u16_to_string(*n);
                res.append(d.as_str());
                res
            },
            GodotVersionKind::Alpha(n) => {
                let mut res = String::from_str("alpha");
                let d = u16_to_string(*n);
                res.append(d.as_str());
                res
            },
            GodotVersionKind::Beta(n) => {
                let mut res = String::from_str("beta");
                let d = u16_to_string(*n);
                res.append(d.as_str());
                res
            },
        }
    }
}

impl GodotVersion {
    /// Creates a new Godot version.
    pub fn new(version: &str, kind: GodotVersionKind, mono: bool) -> (res: Self)
        ensures
            res@ == (VersionModel { version: version@, kind, mono }),
    {
        GodotVersion { version: String::from_str(version), kind, mono }
    }

    /// Get version.
    pub fn version(&self) -> (res: &str)
        ensures
            res@ == self@.version,
    {
        self.version.as_str()
    }

    /// Get kind.
    pub fn kind(&self) -> (res: &GodotVersionKind)
        ensures
            *res == self@.kind,
    {
        &self.kind
    }

    /// Is mono enabled?
    pub fn mono(&self) -> (res: bool)
        ensures
            res == self@.mono,
    {
        self.mono
    }

    /// How the version is written.
    pub fn to_string(&self) -> (res: String)
        ensures
            res@ == version_string(self@),
    {
        let mut res = self.version.clone();
        if self.kind != GodotVersionKind::Stable {
            push_char(&mut res, '.');
            let k = self.kind.to_string();
            res.append(k.as_str());
        }
        if self.mono {
            res.append(".mono");
        }
        assert(res@ =~= version_string(self@));
        res
    }
}

/// The mirror's name for an engine system, where the mirror builds for it.
pub open spec fn mirror_system(s: crate::types::version::SystemVersion) -> Option<SystemVersion> {
    match s {
        crate::types::version::SystemVersion::Win32 => Some(SystemVersion::Win32),
        crate::types::version::SystemVersion::Win64 => Some(SystemVersion::Win64),
        crate::types::version::SystemVersion::LinuxX32 => Some(SystemVersion::X1132),
        crate::types::version::SystemVersion::LinuxX64 => Some(SystemVersion::X1164),
        crate::types::version::SystemVersion::MacOS => Some(SystemVersion::OSX),
        _ => None,
    }
}

/// The mirror's kind for an engine version kind; a custom kind has none.
pub open spec fn mirror_kind(k: crate::types::version::KindModel) -> Option<GodotVersionKind> {
    match k {
        crate::types::version::KindModel::Stable => Some(GodotVersionKind::Stable),
        crate::types::version::KindModel::ReleaseCandidate(n) => Some(GodotVersionKind::ReleaseCandidate(n)),
        crate::types::version::KindModel::Alpha(n) => Some(GodotVersionKind::Alpha(n)),
        crate::types::version::KindModel::Beta(n) => Some(GodotVersionKind::Beta(n)),
        crate::types::version::KindModel::Custom(_) => None,
    }
}

impl SystemVersion {
    /// The mirror's name for an engine system, or `None` where the mirror
    /// does not build for it.
    pub fn for_engine(system: crate::types::version::SystemVersion) -> (res: Option<SystemVersion>)
        ensures
            res == mirror_system(system),
    {
        match system {
            crate::types::version::SystemVersion::Win32 => Some(SystemVersion::Win32),
            crate::types::version::SystemVersion::Win64 => Some(SystemVersion::Win64),
            crate::types::version::SystemVersion::LinuxX32 => Some(SystemVersion::X1132),
            crate::types::version::SystemVersion::LinuxX64 => Some(SystemVersion::X1164),
            crate::types::version::SystemVersion::MacOS => Some(SystemVersion::OSX),
            _ => None,
        }
    }
}

impl GodotVersion {
    /// The mirror's version for an engine version: the same numbers, kind
    /// and mono flag, or `None` for a custom kind, which the mirror does not
    /// publish.
    pub fn for_engine(version: &crate::types::version::GodotVersion) -> (res: Option<GodotVersion>)
        ensures
            match mirror_kind(version@.kind) {
                Some(k) => res matches Some(v) && v@ == (VersionModel {
                    version: version@.version,
                    kind: k,
                    mono: version@.mono,
                }),
                None => res is None,
            },
    {
        let kind = match version.kind() {
            crate::types::version::GodotVersionKind::Stable => GodotVersionKind::Stable,
            crate::types::version::GodotVersionKind::ReleaseCandidate(n) => GodotVersionKind::ReleaseCandidate(*n),
            crate::types::version::GodotVersionKind::Alpha(n) => GodotVersionKind::Alpha(*n),
            crate::types::version::GodotVersionKind::Beta(n) => GodotVersionKind::Beta(*n),
            crate::types::version::GodotVersionKind::Custom(_) => {
                return None;
            },
        };
        Some(GodotVersion::new(version.version(), kind, version.mono()))
    }
}

/// Reading a kind name gives back the kind it was written from.
pub proof fn lemma_kind_roundtrip(k: GodotVersionKind)
    ensures
        kind_from_name(kind_string(k)) == Some(k),
{
    reveal_strlit("stable");
    reveal_strlit("rc");
    reveal_strlit("alpha");
    reveal_strlit("beta");
    let ks = kind_string(k);
    match k {
        GodotVersionKind::Stable => {},
        GodotVersionKind::ReleaseCandidate(n) => {
            crate::text::lemma_parse_u16_dec_string(n);
            assert(ks.subrange(0, 2) =~= "rc"@);
            assert(ks.skip(2) =~= dec_string(n as nat));
        },
        GodotVersionKind::Alpha(n) => {
            crate::text::lemma_parse_u16_dec_string(n);
            assert(ks[0] == 'a');
            assert(ks != "stable"@);
            assert(!starts_with(ks, "rc"@)) by {
                assert(ks.subrange(0, 2)[0] != "rc"@[0]);
            }
            assert(ks.subrange(0, 5) =~= "alpha"@);
            assert(ks.skip(5) =~= dec_string(n as nat));
        },
        GodotVersionKind::Beta(n) => {
            crate::text::lemma_parse_u16_dec_string(n);
            crate::text::lemma_dec_string(n as nat);
            assert(ks[0] == 'b');
            assert(ks != "stable"@);
            assert(!starts_with(ks, "rc"@)) by {
                assert(ks.subrange(0, 2)[0] != "rc"@[0]);
            }
            assert(!starts_with(ks, "alpha"@)) by {
                if "alpha"@.len() <= ks.len() {
                    assert(ks.subrange(0, 5)[0] != "alpha"@[0]);
                }
            }
            assert(ks.subrange(0, 4) =~= "beta"@);
            assert(ks.skip(4) =~= dec_string(n as nat));
        },
    }
}

} // verus!
