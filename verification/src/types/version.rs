//! Versions.
//!
//! A Godot version is written `NUMBERS[.KIND][.mono][.SYSTEM]`, where
//! `NUMBERS` is a dot-separated list of 16-bit numbers (`4.2.1`), `KIND`
//! is `stable`, `rcN`, `alphaN`, `betaN` or `custom.NAME`, and `SYSTEM` one
//! of the system names below (`win64`, `linux-x64`, ...).
use vstd::prelude::*;

use crate::slug::{slug_of, slugify_str};
use crate::text::{
    chars_eq, chars_eq_str, chars_of, chars_skip, chars_starts_with_str, dec_string, parse_u16,
    parse_u16_chars, push_char, starts_with, string_of, u16_to_string,
};

verus! {

/// Version error.
#[derive(Debug)]
pub enum Error {
    /// Wrong version.
    WrongVersion(String),
    /// Wrong version kind.
    WrongVersionKind(String),
}

/// The contents of an [`Error`].
pub enum ErrorModel {
    /// Wrong version.
    WrongVersion(Seq<char>),
    /// Wrong version kind.
    WrongVersionKind(Seq<char>),
}

impl View for Error {
    type V = ErrorModel;

    open spec fn view(&self) -> ErrorModel {
        match self {
            Error::WrongVersion(s) => ErrorModel::WrongVersion(s@),
            Error::WrongVersionKind(s) => ErrorModel::WrongVersionKind(s@),
        }
    }
}

impl Error {
    /// The message that describes the error.
    pub fn message(&self) -> (res: String)
        ensures
            res@ == match self@ {
                ErrorModel::WrongVersion(s) => "Wrong version: "@ + s,
                ErrorModel::WrongVersionKind(s) => "Wrong version kind: "@ + s,
            },
    {
        match self {
            Error::WrongVersion(s) => {
                let mut res = String::from_str("Wrong version: ");
                res.append(s.as_str());
                res
            },
            Error::WrongVersionKind(s) => {
                let mut res = String::from_str("Wrong version kind: ");
                res.append(s.as_str());
                res
            },
        }
    }
}

/// System version.
#[derive(Debug, Clone, Copy, PartialEq, Eq, Structural)]
pub enum SystemVersion {
    /// Windows 32-bit
    Win32,
    /// Windows 64-bit
    Win64,
    /// Windows ARM 64-bit
    WinArm64,
    /// Linux x86 32-bit
    LinuxX32,
    /// Linux x86 64-bit
    LinuxX64,
    /// Linux ARM 32-bit
    LinuxArm32,
    /// Linux ARM 64-bit
    LinuxArm64,
    /// MacOS
    MacOS,
}

/// The contents of a [`GodotVersionKind`].
pub enum KindModel {
    /// Stable release.
    Stable,
    /// Release candidate.
    ReleaseCandidate(u16),
    /// Alpha release.
    Alpha(u16),
    /// Beta release.
    Beta(u16),
    /// Custom release.
    Custom(Seq<char>),
}

/// Godot version kind.
#[derive(Debug, PartialEq, Eq)]
pub enum GodotVersionKind {
    /// Stable release.
    Stable,
    /// Release candidate.
    ReleaseCandidate(u16),
    /// Alpha release.
    Alpha(u16),
    /// Beta release.
    Beta(u16),
    /// Custom release.
    Custom(String),
}

impl View for GodotVersionKind {
    type V = KindModel;

    open spec fn view(&self) -> KindModel {
        match self {
            GodotVersionKind::Stable => KindModel::Stable,
            GodotVersionKind::ReleaseCandidate(n) => KindModel::ReleaseCandidate(*n),
            GodotVersionKind::Alpha(n) => KindModel::Alpha(*n),
            GodotVersionKind::Beta(n) => KindModel::Beta(*n),
            GodotVersionKind::Custom(c) => KindModel::Custom(c@),
        }
    }
}

impl Clone for GodotVersionKind {
    fn clone(&self) -> (res: Self)
        ensures
            res == *self,
    {
        match self {
            GodotVersionKind::Stable => GodotVersionKind::Stable,
            GodotVersionKind::ReleaseCandidate(n) => GodotVersionKind::ReleaseCandidate(*n),
            GodotVersionKind::Alpha(n) => GodotVersionKind::Alpha(*n),
            GodotVersionKind::Beta(n) => GodotVersionKind::Beta(*n),
            GodotVersionKind::Custom(c) => GodotVersionKind::Custom(c.clone()),
        }
    }
}

/// The contents of a [`GodotVersion`].
pub struct VersionModel {
    /// Version numbers, as written.
    pub version: Seq<char>,
    /// Kind.
    pub kind: KindModel,
    /// System.
    pub system: SystemVersion,
    /// Mono build.
    pub mono: bool,
}

/// Godot version.
#[derive(Debug, PartialEq, Eq)]
pub struct GodotVersion {
    version: String,
    kind: GodotVersionKind,
    system: SystemVersion,
    mono: bool,
}

impl View for GodotVersion {
    type V = VersionModel;

    closed spec fn view(&self) -> VersionModel {
        VersionModel {
            version: self.version@,
            kind: self.kind@,
            system: self.system,
            mono: self.mono,
        }
    }
}

impl Clone for GodotVersion {
    fn clone(&self) -> (res: Self)
        ensures
            res == *self,
    {
        GodotVersion {
            version: self.version.clone(),
            kind: self.kind.clone(),
            system: self.system,
            mono: self.mono,
        }
    }
}

// ---------------------------------------------------------------------------
// Systems

/// The name under which a system is written in a version string.
pub open spec fn system_name(s: SystemVersion) -> Seq<char> {
    match s {
        SystemVersion::Win32 => "win32"@,
        SystemVersion::Win64 => "win64"@,
        SystemVersion::WinArm64 => "win-arm64"@,
        SystemVersion::LinuxX32 => "linux-x32"@,
        SystemVersion::LinuxX64 => "linux-x64"@,
        SystemVersion::MacOS => "macos"@,
        SystemVersion::LinuxArm32 => "linux-arm32"@,
        SystemVersion::LinuxArm64 => "linux-arm64"@,
    }
}

/// The system a name stands for, if any.
pub open spec fn system_from_name(n: Seq<char>) -> Option<SystemVersion> {
    if n == "win32"@ {
        Some(SystemVersion::Win32)
    } else if n == "win64"@ {
        Some(SystemVersion::Win64)
    } else if n == "win-arm64"@ {
        Some(SystemVersion::WinArm64)
    } else if n == "linux-x32"@ {
        Some(SystemVersion::LinuxX32)
    } else if n == "linux-x64"@ {
        Some(SystemVersion::LinuxX64)
    } else if n == "macos"@ {
        Some(SystemVersion::MacOS)
    } else if n == "linux-arm32"@ {
        Some(SystemVersion::LinuxArm32)
    } else if n == "linux-arm64"@ {
        Some(SystemVersion::LinuxArm64)
    } else {
        None
    }
}

/// The system a build target stands for, given its operating system and
/// architecture as Rust names them (`target_os`, `target_arch`).
pub open spec fn host_system(os: Seq<char>, arch: Seq<char>) -> Option<SystemVersion> {
    if os == "windows"@ {
        if arch == "x86"@ {
            Some(SystemVersion::Win32)
        } else if arch == "x86_64"@ {
            Some(SystemVersion::Win64)
        } else {
            None
        }
    } else if os == "linux"@ {
        if arch == "x86"@ {
            Some(SystemVersion::LinuxX32)
        } else if arch == "x86_64"@ {
            Some(SystemVersion::LinuxX64)
        } else if arch == "arm"@ {
            Some(SystemVersion::LinuxArm32)
        } else if arch == "aarch64"@ {
            Some(SystemVersion::LinuxArm64)
        } else {
            None
        }
    } else if os == "macos"@ {
        Some(SystemVersion::MacOS)
    } else {
        None
    }
}

/// The system of a target depends on its operating system and
/// architecture alone; it is a Linux one exactly when the operating system
/// is Linux, and never Windows on ARM.
pub proof fn law_host_system(os: Seq<char>, arch: Seq<char>)
    ensures
        host_system(os, arch) matches Some(s) ==> (is_linux_system(s) == (os == "linux"@) && s
            != SystemVersion::WinArm64),
{
    reveal_strlit("windows");
    reveal_strlit("linux");
    reveal_strlit("macos");
    if os == "windows"@ {
        assert(os != "linux"@) by {
            assert(os[0] != "linux"@[0]);
        }
    } else if os == "macos"@ {
        assert(os != "linux"@) by {
            assert(os[0] != "linux"@[0]);
        }
    }
}

/// A system is a Linux one exactly when its name starts with `linux`.
pub proof fn law_linux_system_names(s: SystemVersion)
    ensures
        is_linux_system(s) == starts_with(system_name(s), "linux"@),
{
    reveal_strlit("linux");
    reveal_strlit("win32");
    reveal_strlit("win64");
    reveal_strlit("win-arm64");
    reveal_strlit("linux-x32");
    reveal_strlit("linux-x64");
    reveal_strlit("macos");
    reveal_strlit("linux-arm32");
    reveal_strlit("linux-arm64");
    let n = system_name(s);
    assert(n.len() >= 5);
    assert(n.subrange(0, 5)[0] == n[0]);
    if is_linux_system(s) {
        assert(n.subrange(0, 5) =~= "linux"@);
    }
}

/// Linux-based systems.
pub open spec fn is_linux_system(s: SystemVersion) -> bool {
    match s {
        SystemVersion::LinuxArm32 | SystemVersion::LinuxArm64 | SystemVersion::LinuxX32
        | SystemVersion::LinuxX64 => true,
        _ => false,
    }
}

/// Executable extension of a system.
pub open spec fn extension(s: SystemVersion) -> Seq<char> {
    match s {
        SystemVersion::Win32 | SystemVersion::Win64 | SystemVersion::WinArm64 => "exe"@,
        SystemVersion::LinuxX32 => "x86_32"@,
        SystemVersion::LinuxX64 => "x86_64"@,
        SystemVersion::LinuxArm32 => "arm32"@,
        SystemVersion::LinuxArm64 => "arm64"@,
        SystemVersion::MacOS => "app"@,
    }
}

/// Archive basename of a system, for a mono build or not.
pub open spec fn archive_basename(s: SystemVersion, mono: bool) -> Seq<char> {
    match s {
        SystemVersion::Win32 => if mono { "mono_win32"@ } else { "win32.exe"@ },
        SystemVersion::Win64 => if mono { "mono_win64"@ } else { "win64.exe"@ },
        SystemVersion::WinArm64 => if mono { "mono_windows_arm64"@ } else { "windows_arm64.exe"@ },
        SystemVersion::LinuxX32 => if mono { "mono_linux_x86_32"@ } else { "linux.x86_32"@ },
        SystemVersion::LinuxX64 => if mono { "mono_linux_x86_64"@ } else { "linux.x86_64"@ },
        SystemVersion::MacOS => if mono { "mono_macos.64"@ } else { "macos.universal"@ },
        SystemVersion::LinuxArm32 => if mono { "mono_linux_arm32"@ } else { "linux.arm32"@ },
        SystemVersion::LinuxArm64 => if mono { "mono_linux_arm64"@ } else { "linux.arm64"@ },
    }
}

/// Distinct builds have distinct archives: two systems, each with or
/// without mono, share an archive basename only when they are the same
/// build.
#[verifier::spinoff_prover]
#[verifier::rlimit(40)]
pub proof fn law_archive_basename_distinct(s1: SystemVersion, m1: bool, s2: SystemVersion, m2: bool)
    requires
        archive_basename(s1, m1) == archive_basename(s2, m2),
    ensures
        s1 == s2,
        m1 == m2,
{
    reveal_strlit("mono_win32");
    reveal_strlit("win32.exe");
    reveal_strlit("mono_win64");
    reveal_strlit("win64.exe");
    reveal_strlit("mono_windows_arm64");
    reveal_strlit("windows_arm64.exe");
    reveal_strlit("mono_linux_x86_32");
    reveal_strlit("linux.x86_32");
    reveal_strlit("mono_linux_x86_64");
    reveal_strlit("linux.x86_64");
    reveal_strlit("mono_macos.64");
    reveal_strlit("macos.universal");
    reveal_strlit("mono_linux_arm32");
    reveal_strlit("linux.arm32");
    reveal_strlit("mono_linux_arm64");
    reveal_strlit("linux.arm64");
    let b1 = archive_basename(s1, m1);
    let b2 = archive_basename(s2, m2);
    assert(b1.len() == b2.len());
    assert(b1[0] == b2[0] && b1[3] == b2[3]);
    if b1.len() > 15 {
        assert(b1[8] == b2[8] && b1[9] == b2[9] && b1[10] == b2[10] && b1[14] == b2[14] && b1[15] == b2[15]);
    } else if b1.len() > 10 {
        assert(b1[8] == b2[8] && b1[9] == b2[9] && b1[10] == b2[10]);
    } else if b1.len() > 8 {
        assert(b1[8] == b2[8]);
    }
}

/// The editor executable in an archive without mono carries the extension
/// of its system: the archive's basename ends with a dot and the extension.
/// The macOS archive, an app bundle, is the one exception.
pub proof fn law_extension_ends_basename(s: SystemVersion)
    requires
        s != SystemVersion::MacOS,
    ensures
        ({
            let b = archive_basename(s, false);
            let e = "."@ + extension(s);
            e.len() <= b.len() && b.subrange(b.len() - e.len(), b.len() as int) == e
        }),
{
    reveal_strlit("win32.exe");
    reveal_strlit("win64.exe");
    reveal_strlit("windows_arm64.exe");
    reveal_strlit("linux.x86_32");
    reveal_strlit("linux.x86_64");
    reveal_strlit("linux.arm32");
    reveal_strlit("linux.arm64");
    reveal_strlit(".");
    reveal_strlit("exe");
    reveal_strlit("x86_32");
    reveal_strlit("x86_64");
    reveal_strlit("arm32");
    reveal_strlit("arm64");
    let b = archive_basename(s, false);
    let e = "."@ + extension(s);
    assert(b.subrange(b.len() - e.len(), b.len() as int) =~= e);
}

// ---------------------------------------------------------------------------
// Kinds

/// The number written after a kind name: nothing for zero.
pub open spec fn kind_number(n: u16) -> Seq<char> {
    if n == 0 {
        Seq::<char>::empty()
    } else {
        dec_string(n as nat)
    }
}

/// How a kind is written.
pub open spec fn kind_string(k: KindModel) -> Seq<char> {
    match k {
        KindModel::Stable => "stable"@,
        KindModel::ReleaseCandidate(n) => "rc"@ + kind_number(n),
        KindModel::Alpha(n) => "alpha"@ + kind_number(n),
        KindModel::Beta(n) => "beta"@ + kind_number(n),
        KindModel::Custom(c) => "custom."@ + c,
    }
}

/// The number a kind suffix stands for: zero when it does not parse.
pub open spec fn number_or_zero(s: Seq<char>) -> u16 {
    match parse_u16(s) {
        Some(n) => n,
        None => 0,
    }
}

/// The kind a name stands for, if any.
pub open spec fn kind_from_name(s: Seq<char>) -> Option<KindModel> {
    if s == "stable"@ {
        Some(KindModel::Stable)
    } else if starts_with(s, "rc"@) {
        Some(KindModel::ReleaseCandidate(number_or_zero(s.skip(2))))
    } else if starts_with(s, "alpha"@) {
        Some(KindModel::Alpha(number_or_zero(s.skip(5))))
    } else if starts_with(s, "beta"@) {
        Some(KindModel::Beta(number_or_zero(s.skip(4))))
    } else if starts_with(s, "custom."@) {
        Some(KindModel::Custom(s.skip(7)))
    } else {
        None
    }
}

// ---------------------------------------------------------------------------
// Versions

/// How a version is written (the system is not written).
pub open spec fn version_string(v: VersionModel) -> Seq<char> {
    v.version + (if v.kind != KindModel::Stable {
        seq!['.'] + kind_string(v.kind)
    } else {
        Seq::<char>::empty()
    }) + (if v.mono {
        ".mono"@
    } else {
        Seq::<char>::empty()
    })
}

/// Name of the export templates folder of a version.
pub open spec fn export_template_name(v: VersionModel) -> Seq<char> {
    v.version + seq!['.'] + kind_string(v.kind) + (if v.mono {
        ".mono"@
    } else {
        Seq::<char>::empty()
    })
}

/// What has been read of a version string so far.
pub struct ParseState {
    /// Numbers read, as written.
    pub nums: Seq<Seq<char>>,
    /// A part that is not a number has been read.
    pub done: bool,
    /// Kind read last (stable by default).
    pub kind: KindModel,
    /// System read last (the default system otherwise).
    pub system: SystemVersion,
    /// `mono` has been read.
    pub mono: bool,
}

/// Nothing read yet.
pub open spec fn initial_state(default_system: SystemVersion) -> ParseState {
    ParseState {
        nums: Seq::empty(),
        done: false,
        kind: KindModel::Stable,
        system: default_system,
        mono: false,
    }
}

/// Reading one dot-separated part.  Numbers must all come first; after
/// them each part is `mono`, a kind or a system.
pub open spec fn parse_step(st: ParseState, part: Seq<char>) -> Option<ParseState> {
    if parse_u16(part) is Some {
        if st.done {
            None
        } else {
            Some(
                ParseState {
                    nums: st.nums.push(part),
                    done: st.done,
                    kind: st.kind,
                    system: st.system,
                    mono: st.mono,
                },
            )
        }
    } else if part == "mono"@ {
        Some(ParseState { nums: st.nums, done: true, kind: st.kind, system: st.system, mono: true })
    } else if kind_from_name(part) is Some {
        Some(
            ParseState {
                nums: st.nums,
                done: true,
                kind: kind_from_name(part)->0,
                system: st.system,
                mono: st.mono,
            },
        )
    } else if system_from_name(part) is Some {
        Some(
            ParseState {
                nums: st.nums,
                done: true,
                kind: st.kind,
                system: system_from_name(part)->0,
                mono: st.mono,
            },
        )
    } else {
        None
    }
}

/// Reading parts in order.
pub open spec fn parse_parts(parts: Seq<Seq<char>>, init: ParseState) -> Option<ParseState>
    decreases parts.len(),
{
    if parts.len() == 0 {
        Some(init)
    } else {
        match parse_parts(parts.drop_last(), init) {
            Some(st) => parse_step(st, parts.last()),
            None => None,
        }
    }
}

/// Splitting at dots, character by character: the finished parts and the
/// part being read.
pub open spec fn split_acc(s: Seq<char>) -> (Seq<Seq<char>>, Seq<char>)
    decreases s.len(),
{
    if s.len() == 0 {
        (Seq::empty(), Seq::empty())
    } else {
        let (d, c) = split_acc(s.drop_last());
        if s.last() == '.' {
            (d.push(c), Seq::empty())
        } else {
            (d, c.push(s.last()))
        }
    }
}

/// `str::split('.')`: the parts between dots (one empty part for an empty string).
pub open spec fn split_dot(s: Seq<char>) -> Seq<Seq<char>> {
    split_acc(s).0.push(split_acc(s).1)
}

/// Parts joined with dots.
pub open spec fn join_dot(parts: Seq<Seq<char>>) -> Seq<char>
    decreases parts.len(),
{
    if parts.len() == 0 {
        Seq::empty()
    } else if parts.len() == 1 {
        parts[0]
    } else {
        join_dot(parts.drop_last()) + seq!['.'] + parts.last()
    }
}

/// The version a string stands for, with `default_system` when it names none.
pub open spec fn parse_version(s: Seq<char>, default_system: SystemVersion) -> Option<VersionModel> {
    match parse_parts(split_dot(s), initial_state(default_system)) {
        Some(st) => Some(
            VersionModel { version: join_dot(st.nums), kind: st.kind, system: st.system, mono: st.mono },
        ),
        None => None,
    }
}

// ---------------------------------------------------------------------------
// Executable code

/// The system a name stands for, read from its characters.
fn system_from_chars(n: &[char]) -> (res: Option<SystemVersion>)
    ensures
        res == system_from_name(n@),
{
    if chars_eq_str(n, "win32") {
        Some(SystemVersion::Win32)
    } else if chars_eq_str(n, "win64") {
        Some(SystemVersion::Win64)
    } else if chars_eq_str(n, "win-arm64") {
        Some(SystemVersion::WinArm64)
    } else if chars_eq_str(n, "linux-x32") {
        Some(SystemVersion::LinuxX32)
    } else if chars_eq_str(n, "linux-x64") {
        Some(SystemVersion::LinuxX64)
    } else if chars_eq_str(n, "macos") {
        Some(SystemVersion::MacOS)
    } else if chars_eq_str(n, "linux-arm32") {
        Some(SystemVersion::LinuxArm32)
    } else if chars_eq_str(n, "linux-arm64") {
        Some(SystemVersion::LinuxArm64)
    } else {
        None
    }
}

impl SystemVersion {
    /// Determine system kind from the target's operating system and
    /// architecture names.  Only the supported pairs are accepted.
    pub fn determine_system_kind(os: &str, arch: &str) -> (res: SystemVersion)
        requires
            host_system(os@, arch@) is Some,
        ensures
            host_system(os@, arch@) == Some(res),
    {
        let os = chars_of(os);
        let arch = chars_of(arch);
        if chars_eq_str(os.as_slice(), "windows") {
            if chars_eq_str(arch.as_slice(), "x86") {
                SystemVersion::Win32
            } else {
                SystemVersion::Win64
            }
        } else if chars_eq_str(os.as_slice(), "linux") {
            if chars_eq_str(arch.as_slice(), "x86") {
                SystemVersion::LinuxX32
            } else if chars_eq_str(arch.as_slice(), "x86_64") {
                SystemVersion::LinuxX64
            } else if chars_eq_str(arch.as_slice(), "arm") {
                SystemVersion::LinuxArm32
            } else {
                SystemVersion::LinuxArm64
            }
        } else {
            SystemVersion::MacOS
        }
    }

    /// Whether the operating system and architecture name a supported target.
    pub fn is_supported_target(os: &str, arch: &str) -> (res: bool)
        ensures
            res == (host_system(os@, arch@) is Some),
    {
        let os = chars_of(os);
        let arch = chars_of(arch);
        if chars_eq_str(os.as_slice(), "windows") {
            chars_eq_str(arch.as_slice(), "x86") || chars_eq_str(arch.as_slice(), "x86_64")
        } else if chars_eq_str(os.as_slice(), "linux") {
            chars_eq_str(arch.as_slice(), "x86") || chars_eq_str(arch.as_slice(), "x86_64")
                || chars_eq_str(arch.as_slice(), "arm") || chars_eq_str(arch.as_slice(), "aarch64")
        } else {
            chars_eq_str(os.as_slice(), "macos")
        }
    }

    /// Check if system is linux-based.
    pub fn is_linux(&self) -> (res: bool)
        ensures
            res == is_linux_system(*self),
    {
        match self {
            SystemVersion::LinuxArm32 | SystemVersion::LinuxArm64 | SystemVersion::LinuxX32
            | SystemVersion::LinuxX64 => true,
            _ => false,
        }
    }

    /// Get executable extension for current system.
    pub fn get_extension(&self) -> (res: &'static str)
        ensures
            res@ == extension(*self),
    {
        match self {
            SystemVersion::Win32 | SystemVersion::Win64 | SystemVersion::WinArm64 => "exe",
            SystemVersion::LinuxX32 => "x86_32",
            SystemVersion::LinuxX64 => "x86_64",
            SystemVersion::LinuxArm32 => "arm32",
            SystemVersion::LinuxArm64 => "arm64",
            SystemVersion::MacOS => "app",
        }
    }

    /// Get archive basename for current system.
    pub fn get_archive_basename(&self, with_mono: bool) -> (res: &'static str)
        ensures
            res@ == archive_basename(*self, with_mono),
    {
        match self {
            SystemVersion::Win32 => if with_mono { "mono_win32" } else { "win32.exe" },
            SystemVersion::Win64 => if with_mono { "mono_win64" } else { "win64.exe" },
            SystemVersion::WinArm64 => if with_mono { "mono_windows_arm64" } else { "windows_arm64.exe" },
            SystemVersion::LinuxX32 => if with_mono { "mono_linux_x86_32" } else { "linux.x86_32" },
            SystemVersion::LinuxX64 => if with_mono { "mono_linux_x86_64" } else { "linux.x86_64" },
            SystemVersion::MacOS => if with_mono { "mono_macos.64" } else { "macos.universal" },
            SystemVersion::LinuxArm32 => if with_mono { "mono_linux_arm32" } else { "linux.arm32" },
            SystemVersion::LinuxArm64 => if with_mono { "mono_linux_arm64" } else { "linux.arm64" },
        }
    }

    /// The name of the system, as written in a version string.
    pub fn to_string(&self) -> (res: String)
        ensures
            res@ == system_name(*self),
    {
        let name = match self {
            SystemVersion::Win32 => "win32",
            SystemVersion::Win64 => "win64",
            SystemVersion::WinArm64 => "win-arm64",
            SystemVersion::LinuxX32 => "linux-x32",
            SystemVersion::LinuxX64 => "linux-x64",
            SystemVersion::MacOS => "macos",
            SystemVersion::LinuxArm32 => "linux-arm32",
            SystemVersion::LinuxArm64 => "linux-arm64",
        };
        String::from_str(name)
    }

    /// Parse a system name.
    pub fn parse(s: &str) -> (res: Result<SystemVersion, Error>)
        ensures
            match res {
                Ok(v) => system_from_name(s@) == Some(v),
                Err(e) => system_from_name(s@) is None && e@ == ErrorModel::WrongVersion(
                    "Unknown version "@ + s@,
                ),
            },
    {
        let cs = chars_of(s);
        match system_from_chars(cs.as_slice()) {
            Some(v) => Ok(v),
            None => {
                let mut msg = String::from_str("Unknown version ");
                msg.append(s);
                Err(Error::WrongVersion(msg))
            },
        }
    }
}

/// The number after a kind name, zero when it does not parse.
fn number_after(part: &[char], from: usize) -> (res: u16)
    requires
        from <= part@.len(),
    ensures
        res == number_or_zero(part@.skip(from as int)),
{
    let rest = chars_skip(part, from);
    match parse_u16_chars(rest.as_slice()) {
        Some(n) => n,
        None => 0,
    }
}

/// The kind a name stands for, read from its characters.
fn kind_from_chars(part: &[char]) -> (res: Option<GodotVersionKind>)
    ensures
        match res {
            Some(k) => kind_from_name(part@) == Some(k@),
            None => kind_from_name(part@) is None,
        },
{
    proof {
        reveal_strlit("rc");
        reveal_strlit("alpha");
        reveal_strlit("beta");
        reveal_strlit("custom.");
    }
    if chars_eq_str(part, "stable") {
        Some(GodotVersionKind::Stable)
    } else if chars_starts_with_str(part, "rc") {
        Some(GodotVersionKind::ReleaseCandidate(number_after(part, 2)))
    } else if chars_starts_with_str(part, "alpha") {
        Some(GodotVersionKind::Alpha(number_after(part, 5)))
    } else if chars_starts_with_str(part, "beta") {
        Some(GodotVersionKind::Beta(number_after(part, 4)))
    } else if chars_starts_with_str(part, "custom.") {
        let rest = chars_skip(part, 7);
        Some(GodotVersionKind::Custom(string_of(rest.as_slice())))
    } else {
        None
    }
}

/// Appends the number written after a kind name.
fn append_kind_number(s: &mut String, n: u16)
    ensures
        final(s)@ == old(s)@ + kind_number(n),
{
    if n != 0 {
        let digits = u16_to_string(n);
        s.append(digits.as_str());
    } else {
        assert(old(s)@ + kind_number(n) =~= old(s)@);
    }
}

impl GodotVersionKind {
    /// How the kind is written.
    pub fn to_string(&self) -> (res: String)
        ensures
            res@ == kind_string(self@),
    {
        match self {
            GodotVersionKind::Stable => String::from_str("stable"),
            GodotVersionKind::ReleaseCandidate(n) => {
                let mut res = String::from_str("rc");
                append_kind_number(&mut res, *n);
                res
            },
            GodotVersionKind::Alpha(n) => {
                let mut res = String::from_str("alpha");
                append_kind_number(&mut res, *n);
                res
            },
            GodotVersionKind::Beta(n) => {
                let mut res = String::from_str("beta");
                append_kind_number(&mut res, *n);
                res
            },
            GodotVersionKind::Custom(c) => {
                let mut res = String::from_str("custom.");
                res.append(c.as_str());
                res
            },
        }
    }

    /// Parse a kind name.
    pub fn parse(s: &str) -> (res: Result<GodotVersionKind, Error>)
        ensures
            match res {
                Ok(k) => kind_from_name(s@) == Some(k@),
                Err(e) => kind_from_name(s@) is None && e@ == ErrorModel::WrongVersionKind(s@),
            },
    {
        let cs = chars_of(s);
        match kind_from_chars(cs.as_slice()) {
            Some(k) => Ok(k),
            None => Err(Error::WrongVersionKind(String::from_str(s))),
        }
    }

    /// Whether the kind is the stable one.
    pub fn is_stable(&self) -> (res: bool)
        ensures
            res == (self@ == KindModel::Stable),
    {
        match self {
            GodotVersionKind::Stable => true,
            _ => false,
        }
    }
}

/// Executable counterpart of a [`ParseState`].
struct Reader {
    version: Vec<char>,
    has_nums: bool,
    done: bool,
    kind: GodotVersionKind,
    system: SystemVersion,
    mono: bool,
}

impl Reader {
    spec fn models(&self, st: ParseState) -> bool {
        &&& self.version@ == join_dot(st.nums)
        &&& self.has_nums == (st.nums.len() > 0)
        &&& self.done == st.done
        &&& self.kind@ == st.kind
        &&& self.system == st.system
        &&& self.mono == st.mono
    }

    /// Reads one part; false when the part is refused.
    fn step(&mut self, part: &[char], Ghost(st): Ghost<ParseState>) -> (ok: bool)
        requires
            old(self).models(st),
        ensures
            ok == (parse_step(st, part@) is Some),
            ok ==> final(self).models(parse_step(st, part@)->0),
    {
        if parse_u16_chars(part).is_some() {
            if self.done {
                return false;
            }
            let ghost nums2 = st.nums.push(part@);
            assert(nums2.drop_last() =~= st.nums);
            if !self.has_nums {
                let mut i: usize = 0;
                while i < part.len()
                    invariant
                        i <= part@.len(),
                        self.version@ == old(self).version@ + part@.subrange(0, i as int),
                        self.has_nums == old(self).has_nums,
                        self.done == old(self).done,
                        self.kind == old(self).kind,
                        self.system == old(self).system,
                        self.mono == old(self).mono,
                    decreases part@.len() - i,
                {
                    self.version.push(part[i]);
                    assert(self.version@ =~= old(self).version@ + part@.subrange(0, i + 1));
                    i = i + 1;
                }
                assert(st.nums.len() == 0);
                assert(old(self).version@ =~= Seq::<char>::empty());
                assert(part@.subrange(0, part@.len() as int) =~= part@);
                assert(self.version@ =~= join_dot(nums2));
            } else {
                self.version.push('.');
                let mut i: usize = 0;
                while i < part.len()
                    invariant
                        i <= part@.len(),
                        self.version@ == old(self).version@.push('.') + part@.subrange(0, i as int),
                        self.has_nums == old(self).has_nums,
                        self.done == old(self).done,
                        self.kind == old(self).kind,
                        self.system == old(self).system,
                        self.mono == old(self).mono,
                    decreases part@.len() - i,
                {
                    self.version.push(part[i]);
                    assert(self.version@ =~= old(self).version@.push('.') + part@.subrange(0, i + 1));
                    i = i + 1;
                }
                assert(part@.subrange(0, part@.len() as int) =~= part@);
                assert(self.version@ =~= join_dot(nums2));
            }
            self.has_nums = true;
            true
        } else if chars_eq_str(part, "mono") {
            self.done = true;
            self.mono = true;
            true
        } else {
            match kind_from_chars(part) {
                Some(k) => {
                    self.done = true;
                    self.kind = k;
                    true
                },
                None => {
                    match system_from_chars(part) {
                        Some(sys) => {
                            self.done = true;
                            self.system = sys;
                            true
                        },
                        None => false,
                    }
                },
            }
        }
    }
}

impl GodotVersion {
    /// Creates a new Godot version.
    pub fn new(version: &str, kind: GodotVersionKind, system: SystemVersion, mono: bool) -> (res: Self)
        ensures
            res@ == (VersionModel { version: version@, kind: kind@, system, mono }),
    {
        GodotVersion { version: String::from_str(version), kind, system, mono }
    }

    /// Get version.
    pub fn version(&self) -> (res: &str)
        ensures
            res@ == self@.version,
    {
        self.version.as_str()
    }

    /// Get kind.
    pub fn kind(&self) -> (res: &GodotVersionKind)
        ensures
            res@ == self@.kind,
    {
        &self.kind
    }

    /// Is mono enabled?
    pub fn mono(&self) -> (res: bool)
        ensures
            res == self@.mono,
    {
        self.mono
    }

    /// Get system version.
    pub fn system(&self) -> (res: SystemVersion)
        ensures
            res == self@.system,
    {
        self.system
    }

    /// How the version is written: numbers, then the kind unless it is
    /// stable, then `.mono` for a mono build.
    pub fn to_string(&self) -> (res: String)
        ensures
            res@ == version_string(self@),
    {
        let mut res = self.version.clone();
        if !self.kind.is_stable() {
            push_char(&mut res, '.');
            let k = self.kind.to_string();
            res.append(k.as_str());
        }
        if self.mono {
            res.append(".mono");
        }
        proof {
            reveal_strlit(".mono");
        }
        assert(res@ =~= version_string(self@));
        res
    }

    /// Get version slug.
    pub fn slug(&self) -> (res: String)
        ensures
            res@ == slug_of(version_string(self@)),
    {
        let s = self.to_string();
        slugify_str(s.as_str())
    }

    /// Get export template name
    pub fn get_export_template_name(&self) -> (res: String)
        ensures
            res@ == export_template_name(self@),
    {
        let mut output = self.version.clone();
        push_char(&mut output, '.');
        let k = self.kind.to_string();
        output.append(k.as_str());
        if self.mono {
            output.append(".mono");
        }
        assert(output@ =~= export_template_name(self@));
        output
    }

    /// Whether two versions are the same (system included).
    pub fn same_as(&self, other: &GodotVersion) -> (res: bool)
        ensures
            res == (self@ == other@),
    {
        let a = chars_of(self.version.as_str());
        let b = chars_of(other.version.as_str());
        if !chars_eq(a.as_slice(), b.as_slice()) {
            return false;
        }
        if self.system != other.system || self.mono != other.mono {
            return false;
        }
        match (&self.kind, &other.kind) {
            (GodotVersionKind::Stable, GodotVersionKind::Stable) => true,
            (GodotVersionKind::ReleaseCandidate(x), GodotVersionKind::ReleaseCandidate(y)) => *x == *y,
            (GodotVersionKind::Alpha(x), GodotVersionKind::Alpha(y)) => *x == *y,
            (GodotVersionKind::Beta(x), GodotVersionKind::Beta(y)) => *x == *y,
            (GodotVersionKind::Custom(x), GodotVersionKind::Custom(y)) => {
                let xa = chars_of(x.as_str());
                let ya = chars_of(y.as_str());
                chars_eq(xa.as_slice(), ya.as_slice())
            },
            _ => false,
        }
    }

    /// Parse a version string; the system is `default_system` unless the
    /// string names one.
    pub fn parse(s: &str, default_system: SystemVersion) -> (res: Result<GodotVersion, Error>)
        ensures
            match res {
                Ok(v) => parse_version(s@, default_system) == Some(v@),
                Err(e) => parse_version(s@, default_system) is None && e@ == ErrorModel::WrongVersion(s@),
            },
    {
        let cs = chars_of(s);
        let ghost init = initial_state(default_system);
        let mut reader = Reader {
            version: Vec::new(),
            has_nums: false,
            done: false,
            kind: GodotVersionKind::Stable,
            system: default_system,
            mono: false,
        };
        let mut cur: Vec<char> = Vec::new();
        let mut failed = false;
        let ghost mut parts: Seq<Seq<char>> = Seq::empty();
        let ghost mut st: ParseState = init;
        assert(split_acc(cs@.subrange(0, 0)) == (Seq::<Seq<char>>::empty(), Seq::<char>::empty()));
        assert(reader.version@ =~= join_dot(Seq::<Seq<char>>::empty()));
        let mut i: usize = 0;
        while i < cs.len()
            invariant
                i <= cs@.len(),
                cs@ == s@,
                init == initial_state(default_system),
                split_acc(cs@.subrange(0, i as int)) == (parts, cur@),
                parts.len() <= i,
                failed <==> parse_parts(parts, init) is None,
                !failed ==> parse_parts(parts, init) == Some(st),
                !failed ==> reader.models(st),
            decreases cs@.len() - i,
        {
            let c = cs[i];
            proof {
                assert(cs@.subrange(0, i + 1).drop_last() =~= cs@.subrange(0, i as int));
            }
            if c == '.' {
                let ghost old_parts = parts;
                if !failed {
                    let ok = reader.step(cur.as_slice(), Ghost(st));
                    proof {
                        if ok {
                            st = parse_step(st, cur@)->0;
                        }
                    }
                    failed = !ok;
                }
                proof {
                    parts = parts.push(cur@);
                    assert(parts.drop_last() =~= old_parts);
                }
                cur = Vec::new();
            } else {
                cur.push(c);
            }
            i = i + 1;
        }
        assert(cs@.subrange(0, cs@.len() as int) =~= cs@);
        let ghost all_parts = parts.push(cur@);
        assert(all_parts == split_dot(s@));
        assert(all_parts.drop_last() =~= parts);
        if !failed {
            let ok = reader.step(cur.as_slice(), Ghost(st));
            if ok {
                proof {
                    st = parse_step(st, cur@)->0;
                }
                let version = string_of(reader.version.as_slice());
                return Ok(GodotVersion { version, kind: reader.kind, system: reader.system, mono: reader.mono });
            }
        }
        Err(Error::WrongVersion(String::from_str(s)))
    }
}

// ---------------------------------------------------------------------------
// Laws

/// The numbers of a version string: every dot-separated part parses as a
/// 16-bit number.
pub open spec fn well_formed_numbers(v: Seq<char>) -> bool {
    forall|i: int| 0 <= i < split_dot(v).len() ==> (#[trigger] parse_u16(split_dot(v)[i])) is Some
}

/// `s` holds no dot.
pub open spec fn no_dot(s: Seq<char>) -> bool {
    forall|i: int| 0 <= i < s.len() ==> s[i] != '.'
}

proof fn lemma_split_no_dot(p: Seq<char>)
    requires
        no_dot(p),
    ensures
        split_acc(p) == (Seq::<Seq<char>>::empty(), p),
    decreases p.len(),
{
    if p.len() > 0 {
        lemma_split_no_dot(p.drop_last());
        assert(p.drop_last().push(p.last()) =~= p);
    } else {
        assert(p =~= Seq::<char>::empty());
    }
}

proof fn lemma_split_concat(a: Seq<char>, b: Seq<char>)
    ensures
        split_acc(a + seq!['.'] + b) == (split_dot(a) + split_acc(b).0, split_acc(b).1),
    decreases b.len(),
{
    let ab = a + seq!['.'] + b;
    if b.len() == 0 {
        assert(ab.drop_last() =~= a);
        assert(split_dot(a) + Seq::<Seq<char>>::empty() =~= split_dot(a));
    } else {
        lemma_split_concat(a, b.drop_last());
        assert(ab.drop_last() =~= a + seq!['.'] + b.drop_last());
        assert(ab.last() == b.last());
        let (d, c) = split_acc(b.drop_last());
        if b.last() == '.' {
            assert(split_dot(a) + d.push(c) =~= (split_dot(a) + d).push(c));
        }
    }
}

/// Splitting at a dot splits the two sides apart.
proof fn lemma_split_dot_concat(a: Seq<char>, b: Seq<char>)
    ensures
        split_dot(a + seq!['.'] + b) == split_dot(a) + split_dot(b),
{
    lemma_split_concat(a, b);
    assert((split_dot(a) + split_acc(b).0).push(split_acc(b).1) =~= split_dot(a) + split_dot(b));
}

proof fn lemma_parse_parts_concat(p: Seq<Seq<char>>, q: Seq<Seq<char>>, init: ParseState)
    ensures
        parse_parts(p + q, init) == match parse_parts(p, init) {
            Some(st) => parse_parts(q, st),
            None => None,
        },
    decreases q.len(),
{
    if q.len() == 0 {
        assert(p + q =~= p);
    } else {
        lemma_parse_parts_concat(p, q.drop_last(), init);
        assert((p + q).drop_last() =~= p + q.drop_last());
        assert((p + q).last() == q.last());
    }
}

proof fn lemma_parse_numbers(parts: Seq<Seq<char>>, init: ParseState)
    requires
        !init.done,
        forall|i: int| 0 <= i < parts.len() ==> (#[trigger] parse_u16(parts[i])) is Some,
    ensures
        parse_parts(parts, init) == Some(
            ParseState {
                nums: init.nums + parts,
                done: false,
                kind: init.kind,
                system: init.system,
                mono: init.mono,
            },
        ),
    decreases parts.len(),
{
    if parts.len() == 0 {
        assert(init.nums + parts =~= init.nums);
    } else {
        let pre = parts.drop_last();
        assert forall|i: int| 0 <= i < pre.len() implies (#[trigger] parse_u16(pre[i])) is Some by {
            assert(pre[i] == parts[i]);
        }
        lemma_parse_numbers(pre, init);
        assert(parse_u16(parts[parts.len() - 1]) is Some);
        assert((init.nums + pre).push(parts.last()) =~= init.nums + parts);
    }
}

proof fn lemma_join_split_acc(s: Seq<char>)
    ensures
        join_dot(split_acc(s).0.push(split_acc(s).1)) == s,
    decreases s.len(),
{
    if s.len() == 0 {
        assert(join_dot(seq![Seq::<char>::empty()]) == Seq::<char>::empty());
        assert(s =~= Seq::<char>::empty());
    } else {
        lemma_join_split_acc(s.drop_last());
        let (d, c) = split_acc(s.drop_last());
        let x = s.last();
        if x == '.' {
            let parts = d.push(c).push(Seq::<char>::empty());
            assert(parts.drop_last() =~= d.push(c));
            assert(join_dot(parts) =~= s.drop_last() + seq!['.'] + Seq::<char>::empty());
            assert(s.drop_last() + seq!['.'] + Seq::<char>::empty() =~= s);
        } else {
            let parts = d.push(c.push(x));
            if d.len() == 0 {
                assert(join_dot(d.push(c)) == c);
                assert(c.push(x) =~= s);
            } else {
                assert(parts.drop_last() =~= d);
                assert(d.push(c).drop_last() =~= d);
                assert(join_dot(d.push(c)) == join_dot(d) + seq!['.'] + c);
                assert(join_dot(parts) == join_dot(d) + seq!['.'] + c.push(x));
                assert(join_dot(d) + seq!['.'] + c.push(x) =~= (join_dot(d) + seq!['.'] + c).push(x));
                assert(s.drop_last().push(x) =~= s);
            }
        }
    }
}

/// Joining the parts of a string with dots gives the string back.
pub proof fn lemma_join_split(s: Seq<char>)
    ensures
        join_dot(split_dot(s)) == s,
{
    lemma_join_split_acc(s);
}

proof fn lemma_kind_string_no_dot(k: KindModel)
    requires
        !(k is Custom),
    ensures
        no_dot(kind_string(k)),
        kind_string(k).len() > 0,
        kind_string(k)[0] != '+',
        !crate::text::is_digit(kind_string(k)[0]),
        kind_string(k)[0] != 'm',
{
    reveal_strlit("stable");
    reveal_strlit("rc");
    reveal_strlit("alpha");
    reveal_strlit("beta");
    match k {
        KindModel::ReleaseCandidate(n) | KindModel::Alpha(n) | KindModel::Beta(n) => {
            if n != 0 {
                crate::text::lemma_dec_string(n as nat);
            }
            let ks = kind_string(k);
            assert forall|i: int| 0 <= i < ks.len() implies ks[i] != '.' by {
                if n != 0 {
                    let prefix_len: int = match k {
                        KindModel::ReleaseCandidate(_) => 2,
                        KindModel::Alpha(_) => 5,
                        _ => 4,
                    };
                    if i >= prefix_len {
                        assert(ks[i] == dec_string(n as nat)[i - prefix_len]);
                        assert(crate::text::is_digit(dec_string(n as nat)[i - prefix_len]));
                    }
                }
            }
        },
        _ => {},
    }
}

/// Writing a kind and reading it back gives the kind.
pub proof fn lemma_kind_roundtrip(k: KindModel)
    ensures
        kind_from_name(kind_string(k)) == Some(k),
{
    reveal_strlit("stable");
    reveal_strlit("rc");
    reveal_strlit("alpha");
    reveal_strlit("beta");
    reveal_strlit("custom.");
    let ks = kind_string(k);
    match k {
        KindModel::Stable => {},
        KindModel::ReleaseCandidate(n) => {
            assert(ks.subrange(0, 2) =~= "rc"@);
            assert(ks.skip(2) =~= kind_number(n));
            lemma_kind_number(n);
        },
        KindModel::Alpha(n) => {
            assert(ks[0] == 'a');
            assert(ks != "stable"@);
            assert(!starts_with(ks, "rc"@)) by {
                if "rc"@.len() <= ks.len() {
                    assert(ks.subrange(0, 2)[0] != "rc"@[0]);
                }
            }
            assert(!starts_with(ks, "rc"@));
            assert(ks.subrange(0, 5) =~= "alpha"@);
            assert(ks.skip(5) =~= kind_number(n));
            lemma_kind_number(n);
        },
        KindModel::Beta(n) => {
            assert(ks[0] == 'b');
            assert(ks != "stable"@);
            assert(!starts_with(ks, "rc"@)) by {
                if "rc"@.len() <= ks.len() {
                    assert(ks.subrange(0, 2)[0] != "rc"@[0]);
                }
            }
            assert(!starts_with(ks, "alpha"@)) by {
                if "alpha"@.len() <= ks.len() {
                    assert(ks.subrange(0, 5)[0] != "alpha"@[0]);
                }
            }
            assert(!starts_with(ks, "rc"@));
            assert(!starts_with(ks, "alpha"@));
            assert(ks.subrange(0, 4) =~= "beta"@);
            assert(ks.skip(4) =~= kind_number(n));
            lemma_kind_number(n);
        },
        KindModel::Custom(c) => {
            assert(ks[0] == 'c');
            assert(ks != "stable"@);
            assert(!starts_with(ks, "rc"@)) by {
                if "rc"@.len() <= ks.len() {
                    assert(ks.subrange(0, 2)[0] != "rc"@[0]);
                }
            }
            assert(!starts_with(ks, "alpha"@)) by {
                if "alpha"@.len() <= ks.len() {
                    assert(ks.subrange(0, 5)[0] != "alpha"@[0]);
                }
            }
            assert(!starts_with(ks, "beta"@)) by {
                if "beta"@.len() <= ks.len() {
                    assert(ks.subrange(0, 4)[0] != "beta"@[0]);
                }
            }
            assert(!starts_with(ks, "rc"@));
            assert(!starts_with(ks, "alpha"@));
            assert(!starts_with(ks, "beta"@));
            assert(ks.subrange(0, 7) =~= "custom."@);
            assert(ks.skip(7) =~= c);
        },
    }
}

proof fn lemma_kind_number(n: u16)
    ensures
        number_or_zero(kind_number(n)) == n,
{
    if n != 0 {
        crate::text::lemma_parse_u16_dec_string(n);
    } else {
        assert(parse_u16(Seq::<char>::empty()) is None);
    }
}

/// Writing a system name and reading it back gives the system.
pub proof fn law_system_roundtrip(s: SystemVersion)
    ensures
        system_from_name(system_name(s)) == Some(s),
{
    reveal_strlit("win32");
    reveal_strlit("win64");
    reveal_strlit("win-arm64");
    reveal_strlit("linux-x32");
    reveal_strlit("linux-x64");
    reveal_strlit("macos");
    reveal_strlit("linux-arm32");
    reveal_strlit("linux-arm64");
    let n = system_name(s);
    match s {
        SystemVersion::Win32 => {
            assert(n == "win32"@);
            assert(system_from_name(n) == Some(SystemVersion::Win32));
            assert(system_from_name(n) == Some(SystemVersion::Win32));
        },
        SystemVersion::Win64 => {
            assert(n == system_name(SystemVersion::Win64));
            assert(n[4] != "win32"@[4]);
            assert(system_from_name(n) == Some(SystemVersion::Win64));
        },
        SystemVersion::WinArm64 => {
            assert(n == system_name(SystemVersion::WinArm64));
            assert(n.len() != "win32"@.len());
            assert(n.len() != "win64"@.len());
            assert(system_from_name(n) == Some(SystemVersion::WinArm64));
        },
        SystemVersion::LinuxX32 => {
            assert(n == system_name(SystemVersion::LinuxX32));
            assert(n[3] != "win-arm64"@[3]);
            assert(system_from_name(n) == Some(SystemVersion::LinuxX32));
        },
        SystemVersion::LinuxX64 => {
            assert(n == system_name(SystemVersion::LinuxX64));
            assert(n[3] != "win-arm64"@[3]);
            assert(n[7] != "linux-x32"@[7]);
            assert(system_from_name(n) == Some(SystemVersion::LinuxX64));
        },
        SystemVersion::MacOS => {
            assert(n == system_name(SystemVersion::MacOS));
            assert(n[0] != "win32"@[0]);
            assert(n[0] != "win64"@[0]);
            assert(system_from_name(n) == Some(SystemVersion::MacOS));
        },
        SystemVersion::LinuxArm32 => {
            assert(n == system_name(SystemVersion::LinuxArm32));
            assert(n.len() == 11);
            assert(system_from_name(n) == Some(SystemVersion::LinuxArm32));
        },
        SystemVersion::LinuxArm64 => {
            assert(n == system_name(SystemVersion::LinuxArm64));
            assert(n.len() == 11);
            assert("linux-arm32"@.len() == 11);
            assert(n[9] == '6');
            assert("linux-arm32"@[9] == '3');
            assert(n != "linux-arm32"@);
            assert(n.len() != "win32"@.len());
            assert(n.len() != "win64"@.len());
            assert(n.len() != "win-arm64"@.len());
            assert(n.len() != "linux-x32"@.len());
            assert(n.len() != "linux-x64"@.len());
            assert(n.len() != "macos"@.len());
            assert(system_from_name(n) == Some(SystemVersion::LinuxArm64));
        },
    }
}

/// A system name that reads as a system is that system's name.
pub proof fn law_system_name_of_parsed(n: Seq<char>, s: SystemVersion)
    requires
        system_from_name(n) == Some(s),
    ensures
        system_name(s) == n,
{
}

/// Writing a version and reading it back, with its own system as the
/// default, gives the version, when its numbers are well formed and its
/// kind is not a custom one (a custom kind holds a dot).
pub proof fn law_version_roundtrip(v: VersionModel)
    requires
        well_formed_numbers(v.version),
        !(v.kind is Custom),
    ensures
        parse_version(version_string(v), v.system) == Some(v),
{
    reveal_strlit("mono");
    reveal_strlit(".mono");
    let init = initial_state(v.system);
    let vparts = split_dot(v.version);
    lemma_join_split(v.version);
    lemma_parse_numbers(vparts, init);
    assert(Seq::<Seq<char>>::empty() + vparts =~= vparts);
    let st1 = ParseState { nums: vparts, done: false, kind: KindModel::Stable, system: v.system, mono: false };
    assert(parse_parts(Seq::<Seq<char>>::empty(), st1) == Some(st1));
    assert(parse_parts(vparts, init) == Some(st1));
    let mono_part: Seq<char> = "mono"@;
    assert(no_dot(mono_part));
    assert(parse_u16(mono_part) is None) by {
        assert(mono_part[0] == 'm');
        assert(!crate::text::is_digit(mono_part[0]));
    }
    lemma_split_no_dot(mono_part);
    let s = version_string(v);
    if v.kind == KindModel::Stable {
        if v.mono {
            assert(s =~= v.version + seq!['.'] + mono_part);
            lemma_split_dot_concat(v.version, mono_part);
            assert(split_dot(mono_part) =~= seq![mono_part]);
            lemma_parse_parts_concat(vparts, seq![mono_part], init);
            assert(seq![mono_part].drop_last() =~= Seq::<Seq<char>>::empty());
            assert(parse_parts(seq![mono_part], st1) == parse_step(st1, mono_part));
            assert(split_dot(s) == vparts + seq![mono_part]);
        } else {
            assert(s =~= v.version);
        }
    } else {
        let ks = kind_string(v.kind);
        lemma_kind_string_no_dot(v.kind);
        lemma_kind_roundtrip(v.kind);
        lemma_split_no_dot(ks);
        assert(split_dot(ks) =~= seq![ks]);
        assert(!crate::text::is_digit(ks[0]));
        assert(parse_u16(ks) is None);
        assert(ks != mono_part) by {
            assert(mono_part[0] == 'm');
        }
        let st2 = ParseState { nums: vparts, done: true, kind: v.kind, system: v.system, mono: false };
        assert(parse_step(st1, ks) == Some(st2));
        let with_kind = v.version + seq!['.'] + ks;
        lemma_split_dot_concat(v.version, ks);
        if v.mono {
            assert(s =~= with_kind + seq!['.'] + mono_part);
            lemma_split_dot_concat(with_kind, mono_part);
            assert(split_dot(mono_part) =~= seq![mono_part]);
            assert(split_dot(s) =~= vparts + seq![ks, mono_part]);
            lemma_parse_parts_concat(vparts, seq![ks, mono_part], init);
            assert(seq![ks, mono_part].drop_last() =~= seq![ks]);
            assert(seq![ks].drop_last() =~= Seq::<Seq<char>>::empty());
            assert(parse_parts(seq![ks], st1) == Some(st2));
            assert(parse_parts(seq![ks, mono_part], st1) == parse_step(st2, mono_part));
        } else {
            assert(s =~= with_kind);
            assert(split_dot(s) =~= vparts + seq![ks]);
            lemma_parse_parts_concat(vparts, seq![ks], init);
            assert(seq![ks].drop_last() =~= Seq::<Seq<char>>::empty());
            assert(parse_parts(seq![ks], st1) == Some(st2));
        }
    }
}

} // verus!
