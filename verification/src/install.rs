//! Where installations go: the files of an engine installed from an
//! official archive, and the steps that install a dependency.
use vstd::prelude::*;

use crate::paths::{
    file_name_start, is_relative, join, join_path, last_index_of, path_is_relative, with_extension, with_extension_path,
};
use crate::errors::PluginError;
use crate::plugins::{Dependency, DependencySource, PluginInfo, SourceModel};
use crate::types::version::{archive_basename, extension, kind_string, GodotVersion, SystemVersion, VersionModel};

verus! {

// ---------------------------------------------------------------------------
// Engines

/// The folder of an official editor archive: `Godot_vVERSION-KIND_BASENAME`.
pub open spec fn zip_folder_name(v: VersionModel, s: SystemVersion) -> Seq<char> {
    "Godot_v"@ + v.version + "-"@ + kind_string(v.kind) + "_"@ + archive_basename(s, v.mono)
}

/// The places of an engine installed from an official archive.
pub struct EngineInstallPaths {
    /// The folder of the version, under the engines folder.
    pub version_path: String,
    /// Where the archive is extracted.
    pub extraction_path: String,
    /// Where the archive is written.
    pub zip_path: String,
    /// The editor executable, in the extracted archive.
    pub executable_source: String,
    /// Where the editor executable is copied.
    pub executable_target: String,
    /// The `GodotSharp` folder of a mono build, in the extracted archive.
    pub mono_source: Option<String>,
}

/// An archive basename ends with neither a separator nor a dot.
proof fn lemma_basename_end(s: SystemVersion, mono: bool)
    ensures
        archive_basename(s, mono).len() > 0,
        archive_basename(s, mono).last() != '/',
        archive_basename(s, mono).last() != '.',
        extension(s).len() > 0,
{
    reveal_strlit("mono_win32");
    reveal_strlit("win32.exe");
    reveal_strlit("mono_win64");
    reveal_strlit("win64.exe");
    reveal_strlit("mono_windows_arm64");
    reveal_strlit("windows_arm64.exe");
    reveal_strlit("mono_linux_x86_32");
    reveal_strlit("linux.x86_32");
    reveal_strlit("mono_linux_x86_64");
    reveal_strlit("linux.x86_64");
    reveal_strlit("mono_macos.64");
    reveal_strlit("macos.universal");
    reveal_strlit("mono_linux_arm32");
    reveal_strlit("linux.arm32");
    reveal_strlit("mono_linux_arm64");
    reveal_strlit("linux.arm64");
    reveal_strlit("exe");
    reveal_strlit("x86_32");
    reveal_strlit("x86_64");
    reveal_strlit("arm32");
    reveal_strlit("arm64");
    reveal_strlit("app");
}

/// A path joined with a non-empty name that ends with neither a separator
/// nor a dot ends as the name does.
proof fn lemma_join_end(base: Seq<char>, name: Seq<char>)
    requires
        name.len() > 0,
        name[0] != '/',
    ensures
        join_path(base, name).len() > 0,
        join_path(base, name).last() == name.last(),
{
}

/// The last occurrence of a character is at `d` when it occurs there and
/// not after.
proof fn lemma_last_index_at(p: Seq<char>, c: char, d: int)
    requires
        0 <= d < p.len(),
        p[d] == c,
        forall|j: int| d < j < p.len() ==> p[j] != c,
    ensures
        last_index_of(p, c) == Some(d),
    decreases p.len(),
{
    if p.last() != c {
        let t = p.drop_last();
        assert forall|j: int| d < j < t.len() implies t[j] != c by {
            assert(t[j] == p[j]);
        }
        lemma_last_index_at(t, c, d);
    }
}

/// A character that does not occur from `k` on occurs last before `k`, if
/// at all.
proof fn lemma_last_index_before(p: Seq<char>, c: char, k: int)
    requires
        0 <= k <= p.len(),
        forall|j: int| k <= j < p.len() ==> p[j] != c,
    ensures
        match last_index_of(p, c) {
            Some(i) => i < k,
            None => true,
        },
    decreases p.len(),
{
    if p.len() > 0 {
        let t = p.drop_last();
        if p.last() != c {
            if k <= t.len() {
                assert forall|j: int| k <= j < t.len() implies t[j] != c by {
                    assert(t[j] == p[j]);
                }
                lemma_last_index_before(t, c, k);
            } else {
                lemma_last_index_before(t, c, t.len() as int);
            }
        }
    }
}

/// An extension holds neither a dot nor a separator, and the character
/// before it in a basename without mono is no separator.
proof fn lemma_extension_chars(s: SystemVersion)
    requires
        s != SystemVersion::MacOS,
    ensures
        forall|j: int| 0 <= j < extension(s).len() ==> extension(s)[j] != '.' && extension(s)[j] != '/',
        archive_basename(s, false).len() >= extension(s).len() + 2,
        archive_basename(s, false)[archive_basename(s, false).len() - extension(s).len() - 2] != '/',
{
    reveal_strlit("win32.exe");
    reveal_strlit("win64.exe");
    reveal_strlit("windows_arm64.exe");
    reveal_strlit("linux.x86_32");
    reveal_strlit("linux.x86_64");
    reveal_strlit("linux.arm32");
    reveal_strlit("linux.arm64");
    reveal_strlit("exe");
    reveal_strlit("x86_32");
    reveal_strlit("x86_64");
    reveal_strlit("arm32");
    reveal_strlit("arm64");
}

/// The editor of an archive without mono, but for macOS, is the extracted
/// archive folder itself: giving the folder the system's extension leaves
/// it as it is, since the archive's name already ends with it.
pub proof fn law_non_mono_executable_is_folder(extraction: Seq<char>, v: VersionModel, s: SystemVersion)
    requires
        !v.mono,
        s != SystemVersion::MacOS,
    ensures
        with_extension_path(join_path(extraction, zip_folder_name(v, s)), extension(s)) == join_path(
            extraction,
            zip_folder_name(v, s),
        ),
{
    crate::types::version::law_extension_ends_basename(s);
    lemma_extension_chars(s);
    reveal_strlit("Godot_v");
    reveal_strlit(".");
    assert("."@.len() == 1 && "."@[0] == '.');
    let name = zip_folder_name(v, s);
    let b = archive_basename(s, false);
    let ext = extension(s);
    let p = join_path(extraction, name);
    assert(name[0] == 'G');
    let pre: Seq<char> = if extraction.len() == 0 {
        Seq::empty()
    } else if extraction.last() == '/' {
        extraction
    } else {
        extraction + seq!['/']
    };
    assert(p =~= pre + name);
    assert(name =~= ("Godot_v"@ + v.version + "-"@ + kind_string(v.kind) + "_"@) + b);
    let n = p.len() as int;
    let l = ext.len() as int;
    let d = n - l - 1;
    assert forall|j: int| 0 <= j < b.len() implies p[n - b.len() + j] == #[trigger] b[j] by {}
    let e = "."@ + ext;
    assert(b.subrange(b.len() - e.len(), b.len() as int) == e);
    assert forall|j: int| 0 <= j < e.len() implies p[n - e.len() + j] == #[trigger] e[j] by {
        assert(e[j] == b.subrange(b.len() - e.len(), b.len() as int)[j]);
        assert(p[n - b.len() + (b.len() - e.len() + j)] == b[b.len() - e.len() + j]);
    }
    assert(e[0] == '.');
    assert(p[d] == '.');
    assert forall|j: int| d < j < n implies p[j] != '.' && p[j] != '/' by {
        assert(p[n - e.len() + (j - d)] == e[j - d]);
        assert(e[j - d] == ext[j - d - 1]);
    }
    assert(p[d - 1] == b[b.len() - l - 2]) by {
        assert(p[n - b.len() + (b.len() - l - 2)] == b[b.len() - l - 2]);
    }
    lemma_last_index_at(p, '.', d);
    lemma_last_index_before(p, '/', d - 1);
    assert(file_name_start(p) <= d - 1);
    assert(p.subrange(0, d) + seq!['.'] + ext =~= p) by {
        assert forall|j: int| 0 <= j < l implies p[d + 1 + j] == #[trigger] ext[j] by {
            assert(p[n - e.len() + (j + 1)] == e[j + 1]);
        }
    }
}

/// The places of an engine installed from an official archive, with
/// `engines_dir` the folder of the installed engines.
pub fn engine_install_paths(engines_dir: &str, version: &GodotVersion, system: SystemVersion) -> (res: EngineInstallPaths)
    ensures
        ({
            let v = version@;
            let version_path = join_path(engines_dir@, crate::types::version::version_string(v));
            let extraction = join_path(version_path, "temp"@);
            let folder = join_path(extraction, zip_folder_name(v, system));
            &&& res.version_path@ == version_path
            &&& res.extraction_path@ == extraction
            &&& res.zip_path@ == with_extension_path(join_path(version_path, "download"@), "zip"@)
            &&& res.executable_source@ == (if v.mono {
                join_path(folder, zip_folder_name(v, system) + "."@ + extension(system))
            } else {
                with_extension_path(folder, extension(system))
            })
            &&& res.executable_target@ == with_extension_path(join_path(version_path, "godot"@), extension(system))
            &&& match res.mono_source {
                Some(m) => v.mono && m@ == join_path(folder, "GodotSharp"@),
                None => !v.mono,
            }
        }),
{
    proof {
        lemma_basename_end(system, version@.mono);
        reveal_strlit("Godot_v");
        reveal_strlit("download");
        reveal_strlit("godot");
        reveal_strlit("zip");
        reveal_strlit(".");
    }
    let version_name = version.to_string();
    let version_path = join(engines_dir, version_name.as_str());
    let extraction_path = join(version_path.as_str(), "temp");
    let download = join(version_path.as_str(), "download");
    proof {
        lemma_join_end(version_path@, "download"@);
    }
    let zip_path = with_extension(download.as_str(), "zip");
    let mut folder_name = String::from_str("Godot_v");
    folder_name.append(version.version());
    folder_name.append("-");
    let k = version.kind().to_string();
    folder_name.append(k.as_str());
    folder_name.append("_");
    folder_name.append(system.get_archive_basename(version.mono()));
    assert(folder_name@ =~= zip_folder_name(version@, system));
    let folder_path = join(extraction_path.as_str(), folder_name.as_str());
    proof {
        lemma_join_end(extraction_path@, folder_name@);
    }
    let ext = system.get_extension();
    let executable_source = if version.mono() {
        let mut exec_name = folder_name.clone();
        exec_name.append(".");
        exec_name.append(ext);
        join(folder_path.as_str(), exec_name.as_str())
    } else {
        with_extension(folder_path.as_str(), ext)
    };
    let godot = join(version_path.as_str(), "godot");
    proof {
        lemma_join_end(version_path@, "godot"@);
    }
    let executable_target = with_extension(godot.as_str(), ext);
    let mono_source = if version.mono() {
        Some(join(folder_path.as_str(), "GodotSharp"))
    } else {
        None
    };
    EngineInstallPaths { version_path, extraction_path, zip_path, executable_source, executable_target, mono_source }
}

// ---------------------------------------------------------------------------
// Dependencies

/// The folder of an addon in a project.
pub open spec fn addon_path_of(project: Seq<char>, name: Seq<char>) -> Seq<char> {
    join_path(join_path(project, "addons"@), name)
}

/// The folder of a dependency's addon in a project.
pub fn addon_path(project_path: &str, dependency: &Dependency) -> (res: String)
    ensures
        res@ == addon_path_of(project_path@, dependency.name@),
{
    let addons = join(project_path, "addons");
    join(addons.as_str(), dependency.name.as_str())
}

/// The steps that install a dependency that is not installed yet.
#[derive(Debug)]
pub enum InstallPlan {
    /// A plugin of the project itself: read its info from `plugin.cfg`
    /// in this folder.
    FromProject(String),
    /// A plugin of another project: copy this folder into the addons
    /// folder, created when missing, then read the plugin's info from the
    /// folder's `plugin.cfg`.
    CopyFrom(String, String),
    /// A plugin in a Git repository reached over SSH: unless the clone
    /// folder exists, clone the URL into it, in the work folder, created
    /// when missing; copy the clone into the addons folder, created when
    /// missing; remove the work folder; then read the plugin's info from
    /// the clone's `plugin.cfg`.
    /// URL, work folder, clone folder, addons folder.
    CloneSsh(String, String, String, String),
    /// A plugin in a Git repository reached over HTTP: the same steps as
    /// for SSH.
    /// URL, work folder, clone folder, addons folder.
    CloneHttp(String, String, String, String),
}

/// The folders of a plan: for a plugin of the project, the project; for
/// one of another project, its folder (a relative path is taken from the
/// project) and the addons folder; for a Git repository, the URL, the work
/// folder `.gdpm`, the clone folder in it named after the dependency, and
/// the addons folder.
pub open spec fn install_plan_of(source: SourceModel, name: Seq<char>, project: Seq<char>) -> (
    Seq<char>,
    Seq<char>,
    Seq<char>,
    Seq<char>,
) {
    match source {
        SourceModel::Current => (project, Seq::empty(), Seq::empty(), Seq::empty()),
        SourceModel::Path(p) => (
            if is_relative(p) {
                join_path(project, p)
            } else {
                p
            },
            join_path(project, "addons"@),
            Seq::empty(),
            Seq::empty(),
        ),
        SourceModel::GitSsh(u) | SourceModel::GitHttp(u) => (
            u,
            join_path(project, ".gdpm"@),
            join_path(join_path(project, ".gdpm"@), name),
            join_path(project, "addons"@),
        ),
    }
}

/// Whether a plan is the one for a dependency with this source and name in
/// the project: its kind follows the source and its folders are those of
/// [`install_plan_of`].
pub open spec fn is_install_plan(plan: InstallPlan, source: SourceModel, name: Seq<char>, project: Seq<char>) -> bool {
    let (a, b, c, d) = install_plan_of(source, name, project);
    match plan {
        InstallPlan::FromProject(x) => source is Current && x@ == a,
        InstallPlan::CopyFrom(x, y) => source is Path && x@ == a && y@ == b,
        InstallPlan::CloneSsh(x, y, z, w) => source is GitSsh && x@ == a && y@ == b && z@ == c && w@ == d,
        InstallPlan::CloneHttp(x, y, z, w) => source is GitHttp && x@ == a && y@ == b && z@ == c && w@ == d,
    }
}

/// The steps that install a dependency in the project at `project_path`.
pub fn install_plan(dependency: &Dependency, project_path: &str) -> (res: InstallPlan)
    ensures
        is_install_plan(res, dependency.source@, dependency.name@, project_path@),
{
    match &dependency.source {
        DependencySource::Current => InstallPlan::FromProject(String::from_str(project_path)),
        DependencySource::Path(p) => {
            let full = if path_is_relative(p.as_str()) {
                join(project_path, p.as_str())
            } else {
                p.clone()
            };
            InstallPlan::CopyFrom(full, join(project_path, "addons"))
        },
        DependencySource::GitSsh(u) => {
            let gdpm_path = join(project_path, ".gdpm");
            let plugin_path = join(gdpm_path.as_str(), dependency.name.as_str());
            InstallPlan::CloneSsh(u.clone(), gdpm_path, plugin_path, join(project_path, "addons"))
        },
        DependencySource::GitHttp(u) => {
            let gdpm_path = join(project_path, ".gdpm");
            let plugin_path = join(gdpm_path.as_str(), dependency.name.as_str());
            InstallPlan::CloneHttp(u.clone(), gdpm_path, plugin_path, join(project_path, "addons"))
        },
    }
}

/// Installing a dependency: when its addon folder already exists in the
/// project (`addon_exists`, the answer for [`addon_path`]), the dependency
/// is already installed; otherwise the steps of [`install_plan`].
pub fn plan_install(dependency: &Dependency, project_path: &str, addon_exists: bool) -> (res: Result<
    InstallPlan,
    PluginError,
>)
    ensures
        addon_exists ==> (res matches Err(PluginError::AlreadyInstalled(n)) && n@ == dependency.name@),
        !addon_exists ==> (res matches Ok(p) && is_install_plan(p, dependency.source@, dependency.name@, project_path@)),
{
    if addon_exists {
        Err(PluginError::AlreadyInstalled(dependency.name.clone()))
    } else {
        Ok(install_plan(dependency, project_path))
    }
}

/// What synchronising makes of an install: a dependency that is already
/// installed is no failure; any other error is.
pub fn sync_install_result(result: Result<PluginInfo, PluginError>) -> (res: Result<Option<PluginInfo>, PluginError>)
    ensures
        match result {
            Ok(p) => res == Ok::<Option<PluginInfo>, PluginError>(Some(p)),
            Err(PluginError::AlreadyInstalled(_)) => res == Ok::<Option<PluginInfo>, PluginError>(None),
            Err(e) => res == Err::<Option<PluginInfo>, PluginError>(e),
        },
{
    match result {
        Ok(p) => Ok(Some(p)),
        Err(PluginError::AlreadyInstalled(_)) => Ok(None),
        Err(e) => Err(e),
    }
}

} // verus!
