//! Plugins and dependencies: the addons of a project and the section
//! `dependencies` of its configuration, which maps the slug of each
//! dependency's name to an object `{ "name": ..., "version": ...,
//! "source": ... }`.
use vstd::prelude::*;

use crate::color::{paint, painted, TextColor};
use crate::errors::PluginError;
use crate::paths::{join, join_path};
use crate::settings::{
    entries_view, field_str, lemma_entries_view, property_of, section_of, value_object, with_property,
    without_property, GdSettings, GdValue, SettingsModel, ValueModel,
};
use crate::slug::{slug_of, slugify_str};
use crate::text::{chars_eq, chars_of, chars_starts_with_str, starts_with};

verus! {

// ---------------------------------------------------------------------------
// Sources

/// The contents of a [`DependencySource`].
pub enum SourceModel {
    /// Git over HTTP(S).
    GitHttp(Seq<char>),
    /// Git over SSH.
    GitSsh(Seq<char>),
    /// A path.
    Path(Seq<char>),
    /// The current project.
    Current,
}

/// The source a string names: `.` is the current project, a string that
/// starts with `http` a Git repository over HTTP, one that starts with
/// `git@` a Git repository over SSH, and anything else a path.
pub open spec fn source_of(s: Seq<char>) -> SourceModel {
    if s == "."@ {
        SourceModel::Current
    } else if starts_with(s, "http"@) {
        SourceModel::GitHttp(s)
    } else if starts_with(s, "git@"@) {
        SourceModel::GitSsh(s)
    } else {
        SourceModel::Path(s)
    }
}

/// The string that names a source.
pub open spec fn source_path(s: SourceModel) -> Seq<char> {
    match s {
        SourceModel::Current => "."@,
        SourceModel::GitHttp(x) => x,
        SourceModel::GitSsh(x) => x,
        SourceModel::Path(x) => x,
    }
}

/// How a source is described to the user.
pub open spec fn source_text(s: SourceModel) -> Seq<char> {
    match s {
        SourceModel::Current => "Current"@,
        SourceModel::GitHttp(x) => "Git (HTTP): "@ + x,
        SourceModel::GitSsh(x) => "Git (SSH): "@ + x,
        SourceModel::Path(x) => x,
    }
}

/// Dependency source.
#[derive(Debug, PartialEq)]
pub enum DependencySource {
    /// Git HTTP/HTTPS.
    GitHttp(String),
    /// Git SSH.
    GitSsh(String),
    /// Path.
    Path(String),
    /// Current.
    Current,
}

impl View for DependencySource {
    type V = SourceModel;

    open spec fn view(&self) -> SourceModel {
        match self {
            DependencySource::GitHttp(x) => SourceModel::GitHttp(x@),
            DependencySource::GitSsh(x) => SourceModel::GitSsh(x@),
            DependencySource::Path(x) => SourceModel::Path(x@),
            DependencySource::Current => SourceModel::Current,
        }
    }
}

impl Clone for DependencySource {
    fn clone(&self) -> (res: Self)
        ensures
            res@ == self@,
    {
        match self {
            DependencySource::GitHttp(x) => DependencySource::GitHttp(x.clone()),
            DependencySource::GitSsh(x) => DependencySource::GitSsh(x.clone()),
            DependencySource::Path(x) => DependencySource::Path(x.clone()),
            DependencySource::Current => DependencySource::Current,
        }
    }
}

impl DependencySource {
    /// The source a string names.
    pub fn from_value(source: &str) -> (res: Self)
        ensures
            res@ == source_of(source@),
    {
        let cs = chars_of(source);
        if crate::text::chars_eq_str(cs.as_slice(), ".") {
            DependencySource::Current
        } else if chars_starts_with_str(cs.as_slice(), "http") {
            DependencySource::GitHttp(String::from_str(source))
        } else if chars_starts_with_str(cs.as_slice(), "git@") {
            DependencySource::GitSsh(String::from_str(source))
        } else {
            DependencySource::Path(String::from_str(source))
        }
    }

    /// The string that names the source.
    pub fn path(&self) -> (res: String)
        ensures
            res@ == source_path(self@),
    {
        match self {
            DependencySource::Current => String::from_str("."),
            DependencySource::GitHttp(x) => x.clone(),
            DependencySource::GitSsh(x) => x.clone(),
            DependencySource::Path(x) => x.clone(),
        }
    }

    /// How the source is described to the user.
    pub fn to_string(&self) -> (res: String)
        ensures
            res@ == source_text(self@),
    {
        match self {
            DependencySource::Current => String::from_str("Current"),
            DependencySource::GitHttp(x) => {
                let mut res = String::from_str("Git (HTTP): ");
                res.append(x.as_str());
                res
            },
            DependencySource::GitSsh(x) => {
                let mut res = String::from_str("Git (SSH): ");
                res.append(x.as_str());
                res
            },
            DependencySource::Path(x) => x.clone(),
        }
    }

    /// Whether the source is the current project.
    pub fn is_current(&self) -> (res: bool)
        ensures
            res == (self@ == SourceModel::Current),
    {
        match self {
            DependencySource::Current => true,
            _ => false,
        }
    }
}

/// The string that names a source read back names the same source: the
/// path of the source that a string names is that string.
pub proof fn law_source_path_roundtrip(s: Seq<char>)
    ensures
        source_path(source_of(s)) == s,
{
}

// ---------------------------------------------------------------------------
// Plugins and dependencies

/// The contents of a [`PluginInfo`].
pub struct PluginModel {
    /// Plugin name.
    pub name: Seq<char>,
    /// Description.
    pub description: Seq<char>,
    /// Author.
    pub author: Seq<char>,
    /// Version.
    pub version: Seq<char>,
    /// Script.
    pub script: Seq<char>,
    /// Folder name.
    pub folder_name: Seq<char>,
}

/// The contents of a [`Dependency`].
pub struct DependencyModel {
    /// Name.
    pub name: Seq<char>,
    /// Version.
    pub version: Seq<char>,
    /// Checksum.
    pub checksum: Seq<char>,
    /// Source.
    pub source: SourceModel,
}

/// Name of the section that lists the dependencies.
pub open spec fn deps_section() -> Seq<char> {
    "dependencies"@
}

/// How a dependency is written in the project configuration.
pub open spec fn dependency_value(d: DependencyModel) -> ValueModel {
    ValueModel::Object(
        seq![
            ("name"@, ValueModel::Str(d.name)),
            ("version"@, ValueModel::Str(d.version)),
            ("source"@, ValueModel::Str(source_path(d.source))),
        ],
    )
}

/// The dependency a configuration entry describes, or the name that the
/// error about it carries: the entry's key when the value is not an object
/// or has no name, and the name read otherwise.
pub open spec fn dependency_of(key: Seq<char>, v: ValueModel) -> Result<DependencyModel, Seq<char>> {
    if value_object(v) is None {
        Err(key)
    } else {
        match field_str(v, "name"@) {
            None => Err(key),
            Some(name) => match field_str(v, "version"@) {
                None => Err(name),
                Some(version) => match field_str(v, "source"@) {
                    None => Err(name),
                    Some(source) => Ok(
                        DependencyModel { name, version, checksum: Seq::empty(), source: source_of(source) },
                    ),
                },
            },
        }
    }
}

/// The dependencies that entries describe, in order, or the name that the
/// error about the first malformed one carries.
pub open spec fn dependencies_in(es: Seq<(Seq<char>, ValueModel)>) -> Result<Seq<DependencyModel>, Seq<char>>
    decreases es.len(),
{
    if es.len() == 0 {
        Ok(Seq::empty())
    } else {
        match dependencies_in(es.drop_last()) {
            Err(n) => Err(n),
            Ok(ds) => match dependency_of(es.last().0, es.last().1) {
                Ok(d) => Ok(ds.push(d)),
                Err(n) => Err(n),
            },
        }
    }
}

/// The dependencies of a project configuration.
pub open spec fn dependencies_of(m: SettingsModel) -> Result<Seq<DependencyModel>, Seq<char>> {
    match section_of(m, deps_section()) {
        Some(es) => dependencies_in(es),
        None => Ok(Seq::empty()),
    }
}

/// The dependency that stands for a plugin of the project itself.
pub open spec fn dependency_of_plugin(p: PluginModel) -> DependencyModel {
    DependencyModel { name: p.folder_name, version: p.version, checksum: Seq::empty(), source: SourceModel::Current }
}

/// A new dependency.
pub open spec fn new_dependency(name: Seq<char>, version: Seq<char>, source: Seq<char>) -> DependencyModel {
    DependencyModel { name, version, checksum: Seq::empty(), source: source_of(source) }
}

/// The dependencies of a list, through their views.
pub open spec fn dependencies_view(v: Seq<Dependency>) -> Seq<DependencyModel> {
    v.map_values(|d: Dependency| d@)
}

/// The plugins of a list, through their views.
pub open spec fn plugins_view(v: Seq<PluginInfo>) -> Seq<PluginModel> {
    v.map_values(|p: PluginInfo| p@)
}

/// The plugin info read from a plugin's `plugin.cfg`, or the property that
/// the error about the first missing one names; with no `plugin.cfg`, a
/// plugin named after its folder and nothing else.
pub open spec fn plugin_of(cfg: Option<SettingsModel>, folder: Seq<char>) -> Result<PluginModel, Seq<char>> {
    match cfg {
        None => Ok(
            PluginModel {
                name: folder,
                description: Seq::empty(),
                author: Seq::empty(),
                version: Seq::empty(),
                script: Seq::empty(),
                folder_name: folder,
            },
        ),
        Some(m) => {
            let name = crate::project::property_str(m, "plugin"@, "name"@);
            let description = crate::project::property_str(m, "plugin"@, "description"@);
            let author = crate::project::property_str(m, "plugin"@, "author"@);
            let version = crate::project::property_str(m, "plugin"@, "version"@);
            let script = crate::project::property_str(m, "plugin"@, "script"@);
            if name is None {
                Err("name"@)
            } else if description is None {
                Err("description"@)
            } else if author is None {
                Err("author"@)
            } else if version is None {
                Err("version"@)
            } else if script is None {
                Err("script"@)
            } else {
                Ok(
                    PluginModel {
                        name: name->0,
                        description: description->0,
                        author: author->0,
                        version: version->0,
                        script: script->0,
                        folder_name: folder,
                    },
                )
            }
        },
    }
}

/// Plugin info.
#[derive(Debug)]
pub struct PluginInfo {
    /// Plugin name.
    pub name: String,
    /// Description.
    pub description: String,
    /// Author.
    pub author: String,
    /// Version.
    pub version: String,
    /// Script.
    pub script: String,
    /// Folder name.
    pub folder_name: String,
}

impl View for PluginInfo {
    type V = PluginModel;

    open spec fn view(&self) -> PluginModel {
        PluginModel {
            name: self.name@,
            description: self.description@,
            author: self.author@,
            version: self.version@,
            script: self.script@,
            folder_name: self.folder_name@,
        }
    }
}

/// Dependency.
#[derive(Debug)]
pub struct Dependency {
    /// Name.
    pub name: String,
    /// Version.
    pub version: String,
    /// Checksum.
    pub checksum: String,
    /// Source.
    pub source: DependencySource,
}

impl View for Dependency {
    type V = DependencyModel;

    open spec fn view(&self) -> DependencyModel {
        DependencyModel { name: self.name@, version: self.version@, checksum: self.checksum@, source: self.source@ }
    }
}

impl Clone for Dependency {
    fn clone(&self) -> (res: Self)
        ensures
            res@ == self@,
    {
        Dependency {
            name: self.name.clone(),
            version: self.version.clone(),
            checksum: self.checksum.clone(),
            source: self.source.clone(),
        }
    }
}

impl Dependency {
    /// Reads a dependency from its configuration entry; an error naming
    /// the entry's key, or the name read, when a field is missing.
    pub fn from_gdvalue(name: &str, value: &GdValue) -> (res: Result<Self, PluginError>)
        ensures
            match dependency_of(name@, value@) {
                Ok(d) => res matches Ok(x) && x@ == d,
                Err(n) => res matches Err(PluginError::MalformedDependency(s)) && s@ == n,
            },
    {
        match value.to_object() {
            None => {
                return Err(PluginError::MalformedDependency(String::from_str(name)));
            },
            Some(_) => {},
        }
        let dep_name = match value.get_field_str("name") {
            Some(n) => n,
            None => {
                return Err(PluginError::MalformedDependency(String::from_str(name)));
            },
        };
        let version = match value.get_field_str("version") {
            Some(v) => v,
            None => {
                return Err(PluginError::MalformedDependency(dep_name));
            },
        };
        let source = match value.get_field_str("source") {
            Some(s) => s,
            None => {
                return Err(PluginError::MalformedDependency(dep_name));
            },
        };
        let checksum = String::new();
        assert(checksum@ =~= Seq::<char>::empty());
        Ok(
            Dependency {
                name: dep_name,
                checksum,
                source: DependencySource::from_value(source.as_str()),
                version,
            },
        )
    }

    /// The dependency that stands for a plugin of the project itself.
    pub fn from_plugin_info(plugin: &PluginInfo) -> (res: Self)
        ensures
            res@ == dependency_of_plugin(plugin@),
    {
        let checksum = String::new();
        assert(checksum@ =~= Seq::<char>::empty());
        Dependency {
            name: plugin.folder_name.clone(),
            version: plugin.version.clone(),
            checksum,
            source: DependencySource::Current,
        }
    }

    /// How the dependency is written in the project configuration.
    pub fn to_gdvalue(&self) -> (res: GdValue)
        ensures
            res@ == dependency_value(self@),
    {
        let entries = vec![
            (String::from_str("name"), GdValue::String(self.name.clone())),
            (String::from_str("version"), GdValue::String(self.version.clone())),
            (String::from_str("source"), GdValue::String(self.source.path())),
        ];
        proof {
            lemma_entries_view(entries@);
        }
        assert(entries_view(entries@) =~= seq![
            ("name"@, ValueModel::Str(self.name@)),
            ("version"@, ValueModel::Str(self.version@)),
            ("source"@, ValueModel::Str(source_path(self.source@))),
        ]);
        GdValue::Object(entries)
    }

    /// The name and version in green, then the source in blue.
    pub fn get_verbose_name(&self) -> (res: String)
        ensures
            exists|a: Seq<char>, b: Seq<char>, c: Seq<char>|
                {
                    &&& (a == self.name@ || a == painted(self.name@, TextColor::Green))
                    &&& (b == self.version@ || b == painted(self.version@, TextColor::Green))
                    &&& (c == source_text(self.source@) || c == painted(source_text(self.source@), TextColor::Blue))
                    &&& res@ == a + " (v"@ + b + ") (source: "@ + c + ")"@
                },
    {
        let a = paint(self.name.as_str(), TextColor::Green);
        let b = paint(self.version.as_str(), TextColor::Green);
        let s = self.source.to_string();
        let c = paint(s.as_str(), TextColor::Blue);
        let mut res = a.clone();
        res.append(" (v");
        res.append(b.as_str());
        res.append(") (source: ");
        res.append(c.as_str());
        res.append(")");
        assert(res@ == a@ + " (v"@ + b@ + ") (source: "@ + c@ + ")"@);
        res
    }
}

/// The string held by a property of the `plugin` section.
fn plugin_property(cfg: &GdSettings, key: &str) -> (res: Option<String>)
    ensures
        crate::text::opt_string_view(res) == crate::project::property_str(cfg@, "plugin"@, key@),
{
    match cfg.get_property("plugin", key) {
        Some(v) => v.to_str(),
        None => None,
    }
}

impl PluginInfo {
    /// Reads the info of the addon in `addon_folder` from its `plugin.cfg`,
    /// as read; with none, a plugin named after its folder.  An error
    /// naming the first missing property.
    pub fn from_project_addon(addon_cfg: Option<GdSettings>, addon_folder: &str) -> (res: Result<Self, PluginError>)
        ensures
            match plugin_of(
                match addon_cfg {
                    Some(c) => Some(c@),
                    None => None,
                },
                addon_folder@,
            ) {
                Ok(p) => res matches Ok(x) && x@ == p,
                Err(n) => res matches Err(PluginError::MissingProperty(s)) && s@ == n,
            },
    {
        match addon_cfg {
            None => {
                let info = PluginInfo {
                    name: String::from_str(addon_folder),
                    description: String::new(),
                    author: String::new(),
                    version: String::new(),
                    script: String::new(),
                    folder_name: String::from_str(addon_folder),
                };
                Ok(info)
            },
            Some(cfg) => {
                let name = match plugin_property(&cfg, "name") {
                    Some(x) => x,
                    None => {
                        return Err(PluginError::MissingProperty(String::from_str("name")));
                    },
                };
                let description = match plugin_property(&cfg, "description") {
                    Some(x) => x,
                    None => {
                        return Err(PluginError::MissingProperty(String::from_str("description")));
                    },
                };
                let author = match plugin_property(&cfg, "author") {
                    Some(x) => x,
                    None => {
                        return Err(PluginError::MissingProperty(String::from_str("author")));
                    },
                };
                let version = match plugin_property(&cfg, "version") {
                    Some(x) => x,
                    None => {
                        return Err(PluginError::MissingProperty(String::from_str("version")));
                    },
                };
                let script = match plugin_property(&cfg, "script") {
                    Some(x) => x,
                    None => {
                        return Err(PluginError::MissingProperty(String::from_str("script")));
                    },
                };
                Ok(PluginInfo { name, description, author, version, script, folder_name: String::from_str(addon_folder) })
            },
        }
    }
}

// ---------------------------------------------------------------------------
// Dependency handler

/// The first dependency whose name has the slug.
pub open spec fn find_dependency(ds: Seq<DependencyModel>, slug: Seq<char>) -> Option<DependencyModel>
    decreases ds.len(),
{
    if ds.len() == 0 {
        None
    } else {
        match find_dependency(ds.drop_last(), slug) {
            Some(d) => Some(d),
            None => if slug_of(ds.last().name) == slug {
                Some(ds.last())
            } else {
                None
            },
        }
    }
}

/// The dependency with its source set to the current project.
pub open spec fn forked(d: DependencyModel) -> DependencyModel {
    DependencyModel { name: d.name, version: d.version, checksum: d.checksum, source: SourceModel::Current }
}

/// Registering the plugins of a project, in order: a plugin whose slug is
/// not yet a dependency is added as a dependency on the project itself;
/// with `only`, the plugins whose slug is not that of `only` are passed
/// over.  The configuration after, and the dependencies added.
pub open spec fn register_plugins(m: SettingsModel, ps: Seq<PluginModel>, only: Option<Seq<char>>) -> (
    SettingsModel,
    Seq<DependencyModel>,
)
    decreases ps.len(),
{
    if ps.len() == 0 {
        (m, Seq::empty())
    } else {
        let (m1, added) = register_plugins(m, ps.drop_last(), only);
        let p = ps.last();
        let k = slug_of(p.name);
        if (only matches Some(o) ==> slug_of(o) == k) && property_of(m1, deps_section(), k) is None {
            (
                with_property(m1, deps_section(), k, dependency_value(dependency_of_plugin(p))),
                added.push(dependency_of_plugin(p)),
            )
        } else {
            (m1, added)
        }
    }
}

/// Dependency handler: the configuration of a project.  It is loaded before
/// an operation and saved after it; what touches the project's files is
/// done around it.
pub struct DependencyHandler {
    config: GdSettings,
}

impl DependencyHandler {
    /// The configuration held.
    pub closed spec fn model(&self) -> SettingsModel {
        self.config@
    }

    /// Creates a dependency handler over a loaded project configuration.
    pub fn new(config: GdSettings) -> (res: Self)
        ensures
            res.model() == config@,
    {
        DependencyHandler { config }
    }

    /// The configuration held.
    pub fn config(&self) -> (res: &GdSettings)
        ensures
            res@ == self.model(),
    {
        &self.config
    }

    /// The configuration held, to be saved.
    pub fn into_config(self) -> (res: GdSettings)
        ensures
            res@ == self.model(),
    {
        self.config
    }

    /// The dependencies of the project; an error about the first
    /// malformed one.
    pub fn list_project_dependencies(&self) -> (res: Result<Vec<Dependency>, PluginError>)
        ensures
            match dependencies_of(self.model()) {
                Ok(ds) => res matches Ok(v) && dependencies_view(v@) == ds,
                Err(n) => res matches Err(PluginError::MalformedDependency(s)) && s@ == n,
            },
    {
        let mut deps: Vec<Dependency> = Vec::new();
        match self.config.get_section("dependencies") {
            Some(entries) => {
                let ghost es = entries_view(entries@);
                proof {
                    lemma_entries_view(entries@);
                }
                assert(dependencies_view(deps@) =~= Seq::<DependencyModel>::empty());
                assert(es.subrange(0, 0) =~= Seq::<(Seq<char>, ValueModel)>::empty());
                let mut i: usize = 0;
                while i < entries.len()
                    invariant
                        i <= entries@.len(),
                        es == entries_view(entries@),
                        section_of(self.model(), deps_section()) == Some(es),
                        es.len() == entries@.len(),
                        forall|j: int| 0 <= j < entries@.len() ==> #[trigger] es[j] == (entries@[j].0@, entries@[j].1@),
                        dependencies_in(es.subrange(0, i as int)) == Ok::<Seq<DependencyModel>, Seq<char>>(
                            dependencies_view(deps@),
                        ),
                    decreases entries@.len() - i,
                {
                    assert(es.subrange(0, i + 1).drop_last() =~= es.subrange(0, i as int));
                    assert(es.subrange(0, i + 1).last() == es[i as int]);
                    let ghost pre = deps@;
                    match Dependency::from_gdvalue(entries[i].0.as_str(), &entries[i].1) {
                        Ok(d) => {
                            deps.push(d);
                            assert(dependencies_view(deps@) =~= dependencies_view(pre).push(d@));
                        },
                        Err(e) => {
                            proof {
                                lemma_dependencies_in_err(es, i as int + 1);
                            }
                            return Err(e);
                        },
                    }
                    i = i + 1;
                }
                assert(es.subrange(0, entries@.len() as int) =~= es);
                Ok(deps)
            },
            None => {
                assert(dependencies_view(deps@) =~= Seq::<DependencyModel>::empty());
                Ok(deps)
            },
        }
    }

    /// The first dependency whose name has the slug of `name`; an error
    /// about a malformed dependency, or naming `name` when none has it.
    pub fn get_dependency(&self, name: &str) -> (res: Result<Dependency, PluginError>)
        ensures
            match dependencies_of(self.model()) {
                Err(n) => res matches Err(PluginError::MalformedDependency(s)) && s@ == n,
                Ok(ds) => match find_dependency(ds, slug_of(name@)) {
                    Some(d) => res matches Ok(x) && x@ == d,
                    None => res matches Err(PluginError::MissingDependency(s)) && s@ == name@,
                },
            },
    {
        let deps = match self.list_project_dependencies() {
            Ok(d) => d,
            Err(e) => {
                return Err(e);
            },
        };
        let ghost ds = dependencies_view(deps@);
        let slug = slugify_str(name);
        let sc = chars_of(slug.as_str());
        let mut i: usize = 0;
        assert(ds.subrange(0, 0) =~= Seq::<DependencyModel>::empty());
        while i < deps.len()
            invariant
                i <= deps@.len(),
                ds == dependencies_view(deps@),
                ds.len() == deps@.len(),
                dependencies_of(self.model()) == Ok::<Seq<DependencyModel>, Seq<char>>(ds),
                sc@ == slug_of(name@),
                find_dependency(ds.subrange(0, i as int), sc@) is None,
            decreases deps@.len() - i,
        {
            assert(ds.subrange(0, i + 1).drop_last() =~= ds.subrange(0, i as int));
            assert(ds.subrange(0, i + 1).last() == deps@[i as int]@);
            let dslug = slugify_str(deps[i].name.as_str());
            let dc = chars_of(dslug.as_str());
            if chars_eq(dc.as_slice(), sc.as_slice()) {
                proof {
                    lemma_find_dependency_prefix(ds, i as int + 1, sc@);
                }
                return Ok(deps[i].clone());
            }
            i = i + 1;
        }
        assert(ds.subrange(0, deps@.len() as int) =~= ds);
        Err(PluginError::MissingDependency(String::from_str(name)))
    }

    /// Adds a dependency under the slug of its name, replacing one that is
    /// there; the dependency, for it to be installed.
    pub fn add_dependency(&mut self, name: &str, version: &str, source: &str) -> (res: Dependency)
        ensures
            res@ == new_dependency(name@, version@, source@),
            final(self).model() == with_property(
                old(self).model(),
                deps_section(),
                slug_of(name@),
                dependency_value(res@),
            ),
    {
        let checksum = String::new();
        assert(checksum@ =~= Seq::<char>::empty());
        let dependency = Dependency {
            name: String::from_str(name),
            checksum,
            version: String::from_str(version),
            source: DependencySource::from_value(source),
        };
        let slug = slugify_str(name);
        self.config.set_property("dependencies", slug.as_str(), dependency.to_gdvalue());
        dependency
    }

    /// Removes the dependency registered under the slug of `name`; the
    /// dependency, for it to be uninstalled.  An error when it is missing
    /// or malformed, and then nothing changes.
    pub fn remove_dependency(&mut self, name: &str) -> (res: Result<Dependency, PluginError>)
        ensures
            match property_of(old(self).model(), deps_section(), slug_of(name@)) {
                None => res matches Err(PluginError::MissingDependency(s)) && s@ == slug_of(name@)
                    && final(self).model() == old(self).model(),
                Some(v) => match dependency_of(slug_of(name@), v) {
                    Err(n) => res matches Err(PluginError::MalformedDependency(s)) && s@ == n
                        && final(self).model() == old(self).model(),
                    Ok(d) => res matches Ok(x) && x@ == d && final(self).model() == without_property(
                        old(self).model(),
                        deps_section(),
                        slug_of(name@),
                    )->0,
                },
            },
    {
        let slug = slugify_str(name);
        match self.config.get_property("dependencies", slug.as_str()) {
            None => Err(PluginError::MissingDependency(slug)),
            Some(value) => {
                let dep = match Dependency::from_gdvalue(slug.as_str(), value) {
                    Ok(d) => d,
                    Err(e) => {
                        return Err(e);
                    },
                };
                proof {
                    crate::settings::lemma_index_of(self.config@, deps_section());
                    crate::settings::lemma_index_of(section_of(self.config@, deps_section())->0, slug@);
                }
                match self.config.remove_property("dependencies", slug.as_str()) {
                    Ok(()) => Ok(dep),
                    Err(_) => Err(PluginError::MissingDependency(slug)),
                }
            },
        }
    }

    /// Makes the dependency registered under the slug of `name` a part of
    /// the project: its source becomes the current project.  The dependency
    /// before, for it to be installed first; none when it is missing.  An
    /// error when it is malformed, and then nothing changes.
    pub fn fork_dependency(&mut self, name: &str) -> (res: Result<Option<Dependency>, PluginError>)
        ensures
            match property_of(old(self).model(), deps_section(), slug_of(name@)) {
                None => res matches Ok(None) && final(self).model() == old(self).model(),
                Some(v) => match dependency_of(slug_of(name@), v) {
                    Err(n) => res matches Err(PluginError::MalformedDependency(s)) && s@ == n
                        && final(self).model() == old(self).model(),
                    Ok(d) => res matches Ok(Some(x)) && x@ == d && final(self).model() == with_property(
                        old(self).model(),
                        deps_section(),
                        slug_of(name@),
                        dependency_value(forked(d)),
                    ),
                },
            },
    {
        let slug = slugify_str(name);
        let dep = match self.config.get_property("dependencies", slug.as_str()) {
            None => {
                return Ok(None);
            },
            Some(value) => match Dependency::from_gdvalue(slug.as_str(), value) {
                Ok(d) => d,
                Err(e) => {
                    return Err(e);
                },
            },
        };
        let fork = Dependency {
            name: dep.name.clone(),
            version: dep.version.clone(),
            checksum: dep.checksum.clone(),
            source: DependencySource::Current,
        };
        self.config.set_property("dependencies", slug.as_str(), fork.to_gdvalue());
        Ok(Some(dep))
    }

    /// Registers the plugins of the project: each plugin whose slug is not
    /// yet a dependency is added as a dependency on the project itself;
    /// with `only`, only the plugins with the slug of `only`.  The
    /// dependencies added.
    fn register_plugins(&mut self, plugins: &Vec<PluginInfo>, only: Option<&str>) -> (res: Vec<Dependency>)
        ensures
            (final(self).model(), dependencies_view(res@)) == register_plugins(
                old(self).model(),
                plugins_view(plugins@),
                match only {
                    Some(o) => Some(o@),
                    None => None,
                },
            ),
    {
        let ghost m0 = self.config@;
        let ghost ps = plugins_view(plugins@);
        let ghost om = match only {
            Some(o) => Some(o@),
            None => None,
        };
        let only_slug = match only {
            Some(o) => Some(slugify_str(o)),
            None => None,
        };
        let mut added: Vec<Dependency> = Vec::new();
        let mut i: usize = 0;
        assert(ps.subrange(0, 0) =~= Seq::<PluginModel>::empty());
        assert(dependencies_view(added@) =~= Seq::<DependencyModel>::empty());
        while i < plugins.len()
            invariant
                i <= plugins@.len(),
                ps == plugins_view(plugins@),
                ps.len() == plugins@.len(),
                om == match only {
                    Some(o) => Some(o@),
                    None => None::<Seq<char>>,
                },
                match only_slug {
                    Some(s) => om matches Some(o) && s@ == slug_of(o),
                    None => om is None,
                },
                m0 == old(self).config@,
                (self.config@, dependencies_view(added@)) == register_plugins(m0, ps.subrange(0, i as int), om),
            decreases plugins@.len() - i,
        {
            assert(ps.subrange(0, i + 1).drop_last() =~= ps.subrange(0, i as int));
            assert(ps.subrange(0, i + 1).last() == plugins@[i as int]@);
            let plugin = &plugins[i];
            let slug = slugify_str(plugin.name.as_str());
            let wanted = match &only_slug {
                Some(s) => {
                    let a = chars_of(s.as_str());
                    let b = chars_of(slug.as_str());
                    chars_eq(a.as_slice(), b.as_slice())
                },
                None => true,
            };
            if wanted {
                let absent = self.config.get_property("dependencies", slug.as_str()).is_none();
                if absent {
                    let dep = Dependency::from_plugin_info(plugin);
                    self.config.set_property("dependencies", slug.as_str(), dep.to_gdvalue());
                    let ghost pre = added@;
                    added.push(dep);
                    assert(dependencies_view(added@) =~= dependencies_view(pre).push(dependency_of_plugin(plugin@)));
                }
            }
            i = i + 1;
        }
        assert(ps.subrange(0, plugins@.len() as int) =~= ps);
        added
    }

    /// Registers the plugins of the project (first step of a sync): each
    /// plugin whose slug is not yet a dependency is added as a dependency on
    /// the project itself.  The dependencies added.
    pub fn register_project_plugins(&mut self, plugins: &Vec<PluginInfo>) -> (res: Vec<Dependency>)
        ensures
            (final(self).model(), dependencies_view(res@)) == register_plugins(
                old(self).model(),
                plugins_view(plugins@),
                None,
            ),
    {
        self.register_plugins(plugins, None)
    }

    /// Registers the plugins of the project with the slug of `plugin_name`
    /// (first step of syncing one plugin).  The dependencies added.
    pub fn register_project_plugin(&mut self, plugins: &Vec<PluginInfo>, plugin_name: &str) -> (res: Vec<Dependency>)
        ensures
            (final(self).model(), dependencies_view(res@)) == register_plugins(
                old(self).model(),
                plugins_view(plugins@),
                Some(plugin_name@),
            ),
    {
        self.register_plugins(plugins, Some(plugin_name))
    }

    /// The dependency to sync: the one with the slug of `plugin_name`, or
    /// an error naming `plugin_name` when it cannot be had.
    pub fn sync_project_plugin(&self, plugin_name: &str) -> (res: Result<Dependency, PluginError>)
        ensures
            match dependencies_of(self.model()) {
                Ok(ds) if find_dependency(ds, slug_of(plugin_name@)) is Some => res matches Ok(x) && x@
                    == find_dependency(ds, slug_of(plugin_name@))->0,
                _ => res matches Err(PluginError::MissingDependency(s)) && s@ == plugin_name@,
            },
    {
        match self.get_dependency(plugin_name) {
            Ok(d) => Ok(d),
            Err(_) => Err(PluginError::MissingDependency(String::from_str(plugin_name))),
        }
    }

    /// The dependencies to desync: those that are not part of the project.
    pub fn desync_project_plugins(&self) -> (res: Result<Vec<Dependency>, PluginError>)
        ensures
            match dependencies_of(self.model()) {
                Ok(ds) => res matches Ok(v) && dependencies_view(v@) == external_dependencies(ds),
                Err(n) => res matches Err(PluginError::MalformedDependency(s)) && s@ == n,
            },
    {
        let deps = match self.list_project_dependencies() {
            Ok(d) => d,
            Err(e) => {
                return Err(e);
            },
        };
        let ghost ds = dependencies_view(deps@);
        let mut out: Vec<Dependency> = Vec::new();
        let mut i: usize = 0;
        assert(ds.subrange(0, 0) =~= Seq::<DependencyModel>::empty());
        assert(dependencies_view(out@) =~= Seq::<DependencyModel>::empty());
        while i < deps.len()
            invariant
                i <= deps@.len(),
                ds == dependencies_view(deps@),
                ds.len() == deps@.len(),
                dependencies_view(out@) == external_dependencies(ds.subrange(0, i as int)),
            decreases deps@.len() - i,
        {
            let ghost pre = out@;
            assert(ds.subrange(0, i + 1).drop_last() =~= ds.subrange(0, i as int));
            if !deps[i].source.is_current() {
                out.push(deps[i].clone());
                assert(dependencies_view(out@) =~= dependencies_view(pre).push(deps@[i as int]@));
            }
            assert(ds.subrange(0, i + 1).last() == deps@[i as int]@);
            i = i + 1;
        }
        assert(ds.subrange(0, deps@.len() as int) =~= ds);
        Ok(out)
    }

    /// The dependency to desync: the one with the slug of `plugin_name`; an
    /// error naming `plugin_name` when it cannot be had or is part of the
    /// project.
    pub fn desync_project_plugin(&self, plugin_name: &str) -> (res: Result<Dependency, PluginError>)
        ensures
            match dependencies_of(self.model()) {
                Ok(ds) if find_dependency(ds, slug_of(plugin_name@)) is Some => {
                    let d = find_dependency(ds, slug_of(plugin_name@))->0;
                    if d.source == SourceModel::Current {
                        res matches Err(PluginError::CannotDesync(s)) && s@ == plugin_name@
                    } else {
                        res matches Ok(x) && x@ == d
                    }
                },
                _ => res matches Err(PluginError::MissingDependency(s)) && s@ == plugin_name@,
            },
    {
        let dep = match self.get_dependency(plugin_name) {
            Ok(d) => d,
            Err(_) => {
                return Err(PluginError::MissingDependency(String::from_str(plugin_name)));
            },
        };
        if dep.source.is_current() {
            return Err(PluginError::CannotDesync(String::from_str(plugin_name)));
        }
        Ok(dep)
    }
}

/// The dependencies that are not part of the project, in order.
pub open spec fn external_dependencies(ds: Seq<DependencyModel>) -> Seq<DependencyModel>
    decreases ds.len(),
{
    if ds.len() == 0 {
        Seq::empty()
    } else if ds.last().source != SourceModel::Current {
        external_dependencies(ds.drop_last()).push(ds.last())
    } else {
        external_dependencies(ds.drop_last())
    }
}

/// Dependencies to desynchronise are exactly those that do not come from
/// the current project, in order: a dependency is left out exactly when
/// its source is the current project.
pub proof fn law_external_dependencies(ds: Seq<DependencyModel>)
    ensures
        external_dependencies(ds) == ds.filter(|d: DependencyModel| !(d.source is Current)),
        forall|i: int| 0 <= i < ds.len() && !(ds[i].source is Current) ==> external_dependencies(ds).contains(
            #[trigger] ds[i],
        ),
        forall|i: int|
            0 <= i < external_dependencies(ds).len() ==> !(#[trigger] external_dependencies(ds)[i].source is Current),
    decreases ds.len(),
{
    reveal_with_fuel(Seq::<DependencyModel>::filter, 1);
    let pred = |d: DependencyModel| !(d.source is Current);
    if ds.len() > 0 {
        let t = ds.drop_last();
        law_external_dependencies(t);
        let r = external_dependencies(ds);
        let rt = external_dependencies(t);
        assert(ds.filter(pred) == if pred(ds.last()) {
            t.filter(pred).push(ds.last())
        } else {
            t.filter(pred)
        });
        assert forall|i: int| 0 <= i < ds.len() && !(ds[i].source is Current) implies r.contains(#[trigger] ds[i]) by {
            if i < ds.len() - 1 {
                assert(t[i] == ds[i]);
                assert(rt.contains(t[i]));
                let k = choose|k: int| 0 <= k < rt.len() && rt[k] == t[i];
                assert(r[k] == rt[k]);
            } else {
                assert(r[r.len() - 1] == ds[i]);
            }
        }
        assert forall|i: int| 0 <= i < r.len() implies !(#[trigger] r[i].source is Current) by {
            if i < rt.len() {
                assert(r[i] == rt[i]);
            }
        }
    }
}

/// How a source string is read: `.` is the current project; a string
/// that starts with `http` (so `http://` as well as `https://`) is a Git
/// repository reached over HTTP; one that starts with `git@` is a Git
/// repository reached over SSH; anything else is a path.  The string is
/// kept as it was written.
pub proof fn law_source_classification(s: Seq<char>)
    ensures
        s == "."@ ==> source_of(s) == SourceModel::Current,
        starts_with(s, "http"@) ==> source_of(s) == SourceModel::GitHttp(s),
        starts_with(s, "git@"@) ==> source_of(s) == SourceModel::GitSsh(s),
        s != "."@ && !starts_with(s, "http"@) && !starts_with(s, "git@"@) ==> source_of(s) == SourceModel::Path(s),
        source_path(source_of(s)) == s,
{
    reveal_strlit(".");
    reveal_strlit("http");
    reveal_strlit("git@");
    if starts_with(s, "http"@) || starts_with(s, "git@"@) {
        assert(s.len() >= 4);
        assert(s != "."@);
    }
    if starts_with(s, "git@"@) {
        assert(s[0] == s.subrange(0, 4)[0]);
        assert(s[0] == 'g');
        assert(!starts_with(s, "http"@)) by {
            if starts_with(s, "http"@) {
                assert(s[0] == s.subrange(0, 4)[0]);
            }
        }
    }
    law_source_path_roundtrip(s);
}

/// A malformed dependency among the first entries is reported for all.
pub proof fn lemma_dependencies_in_err(es: Seq<(Seq<char>, ValueModel)>, n: int)
    requires
        0 <= n <= es.len(),
        dependencies_in(es.subrange(0, n)) is Err,
    ensures
        dependencies_in(es) == dependencies_in(es.subrange(0, n)),
    decreases es.len() - n,
{
    if n < es.len() {
        assert(es.subrange(0, n + 1).drop_last() =~= es.subrange(0, n));
        lemma_dependencies_in_err(es, n + 1);
    } else {
        assert(es.subrange(0, n) =~= es);
    }
}

/// The first dependency with a slug in a prefix is the first in the list.
pub proof fn lemma_find_dependency_prefix(ds: Seq<DependencyModel>, n: int, slug: Seq<char>)
    requires
        0 <= n <= ds.len(),
        find_dependency(ds.subrange(0, n), slug) is Some,
    ensures
        find_dependency(ds, slug) == find_dependency(ds.subrange(0, n), slug),
    decreases ds.len() - n,
{
    if n < ds.len() {
        assert(ds.subrange(0, n + 1).drop_last() =~= ds.subrange(0, n));
        lemma_find_dependency_prefix(ds, n + 1, slug);
    } else {
        assert(ds.subrange(0, n) =~= ds);
    }
}

/// A dependency's written form reads back as itself when its checksum is
/// empty and its source is named by the string written for it.
pub proof fn lemma_dependency_value(key: Seq<char>, d: DependencyModel)
    requires
        d.checksum == Seq::<char>::empty(),
        source_of(source_path(d.source)) == d.source,
    ensures
        dependency_of(key, dependency_value(d)) == Ok::<DependencyModel, Seq<char>>(d),
{
    reveal_strlit("name");
    reveal_strlit("version");
    reveal_strlit("source");
    assert("name"@.len() == 4 && "version"@.len() == 7 && "source"@.len() == 6);
    let es = seq![
        ("name"@, ValueModel::Str(d.name)),
        ("version"@, ValueModel::Str(d.version)),
        ("source"@, ValueModel::Str(source_path(d.source))),
    ];
    assert(es.drop_last() =~= seq![("name"@, ValueModel::Str(d.name)), ("version"@, ValueModel::Str(d.version))]);
    assert(es.drop_last().drop_last() =~= seq![("name"@, ValueModel::Str(d.name))]);
    assert(crate::settings::index_of(es.drop_last().drop_last(), "name"@) == Some(0int));
    assert(crate::settings::index_of(es.drop_last(), "name"@) == Some(0int));
    assert(crate::settings::index_of(es, "name"@) == Some(0int));
    assert(crate::settings::index_of(es.drop_last(), "version"@) == Some(1int));
    assert(crate::settings::index_of(es, "version"@) == Some(1int));
    assert(crate::settings::index_of(es, "source"@) == Some(2int));
}

/// Adding a dependency and reading its entry back gives the dependency
/// added.
pub proof fn law_add_then_read(m: SettingsModel, name: Seq<char>, version: Seq<char>, source: Seq<char>)
    ensures
        ({
            let d = new_dependency(name, version, source);
            let m2 = with_property(m, deps_section(), slug_of(name), dependency_value(d));
            property_of(m2, deps_section(), slug_of(name)) == Some(dependency_value(d)) && dependency_of(
                slug_of(name),
                dependency_value(d),
            ) == Ok::<DependencyModel, Seq<char>>(d)
        }),
{
    let d = new_dependency(name, version, source);
    crate::settings::law_property_after_set(
        m,
        deps_section(),
        slug_of(name),
        dependency_value(d),
        deps_section(),
        slug_of(name),
    );
    law_source_path_roundtrip(source);
    lemma_dependency_value(slug_of(name), d);
}

/// Removing a dependency, in well-formed settings, leaves none under its
/// slug, and every other dependency entry as it was.
pub proof fn law_remove_then_absent(m: SettingsModel, name: Seq<char>, other: Seq<char>)
    requires
        crate::settings::settings_wf(m),
        without_property(m, deps_section(), slug_of(name)) is Some,
    ensures
        property_of(without_property(m, deps_section(), slug_of(name))->0, deps_section(), slug_of(name)) is None,
        other != slug_of(name) ==> property_of(without_property(m, deps_section(), slug_of(name))->0, deps_section(), other)
            == property_of(m, deps_section(), other),
{
    crate::settings::law_property_after_remove(m, deps_section(), slug_of(name), deps_section(), other);
}

/// Registering plugins never changes a dependency entry that is there;
/// afterwards every plugin considered has an entry under its slug; a key
/// that is no plugin's slug is left as it was; and the entry added for a
/// considered plugin whose slug had no entry, and which no earlier plugin
/// shares, is the plugin as a current-project dependency.
#[verifier::rlimit(40)]
pub proof fn law_register_plugins(m: SettingsModel, ps: Seq<PluginModel>, only: Option<Seq<char>>, key: Seq<char>)
    ensures
        property_of(m, deps_section(), key) is Some ==> property_of(register_plugins(m, ps, only).0, deps_section(), key)
            == property_of(m, deps_section(), key),
        forall|i: int|
            0 <= i < ps.len() && (only matches Some(o) ==> slug_of(o) == slug_of(ps[i].name)) ==> (
            #[trigger] property_of(register_plugins(m, ps, only).0, deps_section(), slug_of(ps[i].name))) is Some,
        (forall|i: int| 0 <= i < ps.len() ==> slug_of(#[trigger] ps[i].name) != key) ==> property_of(
            register_plugins(m, ps, only).0,
            deps_section(),
            key,
        ) == property_of(m, deps_section(), key),
        forall|i: int|
            0 <= i < ps.len() && (only matches Some(o) ==> slug_of(o) == slug_of(ps[i].name)) && property_of(
                m,
                deps_section(),
                slug_of(ps[i].name),
            ) is None && (forall|j: int| 0 <= j < i ==> slug_of(#[trigger] ps[j].name) != slug_of(ps[i].name))
                ==> (#[trigger] property_of(register_plugins(m, ps, only).0, deps_section(), slug_of(ps[i].name)))
                == Some(dependency_value(dependency_of_plugin(ps[i]))),
    decreases ps.len(),
{
    if ps.len() > 0 {
        let t = ps.drop_last();
        law_register_plugins(m, t, only, key);
        let m1 = register_plugins(m, t, only).0;
        let p = ps.last();
        let k = slug_of(p.name);
        let v = dependency_value(dependency_of_plugin(p));
        crate::settings::law_property_after_set(m1, deps_section(), k, v, deps_section(), key);
        assert forall|i: int|
            0 <= i < ps.len() && (only matches Some(o) ==> slug_of(o) == slug_of(ps[i].name)) implies (
            #[trigger] property_of(register_plugins(m, ps, only).0, deps_section(), slug_of(ps[i].name))) is Some by {
            crate::settings::law_property_after_set(m1, deps_section(), k, v, deps_section(), slug_of(ps[i].name));
            if i < ps.len() - 1 {
                law_register_plugins(m, t, only, slug_of(ps[i].name));
                assert(t[i] == ps[i]);
            }
        }
        if forall|i: int| 0 <= i < ps.len() ==> slug_of(#[trigger] ps[i].name) != key {
            assert forall|i: int| 0 <= i < t.len() implies slug_of(#[trigger] t[i].name) != key by {
                assert(t[i] == ps[i]);
            }
            assert(slug_of(ps[ps.len() - 1].name) != key);
        }
        assert forall|i: int|
            0 <= i < ps.len() && (only matches Some(o) ==> slug_of(o) == slug_of(ps[i].name)) && property_of(
                m,
                deps_section(),
                slug_of(ps[i].name),
            ) is None && (forall|j: int| 0 <= j < i ==> slug_of(#[trigger] ps[j].name) != slug_of(ps[i].name))
            implies (#[trigger] property_of(register_plugins(m, ps, only).0, deps_section(), slug_of(ps[i].name)))
            == Some(dependency_value(dependency_of_plugin(ps[i]))) by {
            let ki = slug_of(ps[i].name);
            crate::settings::law_property_after_set(m1, deps_section(), k, v, deps_section(), ki);
            law_register_plugins(m, t, only, ki);
            if i < ps.len() - 1 {
                assert(t[i] == ps[i]);
                assert forall|j: int| 0 <= j < i implies slug_of(#[trigger] t[j].name) != slug_of(t[i].name) by {
                    assert(t[j] == ps[j]);
                }
                assert(property_of(m1, deps_section(), ki) == Some(dependency_value(dependency_of_plugin(ps[i]))));
            } else {
                assert forall|j: int| 0 <= j < t.len() implies slug_of(#[trigger] t[j].name) != ki by {
                    assert(t[j] == ps[j]);
                }
                assert(property_of(m1, deps_section(), ki) is None);
            }
        }
    }
}

} // verus!
