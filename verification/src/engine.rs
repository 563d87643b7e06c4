//! Engines: the Godot editors registered in the global configuration.
//!
//! The `engines` section of the global configuration maps the slug of each
//! engine's version to an object `{ "path": ..., "version": ... }`; the
//! property `default_engine` of the unnamed section names the default
//! engine's version.
use vstd::prelude::*;

use crate::color::{paint, painted, TextColor};
use crate::errors::{ConfigError, EngineError};
use crate::settings::{
    entries_view, field_str, lemma_entries_view, lookup, property_of, section_of, value_object,
    value_str, with_property, without_property, GdSettings, GdValue, SettingsModel, ValueModel,
};
use crate::slug::slug_of;
use crate::text::{chars_eq, chars_of, chars_starts_with_str, starts_with};
use crate::types::version::{
    parse_version, version_string, Error as VersionError, ErrorModel, GodotVersion, SystemVersion,
    VersionModel,
};

verus! {

// ---------------------------------------------------------------------------
// Model

/// The contents of an [`EngineInfo`].
pub struct EngineModel {
    /// Version.
    pub version: VersionModel,
    /// Path of the editor executable.
    pub path: Seq<char>,
}

/// Name of the section that lists the engines.
pub open spec fn engines_section() -> Seq<char> {
    "engines"@
}

/// Name of the property that names the default engine.
pub open spec fn default_key() -> Seq<char> {
    "default_engine"@
}

/// A field's string, or `unknown` when it is missing.
pub open spec fn or_unknown(o: Option<Seq<char>>) -> Seq<char> {
    match o {
        Some(s) => s,
        None => "unknown"@,
    }
}

/// The slug under which an engine of this version is registered.
pub open spec fn version_slug(v: VersionModel) -> Seq<char> {
    slug_of(version_string(v))
}

/// How an engine is written in the configuration.
pub open spec fn engine_value(e: EngineModel) -> ValueModel {
    ValueModel::Object(
        seq![("path"@, ValueModel::Str(e.path)), ("version"@, ValueModel::Str(version_string(e.version)))],
    )
}

/// A configuration value can be read as an engine, or ignored: it is not
/// an object, or the version it names can be read.
pub open spec fn engine_readable(v: ValueModel, sys: SystemVersion) -> bool {
    value_object(v) is Some ==> parse_version(or_unknown(field_str(v, "version"@)), sys) is Some
}

/// The engine a configuration value describes; `sys` is the system of
/// versions that name none.
pub open spec fn engine_of(v: ValueModel, sys: SystemVersion) -> Option<EngineModel> {
    if value_object(v) is Some {
        Some(
            EngineModel {
                version: parse_version(or_unknown(field_str(v, "version"@)), sys)->0,
                path: or_unknown(field_str(v, "path"@)),
            },
        )
    } else {
        None
    }
}

/// The engines that entries describe, in order.
pub open spec fn engines_in(es: Seq<(Seq<char>, ValueModel)>, sys: SystemVersion) -> Seq<EngineModel>
    decreases es.len(),
{
    if es.len() == 0 {
        Seq::empty()
    } else {
        let rest = engines_in(es.drop_last(), sys);
        match engine_of(es.last().1, sys) {
            Some(e) => rest.push(e),
            None => rest,
        }
    }
}

/// The engines registered in a configuration.
pub open spec fn engines_of(m: SettingsModel, sys: SystemVersion) -> Seq<EngineModel> {
    match section_of(m, engines_section()) {
        Some(es) => engines_in(es, sys),
        None => Seq::empty(),
    }
}

/// Every engine entry can be read.
pub open spec fn engines_readable(m: SettingsModel, sys: SystemVersion) -> bool {
    match section_of(m, engines_section()) {
        Some(es) => forall|i: int| 0 <= i < es.len() ==> engine_readable(#[trigger] es[i].1, sys),
        None => true,
    }
}

/// The version with another system.
pub open spec fn with_system(v: VersionModel, sys: SystemVersion) -> VersionModel {
    VersionModel { version: v.version, kind: v.kind, system: sys, mono: v.mono }
}

/// A version reads back as itself once written, but for its system, which
/// is not written: it reads back with the system of this machine.
pub open spec fn canonical(v: VersionModel, sys: SystemVersion) -> bool {
    parse_version(version_string(v), sys) == Some(with_system(v, sys))
}

/// An engine entry can be read, and the engine it describes can be written
/// back and read again unchanged.
pub open spec fn entry_canonical(e: (Seq<char>, ValueModel), sys: SystemVersion) -> bool {
    &&& engine_readable(e.1, sys)
    &&& (engine_of(e.1, sys) matches Some(en) ==> canonical(en.version, sys))
}

/// Every engine entry is canonical.
pub open spec fn engines_canonical(m: SettingsModel, sys: SystemVersion) -> bool {
    match section_of(m, engines_section()) {
        Some(es) => forall|i: int| 0 <= i < es.len() ==> entry_canonical(#[trigger] es[i], sys),
        None => true,
    }
}

/// An engine entry is canonical and registered under the slug of its
/// version.
pub open spec fn entry_keyed(e: (Seq<char>, ValueModel), sys: SystemVersion) -> bool {
    &&& entry_canonical(e, sys)
    &&& (engine_of(e.1, sys) matches Some(en) ==> e.0 == version_slug(en.version))
}

/// A configuration as this library writes it: section names and keys are
/// unique, and every engine entry is canonical and registered under the
/// slug of its version.
pub open spec fn engines_wf(m: SettingsModel, sys: SystemVersion) -> bool {
    &&& crate::settings::settings_wf(m)
    &&& match section_of(m, engines_section()) {
        Some(es) => forall|i: int| 0 <= i < es.len() ==> entry_keyed(#[trigger] es[i], sys),
        None => true,
    }
}

/// The version of an engine reads back once written.
pub open spec fn version_readable(v: VersionModel, sys: SystemVersion) -> bool {
    parse_version(version_string(v), sys) is Some
}

/// Every entry whose key is not among `keys` can be read as an engine.
pub open spec fn entries_readable_except(es: Seq<(Seq<char>, ValueModel)>, sys: SystemVersion, keys: Set<Seq<char>>) -> bool {
    forall|i: int| 0 <= i < es.len() && !keys.contains(es[i].0) ==> engine_readable(#[trigger] es[i].1, sys)
}

/// Every engine entry whose key is not among `keys` can be read.
pub open spec fn readable_except(m: SettingsModel, sys: SystemVersion, keys: Set<Seq<char>>) -> bool {
    match section_of(m, engines_section()) {
        Some(es) => entries_readable_except(es, sys, keys),
        None => true,
    }
}

/// The slugs of a list of engines.
pub open spec fn slugs_of(l: Seq<EngineModel>) -> Set<Seq<char>> {
    Set::new(|k: Seq<char>| exists|i: int| 0 <= i < l.len() && version_slug(#[trigger] l[i].version) == k)
}

/// No later engine of the list shares the slug of the engine at `i`.
pub open spec fn last_of_slug(l: Seq<EngineModel>, i: int) -> bool {
    forall|j: int| i < j < l.len() ==> version_slug(#[trigger] l[j].version) != version_slug(l[i].version)
}

/// Every engine of the list that is the last with its slug, when the slug
/// is not among `keys`, has a version that reads back once written.
pub open spec fn last_written_readable(l: Seq<EngineModel>, sys: SystemVersion, keys: Set<Seq<char>>) -> bool {
    forall|i: int|
        0 <= i < l.len() && !keys.contains(version_slug(l[i].version)) && last_of_slug(l, i) ==> version_readable(
            #[trigger] l[i].version,
            sys,
        )
}

/// The first engine of the list with the given version.
pub open spec fn find_engine(es: Seq<EngineModel>, v: VersionModel) -> Option<EngineModel>
    decreases es.len(),
{
    if es.len() == 0 {
        None
    } else {
        match find_engine(es.drop_last(), v) {
            Some(e) => Some(e),
            None => if es.last().version == v {
                Some(es.last())
            } else {
                None
            },
        }
    }
}

/// Index of the first engine of the list registered under a slug.
pub open spec fn slug_index(es: Seq<EngineModel>, slug: Seq<char>) -> Option<int>
    decreases es.len(),
{
    if es.len() == 0 {
        None
    } else {
        match slug_index(es.drop_last(), slug) {
            Some(i) => Some(i),
            None => if version_slug(es.last().version) == slug {
                Some(es.len() - 1)
            } else {
                None
            },
        }
    }
}

/// The list after registering an engine: it replaces the first engine with
/// the same slug, or comes last.
pub open spec fn register_in(es: Seq<EngineModel>, e: EngineModel) -> Seq<EngineModel> {
    match slug_index(es, version_slug(e.version)) {
        Some(i) => es.update(i, e),
        None => es.push(e),
    }
}

/// The configuration after writing one engine under its slug.
pub open spec fn with_engine(m: SettingsModel, e: EngineModel) -> SettingsModel {
    with_property(m, engines_section(), version_slug(e.version), engine_value(e))
}

/// The configuration after writing engines in order.
pub open spec fn with_engines(m: SettingsModel, es: Seq<EngineModel>) -> SettingsModel
    decreases es.len(),
{
    if es.len() == 0 {
        m
    } else {
        with_engine(with_engines(m, es.drop_last()), es.last())
    }
}

/// The configuration after naming a version as the default.
pub open spec fn with_default(m: SettingsModel, v: VersionModel) -> SettingsModel {
    with_property(m, ""@, default_key(), ValueModel::Str(version_string(v)))
}

/// The name of the default engine, when the configuration holds one.
pub open spec fn default_name(m: SettingsModel) -> Option<Seq<char>> {
    match property_of(m, ""@, default_key()) {
        Some(v) => value_str(v),
        None => None,
    }
}

/// What the configuration says of the default engine.
pub enum DefaultState {
    /// No default engine.
    Unset,
    /// The default engine, which is registered.
    Registered(VersionModel),
    /// The name of the default engine is not a version.
    Unreadable(Seq<char>),
    /// The default engine is not registered.
    Unregistered(VersionModel),
}

/// What the configuration says of the default engine.
pub open spec fn default_state(m: SettingsModel, sys: SystemVersion) -> DefaultState {
    match default_name(m) {
        None => DefaultState::Unset,
        Some(s) => match parse_version(s, sys) {
            None => DefaultState::Unreadable(s),
            Some(v) => if find_engine(engines_of(m, sys), v) is Some {
                DefaultState::Registered(v)
            } else {
                DefaultState::Unregistered(v)
            },
        },
    }
}

/// The engines of a list, through their views.
pub open spec fn engines_view(v: Seq<EngineInfo>) -> Seq<EngineModel> {
    v.map_values(|e: EngineInfo| e@)
}

// ---------------------------------------------------------------------------
// Engine info

/// Engine info.
#[derive(Debug, PartialEq)]
pub struct EngineInfo {
    /// Version of engine.
    pub version: GodotVersion,
    /// Path to engine.
    pub path: String,
}

impl View for EngineInfo {
    type V = EngineModel;

    open spec fn view(&self) -> EngineModel {
        EngineModel { version: self.version@, path: self.path@ }
    }
}

impl Clone for EngineInfo {
    fn clone(&self) -> (res: Self)
        ensures
            res@ == self@,
    {
        EngineInfo { version: self.version.clone(), path: self.path.clone() }
    }
}

impl EngineInfo {
    /// Creates engine info for an editor executable; `is_file` says whether
    /// a file exists at `path`.
    pub fn new(is_file: bool, version: GodotVersion, path: String) -> (res: Result<Self, EngineError>)
        ensures
            match res {
                Ok(e) => is_file && e@ == (EngineModel { version: version@, path: path@ }),
                Err(err) => !is_file && (err matches EngineError::EngineMissingFromPath(v, p) && v@
                    == version@ && p@ == path@),
            },
    {
        if !is_file {
            Err(EngineError::EngineMissingFromPath(version, path))
        } else {
            Ok(EngineInfo { version, path })
        }
    }

    /// Reads engine info from a configuration value; `system` is the
    /// system of versions that name none.
    pub fn from_gdvalue(value: &GdValue, system: SystemVersion) -> (res: Option<Self>)
        requires
            engine_readable(value@, system),
        ensures
            match res {
                Some(e) => engine_of(value@, system) == Some(e@),
                None => engine_of(value@, system) is None,
            },
    {
        match value.to_object() {
            Some(_) => {
                let path = match value.get_field_str("path") {
                    Some(p) => p,
                    None => String::from_str("unknown"),
                };
                let version = match value.get_field_str("version") {
                    Some(v) => v,
                    None => String::from_str("unknown"),
                };
                match GodotVersion::parse(version.as_str(), system) {
                    Ok(v) => Some(EngineInfo { version: v, path }),
                    Err(_) => None,
                }
            },
            None => None,
        }
    }

    /// Reads the engines listed in a configuration.
    pub fn from_settings(settings: GdSettings, system: SystemVersion) -> (res: Vec<Self>)
        requires
            engines_readable(settings@, system),
        ensures
            engines_view(res@) == engines_of(settings@, system),
    {
        Self::engines_from(&settings, system)
    }

    /// Reads the engines listed in a configuration.
    fn engines_from(settings: &GdSettings, system: SystemVersion) -> (res: Vec<Self>)
        requires
            engines_readable(settings@, system),
        ensures
            engines_view(res@) == engines_of(settings@, system),
    {
        let mut engines: Vec<EngineInfo> = Vec::new();
        match settings.get_section("engines") {
            Some(props) => {
                let ghost es = entries_view(props@);
                proof {
                    lemma_entries_view(props@);
                    assert(engines_view(engines@) =~= engines_in(es.subrange(0, 0), system));
                    assert(section_of(settings@, engines_section()) == Some(es));
                    assert(engines_readable(settings@, system));
                    assert forall|j: int| 0 <= j < es.len() implies engine_readable(#[trigger] es[j].1, system) by {
                        let sec = section_of(settings@, engines_section())->0;
                        assert(sec == es);
                        assert(engine_readable(sec[j].1, system));
                    }
                }
                let mut i: usize = 0;
                while i < props.len()
                    invariant
                        i <= props@.len(),
                        es == entries_view(props@),
                        es.len() == props@.len(),
                        forall|j: int| 0 <= j < props@.len() ==> #[trigger] es[j] == (props@[j].0@, props@[j].1@),
                        forall|j: int| 0 <= j < es.len() ==> engine_readable(#[trigger] es[j].1, system),
                        engines_view(engines@) == engines_in(es.subrange(0, i as int), system),
                    decreases props@.len() - i,
                {
                    let ghost pre = engines@;
                    assert(es.subrange(0, i + 1).drop_last() =~= es.subrange(0, i as int));
                    assert(es.subrange(0, i + 1).last() == es[i as int]);
                    assert(engine_readable(es[i as int].1, system));
                    match EngineInfo::from_gdvalue(&props[i].1, system) {
                        Some(e) => {
                            engines.push(e);
                            assert(engines_view(engines@) =~= engines_view(pre).push(e@));
                        },
                        None => {},
                    }
                    i = i + 1;
                }
                assert(es.subrange(0, props@.len() as int) =~= es);
            },
            None => {
                assert(engines_view(engines@) =~= Seq::<EngineModel>::empty());
            },
        }
        engines
    }

    /// The slug of the engine's version.
    pub fn get_slug(&self) -> (res: String)
        ensures
            res@ == version_slug(self.version@),
    {
        self.version.slug()
    }

    /// Whether the engine's version has the same slug as `version`.
    pub fn has_same_slug(&self, version: &GodotVersion) -> (res: bool)
        ensures
            res == (version_slug(self.version@) == version_slug(version@)),
    {
        let a = self.get_slug();
        let b = version.slug();
        let ac = chars_of(a.as_str());
        let bc = chars_of(b.as_str());
        chars_eq(ac.as_slice(), bc.as_slice())
    }

    /// How the engine is written in the configuration.
    pub fn to_gdvalue(&self) -> (res: GdValue)
        ensures
            res@ == engine_value(self@),
    {
        let entries = vec![
            (String::from_str("path"), GdValue::String(self.path.clone())),
            (String::from_str("version"), GdValue::String(self.version.to_string())),
        ];
        proof {
            lemma_entries_view(entries@);
        }
        assert(entries_view(entries@) =~= seq![
            ("path"@, ValueModel::Str(self.path@)),
            ("version"@, ValueModel::Str(version_string(self.version@))),
        ]);
        GdValue::Object(entries)
    }

    /// Whether the engine is a version 4: its first number is 4.
    pub fn is_version_4(&self) -> (res: bool)
        ensures
            res == (self.version@.version == "4"@ || starts_with(self.version@.version, "4."@)),
    {
        let cs = chars_of(self.version.version());
        crate::text::chars_eq_str(cs.as_slice(), "4") || chars_starts_with_str(cs.as_slice(), "4.")
    }

    /// The engine's version, in green.
    pub fn get_name(&self) -> (res: String)
        ensures
            res@ == version_string(self.version@) || res@ == painted(version_string(self.version@), TextColor::Green),
    {
        let s = self.version.to_string();
        paint(s.as_str(), TextColor::Green)
    }

    /// The engine's version in green, then its path in yellow, in brackets.
    pub fn get_verbose_name(&self) -> (res: String)
        ensures
            exists|a: Seq<char>, b: Seq<char>|
                {
                    &&& (a == version_string(self.version@) || a == painted(version_string(self.version@), TextColor::Green))
                    &&& (b == self.path@ || b == painted(self.path@, TextColor::Yellow))
                    &&& res@ == a + " ("@ + b + ")"@
                },
    {
        let s = self.version.to_string();
        let a = paint(s.as_str(), TextColor::Green);
        let b = paint(self.path.as_str(), TextColor::Yellow);
        let mut res = a.clone();
        res.append(" (");
        res.append(b.as_str());
        res.append(")");
        assert(res@ == a@ + " ("@ + b@ + ")"@);
        res
    }
}

// ---------------------------------------------------------------------------
// Lemmas

/// Where the engine is canonical, its written form reads back as itself,
/// with the system of this machine.
pub proof fn lemma_engine_value(e: EngineModel, sys: SystemVersion)
    requires
        canonical(e.version, sys),
    ensures
        engine_readable(engine_value(e), sys),
        engine_of(engine_value(e), sys) == Some(EngineModel { version: with_system(e.version, sys), path: e.path }),
        entry_keyed((version_slug(e.version), engine_value(e)), sys),
{
    reveal_strlit("path");
    reveal_strlit("version");
    let es = seq![("path"@, ValueModel::Str(e.path)), ("version"@, ValueModel::Str(version_string(e.version)))];
    assert("path"@.len() == 4 && "version"@.len() == 7);
    assert("path"@ != "version"@);
    assert(es.drop_last() =~= seq![("path"@, ValueModel::Str(e.path))]);
    assert(es.drop_last().drop_last() =~= Seq::<(Seq<char>, ValueModel)>::empty());
    assert(lookup(es, "version"@) == Some(ValueModel::Str(version_string(e.version))));
    assert(crate::settings::index_of(es.drop_last(), "path"@) == Some(0int));
    assert(lookup(es, "path"@) == Some(ValueModel::Str(e.path)));
}

/// The engines that canonical entries describe are canonical.
pub proof fn lemma_engines_in_canonical(es: Seq<(Seq<char>, ValueModel)>, sys: SystemVersion)
    requires
        forall|i: int| 0 <= i < es.len() ==> entry_canonical(#[trigger] es[i], sys),
    ensures
        forall|i: int| 0 <= i < engines_in(es, sys).len() ==> canonical(#[trigger] engines_in(es, sys)[i].version, sys),
    decreases es.len(),
{
    if es.len() > 0 {
        let t = es.drop_last();
        assert forall|i: int| 0 <= i < t.len() implies entry_canonical(#[trigger] t[i], sys) by {
            assert(t[i] == es[i]);
        }
        lemma_engines_in_canonical(t, sys);
        assert(entry_canonical(es[es.len() - 1], sys));
    }
}

/// The engines of a configuration whose entries are canonical are canonical.
pub proof fn lemma_engines_of_canonical(m: SettingsModel, sys: SystemVersion)
    requires
        engines_canonical(m, sys),
    ensures
        forall|i: int| 0 <= i < engines_of(m, sys).len() ==> canonical(#[trigger] engines_of(m, sys)[i].version, sys),
{
    match section_of(m, engines_section()) {
        Some(es) => lemma_engines_in_canonical(es, sys),
        None => {},
    }
}

/// A slug index points inside the list, at an engine with that slug, and
/// no engine before it has the slug.
pub proof fn lemma_slug_index(es: Seq<EngineModel>, slug: Seq<char>)
    ensures
        match slug_index(es, slug) {
            Some(i) => 0 <= i < es.len() && version_slug(es[i].version) == slug && forall|j: int|
                0 <= j < i ==> version_slug(#[trigger] es[j].version) != slug,
            None => forall|j: int| 0 <= j < es.len() ==> version_slug(#[trigger] es[j].version) != slug,
        },
    decreases es.len(),
{
    if es.len() > 0 {
        let t = es.drop_last();
        lemma_slug_index(t, slug);
        assert forall|j: int| 0 <= j < t.len() implies t[j] == #[trigger] es[j] by {}
    }
}

/// Registering canonical engines in a list of canonical engines gives a
/// list of canonical engines.
pub proof fn lemma_register_in_canonical(es: Seq<EngineModel>, e: EngineModel, sys: SystemVersion)
    requires
        forall|i: int| 0 <= i < es.len() ==> canonical(#[trigger] es[i].version, sys),
        canonical(e.version, sys),
    ensures
        forall|i: int| 0 <= i < register_in(es, e).len() ==> canonical(#[trigger] register_in(es, e)[i].version, sys),
{
    lemma_slug_index(es, version_slug(e.version));
    let t = register_in(es, e);
    assert forall|i: int| 0 <= i < t.len() implies canonical(#[trigger] t[i].version, sys) by {
        if i < es.len() && t[i] != e {
            assert(t[i] == es[i]);
        }
    }
}

/// Writing a canonical engine keeps the engine entries canonical, and
/// keeps a configuration as this library writes it.
pub proof fn lemma_with_engine_canonical(m: SettingsModel, e: EngineModel, sys: SystemVersion)
    requires
        engines_canonical(m, sys),
        canonical(e.version, sys),
    ensures
        engines_canonical(with_engine(m, e), sys),
        engines_wf(m, sys) ==> engines_wf(with_engine(m, e), sys),
{
    let k = version_slug(e.version);
    let v = engine_value(e);
    lemma_engine_value(e, sys);
    crate::settings::lemma_section_after_set(m, engines_section(), k, v, engines_section());
    let p = |x: (Seq<char>, ValueModel)| entry_canonical(x, sys);
    let q = |x: (Seq<char>, ValueModel)| entry_keyed(x, sys);
    match section_of(m, engines_section()) {
        Some(es) => {
            assert forall|i: int| 0 <= i < es.len() implies p(#[trigger] es[i]) by {}
            crate::settings::lemma_set_entry_all(es, k, v, p);
            let t = crate::settings::set_entry(es, k, v);
            assert forall|j: int| 0 <= j < t.len() implies entry_canonical(#[trigger] t[j], sys) by {
                assert(p(t[j]));
            }
            if engines_wf(m, sys) {
                assert forall|i: int| 0 <= i < es.len() implies q(#[trigger] es[i]) by {}
                crate::settings::lemma_set_entry_all(es, k, v, q);
                assert forall|j: int| 0 <= j < t.len() implies entry_keyed(#[trigger] t[j], sys) by {
                    assert(q(t[j]));
                }
                crate::settings::law_set_keeps_wf(m, engines_section(), k, v);
            }
        },
        None => {
            if engines_wf(m, sys) {
                crate::settings::law_set_keeps_wf(m, engines_section(), k, v);
            }
        },
    }
}

/// Writing canonical engines keeps the engine entries canonical, and keeps
/// a configuration as this library writes it.
pub proof fn lemma_with_engines_canonical(m: SettingsModel, es: Seq<EngineModel>, sys: SystemVersion)
    requires
        engines_canonical(m, sys),
        forall|i: int| 0 <= i < es.len() ==> canonical(#[trigger] es[i].version, sys),
    ensures
        engines_canonical(with_engines(m, es), sys),
        engines_wf(m, sys) ==> engines_wf(with_engines(m, es), sys),
    decreases es.len(),
{
    if es.len() > 0 {
        let t = es.drop_last();
        assert forall|i: int| 0 <= i < t.len() implies canonical(#[trigger] t[i].version, sys) by {
            assert(t[i] == es[i]);
        }
        lemma_with_engines_canonical(m, t, sys);
        assert(canonical(es[es.len() - 1].version, sys));
        lemma_with_engine_canonical(with_engines(m, t), es.last(), sys);
    }
}

/// Changing the unnamed section leaves the engines alone.
pub proof fn lemma_unnamed_section_apart(m: SettingsModel, key: Seq<char>, v: ValueModel, sys: SystemVersion)
    ensures
        section_of(with_property(m, ""@, key, v), engines_section()) == section_of(m, engines_section()),
        engines_of(with_property(m, ""@, key, v), sys) == engines_of(m, sys),
        engines_canonical(with_property(m, ""@, key, v), sys) == engines_canonical(m, sys),
        crate::settings::settings_wf(m) ==> (engines_wf(with_property(m, ""@, key, v), sys) == engines_wf(m, sys)),
        without_property(m, ""@, key) matches Some(m2) ==> {
            &&& section_of(m2, engines_section()) == section_of(m, engines_section())
            &&& engines_of(m2, sys) == engines_of(m, sys)
            &&& engines_canonical(m2, sys) == engines_canonical(m, sys)
            &&& (engines_wf(m, sys) ==> engines_wf(m2, sys))
        },
{
    reveal_strlit("engines");
    reveal_strlit("");
    assert(engines_section().len() == 7);
    assert(""@.len() == 0);
    assert(engines_section() != ""@);
    crate::settings::lemma_section_after_set(m, ""@, key, v, engines_section());
    if crate::settings::settings_wf(m) {
        crate::settings::law_set_keeps_wf(m, ""@, key, v);
    }
    if without_property(m, ""@, key) is Some {
        crate::settings::lemma_section_after_remove(m, ""@, key, engines_section());
        if engines_wf(m, sys) {
            crate::settings::law_property_after_remove(m, ""@, key, ""@, key);
        }
    }
}

// ---------------------------------------------------------------------------
// Engine handler

/// Whether a version reads back as itself once written, but for its system.
fn version_is_canonical(version: &GodotVersion, system: SystemVersion) -> (res: bool)
    ensures
        res == canonical(version@, system),
{
    let s = version.to_string();
    match GodotVersion::parse(s.as_str(), system) {
        Ok(w) => {
            let expected = GodotVersion::new(version.version(), version.kind().clone(), system, version.mono());
            w.same_as(&expected)
        },
        Err(_) => false,
    }
}

/// Whether a configuration value can be read as an engine, or is ignored,
/// and, with `canonical`, describes a canonical engine.
fn value_is_canonical(value: &GdValue, system: SystemVersion, canonical: bool) -> (res: bool)
    ensures
        res == if canonical {
            entry_canonical((Seq::empty(), value@), system)
        } else {
            engine_readable(value@, system)
        },
{
    match value.to_object() {
        None => true,
        Some(_) => {
            let version = match value.get_field_str("version") {
                Some(v) => v,
                None => String::from_str("unknown"),
            };
            match GodotVersion::parse(version.as_str(), system) {
                Ok(v) => if canonical {
                    version_is_canonical(&v, system)
                } else {
                    true
                },
                Err(_) => false,
            }
        },
    }
}

/// The configuration after registering an engine, before the default is
/// looked at: the engines read, with the new one in place of the first with
/// the same slug or last, all written back under their slugs.
pub open spec fn with_registered(m: SettingsModel, sys: SystemVersion, e: EngineModel) -> SettingsModel {
    with_engines(m, register_in(engines_of(m, sys), e))
}

/// The configuration after registering an engine: when no default engine is
/// named and the new engine can be found, it becomes the default.
pub open spec fn after_register(m: SettingsModel, sys: SystemVersion, e: EngineModel) -> SettingsModel {
    let m1 = with_registered(m, sys, e);
    match default_state(m1, sys) {
        DefaultState::Unset => if find_engine(engines_of(m1, sys), e.version) is Some {
            with_default(m1, e.version)
        } else {
            m1
        },
        _ => m1,
    }
}

/// Engine handler: the global configuration, and the system of this
/// machine, with which versions that name no system are read.  It is
/// loaded before an operation and saved after it.
pub struct EngineHandler {
    config: GdSettings,
    system: SystemVersion,
}

impl EngineHandler {
    /// The configuration held.
    pub closed spec fn model(&self) -> SettingsModel {
        self.config@
    }

    /// The system of this machine.
    pub closed spec fn host(&self) -> SystemVersion {
        self.system
    }

    /// Creates an engine handler over a loaded configuration.
    pub fn new(config: GdSettings, system: SystemVersion) -> (res: Self)
        ensures
            res.model() == config@,
            res.host() == system,
    {
        EngineHandler { config, system }
    }

    /// The configuration held.
    pub fn config(&self) -> (res: &GdSettings)
        ensures
            res@ == self.model(),
    {
        &self.config
    }

    /// The configuration held, to be saved.
    pub fn into_config(self) -> (res: GdSettings)
        ensures
            res@ == self.model(),
    {
        self.config
    }

    /// The system of this machine.
    pub fn host_system(&self) -> (res: SystemVersion)
        ensures
            res == self.host(),
    {
        self.system
    }

    /// Whether every engine entry can be read.
    pub fn engines_are_readable(&self) -> (res: bool)
        ensures
            res == engines_readable(self.model(), self.host()),
    {
        self.check_entries(false)
    }

    /// Whether every engine entry is canonical.
    pub fn engines_are_canonical(&self) -> (res: bool)
        ensures
            res == engines_canonical(self.model(), self.host()),
    {
        self.check_entries(true)
    }

    /// Whether a version reads back as itself once written, but for its
    /// system, which reads back as this machine's.
    pub fn is_canonical(&self, version: &GodotVersion) -> (res: bool)
        ensures
            res == canonical(version@, self.host()),
    {
        version_is_canonical(version, self.system)
    }

    /// Whether every engine entry can be read, and, with `canonical`, is
    /// canonical.
    fn check_entries(&self, canonical: bool) -> (res: bool)
        ensures
            res == if canonical {
                engines_canonical(self.model(), self.host())
            } else {
                engines_readable(self.model(), self.host())
            },
    {
        match self.config.get_section("engines") {
            None => true,
            Some(props) => {
                let ghost es = entries_view(props@);
                proof {
                    lemma_entries_view(props@);
                }
                let mut i: usize = 0;
                while i < props.len()
                    invariant
                        i <= props@.len(),
                        es == entries_view(props@),
                        es.len() == props@.len(),
                        section_of(self.model(), engines_section()) == Some(es),
                        forall|j: int| 0 <= j < props@.len() ==> #[trigger] es[j] == (props@[j].0@, props@[j].1@),
                        forall|j: int|
                            0 <= j < i ==> if canonical {
                                entry_canonical(#[trigger] es[j], self.host())
                            } else {
                                engine_readable(es[j].1, self.host())
                            },
                    decreases props@.len() - i,
                {
                    let ok = value_is_canonical(&props[i].1, self.system, canonical);
                    if !ok {
                        assert(es[i as int].1 == props@[i as int].1@);
                        let ghost sec = section_of(self.model(), engines_section())->0;
                        assert(sec == es);
                        if canonical {
                            assert(!entry_canonical(sec[i as int], self.host()));
                        } else {
                            assert(!engine_readable(sec[i as int].1, self.host()));
                        }
                        return false;
                    }
                    i = i + 1;
                }
                if canonical {
                    assert forall|j: int| 0 <= j < es.len() implies entry_canonical(#[trigger] es[j], self.host()) by {}
                } else {
                    assert forall|j: int| 0 <= j < es.len() implies engine_readable(#[trigger] es[j].1, self.host()) by {
                        assert(es[j] == es[j]);
                    }
                }
                true
            },
        }
    }

    /// The registered engines.
    pub fn list(&self) -> (res: Vec<EngineInfo>)
        requires
            engines_readable(self.model(), self.host()),
        ensures
            engines_view(res@) == engines_of(self.model(), self.host()),
    {
        EngineInfo::engines_from(&self.config, self.system)
    }

    /// Writes engines under their slugs, in order.
    pub fn update_all(&mut self, entries: Vec<EngineInfo>)
        ensures
            final(self).model() == with_engines(old(self).model(), engines_view(entries@)),
            final(self).host() == old(self).host(),
    {
        let ghost m0 = self.config@;
        let ghost es = engines_view(entries@);
        let mut i: usize = 0;
        assert(es.subrange(0, 0) =~= Seq::<EngineModel>::empty());
        while i < entries.len()
            invariant
                i <= entries@.len(),
                es == engines_view(entries@),
                self.config@ == with_engines(m0, es.subrange(0, i as int)),
                self.system == old(self).system,
                m0 == old(self).config@,
            decreases entries@.len() - i,
        {
            let e = &entries[i];
            let slug = e.get_slug();
            let value = e.to_gdvalue();
            self.config.set_property("engines", slug.as_str(), value);
            assert(es.subrange(0, i + 1).drop_last() =~= es.subrange(0, i as int));
            assert(es.subrange(0, i + 1).last() == e@);
            i = i + 1;
        }
        assert(es.subrange(0, entries@.len() as int) =~= es);
    }

    /// The first registered engine with the version, or an error naming
    /// the version.
    pub fn get_version(&self, version: &GodotVersion) -> (res: Result<EngineInfo, EngineError>)
        requires
            engines_readable(self.model(), self.host()),
        ensures
            match find_engine(engines_of(self.model(), self.host()), version@) {
                Some(e) => res matches Ok(x) && x@ == e,
                None => res matches Err(EngineError::EngineNotFound(v)) && v@ == version@,
            },
    {
        let list = self.list();
        let ghost es = engines_view(list@);
        let mut i: usize = 0;
        while i < list.len()
            invariant
                i <= list@.len(),
                es == engines_view(list@),
                es == engines_of(self.model(), self.host()),
                es.len() == list@.len(),
                find_engine(es.subrange(0, i as int), version@) is None,
            decreases list@.len() - i,
        {
            assert(es.subrange(0, i + 1).drop_last() =~= es.subrange(0, i as int));
            assert(es[i as int] == list@[i as int]@);
            if list[i].version.same_as(version) {
                assert(es.subrange(0, i + 1).last() == es[i as int]);
                assert(find_engine(es.subrange(0, i + 1), version@) == Some(es[i as int]));
                let found = list[i].clone();
                assert(find_engine(es, version@) == Some(es[i as int])) by {
                    lemma_find_engine_prefix(es, i as int + 1, version@);
                }
                return Ok(found);
            }
            i = i + 1;
        }
        assert(es.subrange(0, list@.len() as int) =~= es);
        Err(EngineError::EngineNotFound(version.clone()))
    }

    /// The first registered engine with the version, if any.
    pub fn has_version(&self, version: &GodotVersion) -> (res: Option<EngineInfo>)
        requires
            engines_readable(self.model(), self.host()),
        ensures
            match find_engine(engines_of(self.model(), self.host()), version@) {
                Some(e) => res matches Some(x) && x@ == e,
                None => res is None,
            },
    {
        match self.get_version(version) {
            Ok(v) => Some(v),
            Err(_) => None,
        }
    }

    /// The default engine: none when none is named; an error when the name
    /// is not a version, or names an engine that is not registered.
    pub fn get_default(&self) -> (res: Result<Option<GodotVersion>, EngineError>)
        requires
            engines_readable(self.model(), self.host()),
        ensures
            match default_state(self.model(), self.host()) {
                DefaultState::Unset => res matches Ok(None),
                DefaultState::Registered(v) => res matches Ok(Some(x)) && x@ == v,
                DefaultState::Unreadable(s) => res matches Err(EngineError::VersionError(e)) && e@
                    == ErrorModel::WrongVersion(s),
                DefaultState::Unregistered(v) => res matches Err(EngineError::EngineNotFound(x)) && x@ == v,
            },
    {
        proof {
            reveal_strlit("");
        }
        match self.config.get_property("", "default_engine") {
            Some(value) => match value.to_str() {
                Some(s) => match GodotVersion::parse(s.as_str(), self.system) {
                    Ok(version) => match self.get_version(&version) {
                        Ok(_) => Ok(Some(version)),
                        Err(e) => Err(e),
                    },
                    Err(e) => Err(EngineError::VersionError(e)),
                },
                None => Ok(None),
            },
            None => Ok(None),
        }
    }

    /// Names a registered engine as the default; an error when the version
    /// is not registered.
    pub fn set_as_default(&mut self, version: &GodotVersion) -> (res: Result<(), EngineError>)
        requires
            engines_readable(old(self).model(), old(self).host()),
        ensures
            final(self).host() == old(self).host(),
            match find_engine(engines_of(old(self).model(), old(self).host()), version@) {
                Some(_) => res is Ok && final(self).model() == with_default(old(self).model(), version@),
                None => res matches Err(EngineError::EngineNotFound(v)) && v@ == version@ && final(self).model()
                    == old(self).model(),
            },
    {
        proof {
            reveal_strlit("");
        }
        match self.get_version(version) {
            Err(e) => Err(e),
            Ok(_) => {
                let s = version.to_string();
                self.config.set_property("", "default_engine", GdValue::String(s));
                Ok(())
            },
        }
    }

    /// Removes the name of the default engine; an error when none is named.
    pub fn unset_default(&mut self) -> (res: Result<(), EngineError>)
        ensures
            final(self).host() == old(self).host(),
            match without_property(old(self).model(), ""@, default_key()) {
                Some(m2) => res is Ok && final(self).model() == m2,
                None => res matches Err(EngineError::ConfigError(ConfigError::IncompleteSettings(_)))
                    && final(self).model() == old(self).model(),
            },
    {
        proof {
            reveal_strlit("");
        }
        match self.config.remove_property("", "default_engine") {
            Ok(()) => Ok(()),
            Err(e) => Err(EngineError::ConfigError(ConfigError::IncompleteSettings(e))),
        }
    }

    /// The registered engines, with `entry` in the place of the first one
    /// with the same slug, or last.
    fn registered_list(&self, entry: EngineInfo) -> (res: Vec<EngineInfo>)
        requires
            engines_readable(self.model(), self.host()),
        ensures
            engines_view(res@) == register_in(engines_of(self.model(), self.host()), entry@),
    {
        let ghost m0 = self.config@;
        let ghost sys = self.system;
        let ghost e0 = entry@;
        let mut list = self.list();
        let ghost es = engines_view(list@);
        let slug = entry.get_slug();
        let sc = chars_of(slug.as_str());
        let mut idx: Option<usize> = None;
        let mut i: usize = 0;
        assert(es.subrange(0, 0) =~= Seq::<EngineModel>::empty());
        while i < list.len()
            invariant
                i <= list@.len(),
                es == engines_view(list@),
                es.len() == list@.len(),
                sc@ == version_slug(e0.version),
                match idx {
                    Some(j) => slug_index(es.subrange(0, i as int), sc@) == Some(j as int),
                    None => slug_index(es.subrange(0, i as int), sc@) is None,
                },
            decreases list@.len() - i,
        {
            assert(es.subrange(0, i + 1).drop_last() =~= es.subrange(0, i as int));
            assert(es.subrange(0, i + 1).last() == list@[i as int]@);
            if idx.is_none() {
                let other = list[i].get_slug();
                let oc = chars_of(other.as_str());
                if chars_eq(oc.as_slice(), sc.as_slice()) {
                    idx = Some(i);
                }
            }
            i = i + 1;
        }
        assert(es.subrange(0, list@.len() as int) =~= es);
        match idx {
            Some(j) => {
                proof {
                    lemma_slug_index(es, sc@);
                }
                let _ = list.remove(j);
                list.insert(j, entry);
                assert(engines_view(list@) =~= register_in(es, e0));
            },
            None => {
                list.push(entry);
                assert(engines_view(list@) =~= register_in(es, e0));
            },
        }
        list
    }

    /// Whether registering `entry` leaves every engine entry readable:
    /// every engine written back last under its slug, the new one
    /// included, has a version that reads back.
    pub fn registration_is_readable(&self, entry: &EngineInfo) -> (res: bool)
        requires
            engines_readable(self.model(), self.host()),
        ensures
            res == engines_readable(with_registered(self.model(), self.host(), entry@), self.host()),
    {
        let ghost m = self.config@;
        let ghost sys = self.system;
        let _ = self.config.sections();
        let list = self.registered_list(entry.clone());
        let ghost l = engines_view(list@);
        proof {
            lemma_readable_with_engines(m, sys, l, Set::empty());
            lemma_readable_except_all(m, sys, Set::<Seq<char>>::empty() + slugs_of(l));
            lemma_readable_except_all(with_engines(m, l), sys, Set::empty());
        }
        assert(l.len() == list@.len());
        assert(engines_readable(with_registered(m, sys, entry@), sys) == last_written_readable(l, sys, Set::empty()));
        let mut i: usize = 0;
        while i < list.len()
            invariant
                engines_readable(with_registered(m, sys, entry@), sys) == last_written_readable(l, sys, Set::empty()),
                m == self.config@,
                i <= list@.len(),
                l == engines_view(list@),
                l.len() == list@.len(),
                forall|k: int| 0 <= k < list@.len() ==> #[trigger] l[k] == list@[k]@,
                forall|k: int| 0 <= k < i && last_of_slug(l, k) ==> version_readable(#[trigger] l[k].version, sys),
                sys == self.host(),
            decreases list@.len() - i,
        {
            let si = list[i].get_slug();
            let sc = chars_of(si.as_str());
            let mut last = true;
            let mut j: usize = i + 1;
            while j < list.len()
                invariant
                    i < j <= list@.len(),
                    l.len() == list@.len(),
                    forall|k: int| 0 <= k < list@.len() ==> #[trigger] l[k] == list@[k]@,
                    sc@ == version_slug(l[i as int].version),
                    last == (forall|q: int| i < q < j ==> version_slug(#[trigger] l[q].version) != version_slug(l[i as int].version)),
                decreases list@.len() - j,
            {
                let sj = list[j].get_slug();
                let jc = chars_of(sj.as_str());
                assert(jc@ == version_slug(l[j as int].version));
                let ghost before = last;
                if chars_eq(jc.as_slice(), sc.as_slice()) {
                    last = false;
                }
                assert(last == (forall|q: int|
                    i < q < j + 1 ==> version_slug(#[trigger] l[q].version) != version_slug(l[i as int].version))) by {
                    if !last {
                        if before {
                            assert(version_slug(l[j as int].version) == version_slug(l[i as int].version));
                        }
                    } else {
                        assert forall|q: int| i < q < j + 1 implies version_slug(#[trigger] l[q].version)
                            != version_slug(l[i as int].version) by {
                            if q < j {
                            }
                        }
                    }
                }
                j = j + 1;
            }
            assert(last == last_of_slug(l, i as int));
            if last {
                let w = list[i].version.to_string();
                match GodotVersion::parse(w.as_str(), self.system) {
                    Ok(_) => {},
                    Err(_) => {
                        assert(!version_readable(l[i as int].version, sys));
                        assert(!last_written_readable(l, sys, Set::empty()));
                        return false;
                    },
                }
            }
            i = i + 1;
        }
        assert(last_written_readable(l, sys, Set::empty()));
        true
    }

    /// Registers an engine: the registered engines are read, the new one
    /// takes the place of the first with the same slug or comes last, and
    /// all are written back under their slugs; then, when no default engine
    /// is named, the new engine becomes the default.
    pub fn register(&mut self, entry: EngineInfo) -> (res: Result<(), EngineError>)
        requires
            engines_readable(old(self).model(), old(self).host()),
            engines_readable(with_registered(old(self).model(), old(self).host(), entry@), old(self).host()),
        ensures
            final(self).host() == old(self).host(),
            final(self).model() == after_register(old(self).model(), old(self).host(), entry@),
            engines_canonical(old(self).model(), old(self).host()) && canonical(entry.version@, old(self).host())
                ==> engines_canonical(final(self).model(), final(self).host()),
            match default_state(with_registered(old(self).model(), old(self).host(), entry@), old(self).host()) {
                DefaultState::Unset => match find_engine(
                    engines_of(with_registered(old(self).model(), old(self).host(), entry@), old(self).host()),
                    entry.version@,
                ) {
                    Some(_) => res is Ok,
                    None => res matches Err(EngineError::EngineNotFound(v)) && v@ == entry.version@,
                },
                DefaultState::Registered(_) => res is Ok,
                DefaultState::Unreadable(s) => res matches Err(EngineError::VersionError(e)) && e@
                    == ErrorModel::WrongVersion(s),
                DefaultState::Unregistered(v) => res matches Err(EngineError::EngineNotFound(x)) && x@ == v,
            },
    {
        let ghost m0 = self.config@;
        let ghost sys = self.system;
        let ghost e0 = entry@;
        let ghost es = engines_of(m0, sys);
        let version = entry.version.clone();
        let list = self.registered_list(entry);
        proof {
            if engines_canonical(m0, sys) && canonical(e0.version, sys) {
                lemma_engines_of_canonical(m0, sys);
                lemma_register_in_canonical(es, e0, sys);
                lemma_with_engines_canonical(m0, register_in(es, e0), sys);
            }
        }
        self.update_all(list);
        let ghost m1 = self.config@;
        assert(m1 == with_registered(m0, sys, e0));
        match self.get_default() {
            Err(e) => Err(e),
            Ok(Some(_)) => Ok(()),
            Ok(None) => {
                let r = self.set_as_default(&version);
                proof {
                    lemma_unnamed_section_apart(m1, default_key(), ValueModel::Str(version_string(e0.version)), sys);
                }
                r
            },
        }
    }

    /// Unregisters an engine: an error when it is not registered; when it
    /// is the default engine, the default is removed first.
    pub fn unregister(&mut self, version: &GodotVersion) -> (res: Result<(), EngineError>)
        requires
            engines_readable(old(self).model(), old(self).host()),
        ensures
            final(self).host() == old(self).host(),
            final(self).model() == after_unregister(old(self).model(), old(self).host(), version@),
            unregister_result(old(self).model(), old(self).host(), version@, res),
    {
        let ghost m0 = self.config@;
        let ghost sys = self.system;
        match self.get_version(version) {
            Err(e) => {
                return Err(e);
            },
            Ok(_) => {},
        }
        match self.get_default() {
            Err(e) => {
                return Err(e);
            },
            Ok(Some(d)) => {
                if d.same_as(version) {
                    proof {
                        reveal_strlit("");
                        crate::settings::lemma_index_of(m0, ""@);
                    }
                    match self.unset_default() {
                        Err(e) => {
                            return Err(e);
                        },
                        Ok(()) => {},
                    }
                }
            },
            Ok(None) => {},
        }
        let ghost m1 = self.config@;
        assert(m1 == unregister_default(m0, sys, version@));
        let slug = version.slug();
        match self.config.remove_property("engines", slug.as_str()) {
            Ok(()) => Ok(()),
            Err(e) => Err(EngineError::ConfigError(ConfigError::IncompleteSettings(e))),
        }
    }

    /// Uninstalls an engine, given whether its export templates and its
    /// folder exist.  An engine that is not registered is an error, and
    /// nothing is removed.  Otherwise its export templates are removed when
    /// they exist (the first part of the result); then, when its folder
    /// exists, it is unregistered and, on success, its folder is removed
    /// (the second part is `Ok`); when the folder is missing, the engine is
    /// not installed.
    pub fn uninstall(&mut self, version: &GodotVersion, templates_exist: bool, folder_exists: bool) -> (res: (
        bool,
        Result<(), EngineError>,
    ))
        requires
            engines_readable(old(self).model(), old(self).host()),
        ensures
            final(self).host() == old(self).host(),
            match find_engine(engines_of(old(self).model(), old(self).host()), version@) {
                None => !res.0 && (res.1 matches Err(EngineError::EngineNotFound(v)) && v@ == version@)
                    && final(self).model() == old(self).model(),
                Some(_) => res.0 == templates_exist && if folder_exists {
                    &&& final(self).model() == after_unregister(old(self).model(), old(self).host(), version@)
                    &&& unregister_result(old(self).model(), old(self).host(), version@, res.1)
                } else {
                    &&& (res.1 matches Err(EngineError::EngineNotInstalled(v)) && v@ == version@)
                    &&& final(self).model() == old(self).model()
                },
            },
    {
        match self.get_version(version) {
            Err(e) => {
                return (false, Err(e));
            },
            Ok(_) => {},
        }
        if folder_exists {
            let r = self.unregister(version);
            (templates_exist, r)
        } else {
            (templates_exist, Err(EngineError::EngineNotInstalled(version.clone())))
        }
    }
}

/// What unregistering a version answers: an error when it is not
/// registered, or when the default engine cannot be read or is not
/// registered; an error when its entry cannot be removed; success
/// otherwise.
pub open spec fn unregister_result(
    m: SettingsModel,
    sys: SystemVersion,
    version: VersionModel,
    res: Result<(), EngineError>,
) -> bool {
    match find_engine(engines_of(m, sys), version) {
        None => res matches Err(EngineError::EngineNotFound(v)) && v@ == version,
        Some(_) => match default_state(m, sys) {
            DefaultState::Unreadable(s) => res matches Err(EngineError::VersionError(e)) && e@ == ErrorModel::WrongVersion(
                s,
            ),
            DefaultState::Unregistered(v) => res matches Err(EngineError::EngineNotFound(x)) && x@ == v,
            _ => match without_property(unregister_default(m, sys, version), engines_section(), version_slug(version)) {
                Some(_) => res is Ok,
                None => res matches Err(EngineError::ConfigError(ConfigError::IncompleteSettings(_))),
            },
        },
    }
}

/// The configuration after the first step of unregistering a version: the
/// default is removed when it names that version.
pub open spec fn unregister_default(m: SettingsModel, sys: SystemVersion, v: VersionModel) -> SettingsModel {
    match default_state(m, sys) {
        DefaultState::Registered(d) => if d == v {
            match without_property(m, ""@, default_key()) {
                Some(m2) => m2,
                None => m,
            }
        } else {
            m
        },
        _ => m,
    }
}

/// The configuration after unregistering a version.
pub open spec fn after_unregister(m: SettingsModel, sys: SystemVersion, v: VersionModel) -> SettingsModel {
    if find_engine(engines_of(m, sys), v) is None {
        m
    } else {
        match default_state(m, sys) {
            DefaultState::Unreadable(_) => m,
            DefaultState::Unregistered(_) => m,
            _ => {
                let m1 = unregister_default(m, sys, v);
                match without_property(m1, engines_section(), version_slug(v)) {
                    Some(m2) => m2,
                    None => m1,
                }
            },
        }
    }
}

/// The first engine with a version in a prefix is the first in the list.
pub proof fn lemma_find_engine_prefix(es: Seq<EngineModel>, n: int, v: VersionModel)
    requires
        0 <= n <= es.len(),
        find_engine(es.subrange(0, n), v) is Some,
    ensures
        find_engine(es, v) == find_engine(es.subrange(0, n), v),
    decreases es.len() - n,
{
    if n < es.len() {
        assert(es.subrange(0, n + 1).drop_last() =~= es.subrange(0, n));
        lemma_find_engine_prefix(es, n + 1, v);
    } else {
        assert(es.subrange(0, n) =~= es);
    }
}
// ---------------------------------------------------------------------------
// Laws

/// A configuration as this library writes it has canonical engine entries.
pub proof fn lemma_wf_canonical(m: SettingsModel, sys: SystemVersion)
    requires
        engines_wf(m, sys),
    ensures
        engines_canonical(m, sys),
{
    match section_of(m, engines_section()) {
        Some(es) => {
            assert forall|i: int| 0 <= i < es.len() implies entry_canonical(#[trigger] es[i], sys) by {
                assert(entry_keyed(es[i], sys));
            }
        },
        None => {},
    }
}

/// Looking a version up in a list with one more engine.
pub proof fn lemma_find_engine_push(es: Seq<EngineModel>, x: EngineModel, v: VersionModel)
    ensures
        find_engine(es.push(x), v) == match find_engine(es, v) {
            Some(e) => Some(e),
            None => if x.version == v {
                Some(x)
            } else {
                None
            },
        },
{
    assert(es.push(x).drop_last() =~= es);
}

/// Entries registered under slugs: no entry under the slug of a version
/// means no engine of that version.
pub proof fn lemma_find_none(es: Seq<(Seq<char>, ValueModel)>, sys: SystemVersion, v: VersionModel)
    requires
        forall|i: int| 0 <= i < es.len() ==> entry_keyed(#[trigger] es[i], sys),
        forall|i: int| 0 <= i < es.len() ==> (#[trigger] es[i]).0 != version_slug(v),
    ensures
        find_engine(engines_in(es, sys), v) is None,
    decreases es.len(),
{
    if es.len() > 0 {
        let t = es.drop_last();
        assert forall|i: int| 0 <= i < t.len() implies entry_keyed(#[trigger] t[i], sys) && t[i].0
            != version_slug(v) by {
            assert(t[i] == es[i]);
        }
        lemma_find_none(t, sys, v);
        let last = es[es.len() - 1];
        assert(entry_keyed(last, sys));
        assert(last.0 != version_slug(v));
        match engine_of(last.1, sys) {
            Some(en) => lemma_find_engine_push(engines_in(t, sys), en, v),
            None => {},
        }
    }
}

/// Entries registered under slugs, with unique keys: the engine under the
/// slug of a version is the first engine of that version.
pub proof fn lemma_find_keyed(es: Seq<(Seq<char>, ValueModel)>, sys: SystemVersion, v: VersionModel, en: EngineModel)
    requires
        crate::settings::keys_unique(es),
        forall|i: int| 0 <= i < es.len() ==> entry_keyed(#[trigger] es[i], sys),
        lookup(es, version_slug(v)) matches Some(val) && engine_of(val, sys) == Some(en),
        en.version == v,
    ensures
        find_engine(engines_in(es, sys), v) == Some(en),
    decreases es.len(),
{
    let t = es.drop_last();
    let last = es[es.len() - 1];
    assert forall|i: int| 0 <= i < t.len() implies entry_keyed(#[trigger] t[i], sys) by {
        assert(t[i] == es[i]);
    }
    assert(entry_keyed(last, sys));
    if last.0 == version_slug(v) {
        assert forall|i: int| 0 <= i < t.len() implies (#[trigger] t[i]).0 != version_slug(v) by {
            assert(t[i] == es[i]);
            assert(es[i].0 != es[es.len() - 1].0);
        }
        lemma_find_none(t, sys, v);
        lemma_find_engine_push(engines_in(t, sys), en, v);
    } else {
        assert(crate::settings::keys_unique(t)) by {
            assert forall|a: int, b: int| 0 <= a < b < t.len() implies t[a].0 != t[b].0 by {
                assert(t[a] == es[a] && t[b] == es[b]);
            }
        }
        assert(crate::settings::index_of(es, version_slug(v)) == crate::settings::index_of(t, version_slug(v)));
        crate::settings::lemma_index_of(t, version_slug(v));
        if let Some(j) = crate::settings::index_of(t, version_slug(v)) {
            assert(t[j] == es[j]);
        }
        lemma_find_keyed(t, sys, v, en);
        match engine_of(last.1, sys) {
            Some(x) => lemma_find_engine_push(engines_in(t, sys), x, v),
            None => {},
        }
    }
}

/// Engines read from entries registered under slugs, with unique keys,
/// have distinct slugs, each of which is a key of the entries.
pub proof fn lemma_engines_in_slugs(es: Seq<(Seq<char>, ValueModel)>, sys: SystemVersion)
    requires
        crate::settings::keys_unique(es),
        forall|i: int| 0 <= i < es.len() ==> entry_keyed(#[trigger] es[i], sys),
    ensures
        forall|i: int, j: int|
            0 <= i < j < engines_in(es, sys).len() ==> version_slug(#[trigger] engines_in(es, sys)[i].version)
                != version_slug(#[trigger] engines_in(es, sys)[j].version),
        forall|i: int|
            0 <= i < engines_in(es, sys).len() ==> (#[trigger] crate::settings::index_of(
                es,
                version_slug(engines_in(es, sys)[i].version),
            )) is Some,
    decreases es.len(),
{
    if es.len() > 0 {
        let t = es.drop_last();
        let last = es[es.len() - 1];
        assert forall|i: int| 0 <= i < t.len() implies entry_keyed(#[trigger] t[i], sys) by {
            assert(t[i] == es[i]);
        }
        assert(crate::settings::keys_unique(t)) by {
            assert forall|a: int, b: int| 0 <= a < b < t.len() implies t[a].0 != t[b].0 by {
                assert(t[a] == es[a] && t[b] == es[b]);
            }
        }
        lemma_engines_in_slugs(t, sys);
        let lt = engines_in(t, sys);
        assert(entry_keyed(last, sys));
        assert forall|i: int| 0 <= i < lt.len() implies version_slug(#[trigger] lt[i].version) != last.0
            && crate::settings::index_of(es, version_slug(lt[i].version)) is Some by {
            let k = version_slug(lt[i].version);
            assert(crate::settings::index_of(t, k) is Some);
            crate::settings::lemma_index_of(t, k);
            let j = crate::settings::index_of(t, k)->0;
            assert(t[j] == es[j]);
            assert(es[j].0 != es[es.len() - 1].0);
        }
        match engine_of(last.1, sys) {
            Some(en) => {
                let l = engines_in(es, sys);
                assert(l == lt.push(en));
                assert forall|i: int, j: int| 0 <= i < j < l.len() implies version_slug(#[trigger] l[i].version)
                    != version_slug(#[trigger] l[j].version) by {
                    if j < lt.len() {
                        assert(l[i] == lt[i] && l[j] == lt[j]);
                    } else {
                        assert(l[i] == lt[i] && l[j] == en);
                    }
                }
                assert forall|i: int| 0 <= i < l.len() implies (#[trigger] crate::settings::index_of(
                    es,
                    version_slug(l[i].version),
                )) is Some by {
                    if i < lt.len() {
                        assert(l[i] == lt[i]);
                    } else {
                        assert(l[i] == en);
                    }
                }
            },
            None => {},
        }
    }
}

/// Engines with distinct slugs.
pub open spec fn distinct_slugs(es: Seq<EngineModel>) -> bool {
    forall|i: int, j: int| 0 <= i < j < es.len() ==> version_slug(#[trigger] es[i].version) != version_slug(#[trigger] es[j].version)
}

/// Registering an engine in a list with distinct slugs keeps them
/// distinct, and puts the engine in the list.
pub proof fn lemma_register_in_distinct(es: Seq<EngineModel>, e: EngineModel)
    requires
        distinct_slugs(es),
    ensures
        distinct_slugs(register_in(es, e)),
        exists|k: int| 0 <= k < register_in(es, e).len() && #[trigger] register_in(es, e)[k] == e,
{
    lemma_slug_index(es, version_slug(e.version));
    let t = register_in(es, e);
    match slug_index(es, version_slug(e.version)) {
        Some(i) => {
            assert forall|a: int, b: int| 0 <= a < b < t.len() implies version_slug(#[trigger] t[a].version)
                != version_slug(#[trigger] t[b].version) by {
                if a != i && b != i {
                    assert(t[a] == es[a] && t[b] == es[b]);
                } else if a == i {
                    assert(t[b] == es[b]);
                    assert(version_slug(es[a].version) != version_slug(es[b].version));
                } else {
                    assert(t[a] == es[a]);
                    assert(version_slug(es[a].version) != version_slug(es[b].version));
                }
            }
            assert(t[i] == e);
        },
        None => {
            assert forall|a: int, b: int| 0 <= a < b < t.len() implies version_slug(#[trigger] t[a].version)
                != version_slug(#[trigger] t[b].version) by {
                if b < es.len() {
                    assert(t[a] == es[a] && t[b] == es[b]);
                } else {
                    assert(t[a] == es[a]);
                }
            }
            assert(t[es.len() as int] == e);
        },
    }
}

/// Engines with distinct slugs, once written, are each found under their
/// slug.
pub proof fn lemma_with_engines_lookup(m: SettingsModel, es: Seq<EngineModel>, k: int)
    requires
        distinct_slugs(es),
        0 <= k < es.len(),
    ensures
        property_of(with_engines(m, es), engines_section(), version_slug(es[k].version)) == Some(
            engine_value(es[k]),
        ),
    decreases es.len(),
{
    let t = es.drop_last();
    let last = es[es.len() - 1];
    crate::settings::law_property_after_set(
        with_engines(m, t),
        engines_section(),
        version_slug(last.version),
        engine_value(last),
        engines_section(),
        version_slug(es[k].version),
    );
    if k < es.len() - 1 {
        assert forall|a: int, b: int| 0 <= a < b < t.len() implies version_slug(#[trigger] t[a].version)
            != version_slug(#[trigger] t[b].version) by {
            assert(t[a] == es[a] && t[b] == es[b]);
        }
        assert(t[k] == es[k]);
        lemma_with_engines_lookup(m, t, k);
        assert(version_slug(es[k].version) != version_slug(es[es.len() - 1].version));
    }
}

/// Writing engines leaves the unnamed section alone.
pub proof fn lemma_with_engines_default(m: SettingsModel, es: Seq<EngineModel>)
    ensures
        default_name(with_engines(m, es)) == default_name(m),
    decreases es.len(),
{
    if es.len() > 0 {
        lemma_with_engines_default(m, es.drop_last());
        reveal_strlit("engines");
        reveal_strlit("");
        assert(engines_section() != ""@) by {
            assert(engines_section().len() == 7);
        }
        crate::settings::law_property_after_set(
            with_engines(m, es.drop_last()),
            engines_section(),
            version_slug(es.last().version),
            engine_value(es.last()),
            ""@,
            default_key(),
        );
    }
}

/// Registering an engine of this machine's system and looking its version
/// up gives back the engine, in a configuration as this library writes it,
/// which stays so.
pub proof fn law_register_then_get(m: SettingsModel, sys: SystemVersion, e: EngineModel)
    requires
        engines_wf(m, sys),
        canonical(e.version, sys),
        e.version.system == sys,
    ensures
        find_engine(engines_of(after_register(m, sys, e), sys), e.version) == Some(e),
        engines_wf(after_register(m, sys, e), sys),
{
    let l = engines_of(m, sys);
    let l2 = register_in(l, e);
    let m1 = with_registered(m, sys, e);
    lemma_wf_canonical(m, sys);
    lemma_engines_of_canonical(m, sys);
    lemma_register_in_canonical(l, e, sys);
    lemma_with_engines_canonical(m, l2, sys);
    match section_of(m, engines_section()) {
        Some(es) => {
            crate::settings::lemma_section_unique(m, engines_section());
            lemma_engines_in_slugs(es, sys);
        },
        None => {},
    }
    assert(distinct_slugs(l));
    lemma_register_in_distinct(l, e);
    let k = choose|k: int| 0 <= k < l2.len() && #[trigger] l2[k] == e;
    lemma_with_engines_lookup(m, l2, k);
    lemma_engine_value(e, sys);
    let s1 = section_of(m1, engines_section())->0;
    assert(lookup(s1, version_slug(e.version)) == Some(engine_value(e)));
    crate::settings::lemma_section_unique(m1, engines_section());
    lemma_find_keyed(s1, sys, e.version, e);
    assert(find_engine(engines_of(m1, sys), e.version) == Some(e));
    lemma_unnamed_section_apart(m1, default_key(), ValueModel::Str(version_string(e.version)), sys);
}

/// The engine found for a version is one of the list.
pub proof fn lemma_find_engine_elem(es: Seq<EngineModel>, v: VersionModel)
    requires
        find_engine(es, v) is Some,
    ensures
        exists|k: int| 0 <= k < es.len() && #[trigger] es[k] == find_engine(es, v)->0,
        (find_engine(es, v)->0).version == v,
    decreases es.len(),
{
    let t = es.drop_last();
    if find_engine(t, v) is Some {
        lemma_find_engine_elem(t, v);
        let k = choose|k: int| 0 <= k < t.len() && #[trigger] t[k] == find_engine(t, v)->0;
        assert(es[k] == t[k]);
    } else {
        assert(es[es.len() - 1] == find_engine(es, v)->0);
    }
}

/// An empty configuration is one as this library writes it; registering,
/// unregistering and naming defaults keep it so (see the laws below).
pub proof fn law_empty_engines_wf(sys: SystemVersion)
    ensures
        engines_wf(SettingsModel::empty(), sys),
{
    crate::settings::lemma_index_of(SettingsModel::empty(), engines_section());
}

/// An engine, once written, can be read exactly when its version reads
/// back.
pub proof fn lemma_engine_value_readable(x: EngineModel, sys: SystemVersion)
    ensures
        engine_readable(engine_value(x), sys) == version_readable(x.version, sys),
{
    let es = seq![("path"@, ValueModel::Str(x.path)), ("version"@, ValueModel::Str(version_string(x.version)))];
    assert(es.last().0 == "version"@);
    assert(crate::settings::index_of(es, "version"@) == Some(1int));
}

/// All engine entries can be read exactly when those whose key is not
/// among no keys can; and then so can those whose key is not among any.
pub proof fn lemma_readable_except_all(m: SettingsModel, sys: SystemVersion, keys: Set<Seq<char>>)
    ensures
        engines_readable(m, sys) == readable_except(m, sys, Set::empty()),
        engines_readable(m, sys) ==> readable_except(m, sys, keys),
{
    match section_of(m, engines_section()) {
        Some(es) => {
            if engines_readable(m, sys) {
                assert forall|i: int| 0 <= i < es.len() && !keys.contains(es[i].0) implies engine_readable(
                    #[trigger] es[i].1,
                    sys,
                ) by {}
            }
            if readable_except(m, sys, Set::empty()) {
                assert forall|i: int| 0 <= i < es.len() implies engine_readable(#[trigger] es[i].1, sys) by {
                    assert(!Set::<Seq<char>>::empty().contains(es[i].0));
                }
            }
        },
        None => {},
    }
}

/// Writing engines keeps section names and keys unique.
pub proof fn lemma_with_engines_wf(m: SettingsModel, l: Seq<EngineModel>)
    requires
        crate::settings::settings_wf(m),
    ensures
        crate::settings::settings_wf(with_engines(m, l)),
    decreases l.len(),
{
    if l.len() > 0 {
        lemma_with_engines_wf(m, l.drop_last());
        crate::settings::law_set_keeps_wf(
            with_engines(m, l.drop_last()),
            engines_section(),
            version_slug(l.last().version),
            engine_value(l.last()),
        );
    }
}

/// Writing one engine: the entries whose key is not among `keys` can be
/// read afterwards exactly when those whose key is neither among `keys`
/// nor the engine's slug could be read before, and the engine's version
/// reads back, where its slug is not among `keys`.
pub proof fn lemma_readable_with_engine(m: SettingsModel, sys: SystemVersion, x: EngineModel, keys: Set<Seq<char>>)
    requires
        crate::settings::settings_wf(m),
    ensures
        readable_except(with_engine(m, x), sys, keys) == (readable_except(m, sys, keys.insert(version_slug(x.version)))
            && (!keys.contains(version_slug(x.version)) ==> version_readable(x.version, sys))),
{
    let k = version_slug(x.version);
    let v = engine_value(x);
    let m2 = with_engine(m, x);
    lemma_engine_value_readable(x, sys);
    crate::settings::lemma_section_after_set(m, engines_section(), k, v, engines_section());
    let rhs = readable_except(m, sys, keys.insert(k)) && (!keys.contains(k) ==> version_readable(x.version, sys));
    match section_of(m, engines_section()) {
        Some(es) => {
            crate::settings::lemma_section_unique(m, engines_section());
            crate::settings::lemma_index_of(es, k);
            let es2 = crate::settings::set_entry(es, k, v);
            assert(section_of(m2, engines_section()) == Some(es2));
            let j: int = match crate::settings::index_of(es, k) {
                Some(j) => j,
                None => es.len() as int,
            };
            assert(es2.len() == if j < es.len() { es.len() } else { es.len() + 1 });
            assert(es2[j] == (k, v));
            assert forall|i: int| 0 <= i < es.len() && i != j implies #[trigger] es2[i] == es[i] && es[i].0 != k by {}
            assert(readable_except(m2, sys, keys) == entries_readable_except(es2, sys, keys));
            if rhs {
                assert forall|i: int| 0 <= i < es2.len() && !keys.contains(es2[i].0) implies engine_readable(
                    #[trigger] es2[i].1,
                    sys,
                ) by {
                    if i != j {
                        assert(es2[i] == es[i]);
                        assert(!keys.insert(k).contains(es[i].0));
                    }
                }
            }
            if readable_except(m2, sys, keys) {
                assert forall|i: int| 0 <= i < es.len() && !keys.insert(k).contains(es[i].0) implies engine_readable(
                    #[trigger] es[i].1,
                    sys,
                ) by {
                    assert(i != j);
                    assert(es2[i] == es[i]);
                    assert(!keys.contains(es2[i].0));
                    assert(engine_readable(es2[i].1, sys));
                }
                if !keys.contains(k) {
                    assert(engine_readable(es2[j].1, sys));
                }
            }
        },
        None => {
            let es2 = seq![(k, v)];
            assert(section_of(m2, engines_section()) == Some(es2));
            assert(es2[0] == (k, v));
            assert(readable_except(m2, sys, keys) == entries_readable_except(es2, sys, keys));
            if readable_except(m2, sys, keys) && !keys.contains(k) {
                assert(!keys.contains(es2[0].0));
                assert(engine_readable(es2[0].1, sys));
            }
            if rhs {
                assert forall|i: int| 0 <= i < es2.len() && !keys.contains(es2[i].0) implies engine_readable(
                    #[trigger] es2[i].1,
                    sys,
                ) by {
                    assert(i == 0);
                }
            }
        },
    }
}

/// Writing engines in order: the entries whose key is not among `keys` can
/// be read afterwards exactly when those whose key is neither among `keys`
/// nor a written slug could be read before, and every engine written last
/// under its slug, where the slug is not among `keys`, has a version that
/// reads back.
pub proof fn lemma_readable_with_engines(m: SettingsModel, sys: SystemVersion, l: Seq<EngineModel>, keys: Set<Seq<char>>)
    requires
        crate::settings::settings_wf(m),
    ensures
        readable_except(with_engines(m, l), sys, keys) == (readable_except(m, sys, keys + slugs_of(l))
            && last_written_readable(l, sys, keys)),
    decreases l.len(),
{
    if l.len() == 0 {
        assert(keys + slugs_of(l) =~= keys);
    } else {
        let t = l.drop_last();
        let x = l.last();
        let k = version_slug(x.version);
        let n = l.len() - 1;
        lemma_with_engines_wf(m, t);
        lemma_readable_with_engine(with_engines(m, t), sys, x, keys);
        lemma_readable_with_engines(m, sys, t, keys.insert(k));
        assert forall|i: int| 0 <= i < t.len() implies #[trigger] t[i] == l[i] by {}
        assert(keys.insert(k) + slugs_of(t) =~= keys + slugs_of(l)) by {
            assert forall|s: Seq<char>| (keys.insert(k) + slugs_of(t)).contains(s) implies (keys + slugs_of(
                l,
            )).contains(s) by {
                if slugs_of(t).contains(s) {
                    let i = choose|i: int| 0 <= i < t.len() && version_slug(#[trigger] t[i].version) == s;
                    assert(version_slug(l[i].version) == s);
                } else if s == k {
                    assert(version_slug(l[n].version) == s);
                }
            }
            assert forall|s: Seq<char>| (keys + slugs_of(l)).contains(s) implies (keys.insert(k) + slugs_of(
                t,
            )).contains(s) by {
                if slugs_of(l).contains(s) && !keys.contains(s) {
                    let i = choose|i: int| 0 <= i < l.len() && version_slug(#[trigger] l[i].version) == s;
                    if i < n {
                        assert(version_slug(t[i].version) == s);
                    }
                }
            }
        }
        let a = last_written_readable(l, sys, keys);
        let b = last_written_readable(t, sys, keys.insert(k)) && (!keys.contains(k) ==> version_readable(
            x.version,
            sys,
        ));
        if a {
            assert forall|i: int|
                0 <= i < t.len() && !keys.insert(k).contains(version_slug(t[i].version)) && last_of_slug(t, i)
                    implies version_readable(#[trigger] t[i].version, sys) by {
                assert(l[i] == t[i]);
                assert forall|j: int| i < j < l.len() implies version_slug(#[trigger] l[j].version) != version_slug(
                    l[i].version,
                ) by {
                    if j < n {
                        assert(l[j] == t[j]);
                    }
                }
                assert(last_of_slug(l, i));
            }
            if !keys.contains(k) {
                assert(last_of_slug(l, n));
                assert(version_readable(l[n].version, sys));
            }
        }
        if b {
            assert forall|i: int|
                0 <= i < l.len() && !keys.contains(version_slug(l[i].version)) && last_of_slug(l, i) implies version_readable(
                #[trigger] l[i].version,
                sys,
            ) by {
                if i < n {
                    assert(l[i] == t[i]);
                    assert(version_slug(l[n].version) != version_slug(l[i].version));
                    assert forall|j: int| i < j < t.len() implies version_slug(#[trigger] t[j].version)
                        != version_slug(t[i].version) by {
                        assert(l[j] == t[j]);
                    }
                    assert(last_of_slug(t, i));
                }
            }
        }
    }
}

/// Registering an engine leaves every engine registered under another slug
/// as it was: looking up its version, when it is of this machine's system,
/// gives the same engine before and after, in a configuration as this
/// library writes it.
pub proof fn law_register_keeps_others(m: SettingsModel, sys: SystemVersion, e: EngineModel, v: VersionModel)
    requires
        engines_wf(m, sys),
        canonical(e.version, sys),
        e.version.system == sys,
        v.system == sys,
        version_slug(v) != version_slug(e.version),
        find_engine(engines_of(m, sys), v) is Some,
    ensures
        find_engine(engines_of(after_register(m, sys, e), sys), v) == find_engine(engines_of(m, sys), v),
{
    law_register_then_get(m, sys, e);
    let l = engines_of(m, sys);
    let l2 = register_in(l, e);
    let m1 = with_registered(m, sys, e);
    let en = find_engine(l, v)->0;
    lemma_wf_canonical(m, sys);
    lemma_engines_of_canonical(m, sys);
    let es = section_of(m, engines_section())->0;
    crate::settings::lemma_section_unique(m, engines_section());
    lemma_engines_in_slugs(es, sys);
    assert(distinct_slugs(l));
    lemma_register_in_distinct(l, e);
    lemma_find_engine_elem(l, v);
    let k = choose|k: int| 0 <= k < l.len() && #[trigger] l[k] == en;
    lemma_slug_index(l, version_slug(e.version));
    let k2 = match slug_index(l, version_slug(e.version)) {
        Some(i) => {
            assert(i != k);
            assert(l2[k] == en);
            k
        },
        None => {
            assert(l2[k] == en);
            k
        },
    };
    lemma_with_engines_lookup(m, l2, k2);
    lemma_register_in_canonical(l, e, sys);
    lemma_with_engines_canonical(m, l2, sys);
    assert(engines_wf(m1, sys));
    assert(canonical(en.version, sys));
    lemma_engine_value(en, sys);
    assert(with_system(en.version, sys) == en.version);
    let s1 = section_of(m1, engines_section())->0;
    crate::settings::lemma_section_unique(m1, engines_section());
    assert(lookup(s1, version_slug(v)) == Some(engine_value(en)));
    lemma_find_keyed(s1, sys, v, en);
    lemma_unnamed_section_apart(m1, default_key(), ValueModel::Str(version_string(e.version)), sys);
}

/// Registering an engine of this machine's system when no default engine
/// is named makes it the default.
pub proof fn law_register_sets_default(m: SettingsModel, sys: SystemVersion, e: EngineModel)
    requires
        engines_wf(m, sys),
        canonical(e.version, sys),
        e.version.system == sys,
        default_name(m) is None,
    ensures
        default_state(after_register(m, sys, e), sys) == DefaultState::Registered(e.version),
{
    law_register_then_get(m, sys, e);
    let l2 = register_in(engines_of(m, sys), e);
    let m1 = with_registered(m, sys, e);
    lemma_with_engines_default(m, l2);
    assert(default_state(m1, sys) == DefaultState::Unset);
    lemma_unnamed_section_apart(m1, default_key(), ValueModel::Str(version_string(e.version)), sys);
    assert(find_engine(engines_of(m1, sys), e.version) == Some(e));
    law_default_after_set(m1, sys, e.version);
}

/// Naming a registered, canonical version of this machine's system as the
/// default and reading the default back gives that version.
pub proof fn law_default_after_set(m: SettingsModel, sys: SystemVersion, v: VersionModel)
    requires
        find_engine(engines_of(m, sys), v) is Some,
        canonical(v, sys),
        v.system == sys,
    ensures
        default_state(with_default(m, v), sys) == DefaultState::Registered(v),
{
    crate::settings::law_property_after_set(
        m,
        ""@,
        default_key(),
        ValueModel::Str(version_string(v)),
        ""@,
        default_key(),
    );
    lemma_unnamed_section_apart(m, default_key(), ValueModel::Str(version_string(v)), sys);
}

/// Removing the default and reading it back gives none.
pub proof fn law_default_after_unset(m: SettingsModel, sys: SystemVersion)
    requires
        crate::settings::settings_wf(m),
    ensures
        without_property(m, ""@, default_key()) matches Some(m2) ==> default_state(m2, sys) == DefaultState::Unset,
        (without_property(m, ""@, default_key()) is None) == (property_of(m, ""@, default_key()) is None),
{
    crate::settings::law_property_after_remove(m, ""@, default_key(), ""@, default_key());
}

/// Unregistering a registered version, when the default can be read, and
/// looking the version up finds nothing, in a configuration as this
/// library writes it, which stays so.
pub proof fn law_unregister_then_get(m: SettingsModel, sys: SystemVersion, v: VersionModel)
    requires
        engines_wf(m, sys),
        find_engine(engines_of(m, sys), v) is Some,
        !(default_state(m, sys) is Unreadable),
        !(default_state(m, sys) is Unregistered),
    ensures
        find_engine(engines_of(after_unregister(m, sys, v), sys), v) is None,
        engines_wf(after_unregister(m, sys, v), sys),
        without_property(unregister_default(m, sys, v), engines_section(), version_slug(v)) is Some,
{
    let m1 = unregister_default(m, sys, v);
    match default_state(m, sys) {
        DefaultState::Registered(d) => {
            if d == v {
                lemma_unnamed_section_apart(m, default_key(), ValueModel::Null, sys);
                reveal_strlit("");
                crate::settings::lemma_index_of(m, ""@);
            }
        },
        _ => {},
    }
    assert(engines_wf(m1, sys));
    assert(engines_of(m1, sys) == engines_of(m, sys));
    assert(section_of(m1, engines_section()) == section_of(m, engines_section()));
    let es = section_of(m1, engines_section())->0;
    // The engine found comes from an entry, which is registered under the slug of its version.
    crate::settings::lemma_section_unique(m1, engines_section());
    lemma_engines_in_slugs(es, sys);
    lemma_find_engine_in(engines_in(es, sys), v);
    let k = choose|k: int| 0 <= k < engines_in(es, sys).len() && (#[trigger] engines_in(es, sys)[k]).version == v;
    assert(crate::settings::index_of(es, version_slug(engines_in(es, sys)[k].version)) is Some);
    crate::settings::lemma_index_of(m1, engines_section());
    let m2 = without_property(m1, engines_section(), version_slug(v))->0;
    crate::settings::lemma_section_after_remove(m1, engines_section(), version_slug(v), engines_section());
    crate::settings::lemma_remove_entry(es, version_slug(v), version_slug(v));
    let es2 = crate::settings::remove_entry(es, version_slug(v));
    let q = |x: (Seq<char>, ValueModel)| entry_keyed(x, sys);
    assert forall|i: int| 0 <= i < es.len() implies q(#[trigger] es[i]) by {}
    crate::settings::lemma_remove_entry_all(es, version_slug(v), q);
    assert forall|i: int| 0 <= i < es2.len() implies entry_keyed(#[trigger] es2[i], sys) by {
        assert(q(es2[i]));
    }
    crate::settings::lemma_index_of(es2, version_slug(v));
    assert forall|i: int| 0 <= i < es2.len() implies (#[trigger] es2[i]).0 != version_slug(v) by {}
    lemma_find_none(es2, sys, v);
    crate::settings::law_property_after_remove(m1, engines_section(), version_slug(v), engines_section(), version_slug(v));
}

/// An engine found in a list is one of its engines.
pub proof fn lemma_find_engine_in(es: Seq<EngineModel>, v: VersionModel)
    requires
        find_engine(es, v) is Some,
    ensures
        exists|k: int| 0 <= k < es.len() && (#[trigger] es[k]).version == v,
    decreases es.len(),
{
    let t = es.drop_last();
    if find_engine(t, v) is Some {
        lemma_find_engine_in(t, v);
        let k = choose|k: int| 0 <= k < t.len() && (#[trigger] t[k]).version == v;
        assert(es[k] == t[k]);
    } else {
        assert(es[es.len() - 1].version == v);
    }
}

} // verus!
