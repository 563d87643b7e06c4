//! The cache of the versions found on the official mirror: the section
//! `remote` of `remote-cache.cfg` maps each version, as written, to an
//! object `{ "version": ..., "kind": ..., "mono": ... }`.
use vstd::prelude::*;

use crate::settings::{
    entries_view, field_of, field_str, lemma_entries_view, section_of, value_bool, value_object, GdSettings,
    GdValue, SettingsModel, ValueModel,
};
use crate::types::version::{
    kind_from_name, kind_string, lemma_kind_roundtrip, system_from_name, version_string, GodotVersion,
    GodotVersionKind, KindModel, SystemVersion, VersionModel,
};

verus! {

/// How a version is written in the cache (its system is not written).
pub open spec fn version_value(v: VersionModel) -> ValueModel {
    ValueModel::Object(
        seq![
            ("version"@, ValueModel::Str(v.version)),
            ("kind"@, ValueModel::Str(kind_string(v.kind))),
            ("mono"@, ValueModel::Boolean(v.mono)),
        ],
    )
}

/// A cache value can be read as a version, or is ignored: it is not an
/// object, or the kind and system it names, if any, can be read.
pub open spec fn version_value_readable(val: ValueModel) -> bool {
    value_object(val) is Some ==> {
        &&& (field_str(val, "kind"@) matches Some(k) ==> kind_from_name(k) is Some)
        &&& (field_str(val, "system"@) matches Some(s) ==> system_from_name(s) is Some)
    }
}

/// The version a cache value describes: the version `unknown` when none
/// is written, a stable kind, `sys` and no mono build unless written.
pub open spec fn version_of_value(val: ValueModel, sys: SystemVersion) -> Option<VersionModel> {
    if value_object(val) is Some {
        Some(
            VersionModel {
                version: match field_str(val, "version"@) {
                    Some(s) => s,
                    None => "unknown"@,
                },
                kind: match field_str(val, "kind"@) {
                    Some(k) => kind_from_name(k)->0,
                    None => KindModel::Stable,
                },
                system: match field_str(val, "system"@) {
                    Some(s) => system_from_name(s)->0,
                    None => sys,
                },
                mono: match field_of(val, "mono"@) {
                    Some(b) => match value_bool(b) {
                        Some(m) => m,
                        None => false,
                    },
                    None => false,
                },
            },
        )
    } else {
        None
    }
}

/// The versions that cache entries describe, in order.
pub open spec fn versions_in(es: Seq<(Seq<char>, ValueModel)>, sys: SystemVersion) -> Seq<VersionModel>
    decreases es.len(),
{
    if es.len() == 0 {
        Seq::empty()
    } else {
        let rest = versions_in(es.drop_last(), sys);
        match version_of_value(es.last().1, sys) {
            Some(v) => rest.push(v),
            None => rest,
        }
    }
}

/// Every cache entry can be read.
pub open spec fn cache_readable(m: SettingsModel) -> bool {
    match section_of(m, "remote"@) {
        Some(es) => forall|i: int| 0 <= i < es.len() ==> version_value_readable(#[trigger] es[i].1),
        None => true,
    }
}

/// The versions of a cache.
pub open spec fn cached_versions(m: SettingsModel, sys: SystemVersion) -> Seq<VersionModel> {
    match section_of(m, "remote"@) {
        Some(es) => versions_in(es, sys),
        None => Seq::empty(),
    }
}

/// The versions of a list, through their views.
pub open spec fn versions_view(v: Seq<GodotVersion>) -> Seq<VersionModel> {
    v.map_values(|x: GodotVersion| x@)
}

/// The string held by a field, if any.
fn field_string(value: &GdValue, key: &str) -> (res: Option<String>)
    ensures
        crate::text::opt_string_view(res) == field_str(value@, key@),
{
    value.get_field_str(key)
}

impl GodotVersion {
    /// How the version is written in the cache.
    pub fn to_gdvalue(&self) -> (res: GdValue)
        ensures
            res@ == version_value(self@),
    {
        let entries = vec![
            (String::from_str("version"), GdValue::String(String::from_str(self.version()))),
            (String::from_str("kind"), GdValue::String(self.kind().to_string())),
            (String::from_str("mono"), GdValue::Boolean(self.mono())),
        ];
        proof {
            lemma_entries_view(entries@);
        }
        assert(entries_view(entries@) =~= seq![
            ("version"@, ValueModel::Str(self@.version)),
            ("kind"@, ValueModel::Str(kind_string(self@.kind))),
            ("mono"@, ValueModel::Boolean(self@.mono)),
        ]);
        GdValue::Object(entries)
    }

    /// Reads a version from the cache; `system` is the system of versions
    /// that name none.
    pub fn from_gdvalue(value: &GdValue, system: SystemVersion) -> (res: Option<Self>)
        requires
            version_value_readable(value@),
        ensures
            match res {
                Some(v) => version_of_value(value@, system) == Some(v@),
                None => version_of_value(value@, system) is None,
            },
    {
        match value.to_object() {
            None => None,
            Some(_) => {
                let version = match field_string(value, "version") {
                    Some(v) => v,
                    None => String::from_str("unknown"),
                };
                let kind = match field_string(value, "kind") {
                    Some(k) => match GodotVersionKind::parse(k.as_str()) {
                        Ok(k) => k,
                        Err(_) => GodotVersionKind::Stable,
                    },
                    None => GodotVersionKind::Stable,
                };
                let sys = match field_string(value, "system") {
                    Some(s) => match SystemVersion::parse(s.as_str()) {
                        Ok(s) => s,
                        Err(_) => system,
                    },
                    None => system,
                };
                let mono = match value.get_field("mono") {
                    Some(b) => match b.to_bool() {
                        Some(m) => m,
                        None => false,
                    },
                    None => false,
                };
                Some(GodotVersion::new(version.as_str(), kind, sys, mono))
            },
        }
    }
}

/// The cache of versions: each version written under its written form,
/// in order, in an empty configuration.
pub open spec fn cache_of(vs: Seq<VersionModel>) -> SettingsModel
    decreases vs.len(),
{
    if vs.len() == 0 {
        Seq::empty()
    } else {
        crate::settings::with_property(
            cache_of(vs.drop_last()),
            "remote"@,
            version_string(vs.last()),
            version_value(vs.last()),
        )
    }
}

/// The entries of a cache of versions with distinct written forms.
pub open spec fn cache_entries(vs: Seq<VersionModel>) -> Seq<(Seq<char>, ValueModel)> {
    vs.map_values(|v: VersionModel| (version_string(v), version_value(v)))
}

/// The cache of versions: each version under its written form.
pub fn write_versions_in_cache(versions: &Vec<GodotVersion>) -> (res: GdSettings)
    ensures
        res@ == cache_of(versions_view(versions@)),
        forall|i: int|
            0 <= i < versions@.len() ==> (#[trigger] crate::settings::property_of(
                res@,
                "remote"@,
                version_string(versions@[i]@),
            )) is Some,
        crate::settings::settings_wf(res@),
{
    let mut settings = GdSettings::new();
    let ghost vs = versions_view(versions@);
    let mut i: usize = 0;
    assert(vs.subrange(0, 0) =~= Seq::<VersionModel>::empty());
    while i < versions.len()
        invariant
            i <= versions@.len(),
            vs == versions_view(versions@),
            settings@ == cache_of(vs.subrange(0, i as int)),
            crate::settings::settings_wf(settings@),
            forall|j: int|
                0 <= j < i ==> (#[trigger] crate::settings::property_of(
                    settings@,
                    "remote"@,
                    version_string(versions@[j]@),
                )) is Some,
        decreases versions@.len() - i,
    {
        let key = versions[i].to_string();
        let value = versions[i].to_gdvalue();
        let ghost before = settings@;
        let ghost val = value@;
        settings.set_property("remote", key.as_str(), value);
        assert(vs.subrange(0, i + 1).drop_last() =~= vs.subrange(0, i as int));
        assert(vs.subrange(0, i + 1).last() == versions@[i as int]@);
        proof {
            assert forall|j: int| 0 <= j < i + 1 implies (#[trigger] crate::settings::property_of(
                settings@,
                "remote"@,
                version_string(versions@[j]@),
            )) is Some by {
                crate::settings::law_property_after_set(
                    before,
                    "remote"@,
                    key@,
                    val,
                    "remote"@,
                    version_string(versions@[j]@),
                );
            }
        }
        i = i + 1;
    }
    assert(vs.subrange(0, versions@.len() as int) =~= vs);
    settings
}

/// The versions of the cache; `system` is the system of versions that
/// name none.
pub fn read_versions_from_cache(settings: &GdSettings, system: SystemVersion) -> (res: Vec<GodotVersion>)
    requires
        cache_readable(settings@),
    ensures
        versions_view(res@) == cached_versions(settings@, system),
{
    let mut versions: Vec<GodotVersion> = Vec::new();
    match settings.get_section("remote") {
        None => {
            assert(versions_view(versions@) =~= Seq::<VersionModel>::empty());
        },
        Some(props) => {
            let ghost es = entries_view(props@);
            proof {
                lemma_entries_view(props@);
                assert(versions_view(versions@) =~= versions_in(es.subrange(0, 0), system));
                let sec = section_of(settings@, "remote"@)->0;
                assert(sec == es);
                assert forall|j: int| 0 <= j < es.len() implies version_value_readable(#[trigger] es[j].1) by {
                    assert(version_value_readable(sec[j].1));
                }
            }
            let mut i: usize = 0;
            while i < props.len()
                invariant
                    i <= props@.len(),
                    es == entries_view(props@),
                    es.len() == props@.len(),
                    forall|j: int| 0 <= j < props@.len() ==> #[trigger] es[j] == (props@[j].0@, props@[j].1@),
                    forall|j: int| 0 <= j < es.len() ==> version_value_readable(#[trigger] es[j].1),
                    versions_view(versions@) == versions_in(es.subrange(0, i as int), system),
                decreases props@.len() - i,
            {
                let ghost pre = versions@;
                assert(es.subrange(0, i + 1).drop_last() =~= es.subrange(0, i as int));
                assert(es.subrange(0, i + 1).last() == es[i as int]);
                assert(version_value_readable(es[i as int].1));
                match GodotVersion::from_gdvalue(&props[i].1, system) {
                    Some(v) => {
                        versions.push(v);
                        assert(versions_view(versions@) =~= versions_view(pre).push(v@));
                    },
                    None => {},
                }
                i = i + 1;
            }
            assert(es.subrange(0, props@.len() as int) =~= es);
        },
    }
    versions
}

/// Whether a cache value can be read as a version, or is ignored.
fn value_readable(value: &GdValue) -> (res: bool)
    ensures
        res == version_value_readable(value@),
{
    match value.to_object() {
        None => true,
        Some(_) => {
            let kind_ok = match field_string(value, "kind") {
                Some(k) => GodotVersionKind::parse(k.as_str()).is_ok(),
                None => true,
            };
            let system_ok = match field_string(value, "system") {
                Some(s) => SystemVersion::parse(s.as_str()).is_ok(),
                None => true,
            };
            kind_ok && system_ok
        },
    }
}

/// Whether every cache entry can be read.
pub fn cache_is_readable(settings: &GdSettings) -> (res: bool)
    ensures
        res == cache_readable(settings@),
{
    match settings.get_section("remote") {
        None => true,
        Some(props) => {
            let ghost es = entries_view(props@);
            proof {
                lemma_entries_view(props@);
            }
            let mut i: usize = 0;
            while i < props.len()
                invariant
                    i <= props@.len(),
                    es == entries_view(props@),
                    es.len() == props@.len(),
                    section_of(settings@, "remote"@) == Some(es),
                    forall|j: int| 0 <= j < props@.len() ==> #[trigger] es[j] == (props@[j].0@, props@[j].1@),
                    forall|j: int| 0 <= j < i ==> version_value_readable(#[trigger] es[j].1),
                decreases props@.len() - i,
            {
                if !value_readable(&props[i].1) {
                    assert(es[i as int].1 == props@[i as int].1@);
                    let ghost sec = section_of(settings@, "remote"@)->0;
                    assert(sec == es);
                    assert(!version_value_readable(sec[i as int].1));
                    return false;
                }
                i = i + 1;
            }
            let ghost sec = section_of(settings@, "remote"@)->0;
            assert(sec == es);
            assert forall|j: int| 0 <= j < sec.len() implies version_value_readable(#[trigger] sec[j].1) by {
                assert(version_value_readable(es[j].1));
            }
            true
        },
    }
}

/// Writing a version to the cache and reading it back, with its own
/// system as the one of versions that name none, gives the version.
pub proof fn law_version_value_roundtrip(v: VersionModel)
    ensures
        version_value_readable(version_value(v)),
        version_of_value(version_value(v), v.system) == Some(v),
{
    reveal_strlit("version");
    reveal_strlit("kind");
    reveal_strlit("mono");
    reveal_strlit("system");
    assert("version"@.len() == 7 && "kind"@.len() == 4 && "mono"@.len() == 4 && "system"@.len() == 6);
    assert("kind"@ != "mono"@) by {
        assert("kind"@[0] != "mono"@[0]);
    }
    lemma_kind_roundtrip(v.kind);
    let es = seq![
        ("version"@, ValueModel::Str(v.version)),
        ("kind"@, ValueModel::Str(kind_string(v.kind))),
        ("mono"@, ValueModel::Boolean(v.mono)),
    ];
    assert(es.drop_last() =~= seq![("version"@, ValueModel::Str(v.version)), ("kind"@, ValueModel::Str(kind_string(v.kind)))]);
    assert(es.drop_last().drop_last() =~= seq![("version"@, ValueModel::Str(v.version))]);
    assert(es.drop_last().drop_last().drop_last() =~= Seq::<(Seq<char>, ValueModel)>::empty());
    assert(crate::settings::index_of(es.drop_last().drop_last(), "version"@) == Some(0int));
    assert(crate::settings::index_of(es.drop_last(), "version"@) == Some(0int));
    assert(crate::settings::index_of(es, "version"@) == Some(0int));
    assert(crate::settings::index_of(es.drop_last(), "kind"@) == Some(1int));
    assert(crate::settings::index_of(es, "kind"@) == Some(1int));
    assert(crate::settings::index_of(es, "mono"@) == Some(2int));
    assert("version"@ != "system"@ && "kind"@ != "system"@ && "mono"@ != "system"@);
    assert(crate::settings::index_of(es.drop_last().drop_last().drop_last(), "system"@) is None);
    assert(crate::settings::index_of(es.drop_last().drop_last(), "system"@) is None);
    assert(crate::settings::index_of(es.drop_last(), "system"@) is None);
    assert(crate::settings::index_of(es, "system"@) is None);
}

/// The cache of versions with distinct written forms holds one entry per
/// version, in order.
pub proof fn lemma_cache_entries(vs: Seq<VersionModel>)
    requires
        forall|i: int, j: int| 0 <= i < j < vs.len() ==> version_string(#[trigger] vs[i]) != version_string(#[trigger] vs[j]),
    ensures
        section_of(cache_of(vs), "remote"@) == if vs.len() == 0 {
            None::<Seq<(Seq<char>, ValueModel)>>
        } else {
            Some(cache_entries(vs))
        },
    decreases vs.len(),
{
    if vs.len() > 0 {
        let t = vs.drop_last();
        assert forall|i: int, j: int| 0 <= i < j < t.len() implies version_string(#[trigger] t[i]) != version_string(
            #[trigger] t[j],
        ) by {
            assert(t[i] == vs[i] && t[j] == vs[j]);
        }
        lemma_cache_entries(t);
        let key = version_string(vs.last());
        let val = version_value(vs.last());
        crate::settings::lemma_section_after_set(cache_of(t), "remote"@, key, val, "remote"@);
        if t.len() > 0 {
            let es = cache_entries(t);
            assert forall|k: int| 0 <= k < es.len() implies (#[trigger] es[k]).0 != key by {
                assert(es[k].0 == version_string(t[k]));
                assert(t[k] == vs[k]);
            }
            crate::settings::lemma_index_of(es, key);
            assert(cache_entries(vs) =~= es.push((key, val)));
        } else {
            assert(cache_entries(vs) =~= seq![(key, val)]);
        }
    }
}

/// Writing versions of this machine's system with distinct written forms
/// to the cache and reading the cache back gives the versions, in order.
pub proof fn law_cache_roundtrip(vs: Seq<VersionModel>, sys: SystemVersion)
    requires
        forall|i: int, j: int| 0 <= i < j < vs.len() ==> version_string(#[trigger] vs[i]) != version_string(#[trigger] vs[j]),
        forall|i: int| 0 <= i < vs.len() ==> (#[trigger] vs[i]).system == sys,
    ensures
        cache_readable(cache_of(vs)),
        cached_versions(cache_of(vs), sys) == vs,
    decreases vs.len(),
{
    lemma_cache_entries(vs);
    if vs.len() > 0 {
        let es = cache_entries(vs);
        lemma_versions_in_entries(vs, sys);
        assert forall|i: int| 0 <= i < es.len() implies version_value_readable(#[trigger] es[i].1) by {
            law_version_value_roundtrip(vs[i]);
        }
    }
}

/// Reading the entries of versions of this machine's system gives them.
proof fn lemma_versions_in_entries(vs: Seq<VersionModel>, sys: SystemVersion)
    requires
        forall|i: int| 0 <= i < vs.len() ==> (#[trigger] vs[i]).system == sys,
    ensures
        versions_in(cache_entries(vs), sys) == vs,
    decreases vs.len(),
{
    if vs.len() > 0 {
        let t = vs.drop_last();
        assert forall|i: int| 0 <= i < t.len() implies (#[trigger] t[i]).system == sys by {
            assert(t[i] == vs[i]);
        }
        lemma_versions_in_entries(t, sys);
        assert(cache_entries(vs).drop_last() =~= cache_entries(t));
        law_version_value_roundtrip(vs.last());
        assert(vs.last().system == sys);
        assert(t.push(vs.last()) =~= vs);
    }
}

} // verus!
