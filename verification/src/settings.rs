//! Settings: the contents of a Godot configuration file (`project.godot`,
//! `plugin.cfg`, the global `gdpm.cfg`), as sections of keyed values.
use vstd::prelude::*;

use crate::text::{chars_eq, chars_of, opt_string_view};

verus! {

/// A settings value.
#[derive(Debug, PartialEq)]
pub enum GdValue {
    /// Null.
    Null,
    /// Boolean.
    Boolean(bool),
    /// Integer.
    Int(i64),
    /// Real number, as written.
    Float(String),
    /// String.
    String(String),
    /// Array.
    Array(Vec<GdValue>),
    /// Object: keyed values, in order.
    Object(Vec<(String, GdValue)>),
    /// Class instance: class name, positional and keyed arguments.
    ClassInstance(String, Vec<GdValue>, Vec<(String, GdValue)>),
}

/// What a [`GdValue`] holds, with its strings seen as character sequences.
pub enum ValueModel {
    /// Null.
    Null,
    /// Boolean.
    Boolean(bool),
    /// Integer.
    Int(i64),
    /// Real number, as written.
    Float(Seq<char>),
    /// String.
    Str(Seq<char>),
    /// Array.
    Array(Seq<ValueModel>),
    /// Object: keyed values, in order.
    Object(Seq<(Seq<char>, ValueModel)>),
    /// Class instance: class name, positional and keyed arguments.
    ClassInstance(Seq<char>, Seq<ValueModel>, Seq<(Seq<char>, ValueModel)>),
}

/// The contents of a value.
pub open spec fn value_view(v: GdValue) -> ValueModel
    decreases v,
{
    match v {
        GdValue::Null => ValueModel::Null,
        GdValue::Boolean(b) => ValueModel::Boolean(b),
        GdValue::Int(n) => ValueModel::Int(n),
        GdValue::Float(f) => ValueModel::Float(f@),
        GdValue::String(s) => ValueModel::Str(s@),
        GdValue::Array(a) => ValueModel::Array(values_view(a@)),
        GdValue::Object(es) => ValueModel::Object(entries_view(es@)),
        GdValue::ClassInstance(n, a, es) => ValueModel::ClassInstance(n@, values_view(a@), entries_view(es@)),
    }
}

/// The contents of values, in order.
pub open spec fn values_view(s: Seq<GdValue>) -> Seq<ValueModel>
    decreases s,
{
    if s.len() == 0 {
        Seq::empty()
    } else {
        values_view(s.subrange(0, s.len() - 1)).push(value_view(s[s.len() - 1]))
    }
}

/// Keyed values, in order, with keys and values seen through their views.
pub open spec fn entries_view(s: Seq<(String, GdValue)>) -> Seq<(Seq<char>, ValueModel)>
    decreases s,
{
    if s.len() == 0 {
        Seq::empty()
    } else {
        entries_view(s.subrange(0, s.len() - 1)).push((s[s.len() - 1].0@, value_view(s[s.len() - 1].1)))
    }
}

impl View for GdValue {
    type V = ValueModel;

    open spec fn view(&self) -> ValueModel {
        value_view(*self)
    }
}

/// The entries view has one entry per entry, each seen through its views.
pub proof fn lemma_entries_view(s: Seq<(String, GdValue)>)
    ensures
        entries_view(s).len() == s.len(),
        forall|i: int| 0 <= i < s.len() ==> #[trigger] entries_view(s)[i] == (s[i].0@, s[i].1@),
    decreases s.len(),
{
    if s.len() > 0 {
        let t = s.subrange(0, s.len() - 1);
        lemma_entries_view(t);
        assert forall|i: int| 0 <= i < s.len() implies #[trigger] entries_view(s)[i] == (s[i].0@, s[i].1@) by {
            if i < s.len() - 1 {
                assert(s[i] == t[i]);
            }
        }
    }
}

/// The values view has one model per value.
pub proof fn lemma_values_view(s: Seq<GdValue>)
    ensures
        values_view(s).len() == s.len(),
        forall|i: int| 0 <= i < s.len() ==> #[trigger] values_view(s)[i] == s[i]@,
    decreases s.len(),
{
    if s.len() > 0 {
        let t = s.subrange(0, s.len() - 1);
        lemma_values_view(t);
        assert forall|i: int| 0 <= i < s.len() implies #[trigger] values_view(s)[i] == s[i]@ by {
            if i < s.len() - 1 {
                assert(s[i] == t[i]);
            }
        }
    }
}

/// Index of the last entry with the given key.
pub open spec fn index_of<V>(s: Seq<(Seq<char>, V)>, key: Seq<char>) -> Option<int>
    decreases s.len(),
{
    if s.len() == 0 {
        None
    } else if s.last().0 == key {
        Some(s.len() - 1)
    } else {
        index_of(s.drop_last(), key)
    }
}

/// The value of the last entry with the given key.
pub open spec fn lookup<V>(s: Seq<(Seq<char>, V)>, key: Seq<char>) -> Option<V> {
    match index_of(s, key) {
        Some(i) => Some(s[i].1),
        None => None,
    }
}

/// No two entries share a key.
pub open spec fn keys_unique<V>(s: Seq<(Seq<char>, V)>) -> bool {
    forall|i: int, j: int| 0 <= i < j < s.len() ==> s[i].0 != s[j].0
}

/// Entries after setting `key` to `v`: the entry is replaced in place, or
/// appended.
pub open spec fn set_entry<V>(s: Seq<(Seq<char>, V)>, key: Seq<char>, v: V) -> Seq<(Seq<char>, V)> {
    match index_of(s, key) {
        Some(i) => s.update(i, (key, v)),
        None => s.push((key, v)),
    }
}

/// Entries after removing `key`.
pub open spec fn remove_entry<V>(s: Seq<(Seq<char>, V)>, key: Seq<char>) -> Seq<(Seq<char>, V)> {
    match index_of(s, key) {
        Some(i) => s.remove(i),
        None => s,
    }
}

/// The contents of [`GdSettings`]: named sections of keyed values, in order.
pub type SettingsModel = Seq<(Seq<char>, Seq<(Seq<char>, ValueModel)>)>;

/// Section names are unique, and so are the keys of each section.
pub open spec fn settings_wf(m: SettingsModel) -> bool {
    &&& keys_unique(m)
    &&& forall|i: int| 0 <= i < m.len() ==> keys_unique(#[trigger] m[i].1)
}

/// A section.
pub open spec fn section_of(m: SettingsModel, name: Seq<char>) -> Option<Seq<(Seq<char>, ValueModel)>> {
    lookup(m, name)
}

/// A property.
pub open spec fn property_of(m: SettingsModel, section: Seq<char>, key: Seq<char>) -> Option<ValueModel> {
    match lookup(m, section) {
        Some(es) => lookup(es, key),
        None => None,
    }
}

/// Settings after setting a property; the section is created when missing.
pub open spec fn with_property(m: SettingsModel, section: Seq<char>, key: Seq<char>, v: ValueModel) -> SettingsModel {
    match index_of(m, section) {
        Some(i) => m.update(i, (section, set_entry(m[i].1, key, v))),
        None => m.push((section, seq![(key, v)])),
    }
}

/// Settings after removing a property, or `None` when it is missing.
pub open spec fn without_property(m: SettingsModel, section: Seq<char>, key: Seq<char>) -> Option<SettingsModel> {
    match index_of(m, section) {
        Some(i) => match index_of(m[i].1, key) {
            Some(_) => Some(m.update(i, (section, remove_entry(m[i].1, key)))),
            None => None,
        },
        None => None,
    }
}

/// The string a value holds.
pub open spec fn value_str(v: ValueModel) -> Option<Seq<char>> {
    match v {
        ValueModel::Str(s) => Some(s),
        _ => None,
    }
}

/// The boolean a value holds.
pub open spec fn value_bool(v: ValueModel) -> Option<bool> {
    match v {
        ValueModel::Boolean(b) => Some(b),
        _ => None,
    }
}

/// The entries of an object value.
pub open spec fn value_object(v: ValueModel) -> Option<Seq<(Seq<char>, ValueModel)>> {
    match v {
        ValueModel::Object(es) => Some(es),
        _ => None,
    }
}

/// A field of an object value.
pub open spec fn field_of(v: ValueModel, key: Seq<char>) -> Option<ValueModel> {
    match value_object(v) {
        Some(es) => lookup(es, key),
        None => None,
    }
}

/// The string held by a field of an object value.
pub open spec fn field_str(v: ValueModel, key: Seq<char>) -> Option<Seq<char>> {
    match field_of(v, key) {
        Some(f) => value_str(f),
        None => None,
    }
}

/// Error of a settings operation.
#[derive(Debug)]
pub enum GdSettingsError {
    /// The section is missing.
    MissingSection(String),
    /// The property is missing from its section.
    MissingProperty(String, String),
}

/// Settings.
#[derive(Debug)]
pub struct GdSettings {
    sections: Vec<(String, Vec<(String, GdValue)>)>,
}

impl View for GdSettings {
    type V = SettingsModel;

    closed spec fn view(&self) -> SettingsModel {
        sections_view(self.sections@)
    }
}

/// The model of sections, in order.
pub open spec fn sections_view(s: Seq<(String, Vec<(String, GdValue)>)>) -> SettingsModel {
    s.map_values(|s: (String, Vec<(String, GdValue)>)| (s.0@, entries_view(s.1@)))
}

/// Whether no two entries share a key.
fn entries_unique(es: &Vec<(String, GdValue)>) -> (res: bool)
    ensures
        res == keys_unique(entries_view(es@)),
{
    proof {
        lemma_entries_view(es@);
    }
    let ghost v = entries_view(es@);
    let mut i: usize = 0;
    while i < es.len()
        invariant
            i <= es@.len(),
            v == entries_view(es@),
            v.len() == es@.len(),
            forall|k: int| 0 <= k < es@.len() ==> #[trigger] v[k] == (es@[k].0@, es@[k].1@),
            forall|a: int, b: int| 0 <= a < b < i ==> v[a].0 != v[b].0,
        decreases es@.len() - i,
    {
        let ki = chars_of(es[i].0.as_str());
        let mut j: usize = 0;
        while j < i
            invariant
                j <= i < es@.len(),
                ki@ == es@[i as int].0@,
                v == entries_view(es@),
                v.len() == es@.len(),
                forall|k: int| 0 <= k < es@.len() ==> #[trigger] v[k] == (es@[k].0@, es@[k].1@),
                forall|a: int| 0 <= a < j ==> v[a].0 != v[i as int].0,
            decreases i - j,
        {
            let kj = chars_of(es[j].0.as_str());
            if chars_eq(kj.as_slice(), ki.as_slice()) {
                assert(v[j as int].0 == v[i as int].0);
                return false;
            }
            j = j + 1;
        }
        i = i + 1;
    }
    true
}

/// Whether section names are unique, and so are the keys of each section.
pub fn sections_are_wf(sections: &Vec<(String, Vec<(String, GdValue)>)>) -> (res: bool)
    ensures
        res == settings_wf(sections_view(sections@)),
{
    let ghost m = sections_view(sections@);
    assert(m.len() == sections@.len());
    assert(forall|k: int| 0 <= k < sections@.len() ==> #[trigger] m[k] == (sections@[k].0@, entries_view(sections@[k].1@)));
    let mut i: usize = 0;
    while i < sections.len()
        invariant
            i <= sections@.len(),
            m == sections_view(sections@),
            m.len() == sections@.len(),
            forall|k: int| 0 <= k < sections@.len() ==> #[trigger] m[k] == (sections@[k].0@, entries_view(sections@[k].1@)),
            forall|a: int, b: int| 0 <= a < b < i ==> m[a].0 != m[b].0,
            forall|a: int| 0 <= a < i ==> keys_unique(#[trigger] m[a].1),
        decreases sections@.len() - i,
    {
        if !entries_unique(&sections[i].1) {
            assert(!keys_unique(m[i as int].1));
            return false;
        }
        let ki = chars_of(sections[i].0.as_str());
        let mut j: usize = 0;
        while j < i
            invariant
                j <= i < sections@.len(),
                ki@ == sections@[i as int].0@,
                m == sections_view(sections@),
                m.len() == sections@.len(),
                forall|k: int| 0 <= k < sections@.len() ==> #[trigger] m[k] == (sections@[k].0@, entries_view(sections@[k].1@)),
                forall|a: int| 0 <= a < j ==> m[a].0 != m[i as int].0,
            decreases i - j,
        {
            let kj = chars_of(sections[j].0.as_str());
            if chars_eq(kj.as_slice(), ki.as_slice()) {
                assert(m[j as int].0 == m[i as int].0);
                return false;
            }
            j = j + 1;
        }
        i = i + 1;
    }
    true
}

/// Index of the last entry with the given key.
fn find_entry(s: &Vec<(String, GdValue)>, key: &str) -> (res: Option<usize>)
    ensures
        match res {
            Some(i) => index_of(entries_view(s@), key@) == Some(i as int) && i < s@.len(),
            None => index_of(entries_view(s@), key@) is None,
        },
{
    let k = chars_of(key);
    let mut found: Option<usize> = None;
    let mut i: usize = 0;
    while i < s.len()
        invariant
            i <= s@.len(),
            k@ == key@,
            match found {
                Some(j) => index_of(entries_view(s@.subrange(0, i as int)), key@) == Some(j as int),
                None => index_of(entries_view(s@.subrange(0, i as int)), key@) is None,
            },
        decreases s@.len() - i,
    {
        let name = chars_of(s[i].0.as_str());
        let ghost pre = entries_view(s@.subrange(0, i as int));
        let ghost post = entries_view(s@.subrange(0, i + 1));
        assert(s@.subrange(0, i + 1).subrange(0, i as int) =~= s@.subrange(0, i as int));
        proof {
            lemma_entries_view(s@.subrange(0, i + 1));
        }
        assert(post.drop_last() =~= pre);
        assert(post.last().0 == s@[i as int].0@);
        if chars_eq(name.as_slice(), k.as_slice()) {
            found = Some(i);
        }
        i = i + 1;
    }
    assert(s@.subrange(0, s@.len() as int) =~= s@);
    proof {
        lemma_index_of(entries_view(s@), key@);
        lemma_entries_view(s@);
    }
    found
}

/// Index lookups only point inside the sequence, at an entry with the key.
pub proof fn lemma_index_of<V>(s: Seq<(Seq<char>, V)>, key: Seq<char>)
    ensures
        match index_of(s, key) {
            Some(i) => 0 <= i < s.len() && s[i].0 == key && forall|j: int|
                i < j < s.len() ==> #[trigger] s[j].0 != key,
            None => forall|j: int| 0 <= j < s.len() ==> #[trigger] s[j].0 != key,
        },
    decreases s.len(),
{
    if s.len() > 0 {
        lemma_index_of(s.drop_last(), key);
        if s.last().0 != key {
            match index_of(s.drop_last(), key) {
                Some(i) => {
                    assert forall|j: int| i < j < s.len() implies #[trigger] s[j].0 != key by {
                        if j < s.len() - 1 {
                            assert(s[j] == s.drop_last()[j]);
                        }
                    }
                },
                None => {
                    assert forall|j: int| 0 <= j < s.len() implies #[trigger] s[j].0 != key by {
                        if j < s.len() - 1 {
                            assert(s[j] == s.drop_last()[j]);
                        }
                    }
                },
            }
        }
    }
}

/// Setting a key and looking it up gives the value set.
pub proof fn lemma_set_entry_same<V>(s: Seq<(Seq<char>, V)>, key: Seq<char>, v: V)
    ensures
        lookup(set_entry(s, key, v), key) == Some(v),
{
    let t = set_entry(s, key, v);
    lemma_index_of(s, key);
    lemma_index_of(t, key);
    match index_of(s, key) {
        Some(i) => {
            assert(t[i].0 == key);
            match index_of(t, key) {
                Some(j) => {
                    if j != i {
                        if j < i {
                            assert(t[i].0 != key);
                        } else {
                            assert(t[j] == s[j]);
                        }
                    }
                },
                None => {
                    assert(t[i].0 != key);
                },
            }
        },
        None => {
            assert(t.last().0 == key);
        },
    }
}

/// Setting a key leaves the other keys as they were.
pub proof fn lemma_set_entry_other<V>(s: Seq<(Seq<char>, V)>, key: Seq<char>, v: V, other: Seq<char>)
    requires
        other != key,
    ensures
        lookup(set_entry(s, key, v), other) == lookup(s, other),
{
    let t = set_entry(s, key, v);
    lemma_index_of(s, key);
    lemma_index_of(s, other);
    lemma_index_of(t, other);
    match index_of(s, key) {
        Some(i) => {
            assert(t.len() == s.len());
            assert forall|j: int| 0 <= j < s.len() && j != i implies #[trigger] t[j] == s[j] by {}
            match (index_of(s, other), index_of(t, other)) {
                (Some(a), Some(b)) => {
                    if a < b {
                        assert(t[b] == s[b]);
                    } else if b < a {
                        assert(t[a] == s[a]);
                    }
                },
                (Some(a), None) => {
                    assert(t[a] == s[a]);
                },
                (None, Some(b)) => {
                    assert(t[b] == s[b]);
                },
                (None, None) => {},
            }
        },
        None => {
            assert(t.drop_last() =~= s);
        },
    }
}

/// Setting a key keeps the keys unique.
pub proof fn lemma_set_entry_unique<V>(s: Seq<(Seq<char>, V)>, key: Seq<char>, v: V)
    requires
        keys_unique(s),
    ensures
        keys_unique(set_entry(s, key, v)),
{
    lemma_index_of(s, key);
    let t = set_entry(s, key, v);
    match index_of(s, key) {
        Some(i) => {
            assert forall|a: int, b: int| 0 <= a < b < t.len() implies t[a].0 != t[b].0 by {
                if a != i && b != i {
                    assert(t[a] == s[a] && t[b] == s[b]);
                } else if a == i {
                    assert(t[b] == s[b]);
                    assert(s[i].0 != s[b].0);
                } else {
                    assert(t[a] == s[a]);
                    assert(s[a].0 != s[i].0);
                }
            }
        },
        None => {
            assert forall|a: int, b: int| 0 <= a < b < t.len() implies t[a].0 != t[b].0 by {
                if b < s.len() {
                    assert(t[a] == s[a] && t[b] == s[b]);
                } else {
                    assert(t[a] == s[a]);
                }
            }
        },
    }
}

/// Removing a key from unique keys leaves none with that key, and the
/// other keys as they were.
pub proof fn lemma_remove_entry<V>(s: Seq<(Seq<char>, V)>, key: Seq<char>, other: Seq<char>)
    requires
        keys_unique(s),
    ensures
        lookup(remove_entry(s, key), key) is None,
        other != key ==> lookup(remove_entry(s, key), other) == lookup(s, other),
        keys_unique(remove_entry(s, key)),
{
    lemma_index_of(s, key);
    let t = remove_entry(s, key);
    match index_of(s, key) {
        Some(i) => {
            assert forall|j: int| 0 <= j < t.len() implies #[trigger] t[j] == (if j < i {
                s[j]
            } else {
                s[j + 1]
            }) by {}
            lemma_index_of(t, key);
            match index_of(t, key) {
                Some(j) => {
                    if j < i {
                        assert(s[j].0 != s[i].0);
                    } else {
                        assert(s[j + 1].0 != s[i].0);
                    }
                },
                None => {},
            }
            assert forall|a: int, b: int| 0 <= a < b < t.len() implies t[a].0 != t[b].0 by {
                let sa = if a < i { a } else { a + 1 };
                let sb = if b < i { b } else { b + 1 };
                assert(t[a] == s[sa] && t[b] == s[sb]);
            }
            if other != key {
                lemma_index_of(s, other);
                lemma_index_of(t, other);
                match (index_of(s, other), index_of(t, other)) {
                    (Some(a), Some(b)) => {
                        let sb = if b < i { b } else { b + 1 };
                        assert(t[b] == s[sb]);
                        if a < sb {
                            assert(s[sb].0 != other);
                        } else if sb < a {
                            assert(a != i);
                            let ta = if a < i { a } else { a - 1 };
                            assert(t[ta] == s[a]);
                            assert(t[ta].0 != other);
                        }
                    },
                    (Some(a), None) => {
                        assert(a != i);
                        let ta = if a < i { a } else { a - 1 };
                        assert(t[ta] == s[a]);
                    },
                    (None, Some(b)) => {
                        let sb = if b < i { b } else { b + 1 };
                        assert(t[b] == s[sb]);
                    },
                    (None, None) => {},
                }
            }
        },
        None => {},
    }
}

/// Sequences with the same keys at the same places find keys at the same index.
pub proof fn lemma_index_of_same_keys<V>(s: Seq<(Seq<char>, V)>, t: Seq<(Seq<char>, V)>, key: Seq<char>)
    requires
        s.len() == t.len(),
        forall|j: int| 0 <= j < s.len() ==> #[trigger] s[j].0 == t[j].0,
    ensures
        index_of(s, key) == index_of(t, key),
        keys_unique(s) ==> keys_unique(t),
    decreases s.len(),
{
    if s.len() > 0 {
        assert forall|j: int| 0 <= j < s.drop_last().len() implies #[trigger] s.drop_last()[j].0
            == t.drop_last()[j].0 by {
            assert(s.drop_last()[j] == s[j] && t.drop_last()[j] == t[j]);
        }
        lemma_index_of_same_keys(s.drop_last(), t.drop_last(), key);
        assert(s.last().0 == t.last().0);
    }
    if keys_unique(s) {
        assert forall|a: int, b: int| 0 <= a < b < t.len() implies t[a].0 != t[b].0 by {
            assert(s[a].0 == t[a].0 && s[b].0 == t[b].0);
        }
    }
}

proof fn lemma_index_of_push<V>(s: Seq<(Seq<char>, V)>, e: (Seq<char>, V), key: Seq<char>)
    ensures
        index_of(s.push(e), key) == if e.0 == key {
            Some(s.len() as int)
        } else {
            index_of(s, key)
        },
{
    assert(s.push(e).drop_last() =~= s);
}

/// The sections of well-formed settings have unique keys.
pub proof fn lemma_section_unique(m: SettingsModel, name: Seq<char>)
    requires
        settings_wf(m),
        section_of(m, name) is Some,
    ensures
        keys_unique(section_of(m, name)->0),
{
    lemma_index_of(m, name);
    let i = index_of(m, name)->0;
    assert(keys_unique(m[i].1));
}

/// Setting a property changes its own section only: that section holds
/// its entries after `set_entry`, or the one new entry when it was missing.
pub proof fn lemma_section_after_set(
    m: SettingsModel,
    section: Seq<char>,
    key: Seq<char>,
    v: ValueModel,
    other: Seq<char>,
)
    ensures
        section_of(with_property(m, section, key, v), section) == Some(
            match section_of(m, section) {
                Some(es) => set_entry(es, key, v),
                None => seq![(key, v)],
            },
        ),
        other != section ==> section_of(with_property(m, section, key, v), other) == section_of(m, other),
{
    let m2 = with_property(m, section, key, v);
    lemma_index_of(m, section);
    lemma_index_of(m, other);
    match index_of(m, section) {
        Some(i) => {
            assert forall|j: int| 0 <= j < m.len() implies #[trigger] m[j].0 == m2[j].0 by {}
            lemma_index_of_same_keys(m, m2, section);
            lemma_index_of_same_keys(m, m2, other);
            if other != section {
                match index_of(m, other) {
                    Some(k) => {
                        assert(m2[k] == m[k]);
                    },
                    None => {},
                }
            }
        },
        None => {
            let e = (section, seq![(key, v)]);
            lemma_index_of_push(m, e, section);
            lemma_index_of_push(m, e, other);
            if other != section {
                match index_of(m, other) {
                    Some(k) => {
                        assert(m2[k] == m[k]);
                    },
                    None => {},
                }
            }
        },
    }
}

/// Removing a property changes its own section only, to its entries after
/// `remove_entry`.
pub proof fn lemma_section_after_remove(m: SettingsModel, section: Seq<char>, key: Seq<char>, other: Seq<char>)
    requires
        without_property(m, section, key) is Some,
    ensures
        section_of(without_property(m, section, key)->0, section) == Some(
            remove_entry(section_of(m, section)->0, key),
        ),
        other != section ==> section_of(without_property(m, section, key)->0, other) == section_of(m, other),
{
    lemma_index_of(m, section);
    lemma_index_of(m, other);
    let i = index_of(m, section)->0;
    let m2 = without_property(m, section, key)->0;
    assert forall|j: int| 0 <= j < m.len() implies #[trigger] m[j].0 == m2[j].0 by {}
    lemma_index_of_same_keys(m, m2, section);
    lemma_index_of_same_keys(m, m2, other);
    if other != section {
        match index_of(m, other) {
            Some(k) => {
                assert(m2[k] == m[k]);
            },
            None => {},
        }
    }
}

/// A property of every entry that the new entry has too holds of every
/// entry after setting it.
pub proof fn lemma_set_entry_all(
    es: Seq<(Seq<char>, ValueModel)>,
    key: Seq<char>,
    v: ValueModel,
    p: spec_fn((Seq<char>, ValueModel)) -> bool,
)
    requires
        forall|i: int| 0 <= i < es.len() ==> p(#[trigger] es[i]),
        p((key, v)),
    ensures
        forall|j: int| 0 <= j < set_entry(es, key, v).len() ==> p(#[trigger] set_entry(es, key, v)[j]),
{
    lemma_index_of(es, key);
    let t = set_entry(es, key, v);
    assert forall|j: int| 0 <= j < t.len() implies p(#[trigger] t[j]) by {
        match index_of(es, key) {
            Some(i) => {
                if j != i {
                    assert(t[j] == es[j]);
                }
            },
            None => {
                if j < es.len() {
                    assert(t[j] == es[j]);
                }
            },
        }
    }
}

/// A property of every entry holds of every entry after a removal.
pub proof fn lemma_remove_entry_all(
    es: Seq<(Seq<char>, ValueModel)>,
    key: Seq<char>,
    p: spec_fn((Seq<char>, ValueModel)) -> bool,
)
    requires
        forall|i: int| 0 <= i < es.len() ==> p(#[trigger] es[i]),
    ensures
        forall|j: int| 0 <= j < remove_entry(es, key).len() ==> p(#[trigger] remove_entry(es, key)[j]),
{
    lemma_index_of(es, key);
    let t = remove_entry(es, key);
    assert forall|j: int| 0 <= j < t.len() implies p(#[trigger] t[j]) by {
        match index_of(es, key) {
            Some(i) => {
                if j < i {
                    assert(t[j] == es[j]);
                } else {
                    assert(t[j] == es[j + 1]);
                }
            },
            None => {},
        }
    }
}

/// Setting a property and reading it back gives the value set; every
/// other property reads as before.
pub proof fn law_property_after_set(
    m: SettingsModel,
    section: Seq<char>,
    key: Seq<char>,
    v: ValueModel,
    section2: Seq<char>,
    key2: Seq<char>,
)
    ensures
        property_of(with_property(m, section, key, v), section, key) == Some(v),
        (section2 != section || key2 != key) ==> property_of(with_property(m, section, key, v), section2, key2)
            == property_of(m, section2, key2),
{
    let m2 = with_property(m, section, key, v);
    lemma_index_of(m, section);
    match index_of(m, section) {
        Some(i) => {
            let es = set_entry(m[i].1, key, v);
            assert forall|j: int| 0 <= j < m.len() implies #[trigger] m[j].0 == m2[j].0 by {}
            lemma_index_of_same_keys(m, m2, section);
            lemma_index_of_same_keys(m, m2, section2);
            lemma_set_entry_same(m[i].1, key, v);
            assert(lookup(m2, section) == Some(es));
            if section2 != section || key2 != key {
                if section2 == section {
                    lemma_set_entry_other(m[i].1, key, v, key2);
                    assert(lookup(m, section) == Some(m[i].1));
                    assert(property_of(m2, section2, key2) == lookup(es, key2));
                    assert(property_of(m, section2, key2) == lookup(m[i].1, key2));
                } else {
                    lemma_index_of(m, section2);
                    match index_of(m, section2) {
                        Some(k) => {
                            assert(k != i);
                            assert(m2[k] == m[k]);
                            assert(lookup(m2, section2) == lookup(m, section2));
                        },
                        None => {
                            assert(lookup(m2, section2) is None);
                        },
                    }
                }
            }
        },
        None => {
            let e = (section, seq![(key, v)]);
            let one = Seq::<(Seq<char>, ValueModel)>::empty().push((key, v));
            assert(seq![(key, v)] =~= one);
            lemma_index_of_push(m, e, section);
            lemma_index_of_push(m, e, section2);
            lemma_index_of_push(Seq::<(Seq<char>, ValueModel)>::empty(), (key, v), key);
            lemma_index_of_push(Seq::<(Seq<char>, ValueModel)>::empty(), (key, v), key2);
            assert(m2 == m.push(e));
            assert(m2[m.len() as int] == e);
            assert(lookup(m2, section) == Some(one));
            assert(lookup(one, key) == Some(v));
            if section2 != section || key2 != key {
                if section2 == section {
                    assert(lookup(one, key2) is None);
                    assert(lookup(m, section2) is None);
                } else {
                    lemma_index_of(m, section2);
                    match index_of(m, section2) {
                        Some(k) => {
                            assert(m2[k] == m[k]);
                        },
                        None => {},
                    }
                    assert(lookup(m2, section2) == lookup(m, section2));
                }
            }
        },
    }
}

/// Setting a property keeps section names and keys unique.
pub proof fn law_set_keeps_wf(m: SettingsModel, section: Seq<char>, key: Seq<char>, v: ValueModel)
    requires
        settings_wf(m),
    ensures
        settings_wf(with_property(m, section, key, v)),
{
    let m2 = with_property(m, section, key, v);
    lemma_index_of(m, section);
    match index_of(m, section) {
        Some(i) => {
            assert forall|j: int| 0 <= j < m.len() implies #[trigger] m[j].0 == m2[j].0 by {}
            lemma_index_of_same_keys(m, m2, section);
            lemma_set_entry_unique(m[i].1, key, v);
            assert forall|j: int| 0 <= j < m2.len() implies keys_unique(#[trigger] m2[j].1) by {
                if j != i {
                    assert(m2[j] == m[j]);
                }
            }
        },
        None => {
            assert forall|a: int, b: int| 0 <= a < b < m2.len() implies m2[a].0 != m2[b].0 by {
                if b < m.len() {
                    assert(m2[a] == m[a] && m2[b] == m[b]);
                } else {
                    assert(m2[a] == m[a]);
                }
            }
            assert forall|j: int| 0 <= j < m2.len() implies keys_unique(#[trigger] m2[j].1) by {
                if j < m.len() {
                    assert(m2[j] == m[j]);
                }
            }
        },
    }
}

/// Removing a property fails exactly when the property is missing; when it
/// succeeds, the property reads as missing afterwards, every other property
/// reads as before, and names and keys stay unique.
pub proof fn law_property_after_remove(m: SettingsModel, section: Seq<char>, key: Seq<char>, section2: Seq<
    char,
>, key2: Seq<char>)
    requires
        settings_wf(m),
    ensures
        (without_property(m, section, key) is None) == (property_of(m, section, key) is None),
        without_property(m, section, key) matches Some(m2) ==> {
            &&& property_of(m2, section, key) is None
            &&& ((section2 != section || key2 != key) ==> property_of(m2, section2, key2) == property_of(
                m,
                section2,
                key2,
            ))
            &&& settings_wf(m2)
        },
{
    lemma_index_of(m, section);
    match index_of(m, section) {
        Some(i) => {
            lemma_index_of(m[i].1, key);
            match index_of(m[i].1, key) {
                Some(_) => {
                    let es = remove_entry(m[i].1, key);
                    let m2 = m.update(i, (section, es));
                    assert forall|j: int| 0 <= j < m.len() implies #[trigger] m[j].0 == m2[j].0 by {}
                    lemma_index_of_same_keys(m, m2, section);
                    lemma_index_of_same_keys(m, m2, section2);
                    lemma_remove_entry(m[i].1, key, key2);
                    assert forall|j: int| 0 <= j < m2.len() implies keys_unique(#[trigger] m2[j].1) by {
                        if j != i {
                            assert(m2[j] == m[j]);
                        }
                    }
                    if section2 != section {
                        lemma_index_of(m, section2);
                        match index_of(m, section2) {
                            Some(k) => {
                                assert(k != i);
                                assert(m2[k] == m[k]);
                            },
                            None => {},
                        }
                    }
                },
                None => {},
            }
        },
        None => {},
    }
}

impl GdValue {
    /// The string the value holds.
    pub fn to_str(&self) -> (res: Option<String>)
        ensures
            opt_string_view(res) == value_str(self@),
    {
        match self {
            GdValue::String(s) => Some(s.clone()),
            _ => None,
        }
    }

    /// The boolean the value holds.
    pub fn to_bool(&self) -> (res: Option<bool>)
        ensures
            res == value_bool(self@),
    {
        match self {
            GdValue::Boolean(b) => Some(*b),
            _ => None,
        }
    }

    /// The entries of an object value.
    pub fn to_object(&self) -> (res: Option<&Vec<(String, GdValue)>>)
        ensures
            match res {
                Some(es) => value_object(self@) == Some(entries_view(es@)),
                None => value_object(self@) is None,
            },
    {
        match self {
            GdValue::Object(es) => Some(es),
            _ => None,
        }
    }

    /// A field of an object value.
    pub fn get_field(&self, key: &str) -> (res: Option<&GdValue>)
        ensures
            match res {
                Some(f) => field_of(self@, key@) == Some(f@),
                None => field_of(self@, key@) is None,
            },
    {
        match self {
            GdValue::Object(es) => {
                match find_entry(es, key) {
                    Some(i) => {
                        proof {
                            lemma_entries_view(es@);
                        }
                        Some(&es[i].1)
                    },
                    None => None,
                }
            },
            _ => None,
        }
    }

    /// The string held by a field of an object value.
    pub fn get_field_str(&self, key: &str) -> (res: Option<String>)
        ensures
            opt_string_view(res) == field_str(self@, key@),
    {
        match self.get_field(key) {
            Some(f) => f.to_str(),
            None => None,
        }
    }
}

impl GdSettings {
    /// Section names are unique, and so are the keys of each section.
    #[verifier::type_invariant]
    spec fn unique_names(self) -> bool {
        settings_wf(self@)
    }

    /// Empty settings.
    pub fn new() -> (res: Self)
        ensures
            res@ == SettingsModel::empty(),
            settings_wf(res@),
    {
        let res = GdSettings { sections: Vec::new() };
        assert(res@ =~= SettingsModel::empty());
        res
    }

    /// The sections, in order.
    pub fn sections(&self) -> (res: &Vec<(String, Vec<(String, GdValue)>)>)
        ensures
            sections_view(res@) == self@,
            settings_wf(self@),
    {
        proof {
            use_type_invariant(self);
        }
        &self.sections
    }

    /// Settings made of sections, in order.
    pub fn from_sections(sections: Vec<(String, Vec<(String, GdValue)>)>) -> (res: Self)
        requires
            settings_wf(sections_view(sections@)),
        ensures
            res@ == sections_view(sections@),
    {
        GdSettings { sections }
    }

    /// Index of a section.
    fn find_section(&self, name: &str) -> (res: Option<usize>)
        ensures
            match res {
                Some(i) => index_of(self@, name@) == Some(i as int) && i < self.sections@.len(),
                None => index_of(self@, name@) is None,
            },
    {
        let k = chars_of(name);
        let mut found: Option<usize> = None;
        let mut i: usize = 0;
        while i < self.sections.len()
            invariant
                i <= self.sections@.len(),
                k@ == name@,
                match found {
                    Some(j) => index_of(self@.subrange(0, i as int), name@) == Some(j as int),
                    None => index_of(self@.subrange(0, i as int), name@) is None,
                },
            decreases self.sections@.len() - i,
        {
            let n = chars_of(self.sections[i].0.as_str());
            let ghost pre = self@.subrange(0, i as int);
            let ghost post = self@.subrange(0, i + 1);
            assert(post.drop_last() =~= pre);
            if chars_eq(n.as_slice(), k.as_slice()) {
                found = Some(i);
            }
            i = i + 1;
        }
        assert(self@.subrange(0, self@.len() as int) =~= self@);
        proof {
            lemma_index_of(self@, name@);
        }
        found
    }

    /// The entries of a section, in order.
    pub fn get_section(&self, name: &str) -> (res: Option<&Vec<(String, GdValue)>>)
        ensures
            match res {
                Some(es) => section_of(self@, name@) == Some(entries_view(es@)),
                None => section_of(self@, name@) is None,
            },
    {
        match self.find_section(name) {
            Some(i) => Some(&self.sections[i].1),
            None => None,
        }
    }

    /// A property of a section.
    pub fn get_property(&self, section: &str, key: &str) -> (res: Option<&GdValue>)
        ensures
            match res {
                Some(v) => property_of(self@, section@, key@) == Some(v@),
                None => property_of(self@, section@, key@) is None,
            },
    {
        match self.find_section(section) {
            Some(i) => {
                let entries = &self.sections[i].1;
                match find_entry(entries, key) {
                    Some(j) => {
                        proof {
                            lemma_entries_view(entries@);
                        }
                        Some(&entries[j].1)
                    },
                    None => None,
                }
            },
            None => None,
        }
    }

    /// Sets a property; the section is created when missing, and an
    /// existing property is replaced in place.
    pub fn set_property(&mut self, section: &str, key: &str, value: GdValue)
        ensures
            final(self)@ == with_property(old(self)@, section@, key@, value@),
            settings_wf(final(self)@),
    {
        proof {
            use_type_invariant(&*self);
            law_set_keeps_wf(self@, section@, key@, value@);
        }
        let ghost old_view = self@;
        let ghost vm = value@;
        let found = self.find_section(section);
        let mut sections: Vec<(String, Vec<(String, GdValue)>)> = Vec::new();
        std::mem::swap(&mut sections, &mut self.sections);
        assert(sections_view(sections@) == old_view);
        match found {
            Some(i) => {
                proof {
                    lemma_index_of(old_view, section@);
                    assert(old_view[i as int].0 == sections@[i as int].0@);
                    assert(old_view[i as int].1 == entries_view(sections@[i as int].1@));
                }
                let ghost before = sections@;
                let (name, mut entries) = sections.remove(i);
                let ghost old_entries = entries@;
                proof {
                    lemma_entries_view(old_entries);
                }
                match find_entry(&entries, key) {
                    Some(j) => {
                        let _ = entries.remove(j);
                        entries.insert(j, (String::from_str(key), value));
                        proof {
                            lemma_entries_view(entries@);
                        }
                        assert(entries_view(entries@) =~= entries_view(old_entries).update(j as int, (key@, vm)));
                    },
                    None => {
                        entries.push((String::from_str(key), value));
                        proof {
                            lemma_entries_view(entries@);
                        }
                        assert(entries_view(entries@) =~= entries_view(old_entries).push((key@, vm)));
                    },
                }
                assert(name@ == section@);
                sections.insert(i, (name, entries));
                assert(sections@ =~= before.update(i as int, sections@[i as int]));
                assert(sections_view(sections@) =~= with_property(old_view, section@, key@, vm));
            },
            None => {
                let mut entries: Vec<(String, GdValue)> = Vec::new();
                entries.push((String::from_str(key), value));
                proof {
                    lemma_entries_view(entries@);
                }
                assert(entries_view(entries@) =~= seq![(key@, vm)]);
                sections.push((String::from_str(section), entries));
                assert(sections_view(sections@) =~= with_property(old_view, section@, key@, vm));
            },
        }
        self.sections = sections;
    }

    /// Removes a property; an error when it is missing.
    pub fn remove_property(&mut self, section: &str, key: &str) -> (res: Result<(), GdSettingsError>)
        ensures
            match without_property(old(self)@, section@, key@) {
                Some(m) => res is Ok && final(self)@ == m,
                None => res is Err && final(self)@ == old(self)@,
            },
            settings_wf(final(self)@),
    {
        proof {
            use_type_invariant(&*self);
            law_property_after_remove(self@, section@, key@, section@, key@);
        }
        let ghost old_view = self@;
        match self.find_section(section) {
            Some(i) => {
                match find_entry(&self.sections[i].1, key) {
                    Some(j) => {
                        let mut sections: Vec<(String, Vec<(String, GdValue)>)> = Vec::new();
                        std::mem::swap(&mut sections, &mut self.sections);
                        assert(sections_view(sections@) == old_view);
                        proof {
                            lemma_index_of(old_view, section@);
                            assert(old_view[i as int].0 == sections@[i as int].0@);
                            assert(old_view[i as int].1 == entries_view(sections@[i as int].1@));
                        }
                        let ghost before = sections@;
                        let (name, mut entries) = sections.remove(i);
                        let ghost old_entries = entries@;
                        let _ = entries.remove(j);
                        proof {
                            lemma_entries_view(old_entries);
                            lemma_entries_view(entries@);
                        }
                        assert(entries_view(entries@) =~= entries_view(old_entries).remove(j as int));
                        sections.insert(i, (name, entries));
                        assert(sections@ =~= before.update(i as int, sections@[i as int]));
                        assert(sections_view(sections@) =~= without_property(old_view, section@, key@)->0);
                        self.sections = sections;
                        Ok(())
                    },
                    None => Err(GdSettingsError::MissingProperty(String::from_str(section), String::from_str(key))),
                }
            },
            None => Err(GdSettingsError::MissingSection(String::from_str(section))),
        }
    }
}

} // verus!
