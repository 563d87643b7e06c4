//! Mirror scanning: what a directory listing of the official mirror says.
//!
//! A listing is an HTML page whose `td.n` cells hold links; a link that
//! ends with `/` is a folder, any other link a file.  The mirror root lists
//! one folder per version number; a version folder holds the files of the
//! stable release and one folder per pre-release (`rcN`, `alphaN`,
//! `betaN`) and a `mono` folder for the mono builds.
use vstd::prelude::*;

use crate::text::{
    chars_of, digit_value, ends_with, is_digit, opt_string_view, opt_strings_view, push_char, starts_with,
    string_of, strings_view,
};
use crate::types::version::{
    kind_string, number_or_zero, GodotVersion, GodotVersionKind, KindModel, SystemVersion, VersionModel,
};
use soup::{NodeExt, QueryBuilderExt};

verus! {

/// The `href` of each `a` element found, by `soup`, under the children of
/// the `td` cells of class `n` of an HTML page, in document order; `None`
/// for an `a` element without `href`.
pub uninterp spec fn listing_links(html: Seq<char>) -> Seq<Option<Seq<char>>>;

/// Runs the `soup` query `td.n > * a` on the page and reads the `href`
/// attribute of every element found.  The contract names the result after
/// the page.
#[verifier::external_body]
fn links_of_page(html: &str) -> (res: Vec<Option<String>>)
    ensures
        opt_strings_view(res@) == listing_links(html@),
{
    soup::Soup::new(html).tag("td").class("n").find_all()
        .flat_map(|n| n.children().flat_map(|x| x.tag("a").find_all().collect::<Vec<_>>()).collect::<Vec<_>>())
        .map(|a| a.get("href"))
        .collect()
}

/// A link to a folder.
pub open spec fn is_folder_link(h: Seq<char>) -> bool {
    ends_with(h, seq!['/'])
}

/// The folders a listing links to, without their trailing `/`.
pub open spec fn folders_of(links: Seq<Option<Seq<char>>>) -> Seq<Seq<char>>
    decreases links.len(),
{
    if links.len() == 0 {
        Seq::empty()
    } else {
        let pre = folders_of(links.drop_last());
        match links.last() {
            Some(h) => if is_folder_link(h) {
                pre.push(h.drop_last())
            } else {
                pre
            },
            None => pre,
        }
    }
}

/// A link to a file.
pub open spec fn is_file_link(o: Option<Seq<char>>) -> bool {
    match o {
        Some(h) => !is_folder_link(h),
        None => false,
    }
}

/// The listing links to at least one file.
pub open spec fn has_files(links: Seq<Option<Seq<char>>>) -> bool {
    exists|i: int| 0 <= i < links.len() && #[trigger] is_file_link(links[i])
}

/// A link of the mirror root that is well formed: non-empty, and a folder
/// when it names a version.
pub open spec fn root_link_ok(o: Option<Seq<char>>) -> bool {
    match o {
        Some(h) => h.len() > 0 && (is_version_link(h) ==> is_folder_link(h)),
        None => true,
    }
}

/// A link names a version: it starts with a digit of at least 3.
pub open spec fn is_version_link(h: Seq<char>) -> bool {
    h.len() > 0 && is_digit(h[0]) && digit_value(h[0]) >= 3
}

/// Every link of the mirror root is non-empty, and every version link is a folder.
pub open spec fn root_links_well_formed(links: Seq<Option<Seq<char>>>) -> bool {
    forall|i: int| 0 <= i < links.len() ==> #[trigger] root_link_ok(links[i])
}

/// The version numbers the mirror root links to.
pub open spec fn version_names_of(links: Seq<Option<Seq<char>>>) -> Seq<Seq<char>>
    decreases links.len(),
{
    if links.len() == 0 {
        Seq::empty()
    } else {
        let pre = version_names_of(links.drop_last());
        match links.last() {
            Some(h) => if is_version_link(h) {
                pre.push(h.drop_last())
            } else {
                pre
            },
            None => pre,
        }
    }
}

/// The scan that a folder of a version listing leads to: the kind and
/// whether the mono builds are meant; `None` for a folder to ignore.
pub open spec fn subscan_of(folder: Seq<char>, kind: KindModel, has_mono: bool) -> Option<(KindModel, bool)> {
    if folder == "mono"@ {
        Some((kind, true))
    } else if starts_with(folder, "rc"@) {
        Some((KindModel::ReleaseCandidate(number_or_zero(folder.skip(2))), has_mono))
    } else if starts_with(folder, "beta"@) {
        Some((KindModel::Beta(number_or_zero(folder.skip(4))), has_mono))
    } else if starts_with(folder, "alpha"@) {
        Some((KindModel::Alpha(number_or_zero(folder.skip(5))), has_mono))
    } else {
        None
    }
}

/// URL of the listing of a version, kind and build:
/// `MIRROR` `VERSION/` [`KIND/`] [`mono/`], the kind left out when stable.
pub open spec fn scan_url(mirror: Seq<char>, version: Seq<char>, kind: KindModel, has_mono: bool) -> Seq<char> {
    mirror + version + seq!['/'] + (if kind == KindModel::Stable {
        Seq::<char>::empty()
    } else {
        kind_string(kind) + seq!['/']
    }) + (if has_mono {
        "mono/"@
    } else {
        Seq::<char>::empty()
    })
}

/// The links of a listing page.
pub fn listing_links_of(html: &str) -> (res: Vec<Option<String>>)
    ensures
        opt_strings_view(res@) == listing_links(html@),
{
    links_of_page(html)
}

/// Whether a link ends with `/`.
fn folder_link(h: &str) -> (res: bool)
    ensures
        res == is_folder_link(h@),
{
    let cs = chars_of(h);
    let n = cs.len();
    if n == 0 {
        return false;
    }
    assert(cs@.subrange(n - 1, n as int) =~= seq![cs@[n - 1]]);
    if cs[n - 1] == '/' {
        assert(cs@.subrange(n - 1, n as int) =~= seq!['/']);
        true
    } else {
        assert(cs@.subrange(n - 1, n as int)[0] != seq!['/'][0]);
        false
    }
}

/// A link without its last character.
fn drop_last_char(h: &str) -> (res: String)
    requires
        h@.len() > 0,
    ensures
        res@ == h@.drop_last(),
{
    let cs = chars_of(h);
    let mut res = String::new();
    let mut i: usize = 0;
    while i < cs.len() - 1
        invariant
            cs@ == h@,
            cs@.len() > 0,
            i + 1 <= cs@.len(),
            res@ == cs@.subrange(0, i as int),
        decreases cs@.len() - i,
    {
        push_char(&mut res, cs[i]);
        assert(res@ =~= cs@.subrange(0, i + 1));
        i = i + 1;
    }
    assert(res@ =~= h@.drop_last());
    res
}

/// The folders a listing links to, without their trailing `/`.
pub fn folders(links: &Vec<Option<String>>) -> (res: Vec<String>)
    ensures
        strings_view(res@) == folders_of(opt_strings_view(links@)),
{
    let mut res: Vec<String> = Vec::new();
    let mut i: usize = 0;
    while i < links.len()
        invariant
            i <= links@.len(),
            strings_view(res@) == folders_of(opt_strings_view(links@.subrange(0, i as int))),
        decreases links@.len() - i,
    {
        proof {
            let pre = opt_strings_view(links@.subrange(0, i as int));
            let post = opt_strings_view(links@.subrange(0, i + 1));
            assert(post.drop_last() =~= pre);
            assert(post.last() == opt_string_view(links@[i as int]));
        }
        let ghost old_res = res@;
        match &links[i] {
            Some(h) => {
                if folder_link(h.as_str()) {
                    res.push(drop_last_char(h.as_str()));
                    assert(strings_view(res@) =~= strings_view(old_res).push(h@.drop_last()));
                }
            },
            None => {},
        }
        i = i + 1;
    }
    assert(links@.subrange(0, links@.len() as int) =~= links@);
    res
}

/// Whether a listing links to at least one file.
pub fn has_file_links(links: &Vec<Option<String>>) -> (res: bool)
    ensures
        res == has_files(opt_strings_view(links@)),
{
    let ghost v = opt_strings_view(links@);
    let mut i: usize = 0;
    while i < links.len()
        invariant
            i <= links@.len(),
            v == opt_strings_view(links@),
            forall|j: int| 0 <= j < i ==> !#[trigger] is_file_link(v[j]),
        decreases links@.len() - i,
    {
        match &links[i] {
            Some(h) => {
                if !folder_link(h.as_str()) {
                    assert(v[i as int] == Some(h@));
                    assert(is_file_link(v[i as int]));
                    return true;
                }
            },
            None => {},
        }
        i = i + 1;
    }
    false
}

/// The version numbers the mirror root links to.
pub fn version_names(links: &Vec<Option<String>>) -> (res: Vec<String>)
    requires
        root_links_well_formed(opt_strings_view(links@)),
    ensures
        strings_view(res@) == version_names_of(opt_strings_view(links@)),
{
    let ghost v = opt_strings_view(links@);
    let mut res: Vec<String> = Vec::new();
    let mut i: usize = 0;
    while i < links.len()
        invariant
            i <= links@.len(),
            v == opt_strings_view(links@),
            root_links_well_formed(v),
            strings_view(res@) == version_names_of(opt_strings_view(links@.subrange(0, i as int))),
        decreases links@.len() - i,
    {
        proof {
            let pre = opt_strings_view(links@.subrange(0, i as int));
            let post = opt_strings_view(links@.subrange(0, i + 1));
            assert(post.drop_last() =~= pre);
            assert(post.last() == opt_string_view(links@[i as int]));
            assert(v[i as int] == opt_string_view(links@[i as int]));
        }
        let ghost old_res = res@;
        match &links[i] {
            Some(h) => {
                assert(root_link_ok(v[i as int]));
                let cs = chars_of(h.as_str());
                let c = cs[0];
                if '3' <= c && c <= '9' {
                    res.push(drop_last_char(h.as_str()));
                    assert(strings_view(res@) =~= strings_view(old_res).push(h@.drop_last()));
                }
            },
            None => {},
        }
        i = i + 1;
    }
    assert(links@.subrange(0, links@.len() as int) =~= links@);
    res
}

/// Whether every link of the mirror root is non-empty and every version
/// link is a folder.
pub fn root_links_checked(links: &Vec<Option<String>>) -> (res: bool)
    ensures
        res == root_links_well_formed(opt_strings_view(links@)),
{
    let ghost v = opt_strings_view(links@);
    let mut i: usize = 0;
    while i < links.len()
        invariant
            i <= links@.len(),
            v == opt_strings_view(links@),
            forall|j: int| 0 <= j < i ==> #[trigger] root_link_ok(v[j]),
        decreases links@.len() - i,
    {
        assert(v[i as int] == opt_string_view(links@[i as int]));
        match &links[i] {
            Some(h) => {
                let cs = chars_of(h.as_str());
                if cs.len() == 0 {
                    assert(!root_link_ok(v[i as int]));
                    return false;
                }
                let c = cs[0];
                if '3' <= c && c <= '9' && !folder_link(h.as_str()) {
                    assert(!root_link_ok(v[i as int]));
                    return false;
                }
            },
            None => {},
        }
        i = i + 1;
    }
    true
}

/// The scan a folder of a version listing leads to.  A `mono` folder
/// cannot stand inside the listing of mono builds.
pub fn subscan_for_folder(folder: &str, kind: &GodotVersionKind, has_mono: bool) -> (res: Option<(GodotVersionKind, bool)>)
    requires
        !(has_mono && folder@ == "mono"@),
    ensures
        match res {
            Some((k, m)) => subscan_of(folder@, kind@, has_mono) == Some((k@, m)),
            None => subscan_of(folder@, kind@, has_mono) is None,
        },
{
    let cs = chars_of(folder);
    proof {
        reveal_strlit("rc");
        reveal_strlit("beta");
        reveal_strlit("alpha");
    }
    if crate::text::chars_eq_str(cs.as_slice(), "mono") {
        Some((kind.clone(), true))
    } else if crate::text::chars_starts_with_str(cs.as_slice(), "rc") {
        let rest = crate::text::chars_skip(cs.as_slice(), 2);
        let n = match crate::text::parse_u16_chars(rest.as_slice()) {
            Some(n) => n,
            None => 0,
        };
        Some((GodotVersionKind::ReleaseCandidate(n), has_mono))
    } else if crate::text::chars_starts_with_str(cs.as_slice(), "beta") {
        let rest = crate::text::chars_skip(cs.as_slice(), 4);
        let n = match crate::text::parse_u16_chars(rest.as_slice()) {
            Some(n) => n,
            None => 0,
        };
        Some((GodotVersionKind::Beta(n), has_mono))
    } else if crate::text::chars_starts_with_str(cs.as_slice(), "alpha") {
        let rest = crate::text::chars_skip(cs.as_slice(), 5);
        let n = match crate::text::parse_u16_chars(rest.as_slice()) {
            Some(n) => n,
            None => 0,
        };
        Some((GodotVersionKind::Alpha(n), has_mono))
    } else {
        None
    }
}

/// URL of the listing of a version, kind and build.
pub fn scan_target_url(mirror_url: &str, version: &str, kind: &GodotVersionKind, has_mono: bool) -> (res: String)
    ensures
        res@ == scan_url(mirror_url@, version@, kind@, has_mono),
{
    let mut res = String::from_str(mirror_url);
    res.append(version);
    push_char(&mut res, '/');
    if !kind.is_stable() {
        let k = kind.to_string();
        res.append(k.as_str());
        push_char(&mut res, '/');
    }
    if has_mono {
        res.append("mono/");
    }
    assert(res@ =~= scan_url(mirror_url@, version@, kind@, has_mono));
    res
}

/// The version found by a scan whose listing links to files.
pub fn found_version(version: &str, kind: GodotVersionKind, system: SystemVersion, has_mono: bool) -> (res: GodotVersion)
    ensures
        res@ == (VersionModel { version: version@, kind: kind@, system, mono: has_mono }),
{
    GodotVersion::new(version, kind, system, has_mono)
}

// ---------------------------------------------------------------------------
// The scan, step by step

/// The contents of a [`ScanItem`].
pub enum ScanItemModel {
    /// A listing to fetch: version number, kind, mono builds.
    Fetch(Seq<char>, KindModel, bool),
    /// A version found.
    Found(VersionModel),
}

/// Work left in a scan of the mirror.
pub enum ScanItem {
    /// A listing to fetch: version number, kind, mono builds.
    Fetch(String, GodotVersionKind, bool),
    /// A version found.
    Found(GodotVersion),
}

impl View for ScanItem {
    type V = ScanItemModel;

    open spec fn view(&self) -> ScanItemModel {
        match self {
            ScanItem::Fetch(v, k, m) => ScanItemModel::Fetch(v@, k@, *m),
            ScanItem::Found(v) => ScanItemModel::Found(v@),
        }
    }
}

/// The items of a list, through their views.
pub open spec fn items_view(v: Seq<ScanItem>) -> Seq<ScanItemModel> {
    v.map_values(|i: ScanItem| i@)
}

/// The versions of a list, through their views.
pub open spec fn versions_view(v: Seq<GodotVersion>) -> Seq<VersionModel> {
    v.map_values(|x: GodotVersion| x@)
}

/// The listings that the folders of a version listing lead to, in order.
pub open spec fn subtasks(version: Seq<char>, folders: Seq<Seq<char>>, kind: KindModel, has_mono: bool) -> Seq<
    ScanItemModel,
>
    decreases folders.len(),
{
    if folders.len() == 0 {
        Seq::empty()
    } else {
        let pre = subtasks(version, folders.drop_last(), kind, has_mono);
        match subscan_of(folders.last(), kind, has_mono) {
            Some((k, m)) => pre.push(ScanItemModel::Fetch(version, k, m)),
            None => pre,
        }
    }
}

/// The work left after reading the listing of the item on top: in its
/// place, the version itself when the listing has files, then the listings
/// its folders lead to, the first on top.
pub open spec fn after_listing(stack: Seq<ScanItemModel>, links: Seq<Option<Seq<char>>>, system: SystemVersion) -> Seq<
    ScanItemModel,
> {
    match stack.last() {
        ScanItemModel::Fetch(v, k, m) => stack.drop_last() + (if has_files(links) {
            seq![ScanItemModel::Found(VersionModel { version: v, kind: k, system, mono: m })]
        } else {
            Seq::empty()
        }) + subtasks(v, folders_of(links), k, m).reverse(),
        ScanItemModel::Found(_) => stack,
    }
}

/// Taking the versions found off the top of the work left: the work left
/// then, and the versions found so far.
pub open spec fn settle(stack: Seq<ScanItemModel>, found: Seq<VersionModel>) -> (Seq<ScanItemModel>, Seq<VersionModel>)
    decreases stack.len(),
{
    if stack.len() > 0 && stack.last() is Found {
        settle(stack.drop_last(), found.push(stack.last()->Found_0))
    } else {
        (stack, found)
    }
}

/// A scan of the official mirror, driven one listing at a time: the work
/// left, as a stack whose top comes next, and the versions found, in the
/// order of a depth-first walk that lists each version after those its
/// folders lead to.
pub struct MirrorScan {
    mirror_url: String,
    system: SystemVersion,
    stack: Vec<ScanItem>,
    versions: Vec<GodotVersion>,
    names: Ghost<Seq<Seq<char>>>,
}

/// Every listing left to fetch is one of a version named, and every version
/// found so far or left to be found has a version number named.
pub open spec fn from_names(names: Seq<Seq<char>>, pending: Seq<ScanItemModel>, found: Seq<VersionModel>) -> bool {
    &&& forall|i: int|
        0 <= i < pending.len() ==> match #[trigger] pending[i] {
            ScanItemModel::Fetch(v, _, _) => names.contains(v),
            ScanItemModel::Found(vm) => names.contains(vm.version),
        }
    &&& forall|i: int| 0 <= i < found.len() ==> names.contains(#[trigger] found[i].version)
}

/// The listings that the folders of a version listing lead to are listings
/// of that version.
pub proof fn lemma_subtasks_version(version: Seq<char>, folders: Seq<Seq<char>>, kind: KindModel, has_mono: bool)
    ensures
        forall|i: int|
            0 <= i < subtasks(version, folders, kind, has_mono).len() ==> ((#[trigger] subtasks(
                version,
                folders,
                kind,
                has_mono,
            )[i]) matches ScanItemModel::Fetch(v, _, _) && v == version),
    decreases folders.len(),
{
    if folders.len() > 0 {
        lemma_subtasks_version(version, folders.drop_last(), kind, has_mono);
    }
}

impl MirrorScan {
    /// The mirror scanned.
    pub closed spec fn mirror(&self) -> Seq<char> {
        self.mirror_url@
    }

    /// The system of the versions found.
    pub closed spec fn system(&self) -> SystemVersion {
        self.system
    }

    /// The work left, top last.
    pub closed spec fn pending(&self) -> Seq<ScanItemModel> {
        items_view(self.stack@)
    }

    /// The versions found so far.
    pub closed spec fn found(&self) -> Seq<VersionModel> {
        versions_view(self.versions@)
    }

    /// The version numbers the scan started from.
    pub closed spec fn names(&self) -> Seq<Seq<char>> {
        self.names@
    }

    /// Starts a scan of the versions named, in order, from the listing of
    /// each version's stable builds.
    pub fn new(mirror_url: &str, system: SystemVersion, version_names: &Vec<String>) -> (res: Self)
        ensures
            res.mirror() == mirror_url@,
            res.system() == system,
            res.found() == Seq::<VersionModel>::empty(),
            res.names() == strings_view(version_names@),
            from_names(res.names(), res.pending(), res.found()),
            res.pending().len() == version_names@.len(),
            forall|i: int|
                0 <= i < version_names@.len() ==> #[trigger] res.pending()[i] == ScanItemModel::Fetch(
                    version_names@[version_names@.len() - 1 - i]@,
                    KindModel::Stable,
                    false,
                ),
    {
        let mut stack: Vec<ScanItem> = Vec::new();
        let n = version_names.len();
        let mut i: usize = n;
        while i > 0
            invariant
                i <= n,
                n == version_names@.len(),
                stack@.len() == n - i,
                forall|j: int|
                    0 <= j < n - i ==> #[trigger] items_view(stack@)[j] == ScanItemModel::Fetch(
                        version_names@[n - 1 - j]@,
                        KindModel::Stable,
                        false,
                    ),
            decreases i,
        {
            i = i - 1;
            let ghost pre = stack@;
            stack.push(ScanItem::Fetch(version_names[i].clone(), GodotVersionKind::Stable, false));
            assert(items_view(stack@) =~= items_view(pre).push(
                ScanItemModel::Fetch(version_names@[i as int]@, KindModel::Stable, false),
            ));
        }
        let versions: Vec<GodotVersion> = Vec::new();
        let ghost names = strings_view(version_names@);
        let res = MirrorScan { mirror_url: String::from_str(mirror_url), system, stack, versions, names: Ghost(names) };
        assert(res.found() =~= Seq::<VersionModel>::empty());
        assert forall|i: int| 0 <= i < res.pending().len() implies match #[trigger] res.pending()[i] {
            ScanItemModel::Fetch(v, _, _) => names.contains(v),
            ScanItemModel::Found(vm) => names.contains(vm.version),
        } by {
            let k = n - 1 - i;
            assert(names[k] == version_names@[k]@);
        }
        res
    }

    /// Takes the versions found off the top of the work left; the URL of
    /// the next listing to fetch, or `None` when the scan is over.
    pub fn next_fetch(&mut self) -> (res: Option<String>)
        ensures
            final(self).mirror() == old(self).mirror(),
            final(self).system() == old(self).system(),
            (final(self).pending(), final(self).found()) == settle(old(self).pending(), old(self).found()),
            final(self).names() == old(self).names(),
            from_names(old(self).names(), old(self).pending(), old(self).found()) ==> from_names(
                final(self).names(),
                final(self).pending(),
                final(self).found(),
            ),
            match res {
                None => final(self).pending().len() == 0,
                Some(url) => final(self).pending().len() > 0 && (final(self).pending().last() matches
                    ScanItemModel::Fetch(v, k, m) && url@ == scan_url(final(self).mirror(), v, k, m)),
            },
    {
        loop
            invariant
                self.mirror_url@ == old(self).mirror_url@,
                self.system == old(self).system,
                settle(items_view(self.stack@), versions_view(self.versions@)) == settle(
                    old(self).pending(),
                    old(self).found(),
                ),
                self.names@ == old(self).names@,
                from_names(old(self).names(), old(self).pending(), old(self).found()) ==> from_names(
                    self.names@,
                    items_view(self.stack@),
                    versions_view(self.versions@),
                ),
            decreases self.stack@.len(),
        {
            let n = self.stack.len();
            if n == 0 {
                return None;
            }
            let ghost st = items_view(self.stack@);
            assert(st.last() == self.stack@[n - 1]@);
            match &self.stack[n - 1] {
                ScanItem::Fetch(v, k, m) => {
                    let url = scan_target_url(self.mirror_url.as_str(), v.as_str(), k, *m);
                    return Some(url);
                },
                ScanItem::Found(_) => {},
            }
            let ghost pre = self.versions@;
            match self.stack.pop() {
                Some(ScanItem::Found(v)) => {
                    self.versions.push(v);
                },
                _ => {},
            }
            assert(items_view(self.stack@) =~= st.drop_last());
            assert(versions_view(self.versions@) =~= versions_view(pre).push(st.last()->Found_0));
            proof {
                if from_names(old(self).names(), old(self).pending(), old(self).found()) {
                    let names = self.names@;
                    let fv = versions_view(self.versions@);
                    assert(match st[st.len() - 1] {
                        ScanItemModel::Fetch(v, _, _) => names.contains(v),
                        ScanItemModel::Found(vm) => names.contains(vm.version),
                    });
                    assert forall|i: int| 0 <= i < fv.len() implies names.contains(#[trigger] fv[i].version) by {
                        if i < fv.len() - 1 {
                            assert(fv[i] == versions_view(pre)[i]);
                        }
                    }
                    assert forall|i: int| 0 <= i < items_view(self.stack@).len() implies match #[trigger] items_view(
                        self.stack@,
                    )[i] {
                        ScanItemModel::Fetch(v, _, _) => names.contains(v),
                        ScanItemModel::Found(vm) => names.contains(vm.version),
                    } by {
                        assert(items_view(self.stack@)[i] == st[i]);
                    }
                }
            }
        }
    }

    /// Reads the listing of the item on top of the work left, which is a
    /// listing to fetch: the version itself is found when the listing has
    /// files, and the folders `mono`, `rcN`, `betaN` and `alphaN` lead to
    /// further listings.  A listing of mono builds holds no `mono` folder.
    pub fn feed(&mut self, links: &Vec<Option<String>>)
        requires
            old(self).pending().len() > 0,
            old(self).pending().last() is Fetch,
            old(self).pending().last()->Fetch_2 ==> forall|i: int|
                0 <= i < folders_of(opt_strings_view(links@)).len() ==> #[trigger] folders_of(
                    opt_strings_view(links@),
                )[i] != "mono"@,
        ensures
            final(self).mirror() == old(self).mirror(),
            final(self).system() == old(self).system(),
            final(self).found() == old(self).found(),
            final(self).pending() == after_listing(old(self).pending(), opt_strings_view(links@), old(self).system()),
            final(self).names() == old(self).names(),
            from_names(old(self).names(), old(self).pending(), old(self).found()) ==> from_names(
                final(self).names(),
                final(self).pending(),
                final(self).found(),
            ),
    {
        let ghost st = items_view(self.stack@);
        let ghost lv = opt_strings_view(links@);
        let top = self.stack.pop();
        assert(items_view(self.stack@) =~= st.drop_last());
        match top {
            Some(ScanItem::Fetch(version, kind, mono)) => {
                assert(st.last() == ScanItemModel::Fetch(version@, kind@, mono));
                if has_file_links(links) {
                    let found = found_version(version.as_str(), kind.clone(), self.system, mono);
                    self.stack.push(ScanItem::Found(found));
                }
                let ghost base = items_view(self.stack@);
                assert(base == st.drop_last() + (if has_files(lv) {
                    seq![ScanItemModel::Found(VersionModel { version: version@, kind: kind@, system: self.system, mono })]
                } else {
                    Seq::<ScanItemModel>::empty()
                }));
                let fs = folders(links);
                let ghost fsv = strings_view(fs@);
                let mut subs: Vec<ScanItem> = Vec::new();
                let mut i: usize = 0;
                assert(fsv.subrange(0, 0) =~= Seq::<Seq<char>>::empty());
                assert(items_view(subs@) =~= Seq::<ScanItemModel>::empty());
                while i < fs.len()
                    invariant
                        i <= fs@.len(),
                        fsv == strings_view(fs@),
                        fsv == folders_of(lv),
                        fsv.len() == fs@.len(),
                        mono ==> forall|j: int| 0 <= j < fsv.len() ==> #[trigger] fsv[j] != "mono"@,
                        self.mirror_url@ == old(self).mirror_url@,
                        self.system == old(self).system,
                        self.versions@ == old(self).versions@,
                        self.names@ == old(self).names@,
                        items_view(self.stack@) == base,
                        items_view(subs@) == subtasks(version@, fsv.subrange(0, i as int), kind@, mono),
                    decreases fs@.len() - i,
                {
                    assert(fsv.subrange(0, i + 1).drop_last() =~= fsv.subrange(0, i as int));
                    assert(fsv.subrange(0, i + 1).last() == fs@[i as int]@);
                    assert(fsv[i as int] == fs@[i as int]@);
                    let ghost pre = subs@;
                    match subscan_for_folder(fs[i].as_str(), &kind, mono) {
                        Some((k, m)) => {
                            subs.push(ScanItem::Fetch(version.clone(), k, m));
                            assert(items_view(subs@) =~= items_view(pre).push(ScanItemModel::Fetch(version@, k@, m)));
                        },
                        None => {},
                    }
                    i = i + 1;
                }
                assert(fsv.subrange(0, fs@.len() as int) =~= fsv);
                let ghost subv = items_view(subs@);
                let ghost before = items_view(self.stack@);
                let mut j: usize = subs.len();
                while j > 0
                    invariant
                        j == subs@.len(),
                        j <= subv.len(),
                        items_view(subs@) == subv.subrange(0, j as int),
                        items_view(self.stack@) == before + subv.subrange(j as int, subv.len() as int).reverse(),
                        self.mirror_url@ == old(self).mirror_url@,
                        self.system == old(self).system,
                        self.versions@ == old(self).versions@,
                        self.names@ == old(self).names@,
                    decreases j,
                {
                    j = j - 1;
                    let ghost pre = items_view(self.stack@);
                    let ghost pre_subs = subs@;
                    assert(items_view(pre_subs)[j as int] == subv[j as int]);
                    match subs.pop() {
                        Some(item) => {
                            assert(item == pre_subs[j as int]);
                            assert(item@ == subv[j as int]);
                            assert(items_view(subs@) =~= subv.subrange(0, j as int));
                            self.stack.push(item);
                            assert(items_view(self.stack@) =~= pre.push(subv[j as int]));
                        },
                        None => {},
                    }
                    assert(subv.subrange(j as int, subv.len() as int).reverse() =~= subv.subrange(
                        j + 1,
                        subv.len() as int,
                    ).reverse().push(subv[j as int]));
                }
                assert(subv.subrange(0, subv.len() as int) =~= subv);
                proof {
                    let names = self.names@;
                    if from_names(names, st, versions_view(self.versions@)) {
                        assert(match st[st.len() - 1] {
                            ScanItemModel::Fetch(v, _, _) => names.contains(v),
                            ScanItemModel::Found(vm) => names.contains(vm.version),
                        });
                        assert(names.contains(version@));
                        lemma_subtasks_version(version@, fsv, kind@, mono);
                        let p2 = items_view(self.stack@);
                        let rev = subv.reverse();
                        assert(p2 == before + rev);
                        assert forall|i: int| 0 <= i < p2.len() implies match #[trigger] p2[i] {
                            ScanItemModel::Fetch(v, _, _) => names.contains(v),
                            ScanItemModel::Found(vm) => names.contains(vm.version),
                        } by {
                            if i < st.len() - 1 {
                                assert(p2[i] == st[i]);
                            } else if i < before.len() {
                                assert(p2[i] == before[i]);
                            } else {
                                let k = i - before.len();
                                assert(p2[i] == rev[k]);
                                assert(rev[k] == subv[subv.len() - 1 - k]);
                            }
                        }
                    }
                }
            },
            _ => {},
        }
    }

    /// Whether a listing can be read next: work is left, the item on top
    /// is a listing to fetch, and a listing of mono builds holds no `mono`
    /// folder.
    pub fn accepts(&self, links: &Vec<Option<String>>) -> (res: bool)
        ensures
            res == (self.pending().len() > 0 && self.pending().last() is Fetch && (self.pending().last()->Fetch_2
                ==> forall|i: int|
                0 <= i < folders_of(opt_strings_view(links@)).len() ==> #[trigger] folders_of(
                    opt_strings_view(links@),
                )[i] != "mono"@)),
    {
        let n = self.stack.len();
        if n == 0 {
            return false;
        }
        assert(self.pending().last() == self.stack@[n - 1]@);
        let mono = match &self.stack[n - 1] {
            ScanItem::Found(_) => {
                return false;
            },
            ScanItem::Fetch(_, _, m) => *m,
        };
        if !mono {
            return true;
        }
        assert(self.pending().last()->Fetch_2);
        let fs = folders(links);
        let ghost fsv = strings_view(fs@);
        let mut i: usize = 0;
        while i < fs.len()
            invariant
                i <= fs@.len(),
                fsv == strings_view(fs@),
                fsv == folders_of(opt_strings_view(links@)),
                fsv.len() == fs@.len(),
                forall|j: int| 0 <= j < i ==> #[trigger] fsv[j] != "mono"@,
                self.pending().len() > 0,
                self.pending().last() is Fetch,
                self.pending().last()->Fetch_2,
            decreases fs@.len() - i,
        {
            let cs = chars_of(fs[i].as_str());
            assert(fsv[i as int] == fs@[i as int]@);
            if crate::text::chars_eq_str(cs.as_slice(), "mono") {
                assert(fsv[i as int] == "mono"@);
                return false;
            }
            i = i + 1;
        }
        true
    }

    /// The versions found.
    pub fn into_versions(self) -> (res: Vec<GodotVersion>)
        ensures
            versions_view(res@) == self.found(),
    {
        self.versions
    }
}

} // verus!
