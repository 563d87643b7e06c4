//! Download module: where the official mirror keeps editors and export templates.
use vstd::prelude::*;

use crate::downloader::version::{archive_basename, kind_string, GodotVersion, SystemVersion};

verus! {

/// The text of the URL that `reqwest::Url::parse(base)` followed by
/// `join(route)` gives, or `None` when either step fails.
pub uninterp spec fn url_join(base: Seq<char>, route: Seq<char>) -> Option<Seq<char>>;

/// Parses `base` with `reqwest::Url::parse` (the `url` crate's parser),
/// resolves `route` against it with `Url::join` and writes the result with
/// `to_string`.  The contract names the result after both strings; `None`
/// stands for a failed parse or join.
#[verifier::external_body]
fn join_url(base: &str, route: &str) -> (res: Option<String>)
    ensures
        match res {
            Some(r) => url_join(base@, route@) == Some(r@),
            None => url_join(base@, route@) is None,
        },
{
    match reqwest::Url::parse(base) {
        Ok(url) => match url.join(route) {
            Ok(joined) => Some(joined.to_string()),
            Err(_) => None,
        },
        Err(_) => None,
    }
}

/// Route of an editor archive below the mirror root:
/// `VERSION-KIND/Godot_vVERSION-KIND_BASENAME.zip`.
pub open spec fn editor_route(v: crate::downloader::version::VersionModel, system: SystemVersion) -> Seq<char> {
    v.version + seq!['-'] + kind_string(v.kind) + seq!['/'] + "Godot_v"@ + v.version + seq!['-']
        + kind_string(v.kind) + seq!['_'] + archive_basename(system, v.mono) + ".zip"@
}

/// Route of an export templates archive below the mirror root:
/// `VERSION-KIND/Godot_vVERSION-KIND[_mono]_export_templates.tpz`.
pub open spec fn export_templates_route(v: crate::downloader::version::VersionModel) -> Seq<char> {
    v.version + seq!['-'] + kind_string(v.kind) + seq!['/'] + "Godot_v"@ + v.version + seq!['-']
        + kind_string(v.kind) + (if v.mono {
        "_mono"@
    } else {
        Seq::<char>::empty()
    }) + "_export_templates.tpz"@
}

/// Downloader.
pub struct Downloader;

impl Downloader {
    /// Route of the editor archive of a version below the mirror root.
    pub fn editor_route(version: &GodotVersion, system: SystemVersion) -> (res: String)
        ensures
            res@ == editor_route(version@, system),
    {
        let kind = version.kind().to_string();
        let mut route = String::from_str(version.version());
        crate::text::push_char(&mut route, '-');
        route.append(kind.as_str());
        crate::text::push_char(&mut route, '/');
        route.append("Godot_v");
        route.append(version.version());
        crate::text::push_char(&mut route, '-');
        route.append(kind.as_str());
        crate::text::push_char(&mut route, '_');
        route.append(system.get_archive_basename(version.mono()));
        route.append(".zip");
        assert(route@ =~= editor_route(version@, system));
        route
    }

    /// Route of the export templates archive of a version below the mirror root.
    pub fn export_templates_route(version: &GodotVersion) -> (res: String)
        ensures
            res@ == export_templates_route(version@),
    {
        let kind = version.kind().to_string();
        let mut route = String::from_str(version.version());
        crate::text::push_char(&mut route, '-');
        route.append(kind.as_str());
        crate::text::push_char(&mut route, '/');
        route.append("Godot_v");
        route.append(version.version());
        crate::text::push_char(&mut route, '-');
        route.append(kind.as_str());
        if version.mono() {
            route.append("_mono");
        }
        route.append("_export_templates.tpz");
        assert(route@ =~= export_templates_route(version@));
        route
    }

    /// Get editor URL for version from a mirror URL.  The mirror URL must
    /// parse, and the editor route must resolve against it.
    pub fn get_official_editor_url_for_version(
        version: GodotVersion,
        system: SystemVersion,
        mirror_url: &str,
    ) -> (res: String)
        requires
            url_join(mirror_url@, editor_route(version@, system)) is Some,
        ensures
            url_join(mirror_url@, editor_route(version@, system)) == Some(res@),
    {
        let route = Self::editor_route(&version, system);
        match join_url(mirror_url, route.as_str()) {
            Some(url) => url,
            None => String::new(),
        }
    }

    /// Editor URL for version from a mirror URL, or `None` when the mirror
    /// URL does not parse or the route does not resolve against it.
    pub fn try_official_editor_url_for_version(
        version: GodotVersion,
        system: SystemVersion,
        mirror_url: &str,
    ) -> (res: Option<String>)
        ensures
            match res {
                Some(r) => url_join(mirror_url@, editor_route(version@, system)) == Some(r@),
                None => url_join(mirror_url@, editor_route(version@, system)) is None,
            },
    {
        let route = Self::editor_route(&version, system);
        match join_url(mirror_url, route.as_str()) {
            Some(_) => Some(Self::get_official_editor_url_for_version(version, system, mirror_url)),
            None => None,
        }
    }

    /// Get export templates URL for version from a mirror URL.  The mirror
    /// URL must parse, and the templates route must resolve against it.
    pub fn get_official_export_templates_url_for_version(version: GodotVersion, mirror_url: &str) -> (res: String)
        requires
            url_join(mirror_url@, export_templates_route(version@)) is Some,
        ensures
            url_join(mirror_url@, export_templates_route(version@)) == Some(res@),
    {
        let route = Self::export_templates_route(&version);
        match join_url(mirror_url, route.as_str()) {
            Some(url) => url,
            None => String::new(),
        }
    }

    /// Export templates URL for version from a mirror URL, or `None` when
    /// the mirror URL does not parse or the route does not resolve against it.
    pub fn try_official_export_templates_url_for_version(version: GodotVersion, mirror_url: &str) -> (res:
        Option<String>)
        ensures
            match res {
                Some(r) => url_join(mirror_url@, export_templates_route(version@)) == Some(r@),
                None => url_join(mirror_url@, export_templates_route(version@)) is None,
            },
    {
        let route = Self::export_templates_route(&version);
        match join_url(mirror_url, route.as_str()) {
            Some(_) => Some(Self::get_official_export_templates_url_for_version(version, mirror_url)),
            None => None,
        }
    }
}

} // verus!
