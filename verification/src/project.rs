//! Godot projects: what `project.godot` says of a project.
use vstd::prelude::*;

use crate::errors::{ConfigError, ProjectError};
use crate::settings::{
    law_property_after_remove, law_property_after_set, property_of, settings_wf, value_str,
    with_property, without_property, GdSettings, GdValue, SettingsModel, ValueModel,
};
use crate::types::version::{parse_version, version_string, ErrorModel, GodotVersion, SystemVersion, VersionModel};

verus! {

/// The string held by a property, if any.
pub open spec fn property_str(m: SettingsModel, section: Seq<char>, key: Seq<char>) -> Option<Seq<char>> {
    match property_of(m, section, key) {
        Some(v) => value_str(v),
        None => None,
    }
}

/// The contents of a [`GdProjectInfo`].
pub struct ProjectInfoModel {
    /// Project name.
    pub project_name: Seq<char>,
    /// Project version.
    pub version: Option<Seq<char>>,
    /// Main scene.
    pub main_scene: Option<Seq<char>>,
    /// Engine version.
    pub engine_version: Option<VersionModel>,
}

/// The project a configuration describes, when it names the project and
/// its engine version, if any, can be read; `sys` is the system of versions
/// that name none.
pub open spec fn project_of(m: SettingsModel, sys: SystemVersion) -> Option<ProjectInfoModel> {
    match property_str(m, "application"@, "config/name"@) {
        None => None,
        Some(name) => {
            let engine = property_str(m, "engine"@, "version"@);
            if engine matches Some(s) && parse_version(s, sys) is None {
                None
            } else {
                Some(
                    ProjectInfoModel {
                        project_name: name,
                        version: property_str(m, "application"@, "config/version"@),
                        main_scene: property_str(m, "application"@, "run/main_scene"@),
                        engine_version: match engine {
                            Some(s) => parse_version(s, sys),
                            None => None,
                        },
                    },
                )
            }
        },
    }
}

/// The name of a project, followed by its version in brackets when it has
/// one.
pub open spec fn versioned_name(p: ProjectInfoModel) -> Seq<char> {
    match p.version {
        Some(v) => p.project_name + " (v"@ + v + ")"@,
        None => p.project_name,
    }
}

/// Godot project info.
#[derive(Debug)]
pub struct GdProjectInfo {
    project_name: String,
    version: Option<String>,
    main_scene: Option<String>,
    engine_version: Option<GodotVersion>,
}

impl View for GdProjectInfo {
    type V = ProjectInfoModel;

    closed spec fn view(&self) -> ProjectInfoModel {
        ProjectInfoModel {
            project_name: self.project_name@,
            version: match self.version {
                Some(v) => Some(v@),
                None => None,
            },
            main_scene: match self.main_scene {
                Some(v) => Some(v@),
                None => None,
            },
            engine_version: match self.engine_version {
                Some(v) => Some(v@),
                None => None,
            },
        }
    }
}

/// The string held by a property.
fn get_property_str(settings: &GdSettings, section: &str, key: &str) -> (res: Option<String>)
    ensures
        crate::text::opt_string_view(res) == property_str(settings@, section@, key@),
{
    match settings.get_property(section, key) {
        Some(v) => v.to_str(),
        None => None,
    }
}

impl GdProjectInfo {
    /// Reads project info from a project configuration; `system` is the
    /// system of versions that name none.  An error when the project name
    /// is missing or the engine version cannot be read.
    pub fn from_settings(settings: GdSettings, system: SystemVersion) -> (res: Result<Self, ProjectError>)
        ensures
            match project_of(settings@, system) {
                Some(p) => res matches Ok(info) && info@ == p,
                None => match property_str(settings@, "application"@, "config/name"@) {
                    None => res matches Err(ProjectError::MissingProperty(s)) && s@
                        == "application -> config/name"@,
                    Some(_) => res matches Err(ProjectError::VersionError(e)) && e@ == ErrorModel::WrongVersion(
                        property_str(settings@, "engine"@, "version"@)->0,
                    ),
                },
            },
    {
        Self::from_config(&settings, system)
    }

    /// Reads project info from a project configuration.
    fn from_config(settings: &GdSettings, system: SystemVersion) -> (res: Result<Self, ProjectError>)
        ensures
            match project_of(settings@, system) {
                Some(p) => res matches Ok(info) && info@ == p,
                None => match property_str(settings@, "application"@, "config/name"@) {
                    None => res matches Err(ProjectError::MissingProperty(s)) && s@
                        == "application -> config/name"@,
                    Some(_) => res matches Err(ProjectError::VersionError(e)) && e@ == ErrorModel::WrongVersion(
                        property_str(settings@, "engine"@, "version"@)->0,
                    ),
                },
            },
    {
        let project_name = match get_property_str(settings, "application", "config/name") {
            Some(n) => n,
            None => {
                return Err(ProjectError::MissingProperty(String::from_str("application -> config/name")));
            },
        };
        let version = get_property_str(settings, "application", "config/version");
        let main_scene = get_property_str(settings, "application", "run/main_scene");
        let engine_version = match get_property_str(settings, "engine", "version") {
            Some(s) => match GodotVersion::parse(s.as_str(), system) {
                Ok(v) => Some(v),
                Err(e) => {
                    return Err(ProjectError::VersionError(e));
                },
            },
            None => None,
        };
        let info = GdProjectInfo { project_name, version, main_scene, engine_version };
        assert(info@.engine_version == project_of(settings@, system)->0.engine_version);
        Ok(info)
    }

    /// The project name, followed by its version in brackets when it has
    /// one.
    pub fn get_versioned_name(&self) -> (res: String)
        ensures
            res@ == versioned_name(self@),
    {
        match &self.version {
            Some(v) => {
                let mut res = self.project_name.clone();
                res.append(" (v");
                res.append(v.as_str());
                res.append(")");
                res
            },
            None => self.project_name.clone(),
        }
    }

    /// The project's engine version.
    pub fn get_engine_version(&self) -> (res: Option<&GodotVersion>)
        ensures
            match res {
                Some(v) => self@.engine_version == Some(v@),
                None => self@.engine_version is None,
            },
    {
        match &self.engine_version {
            Some(v) => Some(v),
            None => None,
        }
    }

    /// The project name.
    pub fn get_project_name(&self) -> (res: &str)
        ensures
            res@ == self@.project_name,
    {
        self.project_name.as_str()
    }

    /// The project version.
    pub fn get_version(&self) -> (res: Option<&String>)
        ensures
            match res {
                Some(v) => self@.version == Some(v@),
                None => self@.version is None,
            },
    {
        match &self.version {
            Some(v) => Some(v),
            None => None,
        }
    }

    /// The main scene.
    pub fn get_main_scene(&self) -> (res: Option<&String>)
        ensures
            match res {
                Some(v) => self@.main_scene == Some(v@),
                None => self@.main_scene is None,
            },
    {
        match &self.main_scene {
            Some(v) => Some(v),
            None => None,
        }
    }
}

/// The configuration after associating an engine version with a project.
pub open spec fn with_project_engine(m: SettingsModel, v: VersionModel) -> SettingsModel {
    with_property(m, "engine"@, "version"@, ValueModel::Str(version_string(v)))
}

/// Project handler: the configuration of a project, and the system of this
/// machine, with which versions that name no system are read.  It is
/// loaded before an operation and saved after it.
pub struct ProjectHandler {
    config: GdSettings,
    system: SystemVersion,
}

impl ProjectHandler {
    /// The configuration held.
    pub closed spec fn model(&self) -> SettingsModel {
        self.config@
    }

    /// The system of this machine.
    pub closed spec fn host(&self) -> SystemVersion {
        self.system
    }

    /// Creates a project handler over a loaded project configuration.
    pub fn new(config: GdSettings, system: SystemVersion) -> (res: Self)
        ensures
            res.model() == config@,
            res.host() == system,
    {
        ProjectHandler { config, system }
    }

    /// The configuration held.
    pub fn config(&self) -> (res: &GdSettings)
        ensures
            res@ == self.model(),
    {
        &self.config
    }

    /// The configuration held, to be saved.
    pub fn into_config(self) -> (res: GdSettings)
        ensures
            res@ == self.model(),
    {
        self.config
    }

    /// The project info.
    pub fn get_project_info(&self) -> (res: Result<GdProjectInfo, ProjectError>)
        ensures
            match project_of(self.model(), self.host()) {
                Some(p) => res matches Ok(info) && info@ == p,
                None => res is Err,
            },
    {
        GdProjectInfo::from_config(&self.config, self.system)
    }

    /// Associates an engine version with the project.
    pub fn set_project_engine(&mut self, version: &GodotVersion)
        ensures
            final(self).model() == with_project_engine(old(self).model(), version@),
            final(self).host() == old(self).host(),
    {
        let s = version.to_string();
        self.config.set_property("engine", "version", GdValue::String(s));
    }

    /// Removes the engine version of the project; an error when it has
    /// none.
    pub fn unset_project_engine(&mut self) -> (res: Result<(), ProjectError>)
        ensures
            final(self).host() == old(self).host(),
            match without_property(old(self).model(), "engine"@, "version"@) {
                Some(m2) => res is Ok && final(self).model() == m2,
                None => res matches Err(ProjectError::ConfigError(ConfigError::IncompleteSettings(_)))
                    && final(self).model() == old(self).model(),
            },
    {
        match self.config.remove_property("engine", "version") {
            Ok(()) => Ok(()),
            Err(e) => Err(ProjectError::ConfigError(ConfigError::IncompleteSettings(e))),
        }
    }
}

/// Associating a canonical engine version with a named project and reading
/// the project back gives that engine version, and leaves its name, version
/// and main scene as they were.
pub proof fn law_project_engine_after_set(m: SettingsModel, sys: SystemVersion, v: VersionModel)
    requires
        parse_version(version_string(v), sys) == Some(v),
        property_str(m, "application"@, "config/name"@) is Some,
    ensures
        project_of(with_project_engine(m, v), sys) matches Some(p) && p.engine_version == Some(v) && p.project_name
            == property_str(m, "application"@, "config/name"@)->0 && p.version == property_str(
            m,
            "application"@,
            "config/version"@,
        ) && p.main_scene == property_str(m, "application"@, "run/main_scene"@),
{
    reveal_strlit("engine");
    reveal_strlit("application");
    assert("engine"@.len() == 6 && "application"@.len() == 11);
    assert("engine"@ != "application"@);
    let val = ValueModel::Str(version_string(v));
    law_property_after_set(m, "engine"@, "version"@, val, "engine"@, "version"@);
    law_property_after_set(m, "engine"@, "version"@, val, "application"@, "config/name"@);
    law_property_after_set(m, "engine"@, "version"@, val, "application"@, "config/version"@);
    law_property_after_set(m, "engine"@, "version"@, val, "application"@, "run/main_scene"@);
}

/// Removing the engine version of a project, in well-formed settings, and
/// reading the project back gives no engine version.
pub proof fn law_project_engine_after_unset(m: SettingsModel, sys: SystemVersion)
    requires
        settings_wf(m),
        property_str(m, "application"@, "config/name"@) is Some,
        without_property(m, "engine"@, "version"@) is Some,
    ensures
        project_of(without_property(m, "engine"@, "version"@)->0, sys) matches Some(p) && p.engine_version is None,
{
    reveal_strlit("engine");
    reveal_strlit("application");
    assert("engine"@.len() == 6 && "application"@.len() == 11);
    assert("engine"@ != "application"@);
    law_property_after_remove(m, "engine"@, "version"@, "engine"@, "version"@);
    law_property_after_remove(m, "engine"@, "version"@, "application"@, "config/name"@);
}

} // verus!
