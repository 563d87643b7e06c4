//! Where the configurations are: the global directory under the user's
//! configuration directory, and `project.godot` in a project.
use vstd::prelude::*;

use crate::paths::{join, join_path};

verus! {

/// Root config folder name.
pub const ROOT_CONFIG_FOLDER_NAME: &'static str = "gdpm";

/// Global config filename.
pub const GLOBAL_CONFIG_FILENAME: &'static str = "gdpm.cfg";

/// Engines section name.
pub const ENGINES_SECTION: &'static str = "engines";

/// Project config filename.
pub const PROJECT_CONFIG_FILENAME: &'static str = "project.godot";

/// The global directory, under the user's configuration directory.
pub fn configuration_directory(user_config_dir: &str) -> (res: String)
    ensures
        res@ == join_path(user_config_dir@, "gdpm"@),
{
    join(user_config_dir, "gdpm")
}

/// A file of the global directory.
pub fn get_configuration_file(configuration_directory: &str, path: &str) -> (res: String)
    ensures
        res@ == join_path(configuration_directory@, path@),
{
    join(configuration_directory, path)
}

/// The global configuration file, under the user's configuration directory.
pub fn global_config_path(user_config_dir: &str) -> (res: String)
    ensures
        res@ == join_path(join_path(user_config_dir@, "gdpm"@), "gdpm.cfg"@),
{
    let dir = configuration_directory(user_config_dir);
    join(dir.as_str(), "gdpm.cfg")
}

/// The configuration file of the project at `path`.
pub fn get_project_configuration(path: &str) -> (res: String)
    ensures
        res@ == join_path(path@, "project.godot"@),
{
    join(path, "project.godot")
}

} // verus!
