//! Errors of the configuration, engine, project and plugin operations.
use vstd::prelude::*;

use crate::io;
use crate::settings::GdSettingsError;
use crate::types::version::{Error as VersionError, GodotVersion};

verus! {

/// Configuration error.
#[derive(Debug)]
pub enum ConfigError {
    /// A section or property is missing.
    IncompleteSettings(GdSettingsError),
    /// The settings text could not be read; the reader's message.
    MalformedSettings(String),
    /// I/O error.
    IoError(io::Error),
}

/// Engine error.
#[derive(Debug)]
pub enum EngineError {
    /// No engine is registered with this version.
    EngineNotFound(GodotVersion),
    /// The engine file is missing from its path.
    EngineMissingFromPath(GodotVersion, String),
    /// The engine is registered but not installed.
    EngineNotInstalled(GodotVersion),
    /// Configuration error.
    ConfigError(ConfigError),
    /// I/O error.
    IoError(io::Error),
    /// A version could not be read.
    VersionError(VersionError),
}

/// Project error.
#[derive(Debug)]
pub enum ProjectError {
    /// No project at the path.
    ProjectNotFound(String),
    /// The project file could not be read; the reader's message.
    MalformedProject(String),
    /// A project property is missing.
    MissingProperty(String),
    /// Configuration error.
    ConfigError(ConfigError),
    /// I/O error.
    IoError(io::Error),
    /// A version could not be read.
    VersionError(VersionError),
}

/// Plugin error.
#[derive(Debug)]
pub enum PluginError {
    /// A plugin property is missing.
    MissingProperty(String),
    /// A dependency entry is malformed.
    MalformedDependency(String),
    /// The dependency is missing.
    MissingDependency(String),
    /// The dependency cannot be desynchronised.
    CannotDesync(String),
    /// The plugin is already installed.
    AlreadyInstalled(String),
    /// Project error.
    ProjectError(ProjectError),
    /// I/O error.
    IoError(io::Error),
}

} // verus!
