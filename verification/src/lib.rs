//! Godot project manager: engine versions, the global and project
//! configurations, plugin dependencies and project scaffolding.
pub mod color;
pub mod commands;
pub mod config;
pub mod downloader;
pub mod engine;
pub mod errors;
pub mod install;
pub mod io;
pub mod paths;
pub mod plugins;
pub mod project;
pub mod remote;
pub mod scaffolder;
pub mod settings;
pub mod slug;
pub mod testutils;
pub mod text;
pub mod types;
