//! What the command-line commands decide, between the questions they ask
//! and the processes they start.
pub mod common;
pub mod engine;
pub mod project;
