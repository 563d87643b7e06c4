//! The official download mirror: where its archives are, and what its
//! directory listings say.
pub mod download;
pub mod scan;
pub mod version;
