pub mod error;
pub mod version;
