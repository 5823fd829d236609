pub mod clock;
pub mod database;
pub mod error;
pub mod execution;
pub mod metadata;
pub mod pattern;
pub mod text;
pub mod utils;
pub mod version_control;
