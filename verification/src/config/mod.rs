//! The settings file: its schema, its place on disk and its defaults.
pub mod defaults;
pub mod paths;
pub mod schema;
