//! The MCP servers the bridge is configured with.
pub mod config;
pub mod pending;
pub mod validate;
