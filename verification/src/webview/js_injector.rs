//! The init script of chat windows, shared with the script module.
pub use crate::js::build_init_script;
