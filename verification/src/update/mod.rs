//! Update checks and installation.
pub mod versions;
pub mod installer;
pub mod manager;
pub mod transfer;
pub mod release;
