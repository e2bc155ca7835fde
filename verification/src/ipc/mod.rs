//! The rules behind the commands the web app calls: downloads, dropped
//! files, settings, shortcuts and links.
pub mod clipboard;
pub mod dialog;
pub mod download;
pub mod export;
pub mod drop;
pub mod filename;
pub mod settings;
pub mod shortcuts;
