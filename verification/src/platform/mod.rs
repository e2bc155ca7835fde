//! Desktop integration: notifications, environment, menus.
pub mod env;
pub mod layout;
pub mod menu;
pub mod notifications;
