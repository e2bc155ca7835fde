//! The rules of a Linux desktop client for Qwen Chat: what its windows may
//! load, its profiles and their files, the MCP server list, downloads,
//! exports, injected scripts, menus, updates and crash reports.
pub mod auth;
pub mod config;
pub mod crash;
pub mod events;
pub mod ipc;
pub mod js;
pub mod mcp;
pub mod platform;
pub mod profile;
pub mod text;
pub mod update;
pub mod urlparts;
pub mod webview;
pub mod windows;
