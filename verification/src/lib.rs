//! A verified plugin host: a registry of installed plugins, a loader table for
//! native modules, a hook dispatcher, and the manager that keeps all three
//! consistent across install, enable, disable and uninstall.

pub mod strutil;
pub mod numfmt;
pub mod jsonio;
pub mod hooks;
pub mod api;
pub mod loader;
pub mod manifest;
pub mod registry;
pub mod manager;
pub mod hook_names;
pub mod command;
pub mod agent_config;
pub mod bridge;
pub mod history;
pub mod requests;
pub mod urlbuild;
pub mod notes;
pub mod path_utils;
