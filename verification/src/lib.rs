//! Configuration management for agents and rooms: defaults, profiles,
//! layered merging, validation, change reports and reload decisions.

pub mod text;
pub mod config;
pub mod loader;
pub mod diff;
pub mod validator;
pub mod profile;
pub mod watcher;
pub mod room;
