//! Dopper: a project / environment / secret store with verified logic.

pub mod text;
pub mod seq_facts;
pub mod paths;
pub mod model;
pub mod db;
pub mod dump;
pub mod laws;
pub mod env_vars;
pub mod security;
pub mod keychain;
pub mod clipboard;
pub mod config;
pub mod prompts;
pub mod clock;
pub mod encoding;
pub mod integrity;
pub mod commands;
