//! Verified core of a tool-version runner: version specifiers, platform
//! targets, tool providers, isolated environments and configuration.

pub mod text;
pub mod version;
pub mod precedence;
pub mod platform;
pub mod provider;
pub mod environment;
pub mod plugin;
pub mod cli;
pub mod config;
pub mod list;
pub mod cache;
pub mod download;
pub mod executor;
pub mod error;
pub mod run;
pub mod init;
pub mod clean;
pub mod update;
pub mod install;
