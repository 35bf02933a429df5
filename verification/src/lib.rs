//! Launcher logic for the Vortex Minecraft launcher: configuration files,
//! version metadata, launch commands, download planning and integrity checks.

pub mod text;
pub mod config;
pub mod minecraft;
pub mod launch;
pub mod command;
pub mod download;
pub mod sha1;
pub mod platform;
pub mod ui;
pub mod natives;
pub mod plan;
pub mod cli;
pub mod config_roundtrip;
