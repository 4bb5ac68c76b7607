//! Installation, resolution and launch logic for a modular game client.
pub mod arguments;
pub mod auth;
pub mod config;
pub mod downloader;
pub mod launcher;
pub mod manifest;
pub mod maven;
pub mod modpack;
pub mod modrinth;
pub mod queue;
pub mod resolver;
pub mod rules;
pub mod server_ping;
pub mod system_info;
pub mod text;
pub mod version_path;
