//! Mods from Nexus Mods: the mod list, `nxm://` links and the API client's
//! paging.
pub mod browse;
pub mod catalog;
pub mod client;
pub mod domain;
pub mod key;
pub mod nxm;
pub mod package;
pub mod install;
pub mod settings;
