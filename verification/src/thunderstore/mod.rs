//! Mods from Thunderstore: the package list and installing packages.
pub mod package;
pub mod browse;
pub mod catalog;
pub mod install;
