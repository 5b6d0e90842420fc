//! Verified core of the pollip mod manager for Hollow Knight: Silksong.
use vstd::prelude::*;

pub mod archive;
pub mod config;
pub mod detection;
pub mod launch;
pub mod mods;
pub mod nexus;
pub mod paths;
pub mod platform;
pub mod profiles;
pub mod settings;
pub mod stable;
pub mod text;
pub mod thunderstore;
pub mod ui;

verus! {

} // verus!
