//! The mods in the game's plugin folders: listing them and moving them
//! between the enabled, disabled and removed folders.
pub mod inventory;
pub mod manage;
pub mod order;
pub mod panel;

pub use inventory::{
    disabled_folder, plugins_folder, removed_folder, InstalledMod, ModKind, ModSource,
};
pub use manage::ModError;
