//! Moving mods between the enabled, disabled and removed folders.
use vstd::prelude::*;

use super::inventory::{disabled_folder, plugins_folder, InstalledMod};
use crate::paths::{join_path, path_join};
use crate::text::{append_str, concat_str};

verus! {

/// Why a mod could not be moved.
#[derive(Debug, Clone, PartialEq, Eq)]
pub enum ModError {
    Io(String),
    EntryMissing { path: String },
    DestinationTaken { path: String },
    OpenFailed { path: String, detail: String },
}

/// Where enabling or disabling a mod moves it; `None` when it is already
/// where it should be.
pub fn toggle_destination(install_folder: &str, installed: &InstalledMod, enable: bool) -> (r: Option<String>)
    ensures
        installed.enabled == enable ==> r is None,
        installed.enabled != enable ==> (r matches Some(d) && d@ == join_path(
            join_path(install_folder@, if enable { "BepInEx/plugins"@ } else { "BepInEx/plugins_disabled"@ }),
            installed.entry_name@,
        )),
{
    if installed.enabled == enable {
        return None;
    }
    let folder = if enable {
        plugins_folder(install_folder)
    } else {
        disabled_folder(install_folder)
    };
    Some(path_join(folder.as_str(), installed.entry_name.as_str()))
}

/// Checks a move before it is made: the source must exist and the
/// destination must not.
pub fn check_move(source: &str, source_exists: bool, destination: &str, destination_exists: bool) -> (r: Result<(), ModError>)
    ensures
        !source_exists ==> (r matches Err(ModError::EntryMissing { path }) && path@ == source@),
        source_exists && destination_exists ==> (r matches Err(ModError::DestinationTaken { path }) && path@ == destination@),
        source_exists && !destination_exists ==> r is Ok,
{
    if !source_exists {
        return Err(ModError::EntryMissing { path: source.to_owned() });
    }
    if destination_exists {
        return Err(ModError::DestinationTaken { path: destination.to_owned() });
    }
    Ok(())
}

/// Where enabled and disabled mods live, for display.
pub fn describe_mod_locations(install_folder: &str) -> (r: String)
    ensures
        r@ == "enabled: "@ + join_path(install_folder@, "BepInEx/plugins"@) + "\ndisabled: "@
            + join_path(install_folder@, "BepInEx/plugins_disabled"@),
{
    let mut r = concat_str("enabled: ", plugins_folder(install_folder).as_str());
    append_str(&mut r, "\ndisabled: ");
    append_str(&mut r, disabled_folder(install_folder).as_str());
    r
}

/// The text shown for a failed mod operation.
pub open spec fn mod_error_text(e: ModError) -> Seq<char> {
    match e {
        ModError::Io(d) => "filesystem error: "@ + d@,
        ModError::EntryMissing { path } => "mod entry no longer exists at "@ + path@,
        ModError::DestinationTaken { path } => "cannot move mod because "@ + path@ + " already exists"@,
        ModError::OpenFailed { path, detail } => "could not open "@ + path@ + " in the file manager: "@ + detail@,
    }
}

impl ModError {
    /// The error as shown to the user.
    pub fn message(&self) -> (r: String)
        ensures
            r@ == mod_error_text(*self),
    {
        match self {
            ModError::Io(d) => {
                let mut r = String::new();
                crate::text::append_str(&mut r, "filesystem error: ");
                crate::text::append_str(&mut r, d.as_str());
                r
            },
            ModError::EntryMissing { path } => {
                let mut r = String::new();
                crate::text::append_str(&mut r, "mod entry no longer exists at ");
                crate::text::append_str(&mut r, path.as_str());
                r
            },
            ModError::DestinationTaken { path } => {
                let mut r = String::new();
                crate::text::append_str(&mut r, "cannot move mod because ");
                crate::text::append_str(&mut r, path.as_str());
                crate::text::append_str(&mut r, " already exists");
                r
            },
            ModError::OpenFailed { path, detail } => {
                let mut r = String::new();
                crate::text::append_str(&mut r, "could not open ");
                crate::text::append_str(&mut r, path.as_str());
                crate::text::append_str(&mut r, " in the file manager: ");
                crate::text::append_str(&mut r, detail.as_str());
                r
            },
        }
    }
}

} // verus!
