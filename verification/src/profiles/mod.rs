//! Profiles: saved sets of mods and switching between them.
pub mod model;
pub mod store;
pub mod switch;

use vstd::prelude::*;

use crate::thunderstore::package::RemotePackage;
use model::ProfileSummary;

verus! {

/// State of the profiles panel that outlives a frame.
pub struct ProfilesPanel {
    pub profiles: Vec<ProfileSummary>,
    pub active_name: Option<String>,
    pub new_profile_name: String,
    pub duplicate_name: String,
    pub status_message: Option<String>,
    pub error_message: Option<String>,
    pub catalog: Vec<RemotePackage>,
    pub catalog_loaded: bool,
    pub scanned_once: bool,
    pub mods_on_disk_changed: bool,
}

impl Default for ProfilesPanel {
    /// No profiles listed yet and nothing changed.
    fn default() -> (r: Self)
        ensures
            r.profiles@.len() == 0,
            r.active_name is None,
            !r.mods_on_disk_changed,
            !r.catalog_loaded,
    {
        ProfilesPanel {
            profiles: Vec::new(),
            active_name: None,
            new_profile_name: String::new(),
            duplicate_name: String::new(),
            status_message: None,
            error_message: None,
            catalog: Vec::new(),
            catalog_loaded: false,
            scanned_once: false,
            mods_on_disk_changed: false,
        }
    }
}

impl ProfilesPanel {
    /// Whether a switch changed the mods on disk since last asked; asking
    /// clears it.
    pub fn take_mods_on_disk_changed(&mut self) -> (changed: bool)
        ensures
            changed == old(self).mods_on_disk_changed,
            !final(self).mods_on_disk_changed,
            final(self).profiles@ == old(self).profiles@,
    {
        let changed = self.mods_on_disk_changed;
        self.mods_on_disk_changed = false;
        changed
    }
}

} // verus!
