//! State of the mods page: the installed list, what it says, and the two
//! browsers it holds.
use vstd::prelude::*;

use super::inventory::InstalledMod;
use super::manage::{mod_error_text, ModError};
use crate::nexus::browse::NexusBrowse;
use crate::text::{append_str, concat_str, decimal, decimal_string, str_eq};
use crate::thunderstore::browse::ThunderstoreBrowse;
use crate::ui::toast::{shows, ToastKind, ToastQueue};

verus! {

/// The tab the mods page shows.
#[derive(Debug, Clone, Copy, PartialEq, Eq, Structural)]
pub enum ModsTab {
    Installed,
    Thunderstore,
    Nexus,
}

/// State of the mods page that outlives a frame.
pub struct ModsPanel {
    pub mods: Vec<InstalledMod>,
    pub status_message: Option<String>,
    pub tracked_install_folder: Option<String>,
    pub scanned_once: bool,
    pub thunderstore: ThunderstoreBrowse,
    pub nexus: NexusBrowse,
    pub pending_remove: Option<String>,
    pub tab: ModsTab,
}

/// Index of the first listed mod with the entry name.
pub open spec fn listed_index(mods: Seq<InstalledMod>, entry_name: Seq<char>) -> Option<int> {
    if exists|i: int| 0 <= i < mods.len() && mods[i].entry_name@ == entry_name {
        Some(choose|i: int| 0 <= i < mods.len() && mods[i].entry_name@ == entry_name && forall|j: int| 0 <= j < i ==> mods[j].entry_name@ != entry_name)
    } else {
        None
    }
}

/// The name shown for a listed entry: its mod's display name, else the
/// entry name.
pub open spec fn shown_name(mods: Seq<InstalledMod>, entry_name: Seq<char>) -> Seq<char> {
    match listed_index(mods, entry_name) {
        Some(i) => mods[i].display_name@,
        None => entry_name,
    }
}

/// The message after an enable or disable.
pub open spec fn toggled_text(display: Seq<char>, enable: bool, path: Seq<char>) -> Seq<char> {
    (if enable {
        "enabled "@
    } else {
        "disabled "@
    }) + display + " \u{2192} "@ + path
}

/// The message once a mod was moved to the removed folder.
pub open spec fn removed_text(display: Seq<char>, path: Seq<char>) -> Seq<char> {
    "moved "@ + display + " to backup at "@ + path
}

impl ModsPanel {
    /// The installed tab, nothing listed or scanned yet, and both browsers
    /// empty and idle.
    pub fn new() -> (r: Self)
        ensures
            r.mods@.len() == 0,
            r.status_message is None,
            r.tracked_install_folder is None,
            !r.scanned_once,
            r.pending_remove is None,
            r.tab == ModsTab::Installed,
            r.thunderstore.packages@.len() == 0,
            r.thunderstore.search_query@.len() == 0,
            r.thunderstore.pending_install is None,
            !r.thunderstore.catalog_busy && !r.thunderstore.install_busy,
            !r.thunderstore.auto_started && !r.thunderstore.last_install_changed,
            r.nexus.mods@.len() == 0,
            r.nexus.search_query@.len() == 0,
            r.nexus.is_premium is None,
            !r.nexus.catalog_busy && !r.nexus.install_busy,
            !r.nexus.auto_started && !r.nexus.last_install_changed,
    {
        ModsPanel {
            mods: Vec::new(),
            status_message: None,
            tracked_install_folder: None,
            scanned_once: false,
            thunderstore: ThunderstoreBrowse::default(),
            nexus: NexusBrowse::default(),
            pending_remove: None,
            tab: ModsTab::Installed,
        }
    }

    /// Asks for a new scan at the next look.
    pub fn invalidate_scan(&mut self)
        ensures
            !final(self).scanned_once,
            final(self).mods@ == old(self).mods@,
            final(self).status_message == old(self).status_message,
    {
        self.scanned_once = false;
    }

    /// Whether either browser installed something since last asked. The
    /// Thunderstore browser is asked first; when it did, the Nexus browser
    /// is not asked this time.
    pub fn take_installs_changed(&mut self) -> (changed: bool)
        ensures
            changed == (old(self).thunderstore.last_install_changed || old(self).nexus.last_install_changed),
            !final(self).thunderstore.last_install_changed,
            final(self).nexus.last_install_changed == (old(self).thunderstore.last_install_changed
                && old(self).nexus.last_install_changed),
            final(self).mods@ == old(self).mods@,
    {
        self.thunderstore.take_install_changed() || self.nexus.take_install_changed()
    }

    /// Whether the list must be scanned again for the install in `folder`:
    /// when it is another install than the one listed, or nothing was
    /// scanned yet. Then the folder is tracked and the message cleared.
    pub fn needs_resync(&mut self, folder: &str) -> (resync: bool)
        ensures
            resync == (!(old(self).tracked_install_folder matches Some(f) && f@ == folder@) || !old(self).scanned_once),
            resync ==> (final(self).tracked_install_folder matches Some(f) && f@ == folder@) && final(self).status_message is None,
            !resync ==> final(self).tracked_install_folder == old(self).tracked_install_folder && final(self).status_message
                == old(self).status_message,
            final(self).mods@ == old(self).mods@,
            final(self).scanned_once == old(self).scanned_once,
    {
        let same = match &self.tracked_install_folder {
            Some(f) => str_eq(f.as_str(), folder),
            None => false,
        };
        if !same || !self.scanned_once {
            self.tracked_install_folder = Some(folder.to_owned());
            self.status_message = None;
            true
        } else {
            false
        }
    }

    /// Takes in a scan of the install: the mods found, or why the folders
    /// could not be made or read. A found list keeps a message already set,
    /// and otherwise says how many mods there are.
    pub fn refreshed(&mut self, scan: Result<Vec<InstalledMod>, ModError>)
        ensures
            final(self).scanned_once,
            match scan {
                Ok(mods) => {
                    &&& final(self).mods@ == mods@
                    &&& (old(self).status_message is Some ==> final(self).status_message == old(self).status_message)
                    &&& (old(self).status_message is None ==> (final(self).status_message matches Some(s) && s@ == "found "@
                        + decimal(mods@.len()) + " mod(s)"@))
                },
                Err(e) => {
                    &&& final(self).mods@.len() == 0
                    &&& (final(self).status_message matches Some(s) && s@ == mod_error_text(e))
                },
            },
    {
        self.scanned_once = true;
        match scan {
            Ok(mods) => {
                let count = decimal_string(mods.len() as u64);
                self.mods = mods;
                if self.status_message.is_none() {
                    let mut status = concat_str("found ", count.as_str());
                    append_str(&mut status, " mod(s)");
                    self.status_message = Some(status);
                }
            },
            Err(error) => {
                self.mods = Vec::new();
                self.status_message = Some(error.message());
            },
        }
    }

    /// The listed mod with the entry name, if it is still listed.
    pub fn listed(&self, entry_name: &str) -> (r: Option<&InstalledMod>)
        ensures
            match listed_index(self.mods@, entry_name@) {
                Some(i) => r matches Some(m) && *m == self.mods@[i],
                None => r is None,
            },
    {
        let mut i: usize = 0;
        while i < self.mods.len()
            invariant
                i <= self.mods.len(),
                forall|j: int| 0 <= j < i ==> self.mods@[j].entry_name@ != entry_name@,
            decreases self.mods.len() - i,
        {
            if str_eq(self.mods[i].entry_name.as_str(), entry_name) {
                assert(listed_index(self.mods@, entry_name@) == Some(i as int)) by {
                    let k = choose|k: int| 0 <= k < self.mods@.len() && self.mods@[k].entry_name@ == entry_name@ && forall|j: int|
                        0 <= j < k ==> self.mods@[j].entry_name@ != entry_name@;
                    if k < i {
                    } else if k > i {
                        assert(self.mods@[i as int].entry_name@ == entry_name@);
                    }
                }
                return Some(&self.mods[i]);
            }
            i += 1;
        }
        None
    }

    /// The message when an entry asked about is no longer listed; the list
    /// is then scanned again.
    pub fn no_longer_listed(&mut self, entry_name: &str)
        ensures
            final(self).status_message matches Some(s) && s@ == "mod '"@ + entry_name@ + "' is no longer listed"@,
            final(self).mods@ == old(self).mods@,
    {
        let mut s = concat_str("mod '", entry_name);
        append_str(&mut s, "' is no longer listed");
        self.status_message = Some(s);
    }

    /// Takes in how enabling or disabling a mod went: where it was moved, or
    /// why it could not be. The list is then scanned again, keeping this
    /// message.
    pub fn toggled(
        &mut self,
        display_name: &str,
        enable: bool,
        outcome: Result<String, ModError>,
        toasts: &mut ToastQueue,
        now_ms: u64,
    )
        ensures
            final(self).mods@ == old(self).mods@,
            match outcome {
                Ok(path) => {
                    &&& (final(self).status_message matches Some(s) && s@ == toggled_text(display_name@, enable, path@))
                    &&& shows(
                        old(toasts).entries@,
                        final(toasts).entries@,
                        ToastKind::Success,
                        (if enable {
                            "enabled "@
                        } else {
                            "disabled "@
                        }) + display_name@,
                        now_ms,
                    )
                },
                Err(e) => {
                    &&& (final(self).status_message matches Some(s) && s@ == mod_error_text(e))
                    &&& shows(old(toasts).entries@, final(toasts).entries@, ToastKind::Error, mod_error_text(e), now_ms)
                },
            },
    {
        match outcome {
            Ok(path) => {
                let action = if enable {
                    "enabled "
                } else {
                    "disabled "
                };
                let note = concat_str(action, display_name);
                let mut message = note.clone();
                append_str(&mut message, " \u{2192} ");
                append_str(&mut message, path.as_str());
                toasts.success(note, now_ms);
                self.status_message = Some(message);
            },
            Err(error) => {
                toasts.error(error.message(), now_ms);
                self.status_message = Some(error.message());
            },
        }
    }

    /// Takes in how removing a mod went: where it was moved, or why it could
    /// not be. The list is then scanned again, keeping this message.
    pub fn removed(&mut self, display_name: &str, outcome: Result<String, ModError>, toasts: &mut ToastQueue, now_ms: u64)
        ensures
            final(self).mods@ == old(self).mods@,
            match outcome {
                Ok(path) => {
                    &&& (final(self).status_message matches Some(s) && s@ == removed_text(display_name@, path@))
                    &&& shows(old(toasts).entries@, final(toasts).entries@, ToastKind::Success, "removed "@ + display_name@, now_ms)
                },
                Err(e) => {
                    &&& (final(self).status_message matches Some(s) && s@ == mod_error_text(e))
                    &&& shows(old(toasts).entries@, final(toasts).entries@, ToastKind::Error, mod_error_text(e), now_ms)
                },
            },
    {
        match outcome {
            Ok(path) => {
                let mut message = concat_str("moved ", display_name);
                append_str(&mut message, " to backup at ");
                append_str(&mut message, path.as_str());
                toasts.success(concat_str("removed ", display_name), now_ms);
                self.status_message = Some(message);
            },
            Err(error) => {
                toasts.error(error.message(), now_ms);
                self.status_message = Some(error.message());
            },
        }
    }

    /// Takes in how opening the plugins folder went.
    pub fn folder_opened(&mut self, outcome: Result<String, ModError>, toasts: &mut ToastQueue, now_ms: u64)
        ensures
            final(self).mods@ == old(self).mods@,
            match outcome {
                Ok(path) => {
                    &&& (final(self).status_message matches Some(s) && s@ == "opened "@ + path@)
                    &&& shows(old(toasts).entries@, final(toasts).entries@, ToastKind::Success, "opened "@ + path@, now_ms)
                },
                Err(e) => {
                    &&& (final(self).status_message matches Some(s) && s@ == mod_error_text(e))
                    &&& shows(old(toasts).entries@, final(toasts).entries@, ToastKind::Error, mod_error_text(e), now_ms)
                },
            },
    {
        match outcome {
            Ok(path) => {
                let message = concat_str("opened ", path.as_str());
                self.status_message = Some(message.clone());
                toasts.success(message, now_ms);
            },
            Err(error) => {
                self.status_message = Some(error.message());
                toasts.error(error.message(), now_ms);
            },
        }
    }

    /// The question asked before removing an entry, naming its mod.
    pub fn remove_prompt(&self, entry_name: &str) -> (r: String)
        ensures
            r@ == "remove '"@ + shown_name(self.mods@, entry_name@)
                + "'? it will be moved to BepInEx/plugins_removed (not permanently deleted)"@,
    {
        let display = match self.listed(entry_name) {
            Some(m) => m.display_name.clone(),
            None => entry_name.to_owned(),
        };
        let mut r = concat_str("remove '", display.as_str());
        append_str(&mut r, "'? it will be moved to BepInEx/plugins_removed (not permanently deleted)");
        r
    }
}

} // verus!
