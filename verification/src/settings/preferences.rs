//! The manager's remembered choices.
use vstd::prelude::*;

use crate::paths::{join_path, path_join2};

verus! {

/// Why preferences could not be read or written.
#[derive(Debug, Clone, PartialEq, Eq)]
pub enum PreferencesError {
    HomeUnavailable,
    Decode(String),
    Io(String),
}

/// What the manager remembers between runs.
#[derive(Debug, Clone)]
pub struct Preferences {
    pub install_folder: Option<String>,
    pub setup_complete: bool,
}

impl Default for Preferences {
    /// Nothing remembered.
    fn default() -> (r: Self)
        ensures
            r.install_folder is None,
            !r.setup_complete,
    {
        Preferences { install_folder: None, setup_complete: false }
    }
}

/// The preferences file under the home folder.
pub fn preferences_path(home: &str) -> (r: String)
    ensures
        r@ == join_path(join_path(join_path(join_path(home@, ".local"@), "share"@), "pollip"@), "preferences.json"@),
{
    let a = path_join2(home, ".local", "share");
    path_join2(a.as_str(), "pollip", "preferences.json")
}

/// Remembers the game folder.
pub fn remember_install_folder(preferences: &mut Preferences, folder: &str)
    ensures
        final(preferences).install_folder matches Some(f) && f@ == folder@,
        final(preferences).setup_complete == old(preferences).setup_complete,
{
    preferences.install_folder = Some(folder.to_owned());
}

/// Remembers that first-run setup is done.
pub fn mark_setup_complete(preferences: &mut Preferences)
    ensures
        final(preferences).setup_complete,
        final(preferences).install_folder == old(preferences).install_folder,
{
    preferences.setup_complete = true;
}

/// The text shown for a preferences error.
pub open spec fn preferences_error_text(e: PreferencesError) -> Seq<char> {
    match e {
        PreferencesError::HomeUnavailable => "HOME is unset; cannot store preferences"@,
        PreferencesError::Decode(d) => "preferences json error: "@ + d@,
        PreferencesError::Io(d) => "preferences io error: "@ + d@,
    }
}

impl PreferencesError {
    /// The error as shown to the user.
    pub fn message(&self) -> (r: String)
        ensures
            r@ == preferences_error_text(*self),
    {
        match self {
            PreferencesError::HomeUnavailable => {
                let mut r = String::new();
                crate::text::append_str(&mut r, "HOME is unset; cannot store preferences");
                r
            },
            PreferencesError::Decode(d) => {
                let mut r = String::new();
                crate::text::append_str(&mut r, "preferences json error: ");
                crate::text::append_str(&mut r, d.as_str());
                r
            },
            PreferencesError::Io(d) => {
                let mut r = String::new();
                crate::text::append_str(&mut r, "preferences io error: ");
                crate::text::append_str(&mut r, d.as_str());
                r
            },
        }
    }
}

} // verus!
