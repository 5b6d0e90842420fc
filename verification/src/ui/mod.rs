//! State behind the manager's window that does not depend on drawing.
pub mod theme;
pub mod toast;

use vstd::prelude::*;

verus! {

/// The panel shown in the main window.
#[derive(Debug, Clone, Copy, PartialEq, Eq, Structural)]
pub enum ActivePanel {
    Mods,
    Profiles,
    Settings,
}

impl Default for ActivePanel {
    /// The mods panel.
    fn default() -> (r: Self)
        ensures
            r == ActivePanel::Mods,
    {
        ActivePanel::Mods
    }
}

} // verus!
