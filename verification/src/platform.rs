//! Per-user folders of the manager, from the home folder, for the
//! operating system the manager runs on.
use vstd::prelude::*;

use crate::detection::steam::{candidate_steam_roots, steam_roots_spec};
use crate::paths::{join_path, path_join, path_join2};

verus! {

/// The operating systems whose per-user folders differ: macOS keeps them
/// under `Library`, the others follow the XDG layout.
#[derive(Debug, Clone, Copy, PartialEq, Eq, Structural)]
pub enum HostOs {
    MacOs,
    Linux,
}

/// The manager's data folder: `Library/Application Support/pollip` under
/// the home folder on macOS, `.local/share/pollip` elsewhere.
pub open spec fn data_directory_spec(home: Seq<char>, os: HostOs) -> Seq<char> {
    match os {
        HostOs::MacOs => join_path(
            join_path(join_path(home, "Library"@), "Application Support"@),
            "pollip"@,
        ),
        HostOs::Linux => join_path(join_path(join_path(home, ".local"@), "share"@), "pollip"@),
    }
}

/// The manager's cache folder: `Library/Caches/pollip` under the home
/// folder on macOS, `.cache/pollip` elsewhere.
pub open spec fn cache_directory_spec(home: Seq<char>, os: HostOs) -> Seq<char> {
    match os {
        HostOs::MacOs => join_path(join_path(join_path(home, "Library"@), "Caches"@), "pollip"@),
        HostOs::Linux => join_path(join_path(home, ".cache"@), "pollip"@),
    }
}

/// The manager's data folder under the home folder.
pub fn data_directory(home: &str, os: HostOs) -> (r: String)
    ensures
        r@ == data_directory_spec(home@, os),
{
    match os {
        HostOs::MacOs => {
            let a = path_join2(home, "Library", "Application Support");
            path_join(a.as_str(), "pollip")
        },
        HostOs::Linux => {
            let a = path_join2(home, ".local", "share");
            path_join(a.as_str(), "pollip")
        },
    }
}

/// The manager's cache folder under the home folder.
pub fn cache_directory(home: &str, os: HostOs) -> (r: String)
    ensures
        r@ == cache_directory_spec(home@, os),
{
    match os {
        HostOs::MacOs => {
            let a = path_join2(home, "Library", "Caches");
            path_join(a.as_str(), "pollip")
        },
        HostOs::Linux => path_join2(home, ".cache", "pollip"),
    }
}

/// The Steam root folders to try under the home folder: Steam's folder in
/// `Library/Application Support` on macOS, the native, Flatpak and Snap
/// installs elsewhere.
pub fn steam_root_candidates(home: &str, os: HostOs) -> (r: Vec<String>)
    ensures
        r.deep_view() == (match os {
            HostOs::MacOs => seq![
                join_path(join_path(join_path(home@, "Library"@), "Application Support"@), "Steam"@),
            ],
            HostOs::Linux => steam_roots_spec(home@),
        }),
{
    match os {
        HostOs::MacOs => {
            let a = path_join2(home, "Library", "Application Support");
            let mut r: Vec<String> = Vec::new();
            r.push(path_join(a.as_str(), "Steam"));
            proof {
                assert(r.deep_view() =~= seq![
                    join_path(join_path(join_path(home@, "Library"@), "Application Support"@), "Steam"@),
                ]);
            }
            r
        },
        HostOs::Linux => candidate_steam_roots(home),
    }
}

} // verus!
