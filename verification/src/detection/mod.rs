//! Finding the Silksong install: which folder holds the game and which
//! build of it is there. What the file system shows is probed by the caller
//! and handed in; the decisions are made here.
use vstd::prelude::*;

pub mod steam;

use crate::paths::{join_path, parent_path, path_join, path_parent};

pub use steam::{candidate_steam_roots, common_folders_from_steam_roots, library_paths_from_vdf};

verus! {

/// Steam's application id for Hollow Knight: Silksong.
pub const SILKSONG_APP_ID: u32 = 1030300;

/// The folder name the game installs into under `steamapps/common`.
pub open spec fn silksong_folder_name() -> Seq<char> {
    "Hollow Knight Silksong"@
}

/// The native Linux executable's name.
pub open spec fn native_linux_executable() -> Seq<char> {
    "Hollow Knight Silksong"@
}

/// The Windows executable's name (a Proton build).
pub open spec fn windows_executable() -> Seq<char> {
    "Hollow Knight Silksong.exe"@
}

/// The macOS application bundle's name.
pub open spec fn macos_application() -> Seq<char> {
    "Hollow Knight Silksong.app"@
}

/// Which build of the game is installed.
#[derive(Debug, Clone, Copy, PartialEq, Eq, Structural)]
pub enum BuildKind {
    NativeLinux,
    NativeMacOS,
    Proton,
}

/// A located install of the game.
#[derive(Debug, Clone, PartialEq, Eq)]
pub struct SilksongInstall {
    pub install_folder: String,
    pub executable: String,
    pub build_kind: BuildKind,
    pub proton_prefix: Option<String>,
}

/// Why no install could be used.
#[derive(Debug, Clone, PartialEq, Eq)]
pub enum DetectionError {
    InstallNotFound { searched: Vec<String> },
    ExecutableMissing { install_folder: String },
    PathMissing { path: String },
    NotADirectory { path: String },
    HomeUnavailable,
    Io(String),
}

/// What the file system shows of a candidate install folder.
#[derive(Debug, Clone, PartialEq, Eq)]
pub struct InstallProbe {
    /// The folder exists.
    pub exists: bool,
    /// The folder is a directory.
    pub is_dir: bool,
    /// `Hollow Knight Silksong.exe` is a file in it.
    pub windows_executable: bool,
    /// `Hollow Knight Silksong.app` is a directory in it.
    pub macos_application: bool,
    /// `Hollow Knight Silksong` is a file in it.
    pub native_executable: bool,
    /// The Proton prefix found for the game, if any.
    pub proton_prefix: Option<String>,
}

/// The install that [`inspect_install_folder`] reports for a folder.
pub open spec fn inspect_spec(folder: Seq<char>, probe: InstallProbe) -> Result<
    (Seq<char>, BuildKind, Option<Seq<char>>),
    int,
> {
    if !probe.exists {
        Err(0)
    } else if !probe.is_dir {
        Err(1)
    } else if probe.windows_executable {
        Ok(
            (
                join_path(folder, windows_executable()),
                BuildKind::Proton,
                match probe.proton_prefix {
                    Some(p) => Some(p@),
                    None => None,
                },
            ),
        )
    } else if probe.macos_application {
        Ok((join_path(folder, macos_application()), BuildKind::NativeMacOS, None))
    } else if probe.native_executable {
        Ok((join_path(folder, native_linux_executable()), BuildKind::NativeLinux, None))
    } else {
        Err(2)
    }
}

/// Reads which build sits in `install_folder` from what was probed there.
///
/// A Windows executable wins over a macOS bundle, which wins over a native
/// Linux executable. Only a Proton build keeps the probed prefix.
pub fn inspect_install_folder(install_folder: &str, probe: &InstallProbe) -> (r: Result<
    SilksongInstall,
    DetectionError,
>)
    ensures
        match inspect_spec(install_folder@, *probe) {
            Ok((exe, kind, prefix)) => {
                &&& r matches Ok(i)
                &&& i.install_folder@ == install_folder@
                &&& i.executable@ == exe
                &&& i.build_kind == kind
                &&& (match i.proton_prefix {
                    Some(p) => prefix == Some(p@),
                    None => prefix is None,
                })
            },
            Err(code) => {
                &&& r matches Err(e)
                &&& (match e {
                DetectionError::PathMissing { path } => code == 0 && path@ == install_folder@,
                DetectionError::NotADirectory { path } => code == 1 && path@ == install_folder@,
                DetectionError::ExecutableMissing { install_folder: f } => code == 2 && f@
                    == install_folder@,
                _ => false,
            })
            },
        },
{
    if !probe.exists {
        return Err(DetectionError::PathMissing { path: install_folder.to_owned() });
    }
    if !probe.is_dir {
        return Err(DetectionError::NotADirectory { path: install_folder.to_owned() });
    }
    let (executable, build_kind) = if probe.windows_executable {
        (path_join(install_folder, "Hollow Knight Silksong.exe"), BuildKind::Proton)
    } else if probe.macos_application {
        (path_join(install_folder, "Hollow Knight Silksong.app"), BuildKind::NativeMacOS)
    } else if probe.native_executable {
        (path_join(install_folder, "Hollow Knight Silksong"), BuildKind::NativeLinux)
    } else {
        return Err(DetectionError::ExecutableMissing { install_folder: install_folder.to_owned() });
    };
    let proton_prefix = match build_kind {
        BuildKind::Proton => match &probe.proton_prefix {
            Some(p) => Some(p.clone()),
            None => None,
        },
        _ => None,
    };
    Ok(SilksongInstall {
        install_folder: install_folder.to_owned(),
        executable,
        build_kind,
        proton_prefix,
    })
}

/// The folder where the game would sit under a `steamapps/common` folder.
pub fn candidate_install_folder(common_folder: &str) -> (r: String)
    ensures
        r@ == join_path(common_folder@, silksong_folder_name()),
{
    path_join(common_folder, "Hollow Knight Silksong")
}

/// Picks the first common folder whose game folder is a directory.
///
/// `candidate_is_dir[i]` tells whether the game folder under
/// `common_folders[i]` is a directory. The result is that game folder,
/// which the caller then inspects; with none, every folder was searched.
pub fn find_under_common_folders(common_folders: &Vec<String>, candidate_is_dir: &Vec<bool>) -> (r:
    Result<String, DetectionError>)
    requires
        candidate_is_dir.len() == common_folders.len(),
    ensures
        match r {
            Ok(found) => exists|i: int|
                0 <= i < common_folders.len() && candidate_is_dir@[i] && (forall|j: int|
                    0 <= j < i ==> !candidate_is_dir@[j]) && found@ == join_path(
                    common_folders@[i]@,
                    silksong_folder_name(),
                ),
            Err(e) => {
                &&& forall|j: int| 0 <= j < common_folders.len() ==> !candidate_is_dir@[j]
                &&& e matches DetectionError::InstallNotFound { searched }
                &&& searched.deep_view() == common_folders.deep_view()
            },
        },
{
    let mut searched: Vec<String> = Vec::new();
    let mut i: usize = 0;
    while i < common_folders.len()
        invariant
            i <= common_folders.len() == candidate_is_dir.len(),
            forall|j: int| 0 <= j < i ==> !candidate_is_dir@[j],
            searched.deep_view() == common_folders.deep_view().take(i as int),
        decreases common_folders.len() - i,
    {
        let ghost prev = searched.deep_view();
        searched.push(common_folders[i].clone());
        assert(searched.deep_view() =~= prev.push(common_folders@[i as int]@));
        if candidate_is_dir[i] {
            let found = candidate_install_folder(common_folders[i].as_str());
            return Ok(found);
        }
        i += 1;
        assert(searched.deep_view() =~= common_folders.deep_view().take(i as int));
    }
    assert(common_folders.deep_view().take(i as int) =~= common_folders.deep_view());
    Err(DetectionError::InstallNotFound { searched })
}

/// The name of a build kind as shown to the user.
pub open spec fn build_kind_text(k: BuildKind) -> Seq<char> {
    match k {
        BuildKind::NativeLinux => "native linux"@,
        BuildKind::NativeMacOS => "native macOS"@,
        BuildKind::Proton => "proton"@,
    }
}

impl BuildKind {
    /// The build kind as shown to the user.
    pub fn label(&self) -> (r: &'static str)
        ensures
            r@ == build_kind_text(*self),
    {
        match self {
            BuildKind::NativeLinux => "native linux",
            BuildKind::NativeMacOS => "native macOS",
            BuildKind::Proton => "proton",
        }
    }
}

/// The searched folders, each on a line of its own after `  - `.
pub open spec fn searched_lines(folders: Seq<Seq<char>>) -> Seq<char>
    decreases folders.len(),
{
    if folders.len() == 0 {
        Seq::empty()
    } else {
        searched_lines(folders.drop_last()) + "\n  - "@ + folders.last()
    }
}

/// The text shown for a detection error.
pub open spec fn detection_error_text(e: DetectionError) -> Seq<char> {
    match e {
        DetectionError::InstallNotFound { searched } => "could not find \"Hollow Knight Silksong\" under any steam common folder"@
            + if searched@.len() == 0 {
            " (no steam library paths were available to search)"@
        } else {
            ". searched:"@ + searched_lines(searched.deep_view())
        },
        DetectionError::ExecutableMissing { install_folder } => "found install at "@ + install_folder@
            + " but none of \"Hollow Knight Silksong\", \"Hollow Knight Silksong.app\", or \"Hollow Knight Silksong.exe\" is present"@,
        DetectionError::PathMissing { path } => "path does not exist: "@ + path@,
        DetectionError::NotADirectory { path } => "expected a directory: "@ + path@,
        DetectionError::HomeUnavailable => "HOME is unset; cannot resolve default steam paths"@,
        DetectionError::Io(d) => "filesystem error: "@ + d@,
    }
}

impl DetectionError {
    /// The error as shown to the user.
    pub fn message(&self) -> (r: String)
        ensures
            r@ == detection_error_text(*self),
    {
        let mut r = String::new();
        match self {
            DetectionError::InstallNotFound { searched } => {
                crate::text::append_str(
                    &mut r,
                    "could not find \"Hollow Knight Silksong\" under any steam common folder",
                );
                if searched.len() == 0 {
                    crate::text::append_str(&mut r, " (no steam library paths were available to search)");
                } else {
                    crate::text::append_str(&mut r, ". searched:");
                    let ghost head = r@;
                    let mut i: usize = 0;
                    while i < searched.len()
                        invariant
                            i <= searched.len(),
                            r@ == head + searched_lines(searched.deep_view().take(i as int)),
                        decreases searched.len() - i,
                    {
                        crate::text::append_str(&mut r, "\n  - ");
                        crate::text::append_str(&mut r, searched[i].as_str());
                        proof {
                            let t = searched.deep_view().take(i as int + 1);
                            assert(t.drop_last() =~= searched.deep_view().take(i as int));
                            assert(t.last() == searched@[i as int]@);
                        }
                        i += 1;
                    }
                    assert(searched.deep_view().take(searched.len() as int) =~= searched.deep_view());
                }
            },
            DetectionError::ExecutableMissing { install_folder } => {
                crate::text::append_str(&mut r, "found install at ");
                crate::text::append_str(&mut r, install_folder.as_str());
                crate::text::append_str(
                    &mut r,
                    " but none of \"Hollow Knight Silksong\", \"Hollow Knight Silksong.app\", or \"Hollow Knight Silksong.exe\" is present",
                );
            },
            DetectionError::PathMissing { path } => {
                crate::text::append_str(&mut r, "path does not exist: ");
                crate::text::append_str(&mut r, path.as_str());
            },
            DetectionError::NotADirectory { path } => {
                crate::text::append_str(&mut r, "expected a directory: ");
                crate::text::append_str(&mut r, path.as_str());
            },
            DetectionError::HomeUnavailable => {
                crate::text::append_str(&mut r, "HOME is unset; cannot resolve default steam paths");
            },
            DetectionError::Io(d) => {
                crate::text::append_str(&mut r, "filesystem error: ");
                crate::text::append_str(&mut r, d.as_str());
            },
        }
        r
    }
}

// ---------------------------------------------------------------------------
// Finding the Proton prefix
// ---------------------------------------------------------------------------

/// Where Steam keeps the game's Proton data under a `steamapps` folder.
pub open spec fn compat_entry_spec(steamapps: Seq<char>) -> Seq<char> {
    join_path(join_path(steamapps, "compatdata"@), "1030300"@)
}

/// The game's Proton data folder under a `steamapps` folder.
pub fn compat_entry(steamapps: &str) -> (r: String)
    ensures
        r@ == compat_entry_spec(steamapps@),
{
    let c = path_join(steamapps, "compatdata");
    path_join(c.as_str(), "1030300")
}

/// The Proton data folders to look in for a common folder, in order: that
/// of each common folder's parent, up to the first common folder that has
/// no parent.
pub open spec fn library_compat_entries(common_folders: Seq<Seq<char>>) -> Seq<Seq<char>>
    decreases common_folders.len(),
{
    if common_folders.len() == 0 {
        Seq::empty()
    } else {
        match path_parent(common_folders[0]) {
            Some(s) => seq![compat_entry_spec(s)] + library_compat_entries(common_folders.skip(1)),
            None => Seq::empty(),
        }
    }
}

/// The Proton data folders to look in for an install, in order: the one
/// beside the install (in the `steamapps` folder two levels up), then
/// those of the Steam libraries; none when the install has no such folder.
pub open spec fn compat_entries_spec(install_folder: Seq<char>, common_folders: Seq<Seq<char>>) -> Seq<Seq<char>> {
    match path_parent(install_folder) {
        Some(p) => match path_parent(p) {
            Some(s) => seq![compat_entry_spec(s)] + library_compat_entries(common_folders),
            None => Seq::empty(),
        },
        None => Seq::empty(),
    }
}

/// Lists the Proton data folders to look in for an install.
pub fn compat_entries(install_folder: &str, common_folders: &Vec<String>) -> (r: Vec<String>)
    ensures
        r.deep_view() == compat_entries_spec(install_folder@, common_folders.deep_view()),
{
    let mut r: Vec<String> = Vec::new();
    let steamapps = match parent_path(install_folder) {
        Some(p) => match parent_path(p.as_str()) {
            Some(s) => s,
            None => {
                assert(r.deep_view() =~= Seq::<Seq<char>>::empty());
                return r;
            },
        },
        None => {
            assert(r.deep_view() =~= Seq::<Seq<char>>::empty());
            return r;
        },
    };
    r.push(compat_entry(steamapps.as_str()));
    let ghost cs = common_folders.deep_view();
    let mut i: usize = 0;
    proof {
        assert(cs.skip(0) =~= cs);
    }
    while i < common_folders.len()
        invariant
            i <= common_folders.len(),
            cs == common_folders.deep_view(),
            r.deep_view() + library_compat_entries(cs.skip(i as int)) == compat_entries_spec(install_folder@, cs),
        decreases common_folders.len() - i,
    {
        let ghost rest = cs.skip(i as int);
        assert(rest[0] == common_folders@[i as int]@);
        assert(rest.skip(1) =~= cs.skip(i as int + 1));
        match parent_path(common_folders[i].as_str()) {
            Some(s) => {
                let ghost before = r.deep_view();
                r.push(compat_entry(s.as_str()));
                assert(r.deep_view() =~= before.push(compat_entry_spec(s@)));
                assert(before + library_compat_entries(rest) =~= r.deep_view() + library_compat_entries(
                    cs.skip(i as int + 1),
                ));
            },
            None => {
                assert(r.deep_view() + library_compat_entries(rest) =~= r.deep_view());
                return r;
            },
        }
        i += 1;
    }
    assert(library_compat_entries(cs.skip(i as int)) =~= Seq::<Seq<char>>::empty());
    assert(r.deep_view() + Seq::<Seq<char>>::empty() =~= r.deep_view());
    r
}

/// The prefix a Proton data folder offers: its `pfx` folder when that is a
/// directory, else the folder itself when it is one.
pub open spec fn prefix_of_spec(entry: Seq<char>, pfx_is_dir: bool, entry_is_dir: bool) -> Option<Seq<char>> {
    if pfx_is_dir {
        Some(join_path(entry, "pfx"@))
    } else if entry_is_dir {
        Some(entry)
    } else {
        None
    }
}

/// The prefix of the first Proton data folder that offers one; the flags
/// tell, for each folder, whether its `pfx` folder and the folder itself
/// are directories.
pub open spec fn first_prefix_spec(entries: Seq<Seq<char>>, pfx_is_dir: Seq<bool>, entry_is_dir: Seq<bool>, i: int) -> Option<Seq<char>>
    decreases entries.len() - i,
{
    if i < 0 || i >= entries.len() {
        None
    } else {
        match prefix_of_spec(entries[i], pfx_is_dir[i], entry_is_dir[i]) {
            Some(p) => Some(p),
            None => first_prefix_spec(entries, pfx_is_dir, entry_is_dir, i + 1),
        }
    }
}

/// Picks the game's Proton prefix from what was probed of each Proton data
/// folder, in order.
pub fn first_prefix(entries: &Vec<String>, pfx_is_dir: &Vec<bool>, entry_is_dir: &Vec<bool>) -> (r: Option<String>)
    requires
        pfx_is_dir.len() == entries.len(),
        entry_is_dir.len() == entries.len(),
    ensures
        match first_prefix_spec(entries.deep_view(), pfx_is_dir@, entry_is_dir@, 0) {
            Some(p) => r matches Some(s) && s@ == p,
            None => r is None,
        },
{
    let mut i: usize = 0;
    while i < entries.len()
        invariant
            i <= entries.len(),
            pfx_is_dir.len() == entries.len(),
            entry_is_dir.len() == entries.len(),
            first_prefix_spec(entries.deep_view(), pfx_is_dir@, entry_is_dir@, 0) == first_prefix_spec(
                entries.deep_view(),
                pfx_is_dir@,
                entry_is_dir@,
                i as int,
            ),
        decreases entries.len() - i,
    {
        assert(entries.deep_view()[i as int] == entries@[i as int]@);
        if pfx_is_dir[i] {
            return Some(path_join(entries[i].as_str(), "pfx"));
        }
        if entry_is_dir[i] {
            return Some(entries[i].clone());
        }
        i += 1;
    }
    None
}
} // verus!
