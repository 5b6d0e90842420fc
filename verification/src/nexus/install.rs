//! What the manager records about a mod installed from Nexus Mods, and the
//! choices made while installing one.
use vstd::prelude::*;

use super::nxm::NxmLink;
use super::package::{ApiFile, ApiFileList, RemoteMod};
use crate::archive::{escapes_destination, escapes_destination_exec};
use crate::text::{
    append_str, chars_of, concat_str, decimal, decimal_string, eq_ignore_case, eq_ignore_case_exec, trim, trim_str,
};

verus! {

/// The record kept next to a mod installed from Nexus Mods.
#[derive(Debug, Clone, PartialEq, Eq)]
pub struct NexusMeta {
    pub source: String,
    pub mod_id: u64,
    pub file_id: u64,
    pub game_domain: String,
    pub mod_name: String,
    pub version: String,
    pub author: String,
}

/// Why a Nexus mod could not be installed.
#[derive(Debug, Clone, PartialEq, Eq)]
pub enum InstallError {
    Catalog(String),
    Client(String),
    MissingApiKey,
    NoDownloadableFile,
    NoDownloadLink,
    Zip(String),
    UnsafeArchivePath { entry: String },
    Io(String),
    Mods(String),
}

/// The folder name a Nexus mod is installed under.
pub fn nexus_entry_name(mod_id: u64) -> (r: String)
    ensures
        r@ == "nexus-"@ + decimal(mod_id as nat),
{
    concat_str("nexus-", decimal_string(mod_id).as_str())
}

/// Index of the file to download: the primary one, else the first in the
/// `MAIN` category (any case), else the first.
pub open spec fn primary_index(files: Seq<ApiFile>) -> Option<int> {
    if exists|i: int| 0 <= i < files.len() && files[i].is_primary {
        Some(choose|i: int| 0 <= i < files.len() && files[i].is_primary && forall|j: int| 0 <= j < i ==> !files[j].is_primary)
    } else if exists|i: int| 0 <= i < files.len() && eq_ignore_case(files[i].category_name@, "MAIN"@) {
        Some(choose|i: int| 0 <= i < files.len() && eq_ignore_case(files[i].category_name@, "MAIN"@) && forall|j: int| 0 <= j < i ==> !eq_ignore_case(files[j].category_name@, "MAIN"@))
    } else if files.len() > 0 {
        Some(0)
    } else {
        None
    }
}

/// Picks the file to download from a mod's files.
pub fn pick_primary_file(files: &[ApiFile]) -> (r: Option<&ApiFile>)
    ensures
        match primary_index(files@) {
            Some(i) => r matches Some(f) && *f == files@[i],
            None => r is None,
        },
{
    let mut i: usize = 0;
    while i < files.len()
        invariant
            i <= files.len(),
            forall|j: int| 0 <= j < i ==> !files@[j].is_primary,
        decreases files.len() - i,
    {
        if files[i].is_primary {
            proof {
                let w = i as int;
                assert(0 <= w < files@.len() && files@[w].is_primary && forall|j: int| 0 <= j < w ==> !files@[j].is_primary);
                let c = choose|k: int| 0 <= k < files@.len() && files@[k].is_primary && forall|j: int| 0 <= j < k ==> !files@[j].is_primary;
                assert(c == w) by {
                    if c < w {
                    } else if c > w {
                    }
                }
            }
            return Some(&files[i]);
        }
        i += 1;
    }
    let main = chars_of("MAIN");
    let mut k: usize = 0;
    while k < files.len()
        invariant
            k <= files.len(),
            main@ == "MAIN"@,
            forall|j: int| 0 <= j < files.len() ==> !files@[j].is_primary,
            forall|j: int| 0 <= j < k ==> !eq_ignore_case(files@[j].category_name@, "MAIN"@),
        decreases files.len() - k,
    {
        if eq_ignore_case_exec(&chars_of(files[k].category_name.as_str()), &main) {
            proof {
                let w = k as int;
                let c = choose|m: int| 0 <= m < files@.len() && eq_ignore_case(files@[m].category_name@, "MAIN"@) && forall|j: int| 0 <= j < m ==> !eq_ignore_case(files@[j].category_name@, "MAIN"@);
                assert(eq_ignore_case(files@[w].category_name@, "MAIN"@));
                assert(c == w) by {
                    if c < w {
                    } else if c > w {
                    }
                }
            }
            return Some(&files[k]);
        }
        k += 1;
    }
    if files.len() > 0 {
        Some(&files[0])
    } else {
        None
    }
}

/// The record for a mod installed with a premium account: the chosen file's
/// version when it has one, else the mod's.
pub fn premium_meta(remote: &RemoteMod, file: &ApiFile) -> (r: NexusMeta)
    ensures
        r.source@ == "nexus"@,
        r.mod_id == remote.mod_id,
        r.file_id == file.file_id,
        r.game_domain@ == remote.domain_name@,
        r.mod_name@ == remote.name@,
        r.version@ == (if trim(file.version@).len() == 0 { remote.version@ } else { file.version@ }),
        r.author@ == remote.author@,
{
    let version = if chars_of(trim_str(file.version.as_str()).as_str()).len() == 0 {
        remote.version.clone()
    } else {
        file.version.clone()
    };
    NexusMeta {
        source: "nexus".to_owned(),
        mod_id: remote.mod_id,
        file_id: file.file_id,
        game_domain: remote.domain_name.clone(),
        mod_name: remote.name.clone(),
        version,
        author: remote.author.clone(),
    }
}

/// Index of the first file with this id, from `i` on.
pub open spec fn file_index(files: Seq<ApiFile>, file_id: u64, i: int) -> Option<int>
    decreases files.len() - i,
{
    if i < 0 || i >= files.len() {
        None
    } else if files[i].file_id == file_id {
        Some(i)
    } else {
        file_index(files, file_id, i + 1)
    }
}

/// Finds the file with this id.
fn find_file(files: &Vec<ApiFile>, file_id: u64) -> (r: Option<usize>)
    ensures
        match file_index(files@, file_id, 0) {
            Some(i) => r == Some(i as usize) && 0 <= i < files.len(),
            None => r is None,
        },
{
    let mut i: usize = 0;
    while i < files.len()
        invariant
            i <= files.len(),
            file_index(files@, file_id, 0) == file_index(files@, file_id, i as int),
        decreases files.len() - i,
    {
        if files[i].file_id == file_id {
            return Some(i);
        }
        i += 1;
    }
    None
}

/// The record for a mod installed from an `nxm://` link: the name and
/// version of the linked file when the file list has it (a nameless file
/// taking the folder name), else the folder name and no version.
pub fn nxm_meta(link: &NxmLink, files: Option<ApiFileList>) -> (r: NexusMeta)
    ensures
        r.source@ == "nexus"@,
        r.mod_id == link.mod_id,
        r.file_id == link.file_id,
        r.game_domain@ == link.game_domain@,
        r.author@.len() == 0,
        match files {
            Some(list) => match file_index(list.files@, link.file_id, 0) {
                Some(i) => {
                    &&& r.mod_name@ == (if list.files@[i].name@.len() == 0 { "nexus-"@ + decimal(link.mod_id as nat) } else { list.files@[i].name@ })
                    &&& r.version@ == list.files@[i].version@
                },
                None => r.mod_name@ == "nexus-"@ + decimal(link.mod_id as nat) && r.version@.len() == 0,
            },
            None => r.mod_name@ == "nexus-"@ + decimal(link.mod_id as nat) && r.version@.len() == 0,
        },
{
    let fallback = nexus_entry_name(link.mod_id);
    let (mod_name, version) = match &files {
        Some(list) => match find_file(&list.files, link.file_id) {
            Some(i) => {
                let f = &list.files[i];
                let name = if chars_of(f.name.as_str()).len() > 0 {
                    f.name.clone()
                } else {
                    fallback
                };
                (name, f.version.clone())
            },
            None => (fallback, String::new()),
        },
        None => (fallback, String::new()),
    };
    NexusMeta {
        source: "nexus".to_owned(),
        mod_id: link.mod_id,
        file_id: link.file_id,
        game_domain: link.game_domain.clone(),
        mod_name,
        version,
        author: String::new(),
    }
}

/// Refuses an archive entry that would be written outside its folder.
pub fn ensure_safe_relative(entry_name: &str) -> (r: Result<(), InstallError>)
    ensures
        escapes_destination(entry_name@) ==> (r matches Err(InstallError::UnsafeArchivePath { entry }) && entry@ == entry_name@),
        !escapes_destination(entry_name@) ==> r is Ok,
{
    if escapes_destination_exec(entry_name) {
        Err(InstallError::UnsafeArchivePath { entry: entry_name.to_owned() })
    } else {
        Ok(())
    }
}

/// The text shown for a failed Nexus install.
pub open spec fn install_error_text(e: InstallError) -> Seq<char> {
    match e {
        InstallError::Catalog(d) => d@,
        InstallError::Client(d) => d@,
        InstallError::MissingApiKey => "add your nexus mods api key in settings before installing"@,
        InstallError::NoDownloadableFile => "no primary downloadable file found for this mod"@,
        InstallError::NoDownloadLink => "nexus did not return a download link"@,
        InstallError::Zip(d) => "zip error: "@ + d@,
        InstallError::UnsafeArchivePath { entry } => "refusing unsafe archive path: "@ + entry@,
        InstallError::Io(d) => "nexus install io error: "@ + d@,
        InstallError::Mods(d) => d@,
    }
}

impl InstallError {
    /// The error as shown to the user.
    pub fn message(&self) -> (r: String)
        ensures
            r@ == install_error_text(*self),
    {
        match self {
            InstallError::Catalog(d) => {
                let mut r = String::new();
                crate::text::append_str(&mut r, d.as_str());
                r
            },
            InstallError::Client(d) => {
                let mut r = String::new();
                crate::text::append_str(&mut r, d.as_str());
                r
            },
            InstallError::MissingApiKey => {
                let mut r = String::new();
                crate::text::append_str(&mut r, "add your nexus mods api key in settings before installing");
                r
            },
            InstallError::NoDownloadableFile => {
                let mut r = String::new();
                crate::text::append_str(&mut r, "no primary downloadable file found for this mod");
                r
            },
            InstallError::NoDownloadLink => {
                let mut r = String::new();
                crate::text::append_str(&mut r, "nexus did not return a download link");
                r
            },
            InstallError::Zip(d) => {
                let mut r = String::new();
                crate::text::append_str(&mut r, "zip error: ");
                crate::text::append_str(&mut r, d.as_str());
                r
            },
            InstallError::UnsafeArchivePath { entry } => {
                let mut r = String::new();
                crate::text::append_str(&mut r, "refusing unsafe archive path: ");
                crate::text::append_str(&mut r, entry.as_str());
                r
            },
            InstallError::Io(d) => {
                let mut r = String::new();
                crate::text::append_str(&mut r, "nexus install io error: ");
                crate::text::append_str(&mut r, d.as_str());
                r
            },
            InstallError::Mods(d) => {
                let mut r = String::new();
                crate::text::append_str(&mut r, d.as_str());
                r
            },
        }
    }
}

/// The file a downloaded archive is cached under.
pub fn nexus_archive_name(mod_id: u64, file_id: u64) -> (r: String)
    ensures
        r@ == "nexus-"@ + decimal(mod_id as nat) + "-"@ + decimal(file_id as nat) + ".zip"@,
{
    let mut r = concat_str("nexus-", decimal_string(mod_id).as_str());
    append_str(&mut r, "-");
    append_str(&mut r, decimal_string(file_id).as_str());
    append_str(&mut r, ".zip");
    r
}

/// The address to download from: the first link Nexus returned.
pub fn first_download_link(links: &Vec<String>) -> (r: Result<String, InstallError>)
    ensures
        links.len() == 0 ==> r == Err::<String, InstallError>(InstallError::NoDownloadLink),
        links.len() > 0 ==> (r matches Ok(u) && u@ == links@[0]@),
{
    if links.len() == 0 {
        Err(InstallError::NoDownloadLink)
    } else {
        Ok(links[0].clone())
    }
}

/// The version written into the package description of a Nexus mod:
/// its version, or `0.0.0` when it has none.
pub fn manifest_version(version: &str) -> (r: String)
    ensures
        r@ == (if version@.len() == 0 {
            "0.0.0"@
        } else {
            version@
        }),
{
    if chars_of(version).len() == 0 {
        "0.0.0".to_owned()
    } else {
        version.to_owned()
    }
}

/// The bytes start like a ZIP archive: at least four of them, the first
/// two `P` and `K`.
pub fn looks_like_zip(bytes: &[u8]) -> (r: bool)
    ensures
        r == (bytes@.len() >= 4 && bytes@[0] == 0x50u8 && bytes@[1] == 0x4Bu8),
{
    bytes.len() >= 4 && bytes[0] == 0x50 && bytes[1] == 0x4B
}

/// A download is extracted as a ZIP archive when its extension is `zip` in
/// any case or its bytes start like one; otherwise it is copied as is.
pub fn is_zip_download(extension: Option<String>, bytes: &[u8]) -> (r: bool)
    ensures
        r == ((extension matches Some(x) && eq_ignore_case(x@, "zip"@)) || (bytes@.len() >= 4 && bytes@[0] == 0x50u8
            && bytes@[1] == 0x4Bu8)),
{
    let by_name = match &extension {
        Some(x) => eq_ignore_case_exec(&chars_of(x.as_str()), &chars_of("zip")),
        None => false,
    };
    by_name || looks_like_zip(bytes)
}
} // verus!
