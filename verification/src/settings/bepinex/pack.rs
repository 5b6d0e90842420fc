//! The BepInEx pack this manager installs, and the names of the files it
//! puts in the game folder.
use vstd::prelude::*;

verus! {

/// The pack's version.
pub open spec fn recommended_pack_version() -> Seq<char> {
    "1.0.3"@
}

/// The BepInEx version inside the pack.
pub open spec fn recommended_bepinex_version() -> Seq<char> {
    "5.4.23.4"@
}

/// The launch script this manager writes into the game folder.
pub open spec fn smm_launch_script() -> Seq<char> {
    "smm_launch.sh"@
}

/// The launch options Steam needs to start the game through the script.
pub open spec fn steam_launch_options() -> Seq<char> {
    "./smm_launch.sh %command%"@
}

/// Where the pack is downloaded from.
pub open spec fn pack_download_url_spec() -> Seq<char> {
    "https://thunderstore.io/package/download/silksong_modding/BepInExPack_Silksong/1.0.3/"@
}

/// The file name the downloaded pack is cached under.
pub open spec fn pack_cache_file_name_spec() -> Seq<char> {
    "silksong_modding-BepInExPack_Silksong-1.0.3.zip"@
}

/// The download address of the recommended pack.
pub fn pack_download_url() -> (r: String)
    ensures
        r@ == pack_download_url_spec(),
{
    "https://thunderstore.io/package/download/silksong_modding/BepInExPack_Silksong/1.0.3/".to_owned()
}

/// The cache file name of the recommended pack.
pub fn pack_cache_file_name() -> (r: String)
    ensures
        r@ == pack_cache_file_name_spec(),
{
    "silksong_modding-BepInExPack_Silksong-1.0.3.zip".to_owned()
}

/// Why the pack could not be had.
#[derive(Debug, Clone, PartialEq, Eq)]
pub enum PackError {
    CacheDirectoryUnavailable,
    DownloadFailed { detail: String },
}

/// The text shown for a pack download error.
pub open spec fn pack_error_text(e: PackError) -> Seq<char> {
    match e {
        PackError::CacheDirectoryUnavailable => "could not resolve a cache directory for bepinex downloads"@,
        PackError::DownloadFailed { detail } => "failed to download silksong_modding-BepInExPack_Silksong-1.0.3: "@ + detail@,
    }
}

impl PackError {
    /// The error as shown to the user.
    pub fn message(&self) -> (r: String)
        ensures
            r@ == pack_error_text(*self),
    {
        match self {
            PackError::CacheDirectoryUnavailable => {
                let mut r = String::new();
                crate::text::append_str(&mut r, "could not resolve a cache directory for bepinex downloads");
                r
            },
            PackError::DownloadFailed { detail } => {
                let mut r = String::new();
                crate::text::append_str(&mut r, "failed to download silksong_modding-BepInExPack_Silksong-1.0.3: ");
                crate::text::append_str(&mut r, detail.as_str());
                r
            },
        }
    }
}

} // verus!
