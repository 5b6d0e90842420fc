//! Fixed facts about the Nexus Mods side: the game's domain and how the
//! manager names itself.
use vstd::prelude::*;

use crate::text::concat_str;

verus! {

/// The game's domain on Nexus Mods.
pub open spec fn game_domain() -> Seq<char> {
    "hollowknightsilksong"@
}

/// Mods per page when the mod list is fetched.
pub const CATALOG_PAGE_SIZE: u32 = 80;

/// How long a cached mod list stays fresh, in seconds.
pub const CACHE_MAX_AGE_SECS: u64 = 3600;

/// The `User-Agent` the manager sends: its name and version.
pub fn user_agent() -> (r: String)
    ensures
        r@ == "silksong-mod-manager/"@ + "0.1.0"@,
{
    concat_str("silksong-mod-manager/", "0.1.0")
}

} // verus!
