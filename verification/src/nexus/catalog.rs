//! The cached Nexus Mods list: where it lives and how its age is shown.
use crate::stable::{keeps_order, lemma_insert_next, rearranges, stable_rearrangement};
use vstd::prelude::*;

use super::package::{shown_mod, ApiMod, RemoteMod};
use crate::mods::order::{lemma_text_lt_irreflexive, lemma_text_lt_transitive, text_lt, text_lt_exec};
use crate::text::{chars_of, lowercase, to_lower};
use crate::paths::{join_path, path_join};
use crate::text::{append_str, concat_str, decimal, decimal_string};

verus! {

/// A loaded mod list.
#[derive(Debug, Clone)]
pub struct CatalogSnapshot {
    pub mods: Vec<RemoteMod>,
    /// When the list was fetched, in seconds since the Unix epoch.
    pub fetched_at_unix: u64,
    pub from_cache: bool,
    pub network_warning: Option<String>,
}

/// Why the mod list could not be loaded.
#[derive(Debug, Clone, PartialEq, Eq)]
pub enum CatalogError {
    CacheDirectoryUnavailable,
    MissingApiKey,
    Client(String),
    Decode(String),
    Io(String),
}

/// How old a list fetched `age_secs` seconds ago is, for display.
pub open spec fn cache_age_label_spec(age_secs: u64) -> Seq<char> {
    if age_secs < 60 {
        "updated just now"@
    } else if age_secs < 3600 {
        "updated "@ + decimal((age_secs / 60) as nat) + "m ago"@
    } else {
        "updated "@ + decimal((age_secs / 3600) as nat) + "h ago"@
    }
}

/// How old the list is: just now under a minute, then whole minutes, then
/// whole hours.
pub fn cache_age_label(age_secs: u64) -> (r: String)
    ensures
        r@ == cache_age_label_spec(age_secs),
{
    if age_secs < 60 {
        "updated just now".to_owned()
    } else if age_secs < 3600 {
        let mut r = concat_str("updated ", decimal_string(age_secs / 60).as_str());
        append_str(&mut r, "m ago");
        r
    } else {
        let mut r = concat_str("updated ", decimal_string(age_secs / 3600).as_str());
        append_str(&mut r, "h ago");
        r
    }
}

/// Where the mod list is cached: the folder named by the cache variable
/// when set, else `nexus` under the manager's cache folder.
pub fn cache_directory(explicit: Option<String>, platform_cache: &str) -> (r: String)
    ensures
        match explicit {
            Some(e) => r@ == e@,
            None => r@ == join_path(platform_cache@, "nexus"@),
        },
{
    match explicit {
        Some(e) => e,
        None => path_join(platform_cache, "nexus"),
    }
}

/// Where downloaded archives are cached.
pub fn zip_cache_directory(cache_directory: &str) -> (r: String)
    ensures
        r@ == join_path(cache_directory@, "zips"@),
{
    path_join(cache_directory, "zips")
}

/// The cached list's file.
pub fn catalog_cache_path(cache_directory: &str) -> (r: String)
    ensures
        r@ == join_path(cache_directory@, "catalog.json"@),
{
    path_join(cache_directory, "catalog.json")
}

/// Is a cache of this age still fresh?
pub fn cache_is_fresh(age_secs: u64) -> (r: bool)
    ensures
        r == (age_secs <= 3600),
{
    age_secs <= 3600
}

/// The text shown for a mod list that could not be loaded.
pub open spec fn catalog_error_text(e: CatalogError) -> Seq<char> {
    match e {
        CatalogError::CacheDirectoryUnavailable => "could not resolve a cache directory for nexus mods"@,
        CatalogError::MissingApiKey => "add your nexus mods api key in settings before browsing"@,
        CatalogError::Client(d) => d@,
        CatalogError::Decode(d) => "could not parse nexus cache: "@ + d@,
        CatalogError::Io(d) => "nexus cache io error: "@ + d@,
    }
}

impl CatalogError {
    /// The error as shown to the user.
    pub fn message(&self) -> (r: String)
        ensures
            r@ == catalog_error_text(*self),
    {
        match self {
            CatalogError::CacheDirectoryUnavailable => {
                let mut r = String::new();
                crate::text::append_str(&mut r, "could not resolve a cache directory for nexus mods");
                r
            },
            CatalogError::MissingApiKey => {
                let mut r = String::new();
                crate::text::append_str(&mut r, "add your nexus mods api key in settings before browsing");
                r
            },
            CatalogError::Client(d) => {
                let mut r = String::new();
                crate::text::append_str(&mut r, d.as_str());
                r
            },
            CatalogError::Decode(d) => {
                let mut r = String::new();
                crate::text::append_str(&mut r, "could not parse nexus cache: ");
                crate::text::append_str(&mut r, d.as_str());
                r
            },
            CatalogError::Io(d) => {
                let mut r = String::new();
                crate::text::append_str(&mut r, "nexus cache io error: ");
                crate::text::append_str(&mut r, d.as_str());
                r
            },
        }
    }
}

/// Mod `a` is listed before `b`: more endorsements first, then by name
/// lower-cased, character by character.
pub open spec fn mod_listed_before(a: RemoteMod, b: RemoteMod) -> bool {
    a.endorsement_count > b.endorsement_count || (a.endorsement_count == b.endorsement_count && text_lt(lowercase(a.name@), lowercase(b.name@)))
}

/// No mod is listed before one that comes earlier.
pub open spec fn remote_mods_sorted(s: Seq<RemoteMod>) -> bool {
    forall|i: int, j: int| 0 <= i < j < s.len() ==> !mod_listed_before(#[trigger] s[j], #[trigger] s[i])
}

/// The listing order is transitive.
pub proof fn lemma_mod_listed_before_transitive(a: RemoteMod, b: RemoteMod, c: RemoteMod)
    requires
        mod_listed_before(a, b),
        mod_listed_before(b, c),
    ensures
        mod_listed_before(a, c),
{
    if a.endorsement_count == b.endorsement_count && b.endorsement_count == c.endorsement_count {
        lemma_text_lt_transitive(lowercase(a.name@), lowercase(b.name@), lowercase(c.name@), 0);
    }
}

/// No mod is listed before itself.
pub proof fn lemma_mod_listed_before_irreflexive(a: RemoteMod)
    ensures
        !mod_listed_before(a, a),
{
    lemma_text_lt_irreflexive(lowercase(a.name@), 0);
}

/// Two mods tie in the listing: the same endorsements and the same name lower-cased.
pub open spec fn same_listing_key() -> spec_fn(RemoteMod, RemoteMod) -> bool {
    |a: RemoteMod, b: RemoteMod| a.endorsement_count == b.endorsement_count && lowercase(a.name@) == lowercase(b.name@)
}

/// Sorts mods: more endorsements first, then by name lower-cased; mods
/// that tie keep their order.
pub fn sort_remote_mods(items: Vec<RemoteMod>) -> (r: Vec<RemoteMod>)
    ensures
        r@.to_multiset() == items@.to_multiset(),
        remote_mods_sorted(r@),
        stable_rearrangement(items@, r@, same_listing_key()),
{
    let mut out: Vec<RemoteMod> = Vec::new();
    let mut keys: Vec<Vec<char>> = Vec::new();
    let mut rest = items;
    let ghost orig = rest@;
    let ghost mut taken: int = 0;
    let ghost mut perm: Seq<int> = Seq::empty();
    proof {
        assert(orig.take(0) =~= Seq::<RemoteMod>::empty());
        assert(orig.skip(0) =~= orig);
    }
    while rest.len() > 0
        invariant
            0 <= taken <= orig.len(),
            taken + rest.len() == orig.len(),
            rest@ == orig.skip(taken),
            out@.to_multiset() == orig.take(taken).to_multiset(),
            remote_mods_sorted(out@),
            rearranges(orig.take(taken), out@, perm),
            keeps_order(out@, perm, same_listing_key()),
            keys@.len() == out@.len(),
            forall|k: int| 0 <= k < out@.len() ==> (#[trigger] keys@[k])@ == lowercase(out@[k].name@),
        decreases rest.len(),
    {
        let item = rest.remove(0);
        let lk = chars_of(to_lower(item.name.as_str()).as_str());
        let mut q: usize = 0;
        while q < out.len()
            invariant
                q <= out.len(),
                keys@.len() == out@.len(),
                forall|k: int| 0 <= k < out@.len() ==> (#[trigger] keys@[k])@ == lowercase(out@[k].name@),
                lk@ == lowercase(item.name@),
                forall|j: int| 0 <= j < q ==> !mod_listed_before(item, #[trigger] out@[j]),
            ensures
                q <= out.len(),
                forall|j: int| 0 <= j < q ==> !mod_listed_before(item, #[trigger] out@[j]),
                q < out.len() ==> mod_listed_before(item, out@[q as int]),
            decreases out.len() - q,
        {
            let ahead = item.endorsement_count > out[q].endorsement_count || (item.endorsement_count == out[q].endorsement_count && text_lt_exec(
                &lk,
                &keys[q],
            ));
            if ahead {
                break;
            }
            q += 1;
        }
        let p = q;
        let ghost before = out@;
        proof {
            assert forall|k: int| p <= k < before.len() implies !mod_listed_before(#[trigger] before[k], item) by {
                if mod_listed_before(before[k], item) {
                    lemma_mod_listed_before_transitive(before[k], item, before[p as int]);
                    if k == p {
                        lemma_mod_listed_before_irreflexive(before[k]);
                    } else {
                        assert(!mod_listed_before(before[k], before[p as int]));
                    }
                }
            }
        }
        proof {
            assert forall|k: int| p <= k < before.len() implies !same_listing_key()(orig[taken], #[trigger] before[k]) by {
                assert(orig[taken] == item);
                if same_listing_key()(item, before[k]) {
                    if k == p {
                        lemma_mod_listed_before_irreflexive(before[k]);
                    } else {
                        assert(!mod_listed_before(before[k], before[p as int]));
                    }
                }
            }
            lemma_insert_next(orig, taken, before, perm, p as int, same_listing_key());
            perm = perm.insert(p as int, taken);
        }
        out.insert(p, item);
        keys.insert(p, lk);
        proof {
            let after = out@;
            assert(after == before.insert(p as int, item));
            assert forall|i: int, j: int| 0 <= i < j < after.len() implies !mod_listed_before(#[trigger] after[j], #[trigger] after[i]) by {
                if i < p && j < p {
                    assert(after[i] == before[i] && after[j] == before[j]);
                } else if i < p && j == p {
                    assert(after[i] == before[i]);
                } else if i < p && j > p {
                    assert(after[i] == before[i] && after[j] == before[j - 1]);
                } else if i == p {
                    assert(after[j] == before[j - 1]);
                } else {
                    assert(after[i] == before[i - 1] && after[j] == before[j - 1]);
                }
            }
            assert forall|k: int| 0 <= k < after.len() implies (#[trigger] keys@[k])@ == lowercase(after[k].name@) by {
                if k > p {
                    assert(after[k] == before[k - 1]);
                }
            }
            assert(orig.take(taken + 1) =~= orig.take(taken).push(orig[taken]));
            assert(orig[taken] == item);
            vstd::seq_lib::to_multiset_insert(before, p as int, item);
            vstd::seq_lib::to_multiset_build(orig.take(taken), item);
            taken = taken + 1;
            assert(rest@ =~= orig.skip(taken));
        }
    }
    assert(orig.take(orig.len() as int) =~= orig);
    assert(rearranges(items@, out@, perm) && keeps_order(out@, perm, same_listing_key()));
    out
}

/// The list keeps a record that is available or has a name.
pub open spec fn keeps_mod(a: ApiMod) -> bool {
    a.available || a.name@.len() > 0
}

/// The records the list keeps, in order.
pub open spec fn kept_mods(api: Seq<ApiMod>) -> Seq<ApiMod>
    decreases api.len(),
{
    if api.len() == 0 {
        Seq::empty()
    } else {
        kept_mods(api.drop_last()) + if keeps_mod(api.last()) {
            seq![api.last()]
        } else {
            Seq::empty()
        }
    }
}

/// The kept records as shown, in order.
pub fn shown_mods(api: Vec<ApiMod>) -> (r: Vec<RemoteMod>)
    ensures
        r@.len() == kept_mods(api@).len(),
        forall|j: int| 0 <= j < r@.len() ==> shown_mod(kept_mods(api@)[j], #[trigger] r@[j]),
{
    let ghost orig = api@;
    let mut rest = api;
    let mut out: Vec<RemoteMod> = Vec::new();
    let ghost mut taken: int = 0;
    proof {
        assert(orig.skip(0) =~= orig);
        assert(orig.take(0) =~= Seq::<ApiMod>::empty());
    }
    while rest.len() > 0
        invariant
            0 <= taken <= orig.len(),
            taken + rest.len() == orig.len(),
            rest@ == orig.skip(taken),
            out@.len() == kept_mods(orig.take(taken)).len(),
            forall|j: int| 0 <= j < out@.len() ==> shown_mod(kept_mods(orig.take(taken))[j], #[trigger] out@[j]),
        decreases rest.len(),
    {
        let a = rest.remove(0);
        let ghost ga = a;
        let ghost before = out@;
        proof {
            assert(ga == orig[taken]);
            assert(orig.take(taken + 1).drop_last() =~= orig.take(taken));
            assert(orig.take(taken + 1).last() == ga);
        }
        match RemoteMod::from_api(a) {
            Some(p) => {
                out.push(p);
            },
            None => {},
        }
        proof {
            let kt = kept_mods(orig.take(taken));
            let kt2 = kept_mods(orig.take(taken + 1));
            assert forall|j: int| 0 <= j < out@.len() implies shown_mod(kt2[j], #[trigger] out@[j]) by {
                if j < before.len() {
                    assert(out@[j] == before[j]);
                    assert(kt2[j] == kt[j]);
                }
            }
            taken = taken + 1;
            assert(rest@ =~= orig.skip(taken));
        }
    }
    assert(orig.take(orig.len() as int) =~= orig);
    out
}

/// The mod list as shown: records that are available or named, each as
/// shown, with more endorsements first, then by name lower-cased; ties
/// keep the list's order.
pub fn flatten_mods(api: Vec<ApiMod>) -> (r: Vec<RemoteMod>)
    ensures
        remote_mods_sorted(r@),
        exists|shown: Seq<RemoteMod>|
            #![trigger shown.to_multiset()]
            shown.len() == kept_mods(api@).len() && (forall|j: int|
                0 <= j < shown.len() ==> shown_mod(kept_mods(api@)[j], #[trigger] shown[j]))
                && r@.to_multiset() == shown.to_multiset() && stable_rearrangement(shown, r@, same_listing_key()),
{
    let shown = shown_mods(api);
    let ghost s = shown@;
    let r = sort_remote_mods(shown);
    assert(r@.to_multiset() == s.to_multiset());
    r
}
} // verus!
