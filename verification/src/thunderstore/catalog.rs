//! The cached Thunderstore package list: where it lives, how fresh it is,
//! and how its age is shown.
use crate::stable::{keeps_order, lemma_insert_next, rearranges, stable_rearrangement};
use vstd::prelude::*;

use super::package::{shown_as, ApiPackage, RemotePackage};
use crate::mods::order::{lemma_text_lt_irreflexive, lemma_text_lt_transitive, text_lt, text_lt_exec};
use crate::text::{chars_of, lowercase, to_lower};
use crate::nexus::catalog::{cache_age_label_spec, cache_age_label as age_label};
use crate::paths::{join_path, path_join};
use crate::text::{concat_str};

verus! {

/// A loaded package list.
#[derive(Debug, Clone)]
pub struct CatalogSnapshot {
    pub packages: Vec<RemotePackage>,
    /// When the list was fetched, in seconds since the Unix epoch.
    pub fetched_at_unix: u64,
    pub from_cache: bool,
    pub network_warning: Option<String>,
}

/// Why the package list could not be loaded.
#[derive(Debug, Clone, PartialEq, Eq)]
pub enum CatalogError {
    CacheDirectoryUnavailable,
    Network(String),
    Decode(String),
    Io(String),
}

/// The text shown for a catalog error.
pub open spec fn catalog_error_text(e: CatalogError) -> Seq<char> {
    match e {
        CatalogError::CacheDirectoryUnavailable => "could not resolve a cache directory for thunderstore packages"@,
        CatalogError::Network(d) => "could not reach thunderstore (check your network): "@ + d@,
        CatalogError::Decode(d) => "could not parse thunderstore response: "@ + d@,
        CatalogError::Io(d) => "thunderstore cache io error: "@ + d@,
    }
}

impl CatalogError {
    /// The error as shown to the user.
    pub fn message(&self) -> (r: String)
        ensures
            r@ == catalog_error_text(*self),
    {
        match self {
            CatalogError::CacheDirectoryUnavailable => {
                "could not resolve a cache directory for thunderstore packages".to_owned()
            },
            CatalogError::Network(d) => concat_str(
                "could not reach thunderstore (check your network): ",
                d.as_str(),
            ),
            CatalogError::Decode(d) => concat_str("could not parse thunderstore response: ", d.as_str()),
            CatalogError::Io(d) => concat_str("thunderstore cache io error: ", d.as_str()),
        }
    }
}

/// How old a list fetched `age_secs` seconds ago is: just now under a
/// minute, then whole minutes, then whole hours.
pub fn cache_age_label(age_secs: u64) -> (r: String)
    ensures
        r@ == cache_age_label_spec(age_secs),
{
    age_label(age_secs)
}

/// The folder under the home folder where the list is cached.
pub open spec fn default_cache_directory(home: Seq<char>) -> Seq<char> {
    join_path(
        join_path(join_path(home, ".cache"@), "silksong-mod-manager"@),
        "thunderstore"@,
    )
}

/// Where the package list is cached: the folder named by the cache
/// variable when it is set, else `.cache/silksong-mod-manager/thunderstore`
/// under the home folder; no folder when neither is known.
pub fn cache_directory(explicit: Option<String>, home: Option<String>) -> (r: Result<String, CatalogError>)
    ensures
        match explicit {
            Some(e) => r matches Ok(d) && d@ == e@,
            None => match home {
                Some(h) => r matches Ok(d) && d@ == default_cache_directory(h@),
                None => r == Err::<String, CatalogError>(CatalogError::CacheDirectoryUnavailable),
            },
        },
{
    match explicit {
        Some(e) => Ok(e),
        None => match home {
            Some(h) => {
                let a = path_join(h.as_str(), ".cache");
                let b = path_join(a.as_str(), "silksong-mod-manager");
                Ok(path_join(b.as_str(), "thunderstore"))
            },
            None => Err(CatalogError::CacheDirectoryUnavailable),
        },
    }
}

/// Where downloaded archives are cached: `zips` under the cache folder.
pub fn zip_cache_directory(explicit: Option<String>, home: Option<String>) -> (r: Result<String, CatalogError>)
    ensures
        match explicit {
            Some(e) => r matches Ok(d) && d@ == join_path(e@, "zips"@),
            None => match home {
                Some(h) => r matches Ok(d) && d@ == join_path(default_cache_directory(h@), "zips"@),
                None => r == Err::<String, CatalogError>(CatalogError::CacheDirectoryUnavailable),
            },
        },
{
    let dir = cache_directory(explicit, home)?;
    Ok(path_join(dir.as_str(), "zips"))
}

/// The cached list's file.
pub fn catalog_cache_path(cache_directory: &str) -> (r: String)
    ensures
        r@ == join_path(cache_directory@, "catalog.json"@),
{
    path_join(cache_directory, "catalog.json")
}

/// Is a cache of this age still fresh under the given limit?
pub fn cache_is_fresh(age_secs: u64, max_age_secs: u64) -> (r: bool)
    ensures
        r == (age_secs <= max_age_secs),
{
    age_secs <= max_age_secs
}

/// Package `a` is listed before `b`: more downloads first, then by name
/// lower-cased, character by character.
pub open spec fn listed_before(a: RemotePackage, b: RemotePackage) -> bool {
    a.downloads > b.downloads || (a.downloads == b.downloads && text_lt(lowercase(a.name@), lowercase(b.name@)))
}

/// No package is listed before one that comes earlier.
pub open spec fn packages_sorted(s: Seq<RemotePackage>) -> bool {
    forall|i: int, j: int| 0 <= i < j < s.len() ==> !listed_before(#[trigger] s[j], #[trigger] s[i])
}

/// The listing order is transitive.
pub proof fn lemma_listed_before_transitive(a: RemotePackage, b: RemotePackage, c: RemotePackage)
    requires
        listed_before(a, b),
        listed_before(b, c),
    ensures
        listed_before(a, c),
{
    if a.downloads == b.downloads && b.downloads == c.downloads {
        lemma_text_lt_transitive(lowercase(a.name@), lowercase(b.name@), lowercase(c.name@), 0);
    }
}

/// No package is listed before itself.
pub proof fn lemma_listed_before_irreflexive(a: RemotePackage)
    ensures
        !listed_before(a, a),
{
    lemma_text_lt_irreflexive(lowercase(a.name@), 0);
}

/// Two packages tie in the listing: the same downloads and the same name lower-cased.
pub open spec fn same_listing_key() -> spec_fn(RemotePackage, RemotePackage) -> bool {
    |a: RemotePackage, b: RemotePackage| a.downloads == b.downloads && lowercase(a.name@) == lowercase(b.name@)
}

/// Sorts packages: more downloads first, then by name lower-cased; packages
/// that tie keep their order.
pub fn sort_packages(items: Vec<RemotePackage>) -> (r: Vec<RemotePackage>)
    ensures
        r@.to_multiset() == items@.to_multiset(),
        packages_sorted(r@),
        stable_rearrangement(items@, r@, same_listing_key()),
{
    let mut out: Vec<RemotePackage> = Vec::new();
    let mut keys: Vec<Vec<char>> = Vec::new();
    let mut rest = items;
    let ghost orig = rest@;
    let ghost mut taken: int = 0;
    let ghost mut perm: Seq<int> = Seq::empty();
    proof {
        assert(orig.take(0) =~= Seq::<RemotePackage>::empty());
        assert(orig.skip(0) =~= orig);
    }
    while rest.len() > 0
        invariant
            0 <= taken <= orig.len(),
            taken + rest.len() == orig.len(),
            rest@ == orig.skip(taken),
            out@.to_multiset() == orig.take(taken).to_multiset(),
            packages_sorted(out@),
            rearranges(orig.take(taken), out@, perm),
            keeps_order(out@, perm, same_listing_key()),
            keys@.len() == out@.len(),
            forall|k: int| 0 <= k < out@.len() ==> (#[trigger] keys@[k])@ == lowercase(out@[k].name@),
        decreases rest.len(),
    {
        let item = rest.remove(0);
        let lk = chars_of(to_lower(item.name.as_str()).as_str());
        let mut q: usize = 0;
        while q < out.len()
            invariant
                q <= out.len(),
                keys@.len() == out@.len(),
                forall|k: int| 0 <= k < out@.len() ==> (#[trigger] keys@[k])@ == lowercase(out@[k].name@),
                lk@ == lowercase(item.name@),
                forall|j: int| 0 <= j < q ==> !listed_before(item, #[trigger] out@[j]),
            ensures
                q <= out.len(),
                forall|j: int| 0 <= j < q ==> !listed_before(item, #[trigger] out@[j]),
                q < out.len() ==> listed_before(item, out@[q as int]),
            decreases out.len() - q,
        {
            let ahead = item.downloads > out[q].downloads || (item.downloads == out[q].downloads && text_lt_exec(
                &lk,
                &keys[q],
            ));
            if ahead {
                break;
            }
            q += 1;
        }
        let p = q;
        let ghost before = out@;
        proof {
            assert forall|k: int| p <= k < before.len() implies !listed_before(#[trigger] before[k], item) by {
                if listed_before(before[k], item) {
                    lemma_listed_before_transitive(before[k], item, before[p as int]);
                    if k == p {
                        lemma_listed_before_irreflexive(before[k]);
                    } else {
                        assert(!listed_before(before[k], before[p as int]));
                    }
                }
            }
        }
        proof {
            assert forall|k: int| p <= k < before.len() implies !same_listing_key()(orig[taken], #[trigger] before[k]) by {
                assert(orig[taken] == item);
                if same_listing_key()(item, before[k]) {
                    if k == p {
                        lemma_listed_before_irreflexive(before[k]);
                    } else {
                        assert(!listed_before(before[k], before[p as int]));
                    }
                }
            }
            lemma_insert_next(orig, taken, before, perm, p as int, same_listing_key());
            perm = perm.insert(p as int, taken);
        }
        out.insert(p, item);
        keys.insert(p, lk);
        proof {
            let after = out@;
            assert(after == before.insert(p as int, item));
            assert forall|i: int, j: int| 0 <= i < j < after.len() implies !listed_before(#[trigger] after[j], #[trigger] after[i]) by {
                if i < p && j < p {
                    assert(after[i] == before[i] && after[j] == before[j]);
                } else if i < p && j == p {
                    assert(after[i] == before[i]);
                } else if i < p && j > p {
                    assert(after[i] == before[i] && after[j] == before[j - 1]);
                } else if i == p {
                    assert(after[j] == before[j - 1]);
                } else {
                    assert(after[i] == before[i - 1] && after[j] == before[j - 1]);
                }
            }
            assert forall|k: int| 0 <= k < after.len() implies (#[trigger] keys@[k])@ == lowercase(after[k].name@) by {
                if k > p {
                    assert(after[k] == before[k - 1]);
                }
            }
            assert(orig.take(taken + 1) =~= orig.take(taken).push(orig[taken]));
            assert(orig[taken] == item);
            vstd::seq_lib::to_multiset_insert(before, p as int, item);
            vstd::seq_lib::to_multiset_build(orig.take(taken), item);
            taken = taken + 1;
            assert(rest@ =~= orig.skip(taken));
        }
    }
    assert(orig.take(orig.len() as int) =~= orig);
    assert(rearranges(items@, out@, perm) && keeps_order(out@, perm, same_listing_key()));
    out
}

/// The list keeps a package that has a version and is not deprecated.
pub open spec fn keeps_package(a: ApiPackage) -> bool {
    a.versions@.len() > 0 && !a.is_deprecated
}

/// The records the list keeps, in order.
pub open spec fn kept_packages(api: Seq<ApiPackage>) -> Seq<ApiPackage>
    decreases api.len(),
{
    if api.len() == 0 {
        Seq::empty()
    } else {
        kept_packages(api.drop_last()) + if keeps_package(api.last()) {
            seq![api.last()]
        } else {
            Seq::empty()
        }
    }
}

/// The kept records as shown, in order.
pub fn shown_packages(api: Vec<ApiPackage>) -> (r: Vec<RemotePackage>)
    ensures
        r@.len() == kept_packages(api@).len(),
        forall|j: int| 0 <= j < r@.len() ==> shown_as(kept_packages(api@)[j], #[trigger] r@[j]),
{
    let ghost orig = api@;
    let mut rest = api;
    let mut out: Vec<RemotePackage> = Vec::new();
    let ghost mut taken: int = 0;
    proof {
        assert(orig.skip(0) =~= orig);
        assert(orig.take(0) =~= Seq::<ApiPackage>::empty());
    }
    while rest.len() > 0
        invariant
            0 <= taken <= orig.len(),
            taken + rest.len() == orig.len(),
            rest@ == orig.skip(taken),
            out@.len() == kept_packages(orig.take(taken)).len(),
            forall|j: int| 0 <= j < out@.len() ==> shown_as(kept_packages(orig.take(taken))[j], #[trigger] out@[j]),
        decreases rest.len(),
    {
        let a = rest.remove(0);
        let ghost ga = a;
        let ghost before = out@;
        proof {
            assert(ga == orig[taken]);
            assert(orig.take(taken + 1).drop_last() =~= orig.take(taken));
            assert(orig.take(taken + 1).last() == ga);
        }
        match RemotePackage::from_api(a) {
            Some(p) => {
                if !p.is_deprecated {
                    out.push(p);
                }
            },
            None => {},
        }
        proof {
            let kt = kept_packages(orig.take(taken));
            let kt2 = kept_packages(orig.take(taken + 1));
            assert forall|j: int| 0 <= j < out@.len() implies shown_as(kt2[j], #[trigger] out@[j]) by {
                if j < before.len() {
                    assert(out@[j] == before[j]);
                    assert(kt2[j] == kt[j]);
                }
            }
            taken = taken + 1;
            assert(rest@ =~= orig.skip(taken));
        }
    }
    assert(orig.take(orig.len() as int) =~= orig);
    out
}

/// The package list as shown: packages with a version that are not
/// deprecated, each from its newest version, with more downloads first,
/// then by name lower-cased; ties keep the list's order.
pub fn flatten_packages(api: Vec<ApiPackage>) -> (r: Vec<RemotePackage>)
    ensures
        packages_sorted(r@),
        exists|shown: Seq<RemotePackage>|
            #![trigger shown.to_multiset()]
            shown.len() == kept_packages(api@).len() && (forall|j: int|
                0 <= j < shown.len() ==> shown_as(kept_packages(api@)[j], #[trigger] shown[j]))
                && r@.to_multiset() == shown.to_multiset() && stable_rearrangement(shown, r@, same_listing_key()),
{
    let shown = shown_packages(api);
    let ghost s = shown@;
    let r = sort_packages(shown);
    assert(r@.to_multiset() == s.to_multiset());
    r
}
} // verus!
