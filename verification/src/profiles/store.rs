//! Where profiles are stored, their file names, and building a profile from
//! the installed mods.
use crate::stable::{keeps_order, lemma_insert_next, rearranges, stable_rearrangement};
use vstd::prelude::*;

use super::model::{profile_mod_from_installed, profile_mod_spec, profile_mod_view, Profile, ProfileMod, ProfileSummary};
use super::switch::copy_profile;
use crate::mods::order::{key_lt, lemma_key_lt_transitive, lemma_text_lt_irreflexive, text_lt_exec};
use crate::mods::InstalledMod;
use crate::nexus::install::NexusMeta;
use crate::paths::{join_path, path_join, path_join2};
use crate::text::{chars_eq, chars_of, concat_str, eq_ignore_case, eq_ignore_case_exec, is_alnum, lower_char, lower_char_exec, lowercase, string_of, to_lower, trim, trim_end_char, trim_matches, trim_matches_exec, trim_start_char, trim_str};

verus! {

/// Why a profile could not be stored or read.
#[derive(Debug, Clone, PartialEq, Eq)]
pub enum StoreError {
    DirectoryUnavailable,
    InvalidName(String),
    AlreadyExists(String),
    Missing(String),
    Decode(String),
    Io(String),
}

/// Where profiles live: the folder the profiles variable names when set,
/// else `.local/share/pollip/profiles` under the home folder.
pub fn profiles_directory(explicit: Option<String>, home: Option<String>) -> (r: Result<String, StoreError>)
    ensures
        match explicit {
            Some(e) => r matches Ok(d) && d@ == e@,
            None => match home {
                Some(h) => r matches Ok(d) && d@ == join_path(join_path(join_path(join_path(h@, ".local"@), "share"@), "pollip"@), "profiles"@),
                None => r matches Err(StoreError::DirectoryUnavailable),
            },
        },
{
    match explicit {
        Some(e) => Ok(e),
        None => match home {
            Some(h) => {
                let a = path_join2(h.as_str(), ".local", "share");
                Ok(path_join2(a.as_str(), "pollip", "profiles"))
            },
            None => Err(StoreError::DirectoryUnavailable),
        },
    }
}

/// The characters of a slug before its ends are trimmed, and whether the
/// last one written was a `_`: letters and digits are kept lower-cased, and
/// each run of anything else becomes one `_`.
pub open spec fn slug_raw(s: Seq<char>) -> (Seq<char>, bool)
    decreases s.len(),
{
    if s.len() == 0 {
        (Seq::empty(), false)
    } else {
        let (prev, underscore) = slug_raw(s.drop_last());
        let c = s.last();
        if is_alnum(c) {
            (prev.push(lower_char(c)), false)
        } else if !underscore {
            (prev.push('_'), true)
        } else {
            (prev, underscore)
        }
    }
}

/// The slug of a profile name: from the trimmed name, letters and digits
/// lower-cased, other runs as one `_`, no `_` at either end. `None` when
/// nothing is left.
pub open spec fn slugify_spec(name: Seq<char>) -> Option<Seq<char>> {
    let t = trim(name);
    if t.len() == 0 {
        None
    } else {
        let s = trim_matches(slug_raw(t).0, '_');
        if s.len() == 0 {
            None
        } else {
            Some(s)
        }
    }
}

/// The file-name-safe slug of a profile name.
pub fn slugify_name(name: &str) -> (r: Result<String, StoreError>)
    ensures
        match slugify_spec(name@) {
            Some(s) => r matches Ok(slug) && slug@ == s,
            None => r matches Err(StoreError::InvalidName(n)) && n@ == name@,
        },
{
    let t = chars_of(trim_str(name).as_str());
    if t.len() == 0 {
        return Err(StoreError::InvalidName(name.to_owned()));
    }
    let mut slug: Vec<char> = Vec::new();
    let mut previous_underscore = false;
    let mut i: usize = 0;
    while i < t.len()
        invariant
            i <= t.len(),
            slug_raw(t@.take(i as int)) == (slug@, previous_underscore),
        decreases t.len() - i,
    {
        let c = t[i];
        proof {
            assert(t@.take(i as int + 1).drop_last() =~= t@.take(i as int));
            assert(t@.take(i as int + 1).last() == c);
        }
        if ('0' <= c && c <= '9') || ('a' <= c && c <= 'z') || ('A' <= c && c <= 'Z') {
            slug.push(lower_char_exec(c));
            previous_underscore = false;
        } else if !previous_underscore {
            slug.push('_');
            previous_underscore = true;
        }
        i += 1;
    }
    assert(t@.take(i as int) =~= t@);
    let s = trim_matches_exec(&slug, '_');
    if s.len() == 0 {
        return Err(StoreError::InvalidName(name.to_owned()));
    }
    Ok(string_of(&s))
}

/// The profile's file under the profiles folder.
pub fn profile_json_path(profiles_directory: &str, slug: &str) -> (r: String)
    ensures
        r@ == join_path(profiles_directory@, slug@ + ".json"@),
{
    let file = concat_str(slug, ".json");
    path_join(profiles_directory, file.as_str())
}

/// Where a profile's local mods are stashed.
pub fn profile_local_directory(profiles_directory: &str, slug: &str) -> (r: String)
    ensures
        r@ == join_path(join_path(profiles_directory@, slug@), "local"@),
{
    path_join2(profiles_directory, slug, "local")
}

/// Where one local mod is stashed.
pub fn local_mod_stash_path(local_root: &str, entry_name: &str) -> (r: String)
    ensures
        r@ == join_path(local_root@, entry_name@),
{
    path_join(local_root, entry_name)
}

/// The profile recorded from the installed mods, in order: each mod's entry
/// as [`profile_mod_from_installed`] gives it, with `metas[i]` the Nexus
/// record read from mod `i`'s folder.
pub fn profile_from_installed(name: &str, installed: &[InstalledMod], catalog: &[crate::thunderstore::package::RemotePackage], metas: Vec<Option<NexusMeta>>, now: u64) -> (r: Profile)
    requires
        metas.len() == installed.len(),
    ensures
        r.name@ == trim(name@),
        r.created_at_unix == now,
        r.updated_at_unix == now,
        r.mods.len() == installed.len(),
        forall|i: int| 0 <= i < installed.len() ==> profile_mod_view(#[trigger] r.mods@[i]) == profile_mod_spec(installed@[i], catalog@, metas@[i]),
{
    let mut mods: Vec<ProfileMod> = Vec::new();
    let mut rest = metas;
    let ghost all = rest@;
    let mut i: usize = 0;
    while i < installed.len()
        invariant
            i <= installed.len(),
            all.len() == installed.len(),
            rest@ == all.skip(i as int),
            mods.len() == i,
            forall|k: int| 0 <= k < i ==> profile_mod_view(#[trigger] mods@[k]) == profile_mod_spec(installed@[k], catalog@, all[k]),
        decreases installed.len() - i,
    {
        let meta = rest.remove(0);
        assert(meta == all[i as int]);
        mods.push(profile_mod_from_installed(&installed[i], catalog, meta));
        i += 1;
        assert(rest@ =~= all.skip(i as int));
    }
    Profile { name: trim_str(name), created_at_unix: now, updated_at_unix: now, mods }
}

/// The text shown for a profile store error.
pub open spec fn store_error_text(e: StoreError) -> Seq<char> {
    match e {
        StoreError::DirectoryUnavailable => "could not resolve the profiles directory"@,
        StoreError::InvalidName(n) => "invalid profile name '"@ + n@ + "'"@,
        StoreError::AlreadyExists(n) => "profile '"@ + n@ + "' already exists"@,
        StoreError::Missing(n) => "profile '"@ + n@ + "' was not found"@,
        StoreError::Decode(d) => "profile json error: "@ + d@,
        StoreError::Io(d) => "profile io error: "@ + d@,
    }
}

impl StoreError {
    /// The error as shown to the user.
    pub fn message(&self) -> (r: String)
        ensures
            r@ == store_error_text(*self),
    {
        match self {
            StoreError::DirectoryUnavailable => {
                let mut r = String::new();
                crate::text::append_str(&mut r, "could not resolve the profiles directory");
                r
            },
            StoreError::InvalidName(n) => {
                let mut r = String::new();
                crate::text::append_str(&mut r, "invalid profile name '");
                crate::text::append_str(&mut r, n.as_str());
                crate::text::append_str(&mut r, "'");
                r
            },
            StoreError::AlreadyExists(n) => {
                let mut r = String::new();
                crate::text::append_str(&mut r, "profile '");
                crate::text::append_str(&mut r, n.as_str());
                crate::text::append_str(&mut r, "' already exists");
                r
            },
            StoreError::Missing(n) => {
                let mut r = String::new();
                crate::text::append_str(&mut r, "profile '");
                crate::text::append_str(&mut r, n.as_str());
                crate::text::append_str(&mut r, "' was not found");
                r
            },
            StoreError::Decode(d) => {
                let mut r = String::new();
                crate::text::append_str(&mut r, "profile json error: ");
                crate::text::append_str(&mut r, d.as_str());
                r
            },
            StoreError::Io(d) => {
                let mut r = String::new();
                crate::text::append_str(&mut r, "profile io error: ");
                crate::text::append_str(&mut r, d.as_str());
                r
            },
        }
    }
}

/// The slug of a profile file: its stem, for a file whose extension is
/// `json` in any case and whose stem does not start with a dot.
pub open spec fn profile_file_slug_spec(is_file: bool, extension: Option<String>, stem: Option<String>) -> Option<Seq<char>> {
    if !is_file {
        None
    } else {
        match extension {
            Some(x) => if !eq_ignore_case(x@, "json"@) {
                None
            } else {
                match stem {
                    Some(s) => if s@.len() > 0 && s@[0] == '.' {
                        None
                    } else {
                        Some(s@)
                    },
                    None => None,
                }
            },
            None => None,
        }
    }
}

/// Decides whether a folder entry is a profile, from whether it is a file,
/// its extension and its stem; gives its slug when it is.
pub fn profile_file_slug(is_file: bool, extension: Option<String>, stem: Option<String>) -> (r: Option<String>)
    ensures
        match profile_file_slug_spec(is_file, extension, stem) {
            Some(s) => r matches Some(t) && t@ == s,
            None => r is None,
        },
{
    if !is_file {
        return None;
    }
    match extension {
        Some(x) => {
            if !eq_ignore_case_exec(&chars_of(x.as_str()), &chars_of("json")) {
                return None;
            }
            match stem {
                Some(s) => {
                    let c = chars_of(s.as_str());
                    if c.len() > 0 && c[0] == '.' {
                        None
                    } else {
                        Some(s)
                    }
                },
                None => None,
            }
        },
        None => None,
    }
}

/// The sort key of a listed profile: its name lower-cased, then its slug.
pub open spec fn summary_key(p: ProfileSummary) -> (Seq<char>, Seq<char>) {
    (lowercase(p.name@), p.slug@)
}

/// No file sorts before one that comes earlier.
pub open spec fn summaries_sorted(s: Seq<ProfileSummary>) -> bool {
    forall|i: int, j: int| 0 <= i < j < s.len() ==> !key_lt(#[trigger] summary_key(s[j]), #[trigger] summary_key(s[i]))
}

/// Two listed profiles have the same sort key.
pub open spec fn same_summary_key() -> spec_fn(ProfileSummary, ProfileSummary) -> bool {
    |a: ProfileSummary, b: ProfileSummary| summary_key(a) == summary_key(b)
}

/// Sorts listed profiles by name lower-cased, then slug; profiles with the
/// same key keep their order.
pub fn sort_profile_summaries(items: Vec<ProfileSummary>) -> (r: Vec<ProfileSummary>)
    ensures
        r@.to_multiset() == items@.to_multiset(),
        summaries_sorted(r@),
        stable_rearrangement(items@, r@, same_summary_key()),
{
    let mut out: Vec<ProfileSummary> = Vec::new();
    let mut keys: Vec<(Vec<char>, Vec<char>)> = Vec::new();
    let mut rest = items;
    let ghost orig = rest@;
    let ghost mut taken: int = 0;
    let ghost mut perm: Seq<int> = Seq::empty();
    proof {
        assert(orig.take(0) =~= Seq::<ProfileSummary>::empty());
        assert(orig.skip(0) =~= orig);
    }
    while rest.len() > 0
        invariant
            0 <= taken <= orig.len(),
            taken + rest.len() == orig.len(),
            rest@ == orig.skip(taken),
            out@.to_multiset() == orig.take(taken).to_multiset(),
            summaries_sorted(out@),
            rearranges(orig.take(taken), out@, perm),
            keeps_order(out@, perm, same_summary_key()),
            keys@.len() == out@.len(),
            forall|k: int| 0 <= k < out@.len() ==> (#[trigger] keys@[k]).0@ == summary_key(out@[k]).0 && keys@[k].1@ == summary_key(out@[k]).1,
        decreases rest.len(),
    {
        let item = rest.remove(0);
        let dk = chars_of(to_lower(item.name.as_str()).as_str());
        let ek = chars_of(item.slug.as_str());
        let ghost kx = summary_key(item);
        assert(dk@ == kx.0 && ek@ == kx.1);
        let mut q: usize = 0;
        while q < out.len()
            invariant
                q <= out.len(),
                keys@.len() == out@.len(),
                forall|k: int| 0 <= k < out@.len() ==> (#[trigger] keys@[k]).0@ == summary_key(out@[k]).0 && keys@[k].1@ == summary_key(out@[k]).1,
                dk@ == kx.0 && ek@ == kx.1,
                forall|j: int| 0 <= j < q ==> !key_lt(kx, #[trigger] summary_key(out@[j])),
            ensures
                q <= out.len(),
                forall|j: int| 0 <= j < q ==> !key_lt(kx, #[trigger] summary_key(out@[j])),
                q < out.len() ==> key_lt(kx, summary_key(out@[q as int])),
            decreases out.len() - q,
        {
            let kq = &keys[q];
            assert(kq.0@ == summary_key(out@[q as int]).0 && kq.1@ == summary_key(out@[q as int]).1);
            let lt = text_lt_exec(&dk, &kq.0) || (chars_eq(&dk, &kq.0) && text_lt_exec(&ek, &kq.1));
            if lt {
                break;
            }
            q += 1;
        }
        let p = q;
        let ghost before = out@;
        proof {
            assert forall|k: int| p <= k < before.len() implies !key_lt(#[trigger] summary_key(before[k]), kx) by {
                assert(key_lt(kx, summary_key(before[p as int])));
                if key_lt(summary_key(before[k]), kx) {
                    lemma_key_lt_transitive(summary_key(before[k]), kx, summary_key(before[p as int]));
                    if k == p {
                        lemma_text_lt_irreflexive(summary_key(before[k]).0, 0);
                        lemma_text_lt_irreflexive(summary_key(before[k]).1, 0);
                    } else {
                        assert(!key_lt(summary_key(before[k]), summary_key(before[p as int])));
                    }
                }
            }
        }
        proof {
            assert forall|k: int| p <= k < before.len() implies !same_summary_key()(orig[taken], #[trigger] before[k]) by {
                assert(orig[taken] == item);
                if summary_key(before[k]) == kx {
                    if k == p {
                        lemma_text_lt_irreflexive(kx.0, 0);
                        lemma_text_lt_irreflexive(kx.1, 0);
                    } else {
                        assert(!key_lt(summary_key(before[k]), summary_key(before[p as int])));
                    }
                }
            }
            lemma_insert_next(orig, taken, before, perm, p as int, same_summary_key());
            perm = perm.insert(p as int, taken);
        }
        out.insert(p, item);
        keys.insert(p, (dk, ek));
        proof {
            let after = out@;
            assert(after == before.insert(p as int, item));
            assert forall|i: int, j: int| 0 <= i < j < after.len() implies !key_lt(#[trigger] summary_key(after[j]), #[trigger] summary_key(after[i])) by {
                if i < p && j < p {
                    assert(after[i] == before[i] && after[j] == before[j]);
                } else if i < p && j == p {
                    assert(after[i] == before[i]);
                } else if i < p && j > p {
                    assert(after[i] == before[i] && after[j] == before[j - 1]);
                } else if i == p {
                    assert(after[j] == before[j - 1]);
                } else {
                    assert(after[i] == before[i - 1] && after[j] == before[j - 1]);
                }
            }
            assert forall|k: int| 0 <= k < after.len() implies (#[trigger] keys@[k]).0@ == summary_key(after[k]).0 && keys@[k].1@ == summary_key(after[k]).1 by {
                if k > p {
                    assert(after[k] == before[k - 1]);
                }
            }
            assert(orig.take(taken + 1) =~= orig.take(taken).push(orig[taken]));
            assert(orig[taken] == item);
            vstd::seq_lib::to_multiset_insert(before, p as int, item);
            vstd::seq_lib::to_multiset_build(orig.take(taken), item);
            taken = taken + 1;
            assert(rest@ =~= orig.skip(taken));
        }
    }
    assert(orig.take(orig.len() as int) =~= orig);
    assert(rearranges(items@, out@, perm) && keeps_order(out@, perm, same_summary_key()));
    out
}

/// A copy of a profile under a new name, trimmed, created and updated
/// `now`.
pub fn duplicated_profile(source: &Profile, new_name: &str, now: u64) -> (r: Profile)
    ensures
        r.name@ == trim(new_name@),
        r.created_at_unix == now,
        r.updated_at_unix == now,
        r.mods@ == source.mods@,
{
    let copy = copy_profile(source);
    Profile { name: trim_str(new_name), created_at_unix: now, updated_at_unix: now, mods: copy.mods }
}

/// An imported profile, created and updated `now`.
pub fn imported_profile(profile: Profile, now: u64) -> (r: Profile)
    ensures
        r.name@ == profile.name@,
        r.created_at_unix == now,
        r.updated_at_unix == now,
        r.mods@ == profile.mods@,
{
    let mut p = profile;
    p.created_at_unix = now;
    p.updated_at_unix = now;
    p
}

// ---------------------------------------------------------------------------
// Slugs are their own slugs
// ---------------------------------------------------------------------------

/// A character a slug may hold: a lower-case ASCII letter, a digit, or `_`.
pub open spec fn slug_char(c: char) -> bool {
    ('a' <= c && c <= 'z') || ('0' <= c && c <= '9') || c == '_'
}

/// What a slug looks like: not empty, made of slug characters, no `_` at
/// either end and never two in a row.
pub open spec fn is_slug(x: Seq<char>) -> bool {
    &&& x.len() > 0
    &&& forall|i: int| 0 <= i < x.len() ==> slug_char(#[trigger] x[i])
    &&& forall|i: int| 0 <= i < x.len() - 1 ==> !(#[trigger] x[i] == '_' && x[i + 1] == '_')
    &&& x[0] != '_'
    &&& x.last() != '_'
}

/// What the raw slug holds: slug characters, no two `_` in a row, and the
/// flag says whether it ends with `_`.
proof fn lemma_slug_raw(s: Seq<char>)
    ensures
        forall|i: int| 0 <= i < slug_raw(s).0.len() ==> slug_char(#[trigger] slug_raw(s).0[i]),
        forall|i: int|
            0 <= i < slug_raw(s).0.len() - 1 ==> !(#[trigger] slug_raw(s).0[i] == '_' && slug_raw(s).0[i + 1] == '_'),
        slug_raw(s).1 == (slug_raw(s).0.len() > 0 && slug_raw(s).0.last() == '_'),
    decreases s.len(),
{
    if s.len() > 0 {
        lemma_slug_raw(s.drop_last());
        let (prev, underscore) = slug_raw(s.drop_last());
        let c = s.last();
        if is_alnum(c) {
            let r = prev.push(lower_char(c));
            assert(slug_char(lower_char(c)));
            assert forall|i: int| 0 <= i < r.len() implies slug_char(#[trigger] r[i]) by {
                if i < prev.len() {
                    assert(r[i] == prev[i]);
                }
            }
            assert forall|i: int| 0 <= i < r.len() - 1 implies !(#[trigger] r[i] == '_' && r[i + 1] == '_') by {
                if i + 1 < prev.len() {
                    assert(r[i] == prev[i] && r[i + 1] == prev[i + 1]);
                }
            }
        } else if !underscore {
            let r = prev.push('_');
            assert forall|i: int| 0 <= i < r.len() implies slug_char(#[trigger] r[i]) by {
                if i < prev.len() {
                    assert(r[i] == prev[i]);
                }
            }
            assert forall|i: int| 0 <= i < r.len() - 1 implies !(#[trigger] r[i] == '_' && r[i + 1] == '_') by {
                if i + 1 < prev.len() {
                    assert(r[i] == prev[i] && r[i + 1] == prev[i + 1]);
                } else {
                    assert(r[i] == prev[i]);
                }
            }
        }
    }
}

/// Bounds of trimming a character from the start.
proof fn lemma_trim_start_char(s: Seq<char>, c: char, i: int)
    requires
        0 <= i <= s.len(),
    ensures
        i <= trim_start_char(s, c, i) <= s.len(),
        trim_start_char(s, c, i) < s.len() ==> s[trim_start_char(s, c, i)] != c,
        forall|k: int| i <= k < trim_start_char(s, c, i) ==> s[k] == c,
    decreases s.len() - i,
{
    if i < s.len() && s[i] == c {
        lemma_trim_start_char(s, c, i + 1);
    }
}

/// Bounds of trimming a character from the end.
proof fn lemma_trim_end_char(s: Seq<char>, c: char, lo: int, j: int)
    requires
        0 <= lo <= j <= s.len(),
    ensures
        lo <= trim_end_char(s, c, lo, j) <= j,
        trim_end_char(s, c, lo, j) > lo ==> s[trim_end_char(s, c, lo, j) - 1] != c,
        forall|k: int| trim_end_char(s, c, lo, j) <= k < j ==> s[k] == c,
    decreases j - lo,
{
    if lo < j && s[j - 1] == c {
        lemma_trim_end_char(s, c, lo, j - 1);
    }
}

/// A slug is made as [`is_slug`] says.
proof fn lemma_slugify_is_slug(name: Seq<char>)
    requires
        slugify_spec(name) is Some,
    ensures
        is_slug(slugify_spec(name)->0),
{
    let r = slug_raw(trim(name)).0;
    lemma_slug_raw(trim(name));
    let lo = trim_start_char(r, '_', 0);
    lemma_trim_start_char(r, '_', 0);
    lemma_trim_end_char(r, '_', lo, r.len() as int);
    let hi = trim_end_char(r, '_', lo, r.len() as int);
    let x = r.subrange(lo, hi);
    assert(x == slugify_spec(name)->0);
    assert forall|i: int| 0 <= i < x.len() implies slug_char(#[trigger] x[i]) by {
        assert(x[i] == r[lo + i]);
    }
    assert forall|i: int| 0 <= i < x.len() - 1 implies !(#[trigger] x[i] == '_' && x[i + 1] == '_') by {
        assert(x[i] == r[lo + i] && x[i + 1] == r[lo + i + 1]);
    }
    assert(x[0] == r[lo]);
    assert(x.last() == r[hi - 1]);
}

/// Does `s` hold an ASCII letter or digit?
pub open spec fn has_alnum(s: Seq<char>) -> bool {
    exists|i: int| 0 <= i < s.len() && is_alnum(#[trigger] s[i])
}

/// The raw slug holds something other than `_` exactly when the text
/// holds a letter or digit.
proof fn lemma_slug_raw_alnum(s: Seq<char>)
    ensures
        (exists|i: int| 0 <= i < slug_raw(s).0.len() && #[trigger] slug_raw(s).0[i] != '_') <==> has_alnum(s),
    decreases s.len(),
{
    if s.len() > 0 {
        let d = s.drop_last();
        lemma_slug_raw_alnum(d);
        lemma_slug_raw(d);
        let (prev, underscore) = slug_raw(d);
        let c = s.last();
        let r = slug_raw(s).0;
        assert(has_alnum(s) <==> has_alnum(d) || is_alnum(c)) by {
            if has_alnum(d) {
                let w = choose|i: int| 0 <= i < d.len() && is_alnum(#[trigger] d[i]);
                assert(s[w] == d[w]);
            }
            if is_alnum(c) {
                assert(s[s.len() - 1] == c);
            }
            if has_alnum(s) {
                let w = choose|i: int| 0 <= i < s.len() && is_alnum(#[trigger] s[i]);
                if w < s.len() - 1 {
                    assert(d[w] == s[w]);
                }
            }
        }
        assert forall|i: int| 0 <= i < prev.len() implies #[trigger] r[i] == prev[i] by {}
        if (exists|i: int| 0 <= i < prev.len() && #[trigger] prev[i] != '_') {
            let w = choose|i: int| 0 <= i < prev.len() && #[trigger] prev[i] != '_';
            assert(r[w] != '_');
        }
        if is_alnum(c) {
            assert(slug_char(lower_char(c)));
            assert(lower_char(c) != '_');
            assert(r[r.len() - 1] != '_');
        } else {
            if (exists|i: int| 0 <= i < r.len() && #[trigger] r[i] != '_') {
                let w = choose|i: int| 0 <= i < r.len() && #[trigger] r[i] != '_';
                if w < prev.len() {
                    assert(prev[w] != '_');
                }
            }
        }
    }
}

/// A profile name has a slug exactly when it holds an ASCII letter or
/// digit, and that slug is non-empty, made of lower-case ASCII letters,
/// digits and `_`, with no `_` at either end and never two in a row.
pub proof fn lemma_slugify_shape(name: Seq<char>)
    ensures
        slugify_spec(name) is Some <==> has_alnum(name),
        slugify_spec(name) is Some ==> is_slug(slugify_spec(name)->0),
{
    let t = trim(name);
    crate::text::lemma_lead_ws_bounds(name, 0);
    let a = crate::text::lead_ws(name, 0);
    crate::text::lemma_trail_ws_bounds(name, a, name.len() as int);
    let b = crate::text::trail_ws(name, a, name.len() as int);
    assert(t =~= name.subrange(a, b));
    assert(has_alnum(t) <==> has_alnum(name)) by {
        if has_alnum(t) {
            let w = choose|i: int| 0 <= i < t.len() && is_alnum(#[trigger] t[i]);
            assert(name[a + w] == t[w]);
        }
        if has_alnum(name) {
            let w = choose|i: int| 0 <= i < name.len() && is_alnum(#[trigger] name[i]);
            assert(!crate::text::is_white(name[w]));
            assert(a <= w < b);
            assert(t[w - a] == name[w]);
        }
    }
    lemma_slug_raw_alnum(t);
    let r = slug_raw(t).0;
    lemma_trim_start_char(r, '_', 0);
    let lo = trim_start_char(r, '_', 0);
    lemma_trim_end_char(r, '_', lo, r.len() as int);
    let hi = trim_end_char(r, '_', lo, r.len() as int);
    assert(trim_matches(r, '_').len() > 0 <==> (exists|i: int| 0 <= i < r.len() && #[trigger] r[i] != '_')) by {
        if (exists|i: int| 0 <= i < r.len() && #[trigger] r[i] != '_') {
            let w = choose|i: int| 0 <= i < r.len() && #[trigger] r[i] != '_';
            assert(lo <= w < hi);
        }
        if trim_matches(r, '_').len() > 0 {
            assert(r[lo] != '_');
        }
    }
    if t.len() == 0 {
        assert(!has_alnum(t));
    }
    if slugify_spec(name) is Some {
        lemma_slugify_is_slug(name);
    }
}

/// The raw slug of a slug is the slug itself.
proof fn lemma_slug_raw_of_slug(x: Seq<char>, k: int)
    requires
        is_slug(x),
        0 <= k <= x.len(),
    ensures
        slug_raw(x.take(k)).0 == x.take(k),
    decreases k,
{
    if k > 0 {
        lemma_slug_raw_of_slug(x, k - 1);
        lemma_slug_raw(x.take(k - 1));
        let p = x.take(k);
        assert(p.drop_last() =~= x.take(k - 1));
        assert(p.last() == x[k - 1]);
        let c = x[k - 1];
        assert(slug_char(c));
        if c == '_' {
            assert(k - 1 > 0);
            assert(x[k - 2] != '_');
            assert(x.take(k - 1).last() == x[k - 2]);
        }
        assert(slug_raw(p).0 =~= p);
    }
}

/// A slug is its own slug, so a profile's file name is stable.
pub proof fn lemma_slug_of_slug(name: Seq<char>)
    requires
        slugify_spec(name) is Some,
    ensures
        slugify_spec(slugify_spec(name)->0) == slugify_spec(name),
{
    let x = slugify_spec(name)->0;
    lemma_slugify_is_slug(name);
    assert(!crate::text::is_white(x[0]));
    assert(!crate::text::is_white(x.last()));
    crate::text::lemma_trim_identity(x);
    lemma_slug_raw_of_slug(x, x.len() as int);
    assert(x.take(x.len() as int) =~= x);
    assert(trim_start_char(x, '_', 0) == 0);
    assert(trim_end_char(x, '_', 0, x.len() as int) == x.len());
    assert(trim_matches(x, '_') =~= x);
}
} // verus!
