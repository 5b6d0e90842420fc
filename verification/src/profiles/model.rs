//! Profiles: saved sets of mods, where each mod came from, and the changes
//! that turn the installed mods into a profile's.
use vstd::prelude::*;

use crate::mods::inventory::{is_assembly, is_assembly_spec};
use crate::mods::{InstalledMod, ModKind, ModSource};
use crate::nexus::install::NexusMeta;
use crate::thunderstore::install::{match_index, match_installed_package};
use crate::thunderstore::package::RemotePackage;
use crate::text::{append_str, chars_of, concat_str, decimal, decimal_string, eq_ignore_case, eq_ignore_case_exec, find_char_from, find_from, has_char, slice_chars, str_eq, string_of};

verus! {

/// How a local mod is laid out.
#[derive(Debug, Clone, Copy, PartialEq, Eq, Structural)]
pub enum LocalModKind {
    Folder,
    Assembly,
}

/// The layout of a local mod for a scanned mod's kind.
pub fn local_kind_of(kind: ModKind) -> (r: LocalModKind)
    ensures
        r == (match kind {
            ModKind::Folder => LocalModKind::Folder,
            ModKind::Assembly => LocalModKind::Assembly,
        }),
{
    match kind {
        ModKind::Folder => LocalModKind::Folder,
        ModKind::Assembly => LocalModKind::Assembly,
    }
}

/// The scanned kind for a local mod's layout.
pub fn mod_kind_of(kind: LocalModKind) -> (r: ModKind)
    ensures
        r == (match kind {
            LocalModKind::Folder => ModKind::Folder,
            LocalModKind::Assembly => ModKind::Assembly,
        }),
{
    match kind {
        LocalModKind::Folder => ModKind::Folder,
        LocalModKind::Assembly => ModKind::Assembly,
    }
}

/// Where a profile's mod can be installed from.
#[derive(Debug, Clone, PartialEq, Eq)]
pub enum ModOrigin {
    Thunderstore {
        owner: String,
        package_name: String,
        full_name: String,
        version: String,
        download_url: String,
    },
    Nexus { mod_id: u64, file_id: u64, game_domain: String, version: String, mod_name: String },
    Local { mod_kind: LocalModKind },
}

/// One mod of a profile.
#[derive(Debug, Clone, PartialEq, Eq)]
pub struct ProfileMod {
    pub entry_name: String,
    pub display_name: String,
    pub enabled: bool,
    pub origin: ModOrigin,
}

/// A saved set of mods.
#[derive(Debug, Clone, PartialEq, Eq)]
pub struct Profile {
    pub name: String,
    pub created_at_unix: u64,
    pub updated_at_unix: u64,
    pub mods: Vec<ProfileMod>,
}

/// A profile as listed.
#[derive(Debug, Clone, PartialEq, Eq)]
pub struct ProfileSummary {
    pub name: String,
    pub slug: String,
    pub mod_count: usize,
    pub path: String,
}

/// One change that brings the installed mods closer to a profile.
#[derive(Debug, Clone, PartialEq, Eq)]
pub enum DiffAction {
    Install { entry_name: String, display_name: String, detail: String },
    Remove { entry_name: String, display_name: String },
    Enable { entry_name: String, display_name: String },
    Disable { entry_name: String, display_name: String },
    ReplaceVersion {
        entry_name: String,
        display_name: String,
        from_version: String,
        to_version: String,
    },
}

/// The abstract value of a [`DiffAction`].
pub enum DiffView {
    Install { entry_name: Seq<char>, display_name: Seq<char>, detail: Seq<char> },
    Remove { entry_name: Seq<char>, display_name: Seq<char> },
    Enable { entry_name: Seq<char>, display_name: Seq<char> },
    Disable { entry_name: Seq<char>, display_name: Seq<char> },
    ReplaceVersion {
        entry_name: Seq<char>,
        display_name: Seq<char>,
        from_version: Seq<char>,
        to_version: Seq<char>,
    },
}

impl View for DiffAction {
    type V = DiffView;

    open spec fn view(&self) -> DiffView {
        match self {
            DiffAction::Install { entry_name, display_name, detail } => DiffView::Install {
                entry_name: entry_name@,
                display_name: display_name@,
                detail: detail@,
            },
            DiffAction::Remove { entry_name, display_name } => DiffView::Remove {
                entry_name: entry_name@,
                display_name: display_name@,
            },
            DiffAction::Enable { entry_name, display_name } => DiffView::Enable {
                entry_name: entry_name@,
                display_name: display_name@,
            },
            DiffAction::Disable { entry_name, display_name } => DiffView::Disable {
                entry_name: entry_name@,
                display_name: display_name@,
            },
            DiffAction::ReplaceVersion { entry_name, display_name, from_version, to_version } =>
            DiffView::ReplaceVersion {
                entry_name: entry_name@,
                display_name: display_name@,
                from_version: from_version@,
                to_version: to_version@,
            },
        }
    }
}

/// The changes that turn the installed mods into a profile's.
#[derive(Debug, Clone, PartialEq, Eq)]
pub struct ProfileDiff {
    pub actions: Vec<DiffAction>,
}

/// The view of an optional text.
pub open spec fn opt_view(o: Option<String>) -> Option<Seq<char>> {
    match o {
        Some(s) => Some(s@),
        None => None,
    }
}

/// Thunderstore's download address for a package version.
pub open spec fn download_url_spec(owner: Seq<char>, package_name: Seq<char>, version: Seq<char>) -> Seq<char> {
    "https://thunderstore.io/package/download/"@ + owner + "/"@ + package_name + "/"@ + version
        + "/"@
}

/// The download address of a Thunderstore package version.
pub fn thunderstore_download_url(owner: &str, package_name: &str, version: &str) -> (r: String)
    ensures
        r@ == download_url_spec(owner@, package_name@, version@),
{
    let mut r = concat_str("https://thunderstore.io/package/download/", owner);
    append_str(&mut r, "/");
    append_str(&mut r, package_name);
    append_str(&mut r, "/");
    append_str(&mut r, version);
    append_str(&mut r, "/");
    r
}

/// A full name split at its first `-` into owner and package name, both
/// non-empty.
pub open spec fn split_owner_spec(full_name: Seq<char>) -> Option<(Seq<char>, Seq<char>)> {
    let k = find_from(full_name, '-', 0);
    if k >= full_name.len() || k <= 0 || k + 1 >= full_name.len() {
        None
    } else {
        Some((full_name.take(k), full_name.skip(k + 1)))
    }
}

/// Splits `owner-name` into owner and package name.
pub fn split_owner_and_name(full_name: &str) -> (r: Option<(String, String)>)
    ensures
        match split_owner_spec(full_name@) {
            Some((o, n)) => r matches Some((ro, rn)) && ro@ == o && rn@ == n,
            None => r is None,
        },
{
    let v = chars_of(full_name);
    let k = find_char_from(&v, '-', 0);
    if k >= v.len() || k == 0 || k + 1 >= v.len() {
        return None;
    }
    let o = slice_chars(&v, 0, k);
    let n = slice_chars(&v, k + 1, v.len());
    assert(o@ == v@.take(k as int));
    assert(n@ == v@.skip(k + 1));
    Some((string_of(&o), string_of(&n)))
}

/// Is the entry a loose assembly: does the file name it ends in have a
/// `dll` extension?
pub fn looks_like_assembly_entry(entry_name: &str) -> (r: bool)
    ensures
        r == is_assembly_spec(entry_name@),
{
    is_assembly(entry_name)
}

/// Is the installed mod the profile's mod? The same entry name, the entry
/// named by its Thunderstore full name, or the folder a Nexus mod with its
/// id is installed under.
pub open spec fn matches_installed(pm: ProfileMod, installed: InstalledMod) -> bool {
    pm.entry_name@ == installed.entry_name@ || match pm.origin {
        ModOrigin::Thunderstore { full_name, .. } => full_name@ == installed.entry_name@,
        ModOrigin::Nexus { mod_id, .. } => installed.entry_name@ == "nexus-"@ + decimal(mod_id as nat),
        _ => false,
    }
}

/// Decides [`matches_installed`].
pub fn profile_mod_matches_installed(profile_mod: &ProfileMod, installed: &InstalledMod) -> (r: bool)
    ensures
        r == matches_installed(*profile_mod, *installed),
{
    if profile_mod.entry_name == installed.entry_name {
        return true;
    }
    match &profile_mod.origin {
        ModOrigin::Thunderstore { full_name, .. } => *full_name == installed.entry_name,
        ModOrigin::Nexus { mod_id, .. } => {
            let n = concat_str("nexus-", decimal_string(*mod_id).as_str());
            installed.entry_name == n
        },
        _ => false,
    }
}

/// Index of the first installed mod that is the profile's mod, from `i` on.
pub open spec fn installed_index(pm: ProfileMod, installed: Seq<InstalledMod>, i: int) -> Option<int>
    decreases installed.len() - i,
{
    if i < 0 || i >= installed.len() {
        None
    } else if matches_installed(pm, installed[i]) {
        Some(i)
    } else {
        installed_index(pm, installed, i + 1)
    }
}

/// Index of the installed mod that is the profile's mod.
pub fn installed_index_exec(profile_mod: &ProfileMod, installed_mods: &[InstalledMod]) -> (r: Option<usize>)
    ensures
        match installed_index(*profile_mod, installed_mods@, 0) {
            Some(i) => r == Some(i as usize) && 0 <= i < installed_mods.len(),
            None => r is None,
        },
{
    let mut i: usize = 0;
    while i < installed_mods.len()
        invariant
            i <= installed_mods.len(),
            installed_index(*profile_mod, installed_mods@, 0) == installed_index(*profile_mod, installed_mods@, i as int),
        decreases installed_mods.len() - i,
    {
        if profile_mod_matches_installed(profile_mod, &installed_mods[i]) {
            return Some(i);
        }
        i += 1;
    }
    None
}

/// Finds the installed mod that is the profile's mod.
pub fn find_installed_for_profile_mod<'a>(profile_mod: &ProfileMod, installed_mods: &'a [InstalledMod]) -> (r: Option<&'a InstalledMod>)
    ensures
        match installed_index(*profile_mod, installed_mods@, 0) {
            Some(i) => r matches Some(m) && *m == installed_mods@[i],
            None => r is None,
        },
{
    match installed_index_exec(profile_mod, installed_mods) {
        Some(i) => Some(&installed_mods[i]),
        None => None,
    }
}

/// Index of the first package satisfying `f`, from `i` on.
pub open spec fn first_package(catalog: Seq<RemotePackage>, f: spec_fn(RemotePackage) -> bool, i: int) -> Option<int>
    decreases catalog.len() - i,
{
    if i < 0 || i >= catalog.len() {
        None
    } else if f(catalog[i]) {
        Some(i)
    } else {
        first_package(catalog, f, i + 1)
    }
}

/// The package a profile's mod resolves to in the catalog. A loose
/// assembly resolves to none. A Thunderstore mod takes the package with
/// its full name and version, else the one with its full name. Otherwise
/// the package whose full name is the entry name, then the one whose full
/// name equals it ignoring case, then, for an entry shaped `owner-name`,
/// the one whose name matches the display or entry name ignoring case.
pub open spec fn resolve_index(pm: ProfileMod, catalog: Seq<RemotePackage>) -> Option<int> {
    if is_assembly_spec(pm.entry_name@) {
        None
    } else {
        let by_origin = match pm.origin {
            ModOrigin::Thunderstore { full_name, version, .. } => {
                match first_package(catalog, |p: RemotePackage| p.full_name@ == full_name@ && p.version@ == version@, 0) {
                    Some(i) => Some(i),
                    None => first_package(catalog, |p: RemotePackage| p.full_name@ == full_name@, 0),
                }
            },
            _ => None,
        };
        match by_origin {
            Some(i) => Some(i),
            None => match first_package(catalog, |p: RemotePackage| p.full_name@ == pm.entry_name@, 0) {
                Some(i) => Some(i),
                None => match first_package(catalog, |p: RemotePackage| eq_ignore_case(p.full_name@, pm.entry_name@), 0) {
                    Some(i) => Some(i),
                    None => if split_owner_spec(pm.entry_name@) is None {
                        None
                    } else {
                        first_package(catalog, |p: RemotePackage| eq_ignore_case(p.name@, pm.display_name@) || eq_ignore_case(p.name@, pm.entry_name@), 0)
                    },
                },
            },
        }
    }
}

/// The rule a catalog search uses.
enum Rule {
    FullAndVersion,
    Full,
    Entry,
    EntryIgnoringCase,
    Name,
}

/// Does package `p` satisfy the rule for profile mod `pm`?
spec fn rule_holds(rule: Rule, pm: ProfileMod, full: Seq<char>, version: Seq<char>, p: RemotePackage) -> bool {
    match rule {
        Rule::FullAndVersion => p.full_name@ == full && p.version@ == version,
        Rule::Full => p.full_name@ == full,
        Rule::Entry => p.full_name@ == pm.entry_name@,
        Rule::EntryIgnoringCase => eq_ignore_case(p.full_name@, pm.entry_name@),
        Rule::Name => eq_ignore_case(p.name@, pm.display_name@) || eq_ignore_case(p.name@, pm.entry_name@),
    }
}

/// Finds the first package satisfying a rule.
fn find_by_rule(catalog: &[RemotePackage], rule: Rule, pm: &ProfileMod, full: &str, version: &str) -> (r: Option<usize>)
    ensures
        match first_package(catalog@, |p: RemotePackage| rule_holds(rule, *pm, full@, version@, p), 0) {
            Some(i) => r == Some(i as usize) && 0 <= i < catalog.len(),
            None => r is None,
        },
{
    let ghost f = |p: RemotePackage| rule_holds(rule, *pm, full@, version@, p);
    let entry = chars_of(pm.entry_name.as_str());
    let display = chars_of(pm.display_name.as_str());
    let mut i: usize = 0;
    while i < catalog.len()
        invariant
            i <= catalog.len(),
            entry@ == pm.entry_name@,
            display@ == pm.display_name@,
            f == |p: RemotePackage| rule_holds(rule, *pm, full@, version@, p),
            first_package(catalog@, f, 0) == first_package(catalog@, f, i as int),
        decreases catalog.len() - i,
    {
        let p = &catalog[i];
        let hit = match rule {
            Rule::FullAndVersion => str_eq(p.full_name.as_str(), full) && str_eq(p.version.as_str(), version),
            Rule::Full => str_eq(p.full_name.as_str(), full),
            Rule::Entry => p.full_name == pm.entry_name,
            Rule::EntryIgnoringCase => eq_ignore_case_exec(&chars_of(p.full_name.as_str()), &entry),
            Rule::Name => {
                let name = chars_of(p.name.as_str());
                eq_ignore_case_exec(&name, &display) || eq_ignore_case_exec(&name, &entry)
            },
        };
        assert(hit == f(catalog@[i as int]));
        if hit {
            return Some(i);
        }
        i += 1;
    }
    None
}

/// Index of the package a profile's mod resolves to.
fn resolve_index_exec(profile_mod: &ProfileMod, catalog: &[RemotePackage]) -> (r: Option<usize>)
    ensures
        match resolve_index(*profile_mod, catalog@) {
            Some(i) => r == Some(i as usize) && 0 <= i < catalog.len(),
            None => r is None,
        },
{
    if looks_like_assembly_entry(profile_mod.entry_name.as_str()) {
        return None;
    }
    let pm = profile_mod;
    match &pm.origin {
        ModOrigin::Thunderstore { full_name, version, .. } => {
            let a = find_by_rule(catalog, Rule::FullAndVersion, pm, full_name.as_str(), version.as_str());
            proof {
                assert((|p: RemotePackage| rule_holds(Rule::FullAndVersion, *pm, full_name@, version@, p)) =~= (|p: RemotePackage| p.full_name@ == full_name@ && p.version@ == version@));
            }
            if a.is_some() {
                return a;
            }
            let b = find_by_rule(catalog, Rule::Full, pm, full_name.as_str(), version.as_str());
            proof {
                assert((|p: RemotePackage| rule_holds(Rule::Full, *pm, full_name@, version@, p)) =~= (|p: RemotePackage| p.full_name@ == full_name@));
            }
            if b.is_some() {
                return b;
            }
        },
        _ => {},
    }
    let c = find_by_rule(catalog, Rule::Entry, pm, "", "");
    proof {
        assert((|p: RemotePackage| rule_holds(Rule::Entry, *pm, ""@, ""@, p)) =~= (|p: RemotePackage| p.full_name@ == pm.entry_name@));
    }
    if c.is_some() {
        return c;
    }
    let d = find_by_rule(catalog, Rule::EntryIgnoringCase, pm, "", "");
    proof {
        assert((|p: RemotePackage| rule_holds(Rule::EntryIgnoringCase, *pm, ""@, ""@, p)) =~= (|p: RemotePackage| eq_ignore_case(p.full_name@, pm.entry_name@)));
    }
    if d.is_some() {
        return d;
    }
    if split_owner_and_name(pm.entry_name.as_str()).is_none() {
        return None;
    }
    let e = find_by_rule(catalog, Rule::Name, pm, "", "");
    proof {
        assert((|p: RemotePackage| rule_holds(Rule::Name, *pm, ""@, ""@, p)) =~= (|p: RemotePackage| eq_ignore_case(p.name@, pm.display_name@) || eq_ignore_case(p.name@, pm.entry_name@)));
    }
    e
}

/// Finds the package a profile's mod resolves to in the catalog.
///
/// The entry is a single file or folder name, as the mod folders list it.
pub fn resolve_thunderstore_package<'a>(profile_mod: &ProfileMod, catalog: &'a [RemotePackage]) -> (r: Option<&'a RemotePackage>)
    ensures
        match resolve_index(*profile_mod, catalog@) {
            Some(i) => r matches Some(p) && *p == catalog@[i],
            None => r is None,
        },
{
    match resolve_index_exec(profile_mod, catalog) {
        Some(i) => Some(&catalog[i]),
        None => None,
    }
}

/// What to download for a profile's mod from Thunderstore: full name,
/// version and address. A Thunderstore mod keeps its own address when the
/// resolved package has its version and falls back to its own record when
/// nothing resolves; other mods need a resolved package.
pub open spec fn thunderstore_ref_spec(pm: ProfileMod, catalog: Seq<RemotePackage>) -> Option<(Seq<char>, Seq<char>, Seq<char>)> {
    match pm.origin {
        ModOrigin::Thunderstore { full_name, version, download_url, .. } => match resolve_index(pm, catalog) {
            Some(i) => {
                let p = catalog[i];
                Some((p.full_name@, p.version@, if p.version@ == version@ {
                    download_url@
                } else {
                    download_url_spec(p.owner@, p.name@, p.version@)
                }))
            },
            None => Some((full_name@, version@, download_url@)),
        },
        _ => match resolve_index(pm, catalog) {
            Some(i) => {
                let p = catalog[i];
                Some((p.full_name@, p.version@, download_url_spec(p.owner@, p.name@, p.version@)))
            },
            None => None,
        },
    }
}

/// Where to download a profile's mod from Thunderstore.
///
/// The entry is a single file or folder name, as the mod folders list it.
pub fn thunderstore_ref_from_profile_mod(profile_mod: &ProfileMod, catalog: &[RemotePackage]) -> (r: Option<(String, String, String)>)
    ensures
        match thunderstore_ref_spec(*profile_mod, catalog@) {
            Some((f, v, u)) => r matches Some((rf, rv, ru)) && rf@ == f && rv@ == v && ru@ == u,
            None => r is None,
        },
{
    let resolved = resolve_thunderstore_package(profile_mod, catalog);
    match &profile_mod.origin {
        ModOrigin::Thunderstore { full_name, version, download_url, .. } => match resolved {
            Some(remote) => {
                let url = if remote.version == *version {
                    download_url.clone()
                } else {
                    thunderstore_download_url(remote.owner.as_str(), remote.name.as_str(), remote.version.as_str())
                };
                Some((remote.full_name.clone(), remote.version.clone(), url))
            },
            None => Some((full_name.clone(), version.clone(), download_url.clone())),
        },
        _ => match resolved {
            Some(remote) => Some((
                remote.full_name.clone(),
                remote.version.clone(),
                thunderstore_download_url(remote.owner.as_str(), remote.name.as_str(), remote.version.as_str()),
            )),
            None => None,
        },
    }
}


/// The abstract value of a [`ModOrigin`].
pub enum OriginView {
    Thunderstore {
        owner: Seq<char>,
        package_name: Seq<char>,
        full_name: Seq<char>,
        version: Seq<char>,
        download_url: Seq<char>,
    },
    Nexus { mod_id: u64, file_id: u64, game_domain: Seq<char>, version: Seq<char>, mod_name: Seq<char> },
    Local { mod_kind: LocalModKind },
}

/// The abstract value of a [`ProfileMod`].
pub struct ProfileModView {
    pub entry_name: Seq<char>,
    pub display_name: Seq<char>,
    pub enabled: bool,
    pub origin: OriginView,
}

/// The abstract value of an origin.
pub open spec fn origin_view(o: ModOrigin) -> OriginView {
    match o {
        ModOrigin::Thunderstore { owner, package_name, full_name, version, download_url } =>
        OriginView::Thunderstore {
            owner: owner@,
            package_name: package_name@,
            full_name: full_name@,
            version: version@,
            download_url: download_url@,
        },
        ModOrigin::Nexus { mod_id, file_id, game_domain, version, mod_name } => OriginView::Nexus {
            mod_id,
            file_id,
            game_domain: game_domain@,
            version: version@,
            mod_name: mod_name@,
        },
        ModOrigin::Local { mod_kind } => OriginView::Local { mod_kind },
    }
}

/// The abstract value of a profile's mod.
pub open spec fn profile_mod_view(m: ProfileMod) -> ProfileModView {
    ProfileModView {
        entry_name: m.entry_name@,
        display_name: m.display_name@,
        enabled: m.enabled,
        origin: origin_view(m.origin),
    }
}

/// The profile entry recorded for an installed mod. A Nexus mod uses its
/// Nexus record when there is one (`meta`, read from its folder) and is
/// local otherwise. Other mods take the catalog package they match, else a
/// Thunderstore origin rebuilt from an `owner-name` entry with a known
/// version, else a local origin.
pub open spec fn profile_mod_spec(installed: InstalledMod, catalog: Seq<RemotePackage>, meta: Option<NexusMeta>) -> ProfileModView {
    let local = ProfileModView {
        entry_name: installed.entry_name@,
        display_name: installed.display_name@,
        enabled: installed.enabled,
        origin: OriginView::Local { mod_kind: match installed.kind {
            ModKind::Folder => LocalModKind::Folder,
            ModKind::Assembly => LocalModKind::Assembly,
        } },
    };
    if installed.source == ModSource::Nexus {
        match meta {
            Some(m) => ProfileModView {
                entry_name: installed.entry_name@,
                display_name: if m.mod_name@.len() == 0 { installed.display_name@ } else { m.mod_name@ },
                enabled: installed.enabled,
                origin: OriginView::Nexus {
                    mod_id: m.mod_id,
                    file_id: m.file_id,
                    game_domain: m.game_domain@,
                    version: m.version@,
                    mod_name: m.mod_name@,
                },
            },
            None => local,
        }
    } else {
        match match_index(catalog, installed) {
            Some(i) => {
                let remote = catalog[i];
                let version = match installed.version {
                    Some(v) => v@,
                    None => remote.version@,
                };
                ProfileModView {
                    entry_name: installed.entry_name@,
                    display_name: remote.name@,
                    enabled: installed.enabled,
                    origin: OriginView::Thunderstore {
                        owner: remote.owner@,
                        package_name: remote.name@,
                        full_name: remote.full_name@,
                        version,
                        download_url: download_url_spec(remote.owner@, remote.name@, version),
                    },
                }
            },
            None => match (split_owner_spec(installed.entry_name@), installed.version) {
                (Some((owner, package_name)), Some(v)) => ProfileModView {
                    entry_name: installed.entry_name@,
                    display_name: installed.display_name@,
                    enabled: installed.enabled,
                    origin: OriginView::Thunderstore {
                        owner,
                        package_name,
                        full_name: installed.entry_name@,
                        version: v@,
                        download_url: download_url_spec(owner, package_name, v@),
                    },
                },
                _ => local,
            },
        }
    }
}

/// A mod not from Nexus Mods that is found in the catalog is recorded as
/// the catalog's package at the version that is installed (the package's
/// version only when the installed one is unknown), with a download address
/// that names that version.
pub open spec fn saved_at_installed_version(installed: InstalledMod, catalog: Seq<RemotePackage>, r: ProfileModView) -> bool {
    installed.source != ModSource::Nexus && match_index(catalog, installed) is Some ==> {
        let remote = catalog[match_index(catalog, installed)->0];
        &&& r.origin is Thunderstore
        &&& r.origin->Thunderstore_owner == remote.owner@
        &&& r.origin->Thunderstore_package_name == remote.name@
        &&& r.origin->Thunderstore_full_name == remote.full_name@
        &&& installed.version is Some ==> r.origin->Thunderstore_version == installed.version->0@
        &&& installed.version is None ==> r.origin->Thunderstore_version == remote.version@
        &&& r.origin->Thunderstore_download_url == download_url_spec(
            remote.owner@,
            remote.name@,
            r.origin->Thunderstore_version,
        )
    }
}

/// A saved mod keeps its entry name and enabled flag, and a mod found in
/// the catalog is saved at the version installed, not the catalog's latest
/// (see [`saved_at_installed_version`]).
pub proof fn lemma_saved_version_is_installed(installed: InstalledMod, catalog: Seq<RemotePackage>, meta: Option<NexusMeta>)
    ensures
        profile_mod_spec(installed, catalog, meta).entry_name == installed.entry_name@,
        profile_mod_spec(installed, catalog, meta).enabled == installed.enabled,
        saved_at_installed_version(installed, catalog, profile_mod_spec(installed, catalog, meta)),
{
}

/// The profile entry recorded for an installed mod; `meta` is the Nexus
/// record read from the mod's folder, which counts only for a Nexus mod.
pub fn profile_mod_from_installed(installed: &InstalledMod, catalog: &[RemotePackage], meta: Option<NexusMeta>) -> (r: ProfileMod)
    ensures
        profile_mod_view(r) == profile_mod_spec(*installed, catalog@, meta),
        saved_at_installed_version(*installed, catalog@, profile_mod_view(r)),
{
    proof {
        lemma_saved_version_is_installed(*installed, catalog@, meta);
    }
    let local = ProfileMod {
        entry_name: installed.entry_name.clone(),
        display_name: installed.display_name.clone(),
        enabled: installed.enabled,
        origin: ModOrigin::Local { mod_kind: local_kind_of(installed.kind) },
    };
    if installed.source == ModSource::Nexus {
        return match meta {
            Some(m) => {
                let display = if chars_of(m.mod_name.as_str()).len() == 0 {
                    installed.display_name.clone()
                } else {
                    m.mod_name.clone()
                };
                ProfileMod {
                    entry_name: installed.entry_name.clone(),
                    display_name: display,
                    enabled: installed.enabled,
                    origin: ModOrigin::Nexus {
                        mod_id: m.mod_id,
                        file_id: m.file_id,
                        game_domain: m.game_domain,
                        version: m.version,
                        mod_name: m.mod_name,
                    },
                }
            },
            None => local,
        };
    }
    match match_installed_package(installed, catalog) {
        Some(remote) => {
            let version = match &installed.version {
                Some(v) => v.clone(),
                None => remote.version.clone(),
            };
            let url = thunderstore_download_url(remote.owner.as_str(), remote.name.as_str(), version.as_str());
            return ProfileMod {
                entry_name: installed.entry_name.clone(),
                display_name: remote.name.clone(),
                enabled: installed.enabled,
                origin: ModOrigin::Thunderstore {
                    owner: remote.owner.clone(),
                    package_name: remote.name.clone(),
                    full_name: remote.full_name.clone(),
                    version,
                    download_url: url,
                },
            };
        },
        None => {},
    }
    match (split_owner_and_name(installed.entry_name.as_str()), &installed.version) {
        (Some((owner, package_name)), Some(version)) => {
            let url = thunderstore_download_url(owner.as_str(), package_name.as_str(), version.as_str());
            ProfileMod {
                entry_name: installed.entry_name.clone(),
                display_name: installed.display_name.clone(),
                enabled: installed.enabled,
                origin: ModOrigin::Thunderstore {
                    owner,
                    package_name,
                    full_name: installed.entry_name.clone(),
                    version: version.clone(),
                    download_url: url,
                },
            }
        },
        _ => local,
    }
}

// ---------------------------------------------------------------------------
// The diff
// ---------------------------------------------------------------------------

/// How an install is described for a mod's origin.
pub open spec fn install_detail(o: ModOrigin) -> Seq<char> {
    match o {
        ModOrigin::Thunderstore { version, .. } => "thunderstore v"@ + version@,
        ModOrigin::Nexus { mod_id, version, .. } => "nexus #"@ + decimal(mod_id as nat) + " v"@ + version@,
        ModOrigin::Local { .. } => "local stash or thunderstore"@,
    }
}

/// The version a profile's mod wants of its installed match: a Thunderstore
/// mod's own, a Nexus mod's own unless empty, else the installed one.
pub open spec fn wanted_version(o: ModOrigin, installed: InstalledMod) -> Option<Seq<char>> {
    match o {
        ModOrigin::Thunderstore { version, .. } => Some(version@),
        ModOrigin::Nexus { version, .. } => if version@.len() == 0 {
            opt_view(installed.version)
        } else {
            Some(version@)
        },
        ModOrigin::Local { .. } => opt_view(installed.version),
    }
}

/// The changes one profile mod asks for: an install when nothing installed
/// matches it; otherwise a version change when the wanted version differs,
/// then an enable or disable when the flag differs.
pub open spec fn mod_actions(tm: ProfileMod, current: Seq<InstalledMod>) -> Seq<DiffView> {
    match installed_index(tm, current, 0) {
        None => seq![DiffView::Install {
            entry_name: tm.entry_name@,
            display_name: tm.display_name@,
            detail: install_detail(tm.origin),
        }],
        Some(i) => {
            let inst = current[i];
            let replace = match wanted_version(tm.origin, inst) {
                Some(w) => if opt_view(inst.version) != Some(w) {
                    seq![DiffView::ReplaceVersion {
                        entry_name: inst.entry_name@,
                        display_name: tm.display_name@,
                        from_version: match inst.version { Some(v) => v@, None => "?"@ },
                        to_version: w,
                    }]
                } else {
                    Seq::empty()
                },
                None => Seq::empty(),
            };
            let toggle = if inst.enabled != tm.enabled {
                if tm.enabled {
                    seq![DiffView::Enable { entry_name: inst.entry_name@, display_name: tm.display_name@ }]
                } else {
                    seq![DiffView::Disable { entry_name: inst.entry_name@, display_name: tm.display_name@ }]
                }
            } else {
                Seq::empty()
            };
            replace + toggle
        },
    }
}

/// The changes the profile's mods ask for, in order.
pub open spec fn target_actions(tms: Seq<ProfileMod>, current: Seq<InstalledMod>) -> Seq<DiffView>
    decreases tms.len(),
{
    if tms.len() == 0 {
        Seq::empty()
    } else {
        target_actions(tms.drop_last(), current) + mod_actions(tms.last(), current)
    }
}

/// Is the installed mod one the profile keeps?
pub open spec fn still_wanted(tms: Seq<ProfileMod>, installed: InstalledMod) -> bool {
    exists|k: int| 0 <= k < tms.len() && matches_installed(#[trigger] tms[k], installed)
}

/// A removal for each installed mod the profile does not keep, in order.
pub open spec fn remove_actions(current: Seq<InstalledMod>, tms: Seq<ProfileMod>) -> Seq<DiffView>
    decreases current.len(),
{
    if current.len() == 0 {
        Seq::empty()
    } else {
        let prev = remove_actions(current.drop_last(), tms);
        let inst = current.last();
        if still_wanted(tms, inst) {
            prev
        } else {
            prev.push(DiffView::Remove { entry_name: inst.entry_name@, display_name: inst.display_name@ })
        }
    }
}

/// The views of a list of actions.
pub open spec fn action_views(a: Seq<DiffAction>) -> Seq<DiffView> {
    a.map_values(|x: DiffAction| x@)
}

/// The description of an install for a mod's origin.
fn install_detail_exec(o: &ModOrigin) -> (r: String)
    ensures
        r@ == install_detail(*o),
{
    match o {
        ModOrigin::Thunderstore { version, .. } => concat_str("thunderstore v", version.as_str()),
        ModOrigin::Nexus { mod_id, version, .. } => {
            let mut r = concat_str("nexus #", decimal_string(*mod_id).as_str());
            append_str(&mut r, " v");
            append_str(&mut r, version.as_str());
            r
        },
        ModOrigin::Local { .. } => "local stash or thunderstore".to_owned(),
    }
}

/// Appends the changes one profile mod asks for.
fn push_mod_actions(actions: &mut Vec<DiffAction>, tm: &ProfileMod, current: &[InstalledMod])
    ensures
        action_views(final(actions)@) == action_views(old(actions)@) + mod_actions(*tm, current@),
{
    let ghost start = action_views(actions@);
    match installed_index_exec(tm, current) {
        None => {
            let detail = install_detail_exec(&tm.origin);
            actions.push(DiffAction::Install {
                entry_name: tm.entry_name.clone(),
                display_name: tm.display_name.clone(),
                detail,
            });
            assert(action_views(actions@) =~= start + mod_actions(*tm, current@));
        },
        Some(i) => {
            let installed = &current[i];
            let wanted: Option<String> = match &tm.origin {
                ModOrigin::Thunderstore { version, .. } => Some(version.clone()),
                ModOrigin::Nexus { version, .. } => {
                    if chars_of(version.as_str()).len() == 0 {
                        installed.version.clone()
                    } else {
                        Some(version.clone())
                    }
                },
                ModOrigin::Local { .. } => installed.version.clone(),
            };
            assert(opt_view(wanted) == wanted_version(tm.origin, *installed));
            let ghost mid = action_views(actions@);
            match wanted {
                Some(w) => {
                    let same = match &installed.version {
                        Some(v) => *v == w,
                        None => false,
                    };
                    if !same {
                        let from = match &installed.version {
                            Some(v) => v.clone(),
                            None => "?".to_owned(),
                        };
                        actions.push(DiffAction::ReplaceVersion {
                            entry_name: installed.entry_name.clone(),
                            display_name: tm.display_name.clone(),
                            from_version: from,
                            to_version: w,
                        });
                    }
                },
                None => {},
            }
            let ghost after_replace = action_views(actions@);
            if installed.enabled != tm.enabled {
                if tm.enabled {
                    actions.push(DiffAction::Enable {
                        entry_name: installed.entry_name.clone(),
                        display_name: tm.display_name.clone(),
                    });
                } else {
                    actions.push(DiffAction::Disable {
                        entry_name: installed.entry_name.clone(),
                        display_name: tm.display_name.clone(),
                    });
                }
            }
            assert(action_views(actions@) =~= start + mod_actions(*tm, current@));
        },
    }
}

/// The changes that turn the installed mods into the profile's: for each
/// profile mod in order, an install, or a version change and an enable or
/// disable of its installed match; then a removal for each installed mod
/// the profile does not keep.
pub fn build_diff(current: &[InstalledMod], target: &Profile) -> (r: ProfileDiff)
    ensures
        action_views(r.actions@) == target_actions(target.mods@, current@) + remove_actions(current@, target.mods@),
{
    let mut actions: Vec<DiffAction> = Vec::new();
    let mut i: usize = 0;
    while i < target.mods.len()
        invariant
            i <= target.mods.len(),
            action_views(actions@) == target_actions(target.mods@.take(i as int), current@),
        decreases target.mods.len() - i,
    {
        push_mod_actions(&mut actions, &target.mods[i], current);
        proof {
            assert(target.mods@.take(i as int + 1).drop_last() =~= target.mods@.take(i as int));
            assert(target.mods@.take(i as int + 1).last() == target.mods@[i as int]);
        }
        i += 1;
    }
    assert(target.mods@.take(i as int) =~= target.mods@);
    let ghost head = action_views(actions@);
    let mut j: usize = 0;
    while j < current.len()
        invariant
            j <= current.len(),
            head == target_actions(target.mods@, current@),
            action_views(actions@) == head + remove_actions(current@.take(j as int), target.mods@),
        decreases current.len() - j,
    {
        let installed = &current[j];
        let mut wanted = false;
        let mut k: usize = 0;
        while k < target.mods.len()
            invariant
                k <= target.mods.len(),
                wanted == exists|m: int| 0 <= m < k && matches_installed(#[trigger] target.mods@[m], *installed),
            decreases target.mods.len() - k,
        {
            if profile_mod_matches_installed(&target.mods[k], installed) {
                wanted = true;
            }
            k += 1;
        }
        proof {
            assert(current@.take(j as int + 1).drop_last() =~= current@.take(j as int));
            assert(current@.take(j as int + 1).last() == current@[j as int]);
            assert(wanted == still_wanted(target.mods@, current@[j as int]));
        }
        let ghost prev = action_views(actions@);
        if !wanted {
            actions.push(DiffAction::Remove {
                entry_name: installed.entry_name.clone(),
                display_name: installed.display_name.clone(),
            });
            assert(action_views(actions@) =~= prev.push(DiffView::Remove {
                entry_name: current@[j as int].entry_name@,
                display_name: current@[j as int].display_name@,
            }));
        }
        j += 1;
        assert(action_views(actions@) =~= head + remove_actions(current@.take(j as int), target.mods@));
    }
    assert(current@.take(j as int) =~= current@);
    ProfileDiff { actions }
}


/// The match `installed_index` finds lies in the list, at or after `i`.
proof fn lemma_installed_index_bounds(pm: ProfileMod, installed: Seq<InstalledMod>, i: int)
    requires
        0 <= i,
    ensures
        installed_index(pm, installed, i) matches Some(j) ==> i <= j < installed.len(),
    decreases installed.len() - i,
{
    if i < installed.len() && !matches_installed(pm, installed[i]) {
        lemma_installed_index_bounds(pm, installed, i + 1);
    }
}

/// The enabled state a profile mod asks of its installed match: when the
/// two differ, the mod's changes end with exactly one toggle, an enable when
/// the profile wants the mod on and a disable when it wants it off; when they
/// agree there is no toggle. A profile mod with no installed match is
/// installed, and nothing else.
pub proof fn lemma_mod_actions_toggle(tm: ProfileMod, current: Seq<InstalledMod>)
    ensures
        match installed_index(tm, current, 0) {
            None => mod_actions(tm, current) == seq![DiffView::Install {
                entry_name: tm.entry_name@,
                display_name: tm.display_name@,
                detail: install_detail(tm.origin),
            }],
            Some(i) => {
                let acts = mod_actions(tm, current);
                let inst = current[i];
                &&& forall|k: int|
                    0 <= k < acts.len() && (#[trigger] acts[k] is Enable || acts[k] is Disable) ==> k
                        == acts.len() - 1 && inst.enabled != tm.enabled
                &&& inst.enabled != tm.enabled && tm.enabled ==> acts.len() > 0 && acts.last()
                    == DiffView::Enable { entry_name: inst.entry_name@, display_name: tm.display_name@ }
                &&& inst.enabled != tm.enabled && !tm.enabled ==> acts.len() > 0 && acts.last()
                    == DiffView::Disable { entry_name: inst.entry_name@, display_name: tm.display_name@ }
            },
        },
{
    if let Some(i) = installed_index(tm, current, 0) {
        lemma_installed_index_bounds(tm, current, 0);
        let acts = mod_actions(tm, current);
        let inst = current[i];
        let replace = match wanted_version(tm.origin, inst) {
            Some(w) => if opt_view(inst.version) != Some(w) {
                seq![DiffView::ReplaceVersion {
                    entry_name: inst.entry_name@,
                    display_name: tm.display_name@,
                    from_version: match inst.version { Some(v) => v@, None => "?"@ },
                    to_version: w,
                }]
            } else {
                Seq::empty()
            },
            None => Seq::empty(),
        };
        assert forall|k: int| 0 <= k < replace.len() implies #[trigger] replace[k] is ReplaceVersion by {}
        assert forall|k: int|
            0 <= k < acts.len() && (#[trigger] acts[k] is Enable || acts[k] is Disable) implies k
                == acts.len() - 1 && inst.enabled != tm.enabled by {
            if k < replace.len() {
                assert(acts[k] == replace[k]);
            }
        }
    }
}

/// Where a profile mod's changes stand in the changes of the whole profile.
proof fn lemma_target_actions_contains(tms: Seq<ProfileMod>, current: Seq<InstalledMod>, k: int, q: int)
    requires
        0 <= k < tms.len(),
        0 <= q < mod_actions(tms[k], current).len(),
    ensures
        target_actions(tms, current).contains(mod_actions(tms[k], current)[q]),
    decreases tms.len(),
{
    let prefix = target_actions(tms.drop_last(), current);
    let x = mod_actions(tms[k], current)[q];
    if k == tms.len() - 1 {
        assert(target_actions(tms, current)[prefix.len() + q] == x);
    } else {
        assert(tms.drop_last()[k] == tms[k]);
        lemma_target_actions_contains(tms.drop_last(), current, k, q);
        let p = choose|p: int| 0 <= p < prefix.len() && prefix[p] == x;
        assert(target_actions(tms, current)[p] == x);
    }
}

/// The diff enables every mod the profile wants on that is installed off,
/// and disables every mod the profile wants off that is installed on.
pub proof fn lemma_diff_toggles(current: Seq<InstalledMod>, tms: Seq<ProfileMod>, k: int)
    requires
        0 <= k < tms.len(),
        installed_index(tms[k], current, 0) is Some,
        current[installed_index(tms[k], current, 0)->0].enabled != tms[k].enabled,
    ensures
        (target_actions(tms, current) + remove_actions(current, tms)).contains(
            if tms[k].enabled {
                DiffView::Enable {
                    entry_name: current[installed_index(tms[k], current, 0)->0].entry_name@,
                    display_name: tms[k].display_name@,
                }
            } else {
                DiffView::Disable {
                    entry_name: current[installed_index(tms[k], current, 0)->0].entry_name@,
                    display_name: tms[k].display_name@,
                }
            },
        ),
{
    lemma_mod_actions_toggle(tms[k], current);
    let acts = mod_actions(tms[k], current);
    lemma_target_actions_contains(tms, current, k, acts.len() - 1);
    let ta = target_actions(tms, current);
    let x = acts[acts.len() - 1];
    let p = choose|p: int| 0 <= p < ta.len() && ta[p] == x;
    assert((ta + remove_actions(current, tms))[p] == x);
}

/// The first match of a profile mod is at `i` when nothing in `[k, i)`
/// matches and `i` does.
proof fn lemma_installed_index_at(pm: ProfileMod, current: Seq<InstalledMod>, k: int, i: int)
    requires
        0 <= k <= i < current.len(),
        matches_installed(pm, current[i]),
        forall|j: int| k <= j < i ==> !matches_installed(pm, #[trigger] current[j]),
    ensures
        installed_index(pm, current, k) == Some(i),
    decreases i - k,
{
    if k < i {
        lemma_installed_index_at(pm, current, k + 1, i);
    }
}

/// Each installed mod listed as a local mod under its own entry name and
/// enabled flag.
pub open spec fn is_local_snapshot(current: Seq<InstalledMod>, tms: Seq<ProfileMod>) -> bool {
    &&& tms.len() == current.len()
    &&& forall|i: int| 0 <= i < tms.len() ==> {
        &&& (#[trigger] tms[i]).entry_name@ == current[i].entry_name@
        &&& tms[i].enabled == current[i].enabled
        &&& tms[i].origin is Local
    }
}

/// Diffing against a profile that lists the installed mods as they are
/// changes nothing: when the installed mods have distinct entry names and
/// the profile lists each, in order, as a local mod with the same entry
/// name and enabled flag, the diff is empty.
pub proof fn lemma_diff_of_local_snapshot_is_empty(current: Seq<InstalledMod>, tms: Seq<ProfileMod>)
    requires
        is_local_snapshot(current, tms),
        forall|i: int, j: int| 0 <= i < j < current.len() ==> (#[trigger] current[i]).entry_name@ != (#[trigger] current[j]).entry_name@,
    ensures
        target_actions(tms, current) + remove_actions(current, tms) == Seq::<DiffView>::empty(),
{
    assert forall|i: int| 0 <= i < tms.len() implies mod_actions(#[trigger] tms[i], current) == Seq::<DiffView>::empty() by {
        assert forall|j: int| 0 <= j < i implies !matches_installed(tms[i], #[trigger] current[j]) by {
            assert(current[j].entry_name@ != current[i].entry_name@);
        }
        lemma_installed_index_at(tms[i], current, 0, i);
        assert(mod_actions(tms[i], current) =~= Seq::<DiffView>::empty());
    }
    lemma_target_actions_empty(current, tms, tms.len() as int);
    lemma_remove_actions_empty(current, tms, current.len() as int);
    assert(tms.take(tms.len() as int) =~= tms);
    assert(current.take(current.len() as int) =~= current);
}

/// The prefix of the profile's changes is empty when each mod asks none.
proof fn lemma_target_actions_empty(current: Seq<InstalledMod>, tms: Seq<ProfileMod>, n: int)
    requires
        0 <= n <= tms.len(),
        forall|i: int| 0 <= i < tms.len() ==> mod_actions(#[trigger] tms[i], current) == Seq::<DiffView>::empty(),
    ensures
        target_actions(tms.take(n), current) == Seq::<DiffView>::empty(),
    decreases n,
{
    if n > 0 {
        lemma_target_actions_empty(current, tms, n - 1);
        assert(tms.take(n).drop_last() =~= tms.take(n - 1));
        assert(tms.take(n).last() == tms[n - 1]);
        assert(target_actions(tms.take(n), current) =~= Seq::<DiffView>::empty());
    }
}

/// No removals when the profile lists every installed mod.
proof fn lemma_remove_actions_empty(current: Seq<InstalledMod>, tms: Seq<ProfileMod>, n: int)
    requires
        0 <= n <= current.len(),
        is_local_snapshot(current, tms),
    ensures
        remove_actions(current.take(n), tms) == Seq::<DiffView>::empty(),
    decreases n,
{
    if n > 0 {
        lemma_remove_actions_empty(current, tms, n - 1);
        assert(current.take(n).drop_last() =~= current.take(n - 1));
        assert(current.take(n).last() == current[n - 1]);
        assert(matches_installed(tms[n - 1], current[n - 1]));
        assert(still_wanted(tms, current[n - 1]));
    }
}

} // verus!
