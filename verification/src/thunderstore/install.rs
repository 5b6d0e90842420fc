//! Matching installed mods to Thunderstore packages, updates, and the
//! dependencies a package still needs.
use vstd::prelude::*;

use super::package::{is_modloader_pack, parse_dependency, parse_dependency_spec, version_is_newer, version_order, RemotePackage};
use crate::archive::{escapes_destination, escapes_destination_exec};
use crate::mods::InstalledMod;
use crate::text::{chars_of, concat_str, contains, eq_ignore_case, eq_ignore_case_exec, str_eq, string_of, slice_chars};

verus! {

/// A dependency that is not installed.
#[derive(Debug, Clone)]
pub struct MissingDependency {
    pub full_name: String,
    pub required_version: String,
    pub package: Option<RemotePackage>,
}

/// A request to install a package, and whether to bring its dependencies.
#[derive(Debug, Clone)]
pub struct InstallRequest {
    pub package: RemotePackage,
    pub include_dependencies: bool,
}

/// What an install did.
#[derive(Debug, Clone)]
pub struct InstallReport {
    pub installed: Vec<String>,
    pub skipped_modloader_deps: Vec<String>,
}

/// Why a package could not be installed.
#[derive(Debug, Clone, PartialEq, Eq)]
pub enum InstallError {
    Catalog(String),
    Network(String),
    Zip(String),
    UnsafeArchivePath { entry: String },
    MissingDependency { full_name: String },
    Io(String),
    Mods(String),
}

/// Index of the first package whose full name is the entry name, from `i` on.
pub open spec fn by_full_name(packages: Seq<RemotePackage>, entry: Seq<char>, i: int) -> Option<int>
    decreases packages.len() - i,
{
    if i < 0 || i >= packages.len() {
        None
    } else if packages[i].full_name@ == entry {
        Some(i)
    } else {
        by_full_name(packages, entry, i + 1)
    }
}

/// Index of the first package whose name equals, ignoring ASCII case, the
/// mod's display name or entry name, from `i` on.
pub open spec fn by_name(packages: Seq<RemotePackage>, display: Seq<char>, entry: Seq<char>, i: int) -> Option<int>
    decreases packages.len() - i,
{
    if i < 0 || i >= packages.len() {
        None
    } else if eq_ignore_case(packages[i].name@, display) || eq_ignore_case(packages[i].name@, entry) {
        Some(i)
    } else {
        by_name(packages, display, entry, i + 1)
    }
}

/// The package an installed mod is: the first whose full name is the mod's
/// entry name, else the first whose name matches its display or entry name.
pub open spec fn match_index(packages: Seq<RemotePackage>, installed: InstalledMod) -> Option<int> {
    match by_full_name(packages, installed.entry_name@, 0) {
        Some(i) => Some(i),
        None => by_name(packages, installed.display_name@, installed.entry_name@, 0),
    }
}

/// Finds the package an installed mod was installed from.
pub fn match_installed_package<'a>(installed: &InstalledMod, packages: &'a [RemotePackage]) -> (r: Option<&'a RemotePackage>)
    ensures
        match match_index(packages@, *installed) {
            Some(i) => r matches Some(p) && *p == packages@[i],
            None => r is None,
        },
{
    let mut i: usize = 0;
    while i < packages.len()
        invariant
            i <= packages.len(),
            by_full_name(packages@, installed.entry_name@, 0) == by_full_name(packages@, installed.entry_name@, i as int),
        decreases packages.len() - i,
    {
        if packages[i].full_name == installed.entry_name {
            return Some(&packages[i]);
        }
        i += 1;
    }
    let display = chars_of(installed.display_name.as_str());
    let entry = chars_of(installed.entry_name.as_str());
    let mut j: usize = 0;
    while j < packages.len()
        invariant
            j <= packages.len(),
            display@ == installed.display_name@,
            entry@ == installed.entry_name@,
            by_full_name(packages@, installed.entry_name@, 0) is None,
            by_name(packages@, installed.display_name@, installed.entry_name@, 0) == by_name(packages@, installed.display_name@, installed.entry_name@, j as int),
        decreases packages.len() - j,
    {
        let name = chars_of(packages[j].name.as_str());
        if eq_ignore_case_exec(&name, &display) || eq_ignore_case_exec(&name, &entry) {
            return Some(&packages[j]);
        }
        j += 1;
    }
    None
}

/// The newer version of its package an installed mod can update to.
pub open spec fn update_version_spec(installed: InstalledMod, packages: Seq<RemotePackage>) -> Option<Seq<char>> {
    match match_index(packages, installed) {
        Some(i) => match installed.version {
            Some(v) => if version_order(packages[i].version@, v@) == 1 {
                Some(packages[i].version@)
            } else {
                None
            },
            None => None,
        },
        None => None,
    }
}

/// An update is offered exactly when the mod's package is found in the
/// catalog, the mod's version is known, and the package's version is newer
/// than it; what is offered is the package's version. So a mod already at
/// the catalog's version, or past it, is never offered one, and the version
/// offered is never the one installed.
pub proof fn lemma_update_only_to_newer(installed: InstalledMod, packages: Seq<RemotePackage>)
    ensures
        match update_version_spec(installed, packages) {
            Some(v) => {
                &&& installed.version is Some
                &&& version_order(v, installed.version->0@) == 1
                &&& v != installed.version->0@
                &&& match_index(packages, installed) is Some
                &&& packages[match_index(packages, installed)->0].version@ == v
            },
            None => {
                ||| match_index(packages, installed) is None
                ||| installed.version is None
                ||| version_order(packages[match_index(packages, installed)->0].version@, installed.version->0@) != 1
            },
        },
{
    if let Some(iv) = installed.version {
        crate::thunderstore::package::lemma_compare_versions_antisymmetric(iv@, iv@);
    }
}

/// The version an installed mod can update to, when its package has a
/// newer one than the mod's known version.
pub fn find_update_version(installed: &InstalledMod, packages: &[RemotePackage]) -> (r: Option<String>)
    ensures
        match update_version_spec(*installed, packages@) {
            Some(v) => r matches Some(s) && s@ == v,
            None => r is None,
        },
        r is Some ==> installed.version is Some && version_order(r->0@, installed.version->0@) == 1
            && r->0@ != installed.version->0@,
{
    proof {
        lemma_update_only_to_newer(*installed, packages@);
    }
    let remote = match match_installed_package(installed, packages) {
        Some(p) => p,
        None => {
            return None;
        },
    };
    let installed_version = match &installed.version {
        Some(v) => v,
        None => {
            return None;
        },
    };
    if version_is_newer(remote.version.as_str(), installed_version.as_str()) {
        Some(remote.version.clone())
    } else {
        None
    }
}

/// Index of the last `-` of a text, if any.
pub open spec fn last_dash(s: Seq<char>, i: int) -> Option<int>
    decreases i,
{
    if i <= 0 || i > s.len() {
        None
    } else if s[i - 1] == '-' {
        Some(i - 1)
    } else {
        last_dash(s, i - 1)
    }
}

/// The package name after the owner: what follows the last `-`.
pub open spec fn name_only(full_name: Seq<char>) -> Option<Seq<char>> {
    match last_dash(full_name, full_name.len() as int) {
        Some(k) => Some(full_name.skip(k + 1)),
        None => None,
    }
}

/// Does this installed mod satisfy the dependency? It must be the package
/// (by entry name, or by display or entry name against the name after the
/// owner), and its version, when known, must be the required one or not
/// older than it.
pub open spec fn entry_satisfies(entry: InstalledMod, full_name: Seq<char>, required: Seq<char>) -> bool {
    let identity = entry.entry_name@ == full_name || name_only(full_name) == Some(entry.display_name@)
        || name_only(full_name) == Some(entry.entry_name@);
    identity && match entry.version {
        Some(v) => v@ == required || version_order(required, v@) != 1,
        None => true,
    }
}

/// Is the dependency satisfied by some installed mod?
pub open spec fn dependency_satisfied_spec(full_name: Seq<char>, required: Seq<char>, installed: Seq<InstalledMod>) -> bool {
    exists|i: int| 0 <= i < installed.len() && entry_satisfies(#[trigger] installed[i], full_name, required)
}

/// Decides [`name_only`].
fn name_only_exec(full_name: &Vec<char>) -> (r: Option<Vec<char>>)
    ensures
        match name_only(full_name@) {
            Some(n) => r matches Some(v) && v@ == n,
            None => r is None,
        },
{
    let mut i = full_name.len();
    while i > 0 && full_name[i - 1] != '-'
        invariant
            i <= full_name.len(),
            last_dash(full_name@, full_name.len() as int) == last_dash(full_name@, i as int),
        decreases i,
    {
        i -= 1;
    }
    if i == 0 {
        None
    } else {
        let rest = slice_chars(full_name, i, full_name.len());
        assert(rest@ == full_name@.skip(i as int));
        Some(rest)
    }
}

/// Is a dependency already satisfied by the installed mods?
pub fn dependency_satisfied(full_name: &str, required_version: &str, installed: &[InstalledMod]) -> (r: bool)
    ensures
        r == dependency_satisfied_spec(full_name@, required_version@, installed@),
{
    let fv = chars_of(full_name);
    let name = name_only_exec(&fv);
    let mut i: usize = 0;
    while i < installed.len()
        invariant
            i <= installed.len(),
            fv@ == full_name@,
            match name_only(full_name@) {
                Some(n) => name matches Some(v) && v@ == n,
                None => name is None,
            },
            forall|j: int| 0 <= j < i ==> !entry_satisfies(#[trigger] installed@[j], full_name@, required_version@),
        decreases installed.len() - i,
    {
        let entry = &installed[i];
        let identity = str_eq(entry.entry_name.as_str(), full_name) || match &name {
            Some(n) => {
                let nn = string_of(n);
                nn == entry.display_name || nn == entry.entry_name
            },
            None => false,
        };
        let ok = identity && match &entry.version {
            Some(v) => str_eq(v.as_str(), required_version) || !version_is_newer(required_version, v.as_str()),
            None => true,
        };
        if ok {
            assert(entry_satisfies(installed@[i as int], full_name@, required_version@));
            return true;
        }
        i += 1;
    }
    false
}

/// The text shown for a failed package install.
pub open spec fn install_error_text(e: InstallError) -> Seq<char> {
    match e {
        InstallError::Catalog(d) => d@,
        InstallError::Network(d) => "download failed (check your network): "@ + d@,
        InstallError::Zip(d) => "zip error: "@ + d@,
        InstallError::UnsafeArchivePath { entry } => "refusing unsafe archive path: "@ + entry@,
        InstallError::MissingDependency { full_name } => "dependency '"@ + full_name@ + "' is not in the thunderstore catalog"@,
        InstallError::Io(d) => "install io error: "@ + d@,
        InstallError::Mods(d) => d@,
    }
}

impl InstallError {
    /// The error as shown to the user.
    pub fn message(&self) -> (r: String)
        ensures
            r@ == install_error_text(*self),
    {
        match self {
            InstallError::Catalog(d) => {
                let mut r = String::new();
                crate::text::append_str(&mut r, d.as_str());
                r
            },
            InstallError::Network(d) => {
                let mut r = String::new();
                crate::text::append_str(&mut r, "download failed (check your network): ");
                crate::text::append_str(&mut r, d.as_str());
                r
            },
            InstallError::Zip(d) => {
                let mut r = String::new();
                crate::text::append_str(&mut r, "zip error: ");
                crate::text::append_str(&mut r, d.as_str());
                r
            },
            InstallError::UnsafeArchivePath { entry } => {
                let mut r = String::new();
                crate::text::append_str(&mut r, "refusing unsafe archive path: ");
                crate::text::append_str(&mut r, entry.as_str());
                r
            },
            InstallError::MissingDependency { full_name } => {
                let mut r = String::new();
                crate::text::append_str(&mut r, "dependency '");
                crate::text::append_str(&mut r, full_name.as_str());
                crate::text::append_str(&mut r, "' is not in the thunderstore catalog");
                r
            },
            InstallError::Io(d) => {
                let mut r = String::new();
                crate::text::append_str(&mut r, "install io error: ");
                crate::text::append_str(&mut r, d.as_str());
                r
            },
            InstallError::Mods(d) => {
                let mut r = String::new();
                crate::text::append_str(&mut r, d.as_str());
                r
            },
        }
    }
}

// ---------------------------------------------------------------------------
// Missing dependencies
// ---------------------------------------------------------------------------

/// Two packages hold the same values.
pub open spec fn same_package(a: RemotePackage, b: RemotePackage) -> bool {
    &&& a.name@ == b.name@
    &&& a.full_name@ == b.full_name@
    &&& a.owner@ == b.owner@
    &&& a.description@ == b.description@
    &&& a.version@ == b.version@
    &&& a.version_full_name@ == b.version_full_name@
    &&& a.downloads == b.downloads
    &&& a.download_url@ == b.download_url@
    &&& a.icon_url@ == b.icon_url@
    &&& a.dependencies@ == b.dependencies@
    &&& a.date_updated@ == b.date_updated@
    &&& a.is_deprecated == b.is_deprecated
}

/// A copy of a list of texts.
fn copy_strings(v: &Vec<String>) -> (r: Vec<String>)
    ensures
        r@ == v@,
{
    let mut r: Vec<String> = Vec::new();
    let mut i: usize = 0;
    while i < v.len()
        invariant
            i <= v.len(),
            r@ == v@.take(i as int),
        decreases v.len() - i,
    {
        r.push(v[i].clone());
        assert(r@ =~= v@.take(i as int + 1));
        i += 1;
    }
    assert(v@.take(v.len() as int) =~= v@);
    r
}

/// A copy of a package.
pub fn copy_package(p: &RemotePackage) -> (r: RemotePackage)
    ensures
        same_package(r, *p),
{
    RemotePackage {
        name: p.name.clone(),
        full_name: p.full_name.clone(),
        owner: p.owner.clone(),
        description: p.description.clone(),
        version: p.version.clone(),
        version_full_name: p.version_full_name.clone(),
        downloads: p.downloads,
        download_url: p.download_url.clone(),
        icon_url: p.icon_url.clone(),
        dependencies: copy_strings(&p.dependencies),
        date_updated: p.date_updated.clone(),
        is_deprecated: p.is_deprecated,
    }
}

/// The package declares a dependency on `n` at version `v`.
pub open spec fn declares(p: RemotePackage, n: Seq<char>, v: Seq<char>) -> bool {
    exists|j: int| 0 <= j < p.dependencies@.len() && parse_dependency_spec(#[trigger] p.dependencies@[j]@) == Some((n, v))
}

/// The package declares a dependency on `n`, at some version.
pub open spec fn declares_name(p: RemotePackage, n: Seq<char>) -> bool {
    exists|j: int|
        0 <= j < p.dependencies@.len() && #[trigger] parse_dependency_spec(p.dependencies@[j]@) is Some
            && parse_dependency_spec(p.dependencies@[j]@).unwrap().0 == n
}

/// Every dependency the package declares is named in `names`.
pub open spec fn deps_named_in(p: RemotePackage, names: Seq<Seq<char>>) -> bool {
    forall|j: int|
        0 <= j < p.dependencies@.len() && #[trigger] parse_dependency_spec(p.dependencies@[j]@) is Some
            ==> names.contains(parse_dependency_spec(p.dependencies@[j]@).unwrap().0)
}

/// The entry was found in a package that declares `(n, v)`.
pub open spec fn entry_declares(m: MissingDependency, n: Seq<char>, v: Seq<char>) -> bool {
    m.package is Some && declares(m.package->0, n, v)
}

/// The entry was found in a package that declares `n`.
pub open spec fn entry_declares_name(m: MissingDependency, n: Seq<char>) -> bool {
    m.package is Some && declares_name(m.package->0, n)
}

/// The names of the entries.
pub open spec fn missing_names(ms: Seq<MissingDependency>) -> Seq<Seq<char>> {
    ms.map_values(|m: MissingDependency| m.full_name@)
}

/// No value occurs twice.
pub open spec fn no_dup(s: Seq<Seq<char>>) -> bool {
    forall|i: int, j: int| 0 <= i < j < s.len() ==> s[i] != s[j]
}

/// The name is a BepInEx pack, which the manager installs itself.
pub open spec fn is_modloader(n: Seq<char>) -> bool {
    contains(n, "BepInExPack"@)
}

/// The entry needs installing and carries the catalog's package of its
/// name, when the catalog has one.
pub open spec fn sound_entry(m: MissingDependency, installed: Seq<InstalledMod>, catalog: Seq<RemotePackage>) -> bool {
    &&& !is_modloader(m.full_name@)
    &&& !dependency_satisfied_spec(m.full_name@, m.required_version@, installed)
    &&& match by_full_name(catalog, m.full_name@, 0) {
        Some(k) => m.package is Some && same_package(m.package->0, catalog[k]),
        None => m.package is None,
    }
}

/// Entry `j` was declared by `p` or by the package of a later entry.
pub open spec fn found_from(p: RemotePackage, ms: Seq<MissingDependency>, j: int) -> bool {
    declares(p, ms[j].full_name@, ms[j].required_version@) || exists|t: int|
        j < t < ms.len() && entry_declares(#[trigger] ms[t], ms[j].full_name@, ms[j].required_version@)
}

/// Name `n` was declared by `p` or by the package of an entry from `lo` on.
pub open spec fn name_found_from(p: RemotePackage, ms: Seq<MissingDependency>, lo: int, n: Seq<char>) -> bool {
    declares_name(p, n) || exists|t: int| lo <= t < ms.len() && entry_declares_name(#[trigger] ms[t], n)
}

/// A visited name was settled: a pack is skipped, anything else is
/// missing or was found satisfied at a version declared by `p` or by the
/// package of an entry from `lo` on.
pub open spec fn settled(
    n: Seq<char>,
    p: RemotePackage,
    ms: Seq<MissingDependency>,
    lo: int,
    skipped: Seq<Seq<char>>,
    installed: Seq<InstalledMod>,
) -> bool {
    if is_modloader(n) {
        skipped.contains(n)
    } else {
        missing_names(ms).contains(n) || exists|v: Seq<char>|
            dependency_satisfied_spec(n, v, installed) && (declares(p, n, v) || exists|t: int|
                lo <= t < ms.len() && entry_declares(#[trigger] ms[t], n, v))
    }
}

/// How many catalog packages have a name not yet visited.
pub open spec fn unvisited(catalog: Seq<RemotePackage>, visited: Seq<Seq<char>>) -> nat
    decreases catalog.len(),
{
    if catalog.len() == 0 {
        0
    } else {
        unvisited(catalog.drop_last(), visited) + if visited.contains(catalog.last().full_name@) {
            0nat
        } else {
            1nat
        }
    }
}

/// Visiting more names leaves fewer unvisited, and strictly fewer when a
/// catalog name is among the new ones.
proof fn lemma_unvisited_mono(catalog: Seq<RemotePackage>, a: Seq<Seq<char>>, b: Seq<Seq<char>>, k: int)
    requires
        forall|x: Seq<char>| a.contains(x) ==> b.contains(x),
    ensures
        unvisited(catalog, b) <= unvisited(catalog, a),
        0 <= k < catalog.len() && b.contains(catalog[k].full_name@) && !a.contains(catalog[k].full_name@)
            ==> unvisited(catalog, b) < unvisited(catalog, a),
    decreases catalog.len(),
{
    if catalog.len() > 0 {
        let init = catalog.drop_last();
        if k == catalog.len() - 1 {
            lemma_unvisited_mono(init, a, b, -1);
        } else {
            lemma_unvisited_mono(init, a, b, k);
            if 0 <= k < catalog.len() {
                assert(init[k] == catalog[k]);
            }
        }
    }
}

/// Is the name among the visited ones?
fn names_contain(v: &Vec<String>, n: &String) -> (r: bool)
    ensures
        r == v.deep_view().contains(n@),
{
    let mut i: usize = 0;
    while i < v.len()
        invariant
            i <= v.len(),
            forall|j: int| 0 <= j < i ==> v.deep_view()[j] != n@,
        decreases v.len() - i,
    {
        if v[i] == *n {
            assert(v.deep_view()[i as int] == n@);
            return true;
        }
        i += 1;
    }
    false
}

/// Is the name among the missing entries?
fn missing_contains(ms: &Vec<MissingDependency>, n: &String) -> (r: bool)
    ensures
        r == missing_names(ms@).contains(n@),
{
    let mut i: usize = 0;
    while i < ms.len()
        invariant
            i <= ms.len(),
            forall|j: int| 0 <= j < i ==> missing_names(ms@)[j] != n@,
        decreases ms.len() - i,
    {
        if ms[i].full_name == *n {
            assert(missing_names(ms@)[i as int] == n@);
            return true;
        }
        i += 1;
    }
    false
}

/// Index of the first catalog package with the name.
fn catalog_index(catalog: &[RemotePackage], n: &String) -> (r: Option<usize>)
    ensures
        match by_full_name(catalog@, n@, 0) {
            Some(k) => r is Some && r->0 as int == k,
            None => r is None,
        },
{
    let mut i: usize = 0;
    while i < catalog.len()
        invariant
            i <= catalog.len(),
            by_full_name(catalog@, n@, 0) == by_full_name(catalog@, n@, i as int),
        decreases catalog.len() - i,
    {
        if catalog[i].full_name == *n {
            return Some(i);
        }
        i += 1;
    }
    None
}

/// What holds of the lists while a package's dependencies are walked from
/// the lists `v0`, `m0`, `s0` (visited names, missing entries, skipped
/// packs) to `v`, `m`, `s`: the earlier lists stay as prefixes, nothing is
/// listed twice, every missing or skipped name was visited, and since the
/// start each new entry is sound and was found from the package or a later
/// entry, each new skipped pack was declared there, and each newly visited
/// name is settled.
pub open spec fn walk_state(
    p: RemotePackage,
    installed: Seq<InstalledMod>,
    catalog: Seq<RemotePackage>,
    v0: Seq<Seq<char>>,
    m0: Seq<MissingDependency>,
    s0: Seq<Seq<char>>,
    v: Seq<Seq<char>>,
    m: Seq<MissingDependency>,
    s: Seq<Seq<char>>,
) -> bool {
    &&& v0.len() <= v.len() && v.take(v0.len() as int) == v0
    &&& m0.len() <= m.len() && m.take(m0.len() as int) == m0
    &&& s0.len() <= s.len() && s.take(s0.len() as int) == s0
    &&& no_dup(v) && no_dup(s) && no_dup(missing_names(m))
    &&& forall|k: int| 0 <= k < s.len() ==> v.contains(#[trigger] s[k])
    &&& forall|k: int| 0 <= k < m.len() ==> v.contains(#[trigger] m[k].full_name@)
    &&& forall|j: int|
        m0.len() <= j < m.len() ==> sound_entry(#[trigger] m[j], installed, catalog) && found_from(p, m, j)
            && !v0.contains(m[j].full_name@)
    &&& forall|j: int| m0.len() <= j < m.len() && (#[trigger] m[j]).package is Some ==> deps_named_in(m[j].package->0, v)
    &&& forall|j: int| s0.len() <= j < s.len() ==> is_modloader(#[trigger] s[j]) && name_found_from(p, m, m0.len() as int, s[j])
    &&& forall|k: int| v0.len() <= k < v.len() ==> settled(#[trigger] v[k], p, m, m0.len() as int, s, installed)
}

/// Nothing walked yet.
proof fn lemma_walk_start(
    p: RemotePackage,
    installed: Seq<InstalledMod>,
    catalog: Seq<RemotePackage>,
    v: Seq<Seq<char>>,
    m: Seq<MissingDependency>,
    s: Seq<Seq<char>>,
)
    requires
        no_dup(v),
        no_dup(s),
        no_dup(missing_names(m)),
        forall|k: int| 0 <= k < s.len() ==> v.contains(#[trigger] s[k]),
        forall|k: int| 0 <= k < m.len() ==> v.contains(#[trigger] m[k].full_name@),
    ensures
        walk_state(p, installed, catalog, v, m, s, v, m, s),
{
    assert(v.take(v.len() as int) =~= v);
    assert(m.take(m.len() as int) =~= m);
    assert(s.take(s.len() as int) =~= s);
}

/// A name that is visited stays visited as the list grows.
proof fn lemma_prefix_contains(a: Seq<Seq<char>>, b: Seq<Seq<char>>, x: Seq<char>)
    requires
        a.len() <= b.len(),
        b.take(a.len() as int) == a,
        a.contains(x),
    ensures
        b.contains(x),
{
    let i = choose|i: int| 0 <= i < a.len() && a[i] == x;
    assert(b[i] == a[i]);
}

/// Walking on past a newly met BepInEx pack: it is visited and skipped.
proof fn lemma_step_pack(
    p: RemotePackage,
    installed: Seq<InstalledMod>,
    catalog: Seq<RemotePackage>,
    v0: Seq<Seq<char>>,
    m0: Seq<MissingDependency>,
    s0: Seq<Seq<char>>,
    v: Seq<Seq<char>>,
    m: Seq<MissingDependency>,
    s: Seq<Seq<char>>,
    n: Seq<char>,
)
    requires
        walk_state(p, installed, catalog, v0, m0, s0, v, m, s),
        !v.contains(n),
        is_modloader(n),
        declares_name(p, n),
    ensures
        walk_state(p, installed, catalog, v0, m0, s0, v.push(n), m, s.push(n)),
{
    let v2 = v.push(n);
    let s2 = s.push(n);
    assert(v2.take(v0.len() as int) =~= v.take(v0.len() as int));
    assert(s2.take(s0.len() as int) =~= s.take(s0.len() as int));
    assert forall|x: Seq<char>| v.contains(x) implies v2.contains(x) by {
        let i = choose|i: int| 0 <= i < v.len() && v[i] == x;
        assert(v2[i] == x);
    }
    assert forall|x: Seq<char>| s.contains(x) implies s2.contains(x) by {
        let i = choose|i: int| 0 <= i < s.len() && s[i] == x;
        assert(s2[i] == x);
    }
    assert(v2[v.len() as int] == n);
    assert(s2[s.len() as int] == n);
    assert(no_dup(v2)) by {
        assert forall|i: int, j: int| 0 <= i < j < v2.len() implies v2[i] != v2[j] by {
            if j == v.len() {
                assert(v2[i] == v[i]);
            } else {
                assert(v2[i] == v[i] && v2[j] == v[j]);
            }
        }
    }
    assert(no_dup(s2)) by {
        assert forall|i: int, j: int| 0 <= i < j < s2.len() implies s2[i] != s2[j] by {
            if j == s.len() {
                assert(s2[i] == s[i]);
                assert(v.contains(s[i]));
            } else {
                assert(s2[i] == s[i] && s2[j] == s[j]);
            }
        }
    }
    assert forall|k: int| 0 <= k < s2.len() implies v2.contains(#[trigger] s2[k]) by {
        if k < s.len() {
            assert(s2[k] == s[k]);
            assert(v.contains(s[k]));
        }
    }
    assert forall|k: int| 0 <= k < m.len() implies v2.contains(#[trigger] m[k].full_name@) by {
        assert(v.contains(m[k].full_name@));
    }
    assert forall|j: int| m0.len() <= j < m.len() && (#[trigger] m[j]).package is Some implies deps_named_in(m[j].package->0, v2) by {
        assert(deps_named_in(m[j].package->0, v));
    }
    assert forall|j: int| s0.len() <= j < s2.len() implies is_modloader(#[trigger] s2[j]) && name_found_from(p, m, m0.len() as int, s2[j]) by {
        if j < s.len() {
            assert(s2[j] == s[j]);
        }
    }
    assert forall|k: int| v0.len() <= k < v2.len() implies settled(#[trigger] v2[k], p, m, m0.len() as int, s2, installed) by {
        if k < v.len() {
            assert(v2[k] == v[k]);
            assert(settled(v[k], p, m, m0.len() as int, s, installed));
        }
    }
}

/// Walking on past a newly met dependency that is already satisfied: it is
/// visited and nothing else changes.
proof fn lemma_step_satisfied(
    p: RemotePackage,
    installed: Seq<InstalledMod>,
    catalog: Seq<RemotePackage>,
    v0: Seq<Seq<char>>,
    m0: Seq<MissingDependency>,
    s0: Seq<Seq<char>>,
    v: Seq<Seq<char>>,
    m: Seq<MissingDependency>,
    s: Seq<Seq<char>>,
    n: Seq<char>,
    ver: Seq<char>,
)
    requires
        walk_state(p, installed, catalog, v0, m0, s0, v, m, s),
        !v.contains(n),
        !is_modloader(n),
        dependency_satisfied_spec(n, ver, installed),
        declares(p, n, ver),
    ensures
        walk_state(p, installed, catalog, v0, m0, s0, v.push(n), m, s),
{
    let v2 = v.push(n);
    assert(v2.take(v0.len() as int) =~= v.take(v0.len() as int));
    assert forall|x: Seq<char>| v.contains(x) implies v2.contains(x) by {
        let i = choose|i: int| 0 <= i < v.len() && v[i] == x;
        assert(v2[i] == x);
    }
    assert(v2[v.len() as int] == n);
    assert(no_dup(v2)) by {
        assert forall|i: int, j: int| 0 <= i < j < v2.len() implies v2[i] != v2[j] by {
            if j == v.len() {
                assert(v2[i] == v[i]);
            } else {
                assert(v2[i] == v[i] && v2[j] == v[j]);
            }
        }
    }
    assert forall|k: int| 0 <= k < s.len() implies v2.contains(#[trigger] s[k]) by {
        assert(v.contains(s[k]));
    }
    assert forall|k: int| 0 <= k < m.len() implies v2.contains(#[trigger] m[k].full_name@) by {
        assert(v.contains(m[k].full_name@));
    }
    assert forall|j: int| m0.len() <= j < m.len() && (#[trigger] m[j]).package is Some implies deps_named_in(m[j].package->0, v2) by {
        assert(deps_named_in(m[j].package->0, v));
    }
    assert forall|k: int| v0.len() <= k < v2.len() implies settled(#[trigger] v2[k], p, m, m0.len() as int, s, installed) by {
        if k < v.len() {
            assert(v2[k] == v[k]);
            assert(settled(v[k], p, m, m0.len() as int, s, installed));
        } else {
            assert(v2[k] == n);
            assert(dependency_satisfied_spec(n, ver, installed) && declares(p, n, ver));
        }
    }
}

/// Visiting a new name keeps the lists free of repeats and everything
/// listed still visited.
proof fn lemma_push_visited(v: Seq<Seq<char>>, m: Seq<MissingDependency>, s: Seq<Seq<char>>, n: Seq<char>)
    requires
        no_dup(v),
        !v.contains(n),
        forall|k: int| 0 <= k < s.len() ==> v.contains(#[trigger] s[k]),
        forall|k: int| 0 <= k < m.len() ==> v.contains(#[trigger] m[k].full_name@),
    ensures
        no_dup(v.push(n)),
        v.push(n).take(v.len() as int) == v,
        forall|x: Seq<char>| v.contains(x) ==> v.push(n).contains(x),
        v.push(n).contains(n),
        forall|k: int| 0 <= k < s.len() ==> v.push(n).contains(#[trigger] s[k]),
        forall|k: int| 0 <= k < m.len() ==> v.push(n).contains(#[trigger] m[k].full_name@),
{
    let v2 = v.push(n);
    assert(v2.take(v.len() as int) =~= v);
    assert forall|x: Seq<char>| v.contains(x) implies v2.contains(x) by {
        let i = choose|i: int| 0 <= i < v.len() && v[i] == x;
        assert(v2[i] == x);
    }
    assert(v2[v.len() as int] == n);
    assert forall|i: int, j: int| 0 <= i < j < v2.len() implies v2[i] != v2[j] by {
        if j == v.len() {
            assert(v2[i] == v[i]);
        } else {
            assert(v2[i] == v[i] && v2[j] == v[j]);
        }
    }
    assert forall|k: int| 0 <= k < s.len() implies v2.contains(#[trigger] s[k]) by {
        assert(v.contains(s[k]));
    }
    assert forall|k: int| 0 <= k < m.len() implies v2.contains(#[trigger] m[k].full_name@) by {
        assert(v.contains(m[k].full_name@));
    }
}

/// Walking on past a newly met dependency that is missing: after its own
/// dependencies were walked from the catalog package `q` (when there is
/// one), its entry is added.
#[verifier::rlimit(40)]
proof fn lemma_step_missing(
    p: RemotePackage,
    q: RemotePackage,
    installed: Seq<InstalledMod>,
    catalog: Seq<RemotePackage>,
    v0: Seq<Seq<char>>,
    m0: Seq<MissingDependency>,
    s0: Seq<Seq<char>>,
    v: Seq<Seq<char>>,
    m: Seq<MissingDependency>,
    s: Seq<Seq<char>>,
    v1: Seq<Seq<char>>,
    m1: Seq<MissingDependency>,
    s1: Seq<Seq<char>>,
    e: MissingDependency,
)
    requires
        walk_state(p, installed, catalog, v0, m0, s0, v, m, s),
        !v.contains(e.full_name@),
        declares(p, e.full_name@, e.required_version@),
        sound_entry(e, installed, catalog),
        walk_state(q, installed, catalog, v.push(e.full_name@), m, s, v1, m1, s1),
        e.package is Some ==> same_package(e.package->0, q) && deps_named_in(q, v1),
        e.package is None ==> v1 == v.push(e.full_name@) && m1 == m && s1 == s,
    ensures
        walk_state(p, installed, catalog, v0, m0, s0, v1, m1.push(e), s1),
{
    let n = e.full_name@;
    let vp = v.push(n);
    let m2 = m1.push(e);
    lemma_push_visited(v, m, s, n);
    // prefixes
    assert(v1.take(v0.len() as int) =~= v.take(v0.len() as int)) by {
        assert forall|i: int| 0 <= i < v0.len() implies v1[i] == v[i] by {
            assert(v1.take(vp.len() as int)[i] == vp[i]);
        }
    }
    assert(m2.take(m0.len() as int) =~= m.take(m0.len() as int)) by {
        assert forall|i: int| 0 <= i < m0.len() implies m2[i] == m[i] by {
            assert(m1.take(m.len() as int)[i] == m[i]);
        }
    }
    assert(s1.take(s0.len() as int) =~= s.take(s0.len() as int)) by {
        assert forall|i: int| 0 <= i < s0.len() implies s1[i] == s[i] by {
            assert(s1.take(s.len() as int)[i] == s[i]);
        }
    }
    // entries of the caller are entries of the result at the same index
    assert forall|j: int| 0 <= j < m.len() implies #[trigger] m2[j] == m[j] by {
        assert(m1.take(m.len() as int)[j] == m[j]);
    }
    assert forall|j: int| 0 <= j < m1.len() implies #[trigger] m2[j] == m1[j] by {}
    assert forall|k: int| 0 <= k < s.len() implies #[trigger] s1[k] == s[k] by {
        assert(s1.take(s.len() as int)[k] == s[k]);
    }
    assert forall|k: int| 0 <= k < vp.len() implies #[trigger] v1[k] == vp[k] by {
        assert(v1.take(vp.len() as int)[k] == vp[k]);
    }
    assert forall|x: Seq<char>| vp.contains(x) implies v1.contains(x) by {
        let i = choose|i: int| 0 <= i < vp.len() && vp[i] == x;
        assert(v1[i] == x);
    }
    assert forall|x: Seq<char>| s.contains(x) implies s1.contains(x) by {
        let i = choose|i: int| 0 <= i < s.len() && s[i] == x;
        assert(s1[i] == x);
    }
    assert(m2[m1.len() as int] == e);
    // the new entry's package declares what `q` declares
    assert forall|x: Seq<char>, y: Seq<char>| declares(q, x, y) && e.package is Some implies entry_declares(m2[m1.len() as int], x, y) by {
        let j = choose|j: int| 0 <= j < q.dependencies@.len() && parse_dependency_spec(#[trigger] q.dependencies@[j]@) == Some((x, y));
        assert(e.package->0.dependencies@[j] == q.dependencies@[j]);
    }
    assert forall|x: Seq<char>| declares_name(q, x) && e.package is Some implies entry_declares_name(m2[m1.len() as int], x) by {
        let j = choose|j: int|
            0 <= j < q.dependencies@.len() && #[trigger] parse_dependency_spec(q.dependencies@[j]@) is Some
                && parse_dependency_spec(q.dependencies@[j]@).unwrap().0 == x;
        assert(e.package->0.dependencies@[j] == q.dependencies@[j]);
    }
    // names of the result
    assert forall|x: Seq<char>| missing_names(m1).contains(x) implies missing_names(m2).contains(x) by {
        let i = choose|i: int| 0 <= i < missing_names(m1).len() && missing_names(m1)[i] == x;
        assert(missing_names(m2)[i] == x);
    }
    assert(missing_names(m2)[m1.len() as int] == n);
    assert(no_dup(missing_names(m2))) by {
        assert forall|i: int, j: int| 0 <= i < j < missing_names(m2).len() implies missing_names(m2)[i] != missing_names(m2)[j] by {
            if j == m1.len() {
                assert(missing_names(m2)[i] == m1[i].full_name@);
                if i < m.len() {
                    assert(m1[i] == m[i]);
                    assert(v.contains(m[i].full_name@));
                } else {
                    assert(!vp.contains(m1[i].full_name@));
                }
            } else {
                assert(missing_names(m2)[i] == missing_names(m1)[i]);
                assert(missing_names(m2)[j] == missing_names(m1)[j]);
            }
        }
    }
    assert forall|k: int| 0 <= k < m2.len() implies v1.contains(#[trigger] m2[k].full_name@) by {
        if k < m1.len() {
            assert(v1.contains(m1[k].full_name@));
        } else {
            assert(vp.contains(n));
        }
    }
    // entries
    assert forall|j: int| m0.len() <= j < m2.len() implies sound_entry(#[trigger] m2[j], installed, catalog) && found_from(p, m2, j)
        && !v0.contains(m2[j].full_name@) by {
        if j < m.len() {
            assert(m2[j] == m[j]);
            assert(found_from(p, m, j));
            if !declares(p, m[j].full_name@, m[j].required_version@) {
                let t = choose|t: int| j < t < m.len() && entry_declares(#[trigger] m[t], m[j].full_name@, m[j].required_version@);
                assert(m2[t] == m[t]);
            }
        } else if j < m1.len() {
            assert(m2[j] == m1[j]);
            assert(found_from(q, m1, j));
            assert(!vp.contains(m1[j].full_name@));
            assert(!v0.contains(m1[j].full_name@)) by {
                if v0.contains(m1[j].full_name@) {
                    lemma_prefix_contains(v0, v, m1[j].full_name@);
                }
            }
            if !declares(q, m1[j].full_name@, m1[j].required_version@) {
                let t = choose|t: int| j < t < m1.len() && entry_declares(#[trigger] m1[t], m1[j].full_name@, m1[j].required_version@);
                assert(m2[t] == m1[t]);
            } else {
                assert(e.package is Some);
                assert(entry_declares(m2[m1.len() as int], m1[j].full_name@, m1[j].required_version@));
            }
        } else {
            assert(m2[j] == e);
            assert(!v0.contains(n)) by {
                if v0.contains(n) {
                    lemma_prefix_contains(v0, v, n);
                }
            }
        }
    }
    assert forall|j: int| m0.len() <= j < m2.len() && (#[trigger] m2[j]).package is Some implies deps_named_in(m2[j].package->0, v1) by {
        if j < m.len() {
            assert(m2[j] == m[j]);
            assert(deps_named_in(m[j].package->0, v));
            let pk = m[j].package->0;
            assert forall|i: int|
                0 <= i < pk.dependencies@.len() && #[trigger] parse_dependency_spec(pk.dependencies@[i]@) is Some
                    implies v1.contains(parse_dependency_spec(pk.dependencies@[i]@).unwrap().0) by {
                assert(v.contains(parse_dependency_spec(pk.dependencies@[i]@).unwrap().0));
                assert(vp.contains(parse_dependency_spec(pk.dependencies@[i]@).unwrap().0));
            }
        } else if j < m1.len() {
            assert(m2[j] == m1[j]);
        } else {
            assert(m2[j] == e);
            let pk = e.package->0;
            assert forall|i: int|
                0 <= i < pk.dependencies@.len() && #[trigger] parse_dependency_spec(pk.dependencies@[i]@) is Some
                    implies v1.contains(parse_dependency_spec(pk.dependencies@[i]@).unwrap().0) by {
                assert(pk.dependencies@[i] == q.dependencies@[i]);
            }
        }
    }
    // skipped packs
    assert forall|j: int| s0.len() <= j < s1.len() implies is_modloader(#[trigger] s1[j]) && name_found_from(p, m2, m0.len() as int, s1[j]) by {
        if j < s.len() {
            assert(s1[j] == s[j]);
            assert(name_found_from(p, m, m0.len() as int, s[j]));
            if !declares_name(p, s[j]) {
                let t = choose|t: int| m0.len() <= t < m.len() && entry_declares_name(#[trigger] m[t], s[j]);
                assert(m2[t] == m[t]);
            }
        } else {
            assert(name_found_from(q, m1, m.len() as int, s1[j]));
            if !declares_name(q, s1[j]) {
                let t = choose|t: int| m.len() <= t < m1.len() && entry_declares_name(#[trigger] m1[t], s1[j]);
                assert(m2[t] == m1[t]);
            } else {
                assert(e.package is Some);
                assert(entry_declares_name(m2[m1.len() as int], s1[j]));
            }
        }
    }
    assert forall|k: int| 0 <= k < s1.len() implies v1.contains(#[trigger] s1[k]) by {}
    // settled names
    assert forall|k: int| v0.len() <= k < v1.len() implies settled(#[trigger] v1[k], p, m2, m0.len() as int, s1, installed) by {
        let x = v1[k];
        if k < v.len() {
            assert(v1[k] == vp[k]);
            assert(vp[k] == v[k]);
            assert(settled(v[k], p, m, m0.len() as int, s, installed));
            if is_modloader(x) {
                assert(s1.contains(x));
            } else if missing_names(m).contains(x) {
                let i = choose|i: int| 0 <= i < missing_names(m).len() && missing_names(m)[i] == x;
                assert(missing_names(m2)[i] == x);
            } else {
                let ver = choose|ver: Seq<char>|
                    dependency_satisfied_spec(x, ver, installed) && (declares(p, x, ver) || exists|t: int|
                        m0.len() <= t < m.len() && entry_declares(#[trigger] m[t], x, ver));
                if !declares(p, x, ver) {
                    let t = choose|t: int| m0.len() <= t < m.len() && entry_declares(#[trigger] m[t], x, ver);
                    assert(m2[t] == m[t]);
                }
            }
        } else if k == v.len() {
            assert(v1[k] == vp[k]);
            assert(x == n);
            assert(!is_modloader(n));
        } else {
            assert(settled(x, q, m1, m.len() as int, s1, installed));
            if is_modloader(x) {
            } else if missing_names(m1).contains(x) {
            } else {
                let ver = choose|ver: Seq<char>|
                    dependency_satisfied_spec(x, ver, installed) && (declares(q, x, ver) || exists|t: int|
                        m.len() <= t < m1.len() && entry_declares(#[trigger] m1[t], x, ver));
                if !declares(q, x, ver) {
                    let t = choose|t: int| m.len() <= t < m1.len() && entry_declares(#[trigger] m1[t], x, ver);
                    assert(m2[t] == m1[t]);
                } else {
                    assert(e.package is Some);
                    assert(entry_declares(m2[m1.len() as int], x, ver));
                }
            }
        }
    }
}

/// `by_full_name` finds a package of that name.
proof fn lemma_by_full_name(c: Seq<RemotePackage>, n: Seq<char>, i: int)
    requires
        0 <= i,
        by_full_name(c, n, i) is Some,
    ensures
        i <= by_full_name(c, n, i)->0 < c.len(),
        c[by_full_name(c, n, i)->0].full_name@ == n,
    decreases c.len() - i,
{
    if i < c.len() && c[i].full_name@ != n {
        lemma_by_full_name(c, n, i + 1);
    }
}

/// The name and required version of each entry.
pub open spec fn entry_views(ms: Seq<MissingDependency>) -> Seq<(Seq<char>, Seq<char>)> {
    ms.map_values(|m: MissingDependency| (m.full_name@, m.required_version@))
}

/// The names of the entries of a walk.
pub open spec fn entry_names(es: Seq<(Seq<char>, Seq<char>)>) -> Seq<Seq<char>> {
    es.map_values(|e: (Seq<char>, Seq<char>)| e.0)
}

/// What walking `deps` from index `i` on makes of the lists `st`: the
/// visited names, the missing entries (name and required version) and the
/// skipped packs. A dependency string that does not parse, or that names
/// a visited package, is passed over. A new name is visited; then a
/// BepInEx pack is skipped, a satisfied dependency passed over, and any
/// other is listed as missing, unless already listed, once the
/// dependencies of its catalog package, if any, were walked in turn.
/// `fuel` bounds how deep the walk may go; at least as much as the catalog
/// has packages not yet visited is always enough.
pub open spec fn walk(
    installed: Seq<InstalledMod>,
    catalog: Seq<RemotePackage>,
    deps: Seq<String>,
    i: int,
    fuel: nat,
    st: (Seq<Seq<char>>, Seq<(Seq<char>, Seq<char>)>, Seq<Seq<char>>),
) -> (Seq<Seq<char>>, Seq<(Seq<char>, Seq<char>)>, Seq<Seq<char>>)
    decreases fuel, deps.len() - i,
{
    if i < 0 || i >= deps.len() {
        st
    } else {
        match parse_dependency_spec(deps[i]@) {
            None => walk(installed, catalog, deps, i + 1, fuel, st),
            Some((n, ver)) => if st.0.contains(n) {
                walk(installed, catalog, deps, i + 1, fuel, st)
            } else if is_modloader(n) {
                walk(installed, catalog, deps, i + 1, fuel, (st.0.push(n), st.1, st.2.push(n)))
            } else if dependency_satisfied_spec(n, ver, installed) {
                walk(installed, catalog, deps, i + 1, fuel, (st.0.push(n), st.1, st.2))
            } else {
                let entered = (st.0.push(n), st.1, st.2);
                let inner = match by_full_name(catalog, n, 0) {
                    Some(k) => if fuel > 0 && 0 <= k < catalog.len() {
                        walk(installed, catalog, catalog[k].dependencies@, 0, (fuel - 1) as nat, entered)
                    } else {
                        entered
                    },
                    None => entered,
                };
                let after = if entry_names(inner.1).contains(n) {
                    inner
                } else {
                    (inner.0, inner.1.push((n, ver)), inner.2)
                };
                walk(installed, catalog, deps, i + 1, fuel, after)
            },
        }
    }
}

/// No more catalog packages are unvisited than the catalog has.
proof fn lemma_unvisited_bounded(catalog: Seq<RemotePackage>, visited: Seq<Seq<char>>)
    ensures
        unvisited(catalog, visited) <= catalog.len(),
    decreases catalog.len(),
{
    if catalog.len() > 0 {
        lemma_unvisited_bounded(catalog.drop_last(), visited);
    }
}

/// One step of a walk over a dependency that is missing: after the walk
/// of its catalog package's dependencies, if any, gave `(v1, em1, s1)`,
/// its entry is added.
proof fn lemma_walk_step_missing(
    installed: Seq<InstalledMod>,
    catalog: Seq<RemotePackage>,
    deps: Seq<String>,
    i: int,
    fuel: nat,
    st: (Seq<Seq<char>>, Seq<(Seq<char>, Seq<char>)>, Seq<Seq<char>>),
    n: Seq<char>,
    ver: Seq<char>,
    found: Option<int>,
    v1: Seq<Seq<char>>,
    em1: Seq<(Seq<char>, Seq<char>)>,
    s1: Seq<Seq<char>>,
)
    requires
        0 <= i < deps.len(),
        parse_dependency_spec(deps[i]@) == Some((n, ver)),
        !st.0.contains(n),
        !is_modloader(n),
        !dependency_satisfied_spec(n, ver, installed),
        by_full_name(catalog, n, 0) == found,
        found matches Some(k) ==> fuel > 0 && 0 <= k < catalog.len() && (v1, em1, s1) == walk(
            installed,
            catalog,
            catalog[k].dependencies@,
            0,
            (fuel - 1) as nat,
            (st.0.push(n), st.1, st.2),
        ),
        found is None ==> (v1, em1, s1) == (st.0.push(n), st.1, st.2),
        !entry_names(em1).contains(n),
    ensures
        walk(installed, catalog, deps, i, fuel, st) == walk(installed, catalog, deps, i + 1, fuel, (v1, em1.push((n, ver)), s1)),
{
}

/// Walks a package's dependencies in order. Each name not visited before
/// is visited: a BepInEx pack is skipped, a satisfied dependency passed
/// over, and any other is listed as missing once the dependencies of its
/// catalog package, if any, were walked in turn.
fn collect_missing_recursive(
    package: &RemotePackage,
    installed: &[InstalledMod],
    catalog: &[RemotePackage],
    missing: &mut Vec<MissingDependency>,
    skipped_modloader: &mut Vec<String>,
    visited: &mut Vec<String>,
    Ghost(fuel): Ghost<nat>,
)
    requires
        fuel >= unvisited(catalog@, old(visited).deep_view()),
        no_dup(old(visited).deep_view()),
        no_dup(old(skipped_modloader).deep_view()),
        no_dup(missing_names(old(missing)@)),
        forall|k: int|
            0 <= k < old(skipped_modloader).deep_view().len() ==> old(visited).deep_view().contains(
                #[trigger] old(skipped_modloader).deep_view()[k],
            ),
        forall|k: int|
            0 <= k < old(missing)@.len() ==> old(visited).deep_view().contains(#[trigger] old(missing)@[k].full_name@),
    ensures
        walk_state(
            *package,
            installed@,
            catalog@,
            old(visited).deep_view(),
            old(missing)@,
            old(skipped_modloader).deep_view(),
            final(visited).deep_view(),
            final(missing)@,
            final(skipped_modloader).deep_view(),
        ),
        deps_named_in(*package, final(visited).deep_view()),
        (final(visited).deep_view(), entry_views(final(missing)@), final(skipped_modloader).deep_view()) == walk(
            installed@,
            catalog@,
            package.dependencies@,
            0,
            fuel,
            (old(visited).deep_view(), entry_views(old(missing)@), old(skipped_modloader).deep_view()),
        ),
    decreases unvisited(catalog@, old(visited).deep_view()),
{
    let ghost v0 = visited.deep_view();
    let ghost m0 = missing@;
    let ghost s0 = skipped_modloader.deep_view();
    proof {
        lemma_walk_start(*package, installed@, catalog@, v0, m0, s0);
    }
    let mut i: usize = 0;
    while i < package.dependencies.len()
        invariant
            i <= package.dependencies.len(),
            walk_state(
                *package,
                installed@,
                catalog@,
                v0,
                m0,
                s0,
                visited.deep_view(),
                missing@,
                skipped_modloader.deep_view(),
            ),
            forall|j: int|
                0 <= j < i && #[trigger] parse_dependency_spec(package.dependencies@[j]@) is Some
                    ==> visited.deep_view().contains(parse_dependency_spec(package.dependencies@[j]@).unwrap().0),
            v0 == old(visited).deep_view(),
            m0 == old(missing)@,
            s0 == old(skipped_modloader).deep_view(),
            fuel >= unvisited(catalog@, v0),
            walk(installed@, catalog@, package.dependencies@, 0, fuel, (v0, entry_views(m0), s0)) == walk(
                installed@,
                catalog@,
                package.dependencies@,
                i as int,
                fuel,
                (visited.deep_view(), entry_views(missing@), skipped_modloader.deep_view()),
            ),
        decreases package.dependencies.len() - i,
    {
        let ghost vb = visited.deep_view();
        let ghost mb = missing@;
        let ghost sb = skipped_modloader.deep_view();
        let ghost stb = (vb, entry_views(mb), sb);
        let ghost deps = package.dependencies@;
        let parsed = parse_dependency(package.dependencies[i].as_str());
        match parsed {
            None => {
                assert(walk(installed@, catalog@, deps, i as int, fuel, stb) == walk(installed@, catalog@, deps, i as int + 1, fuel, stb));
            },
            Some((full_name, required_version)) => {
                let ghost n = full_name@;
                let ghost ver = required_version@;
                assert(parse_dependency_spec(package.dependencies@[i as int]@) == Some((n, ver)));
                if !names_contain(visited, &full_name) {
                    proof {
                        lemma_push_visited(vb, mb, sb, n);
                    }
                    visited.push(full_name.clone());
                    assert(visited.deep_view() =~= vb.push(n));
                    if is_modloader_pack(full_name.as_str()) {
                        proof {
                            assert(declares_name(*package, n)) by {
                                assert(parse_dependency_spec(package.dependencies@[i as int]@) is Some);
                            }
                            lemma_step_pack(*package, installed@, catalog@, v0, m0, s0, vb, mb, sb, n);
                        }
                        skipped_modloader.push(full_name);
                        assert(skipped_modloader.deep_view() =~= sb.push(n));
                        assert(visited.deep_view().contains(n));
                        assert(visited.deep_view().take(vb.len() as int) =~= vb);
                        assert(walk(installed@, catalog@, deps, i as int, fuel, stb) == walk(
                            installed@,
                            catalog@,
                            deps,
                            i as int + 1,
                            fuel,
                            (vb.push(n), entry_views(mb), sb.push(n)),
                        ));
                    } else if dependency_satisfied(full_name.as_str(), required_version.as_str(), installed) {
                        proof {
                            assert(declares(*package, n, ver));
                            lemma_step_satisfied(*package, installed@, catalog@, v0, m0, s0, vb, mb, sb, n, ver);
                        }
                        assert(visited.deep_view().contains(n));
                        assert(visited.deep_view().take(vb.len() as int) =~= vb);
                        assert(walk(installed@, catalog@, deps, i as int, fuel, stb) == walk(
                            installed@,
                            catalog@,
                            deps,
                            i as int + 1,
                            fuel,
                            (vb.push(n), entry_views(mb), sb),
                        ));
                    } else {
                        let ghost vp = visited.deep_view();
                        let found = catalog_index(catalog, &full_name);
                        let ghost fk: Option<int> = match found {
                            Some(k) => Some(k as int),
                            None => None,
                        };
                        match found {
                            Some(k) => {
                                proof {
                                    lemma_by_full_name(catalog@, n, 0);
                                    assert forall|x: Seq<char>| v0.contains(x) implies vp.contains(x) by {
                                        lemma_prefix_contains(v0, vb, x);
                                    }
                                    assert(!v0.contains(n)) by {
                                        if v0.contains(n) {
                                            lemma_prefix_contains(v0, vb, n);
                                        }
                                    }
                                    assert(vp.contains(n));
                                    assert(by_full_name(catalog@, n, 0) is Some);
                                    assert(k as int == by_full_name(catalog@, n, 0)->0);
                                    assert(catalog@[k as int].full_name@ == n);
                                    lemma_unvisited_mono(catalog@, v0, vp, k as int);
                                    assert(unvisited(catalog@, vp) < unvisited(catalog@, v0));
                                }
                                collect_missing_recursive(
                                    &catalog[k],
                                    installed,
                                    catalog,
                                    missing,
                                    skipped_modloader,
                                    visited,
                                    Ghost((fuel - 1) as nat),
                                );
                            },
                            None => {
                                proof {
                                    lemma_walk_start(*package, installed@, catalog@, vp, mb, sb);
                                }
                            },
                        }
                        let ghost v1 = visited.deep_view();
                        let ghost m1 = missing@;
                        let ghost s1 = skipped_modloader.deep_view();
                        proof {
                            assert(vp.contains(n));
                            if found is Some {
                                lemma_prefix_contains(vp, v1, n);
                            }
                            assert(v1.contains(n));
                            assert(v1.take(vb.len() as int) =~= vb) by {
                                assert forall|t: int| 0 <= t < vb.len() implies v1[t] == vb[t] by {
                                    if found is Some {
                                        assert(v1.take(vp.len() as int)[t] == vp[t]);
                                    }
                                    assert(vp[t] == vb[t]);
                                }
                            }
                            assert(!missing_names(m1).contains(n)) by {
                                if missing_names(m1).contains(n) {
                                    let t = choose|t: int| 0 <= t < missing_names(m1).len() && missing_names(m1)[t] == n;
                                    if t < mb.len() {
                                        if found is Some {
                                            assert(m1.take(mb.len() as int)[t] == mb[t]);
                                        }
                                        assert(m1[t] == mb[t]);
                                        assert(vb.contains(mb[t].full_name@));
                                    } else {
                                        assert(found is Some);
                                        assert(!vp.contains(m1[t].full_name@));
                                        assert(vp[vb.len() as int] == n);
                                    }
                                }
                            }
                            assert(entry_names(entry_views(m1)) =~= missing_names(m1));
                        }
                        if !missing_contains(missing, &full_name) {
                            let pkg = match found {
                                Some(k) => Some(copy_package(&catalog[k])),
                                None => None,
                            };
                            let entry = MissingDependency { full_name, required_version, package: pkg };
                            proof {
                                let q = match found {
                                    Some(k) => catalog@[k as int],
                                    None => *package,
                                };
                                assert(declares(*package, n, ver));
                                lemma_step_missing(
                                    *package,
                                    q,
                                    installed@,
                                    catalog@,
                                    v0,
                                    m0,
                                    s0,
                                    vb,
                                    mb,
                                    sb,
                                    v1,
                                    m1,
                                    s1,
                                    entry,
                                );
                            }
                            missing.push(entry);
                            proof {
                                lemma_walk_step_missing(
                                    installed@,
                                    catalog@,
                                    deps,
                                    i as int,
                                    fuel,
                                    stb,
                                    n,
                                    ver,
                                    fk,
                                    v1,
                                    entry_views(m1),
                                    s1,
                                );
                                assert(entry_views(missing@) =~= entry_views(m1).push((n, ver)));
                            }
                        }
                    }
                } else {
                    assert(vb.contains(n));
                    assert(walk(installed@, catalog@, deps, i as int, fuel, stb) == walk(installed@, catalog@, deps, i as int + 1, fuel, stb));
                }
                assert(visited.deep_view().contains(n));
            },
        }
        proof {
            let vn = visited.deep_view();
            assert(vn.len() >= vb.len() && vn.take(vb.len() as int) == vb);
            assert forall|j: int|
                0 <= j < i + 1 && #[trigger] parse_dependency_spec(package.dependencies@[j]@) is Some
                    implies vn.contains(parse_dependency_spec(package.dependencies@[j]@).unwrap().0) by {
                if j < i {
                    lemma_prefix_contains(vb, vn, parse_dependency_spec(package.dependencies@[j]@).unwrap().0);
                }
            }
        }
        i += 1;
    }
}

/// The name is declared by the package or by the package of an entry.
pub open spec fn declared_along(root: RemotePackage, ms: Seq<MissingDependency>, n: Seq<char>) -> bool {
    declares_name(root, n) || exists|t: int| 0 <= t < ms.len() && entry_declares_name(#[trigger] ms[t], n)
}

/// The name is skipped, listed as missing, or satisfied at a version
/// declared by the package or by the package of an entry.
pub open spec fn listed_or_satisfied(
    root: RemotePackage,
    installed: Seq<InstalledMod>,
    ms: Seq<MissingDependency>,
    skipped: Seq<Seq<char>>,
    n: Seq<char>,
) -> bool {
    skipped.contains(n) || missing_names(ms).contains(n) || exists|v: Seq<char>|
        dependency_satisfied_spec(n, v, installed) && (declares(root, n, v) || exists|t: int|
            0 <= t < ms.len() && entry_declares(#[trigger] ms[t], n, v))
}

/// The missing dependencies of `root` and the BepInEx packs among them.
/// Each entry needs installing, carries the catalog's package of its name,
/// and was declared by `root` or by the package of an entry listed after
/// it; each skipped name is a BepInEx pack declared by `root` or by an
/// entry's package; no name is listed twice; and every name declared by
/// `root` or by an entry's package is listed, or satisfied at a version
/// declared there.
pub open spec fn missing_report(
    root: RemotePackage,
    installed: Seq<InstalledMod>,
    catalog: Seq<RemotePackage>,
    ms: Seq<MissingDependency>,
    skipped: Seq<Seq<char>>,
) -> bool {
    &&& forall|j: int| 0 <= j < ms.len() ==> sound_entry(#[trigger] ms[j], installed, catalog) && found_from(root, ms, j)
    &&& no_dup(missing_names(ms))
    &&& no_dup(skipped)
    &&& forall|j: int| 0 <= j < skipped.len() ==> is_modloader(#[trigger] skipped[j]) && name_found_from(root, ms, 0, skipped[j])
    &&& forall|n: Seq<char>| #[trigger] declared_along(root, ms, n) ==> listed_or_satisfied(root, installed, ms, skipped, n)
}

/// The dependencies of a package, followed through the catalog, that are
/// not installed, and the BepInEx packs among them, which the manager
/// installs itself: in order, the entries and packs that [`walk`] finds
/// from the package's dependencies and empty lists, each entry carrying
/// the catalog's package of its name. Always succeeds.
pub fn collect_missing_dependencies(
    package: &RemotePackage,
    installed: &[InstalledMod],
    catalog: &[RemotePackage],
) -> (r: Result<(Vec<MissingDependency>, Vec<String>), InstallError>)
    ensures
        r matches Ok((ms, skipped)) && missing_report(*package, installed@, catalog@, ms@, skipped.deep_view())
            && entry_views(ms@) == walk(installed@, catalog@, package.dependencies@, 0, catalog@.len(), (seq![], seq![], seq![])).1
            && skipped.deep_view() == walk(installed@, catalog@, package.dependencies@, 0, catalog@.len(), (seq![], seq![], seq![])).2,
{
    let mut missing: Vec<MissingDependency> = Vec::new();
    let mut skipped_modloader: Vec<String> = Vec::new();
    let mut visited: Vec<String> = Vec::new();
    assert(visited.deep_view() =~= Seq::<Seq<char>>::empty());
    assert(skipped_modloader.deep_view() =~= Seq::<Seq<char>>::empty());
    proof {
        lemma_unvisited_bounded(catalog@, visited.deep_view());
        assert(entry_views(missing@) =~= seq![]);
    }
    collect_missing_recursive(
        package,
        installed,
        catalog,
        &mut missing,
        &mut skipped_modloader,
        &mut visited,
        Ghost(catalog.len() as nat),
    );
    proof {
        let v = visited.deep_view();
        let ms = missing@;
        let sk = skipped_modloader.deep_view();
        assert forall|n: Seq<char>| #[trigger] declared_along(*package, ms, n) implies listed_or_satisfied(
            *package,
            installed@,
            ms,
            sk,
            n,
        ) by {
            assert(v.contains(n)) by {
                if declares_name(*package, n) {
                    let j = choose|j: int|
                        0 <= j < package.dependencies@.len() && #[trigger] parse_dependency_spec(package.dependencies@[j]@) is Some
                            && parse_dependency_spec(package.dependencies@[j]@).unwrap().0 == n;
                } else {
                    let t = choose|t: int| 0 <= t < ms.len() && entry_declares_name(#[trigger] ms[t], n);
                    let pk = ms[t].package->0;
                    assert(deps_named_in(pk, v));
                    let j = choose|j: int|
                        0 <= j < pk.dependencies@.len() && #[trigger] parse_dependency_spec(pk.dependencies@[j]@) is Some
                            && parse_dependency_spec(pk.dependencies@[j]@).unwrap().0 == n;
                }
            }
            let k = choose|k: int| 0 <= k < v.len() && v[k] == n;
            assert(settled(v[k], *package, ms, 0, sk, installed@));
        }
    }
    Ok((missing, skipped_modloader))
}

/// Index of the first entry, from `i` on, whose package the catalog lacks.
pub open spec fn first_unresolved(ms: Seq<MissingDependency>, i: int) -> Option<int>
    decreases ms.len() - i,
{
    if i < 0 || i >= ms.len() {
        None
    } else if ms[i].package is None {
        Some(i)
    } else {
        first_unresolved(ms, i + 1)
    }
}

/// Package `k` of the queue is that of entry `k`.
pub open spec fn queued_at(q: Seq<RemotePackage>, ms: Seq<MissingDependency>, k: int) -> bool {
    ms[k].package is Some && same_package(q[k], ms[k].package->0)
}

/// The first `n` packages are those of the first `n` entries.
pub open spec fn queued_from(q: Seq<RemotePackage>, ms: Seq<MissingDependency>, n: int) -> bool {
    forall|k: int| 0 <= k < n ==> #[trigger] queued_at(q, ms, k)
}

/// Queueing the package of the next entry.
proof fn lemma_queued_push(q: Seq<RemotePackage>, ms: Seq<MissingDependency>, n: int, x: RemotePackage)
    requires
        queued_from(q, ms, n),
        q.len() == n,
        0 <= n < ms.len(),
        ms[n].package is Some,
        same_package(x, ms[n].package->0),
    ensures
        queued_from(q.push(x), ms, n + 1),
{
    let q2 = q.push(x);
    assert forall|k: int| 0 <= k < n + 1 implies #[trigger] queued_at(q2, ms, k) by {
        if k < n {
            assert(q2[k] == q[k]);
            assert(queued_at(q, ms, k));
        } else {
            assert(q2[k] == x);
        }
    }
}

/// Adding at the end keeps what is queued.
proof fn lemma_queued_extend(q: Seq<RemotePackage>, ms: Seq<MissingDependency>, n: int, x: RemotePackage)
    requires
        queued_from(q, ms, n),
        n <= q.len(),
    ensures
        queued_from(q.push(x), ms, n),
{
    assert forall|k: int| 0 <= k < n implies #[trigger] queued_at(q.push(x), ms, k) by {
        assert(q.push(x)[k] == q[k]);
        assert(queued_at(q, ms, k));
    }
}

/// What to install for a request, in order: with dependencies, the
/// packages of the missing ones in their order and then the requested
/// package, or an error naming the first missing dependency the catalog
/// lacks; without, the requested package alone.
pub fn install_queue(request: &InstallRequest, missing: Vec<MissingDependency>) -> (r: Result<
    Vec<RemotePackage>,
    InstallError,
>)
    ensures
        !request.include_dependencies ==> (r matches Ok(q) && q@.len() == 1 && same_package(
            q@[0],
            request.package,
        )),
        request.include_dependencies ==> match first_unresolved(missing@, 0) {
            Some(j) => r matches Err(InstallError::MissingDependency { full_name }) && full_name@
                == missing@[j].full_name@,
            None => r matches Ok(q) && q@.len() == missing@.len() + 1 && queued_from(
                q@,
                missing@,
                missing@.len() as int,
            ) && same_package(q@[missing@.len() as int], request.package),
        },
{
    let mut queue: Vec<RemotePackage> = Vec::new();
    if request.include_dependencies {
        let ghost orig = missing@;
        let mut rest = missing;
        let total = rest.len();
        let mut i: usize = 0;
        proof {
            assert(orig.skip(0) =~= orig);
        }
        while rest.len() > 0
            invariant
                request.include_dependencies,
                orig == missing@,
                orig.len() == total,
                i + rest@.len() == orig.len(),
                rest@ == orig.skip(i as int),
                first_unresolved(orig, 0) == first_unresolved(orig, i as int),
                queue@.len() == i,
                queued_from(queue@, orig, i as int),
            decreases rest.len(),
        {
            let dependency = rest.remove(0);
            assert(dependency == orig[i as int]);
            let ghost qb = queue@;
            match dependency.package {
                Some(p) => {
                    let copy = copy_package(&p);
                    proof {
                        lemma_queued_push(qb, orig, i as int, copy);
                    }
                    queue.push(copy);
                },
                None => {
                    assert(first_unresolved(orig, i as int) == Some(i as int));
                    return Err(InstallError::MissingDependency { full_name: dependency.full_name });
                },
            }
            proof {
                assert(rest@ =~= orig.skip(i as int + 1));
            }
            i += 1;
        }
        assert(first_unresolved(orig, i as int) is None);
    }
    let ghost qb = queue@;
    let last = copy_package(&request.package);
    proof {
        if request.include_dependencies {
            lemma_queued_extend(qb, missing@, missing@.len() as int, last);
        }
    }
    queue.push(last);
    Ok(queue)
}

/// Refuses an archive entry that would be written outside the package's
/// folder.
pub fn ensure_safe_relative(entry_name: &str) -> (r: Result<(), InstallError>)
    ensures
        escapes_destination(entry_name@) ==> (r matches Err(InstallError::UnsafeArchivePath { entry }) && entry@
            == entry_name@),
        !escapes_destination(entry_name@) ==> r is Ok,
{
    if escapes_destination_exec(entry_name) {
        Err(InstallError::UnsafeArchivePath { entry: entry_name.to_owned() })
    } else {
        Ok(())
    }
}

/// The file a downloaded package is cached under.
pub fn archive_file_name(full_name: &str, version: &str) -> (r: String)
    ensures
        r@ == full_name@ + "-"@ + version@ + ".zip"@,
{
    let mut r = concat_str(full_name, "-");
    crate::text::append_str(&mut r, version);
    crate::text::append_str(&mut r, ".zip");
    r
}
} // verus!
