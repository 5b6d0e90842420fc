//! What the Thunderstore browser decides: which packages match the search,
//! the icon, description and update of an installed mod, and what to ask
//! before installing.
use vstd::prelude::*;

use super::catalog::CatalogSnapshot;
use super::install::{
    by_full_name, collect_missing_dependencies, copy_package, entry_views, find_update_version, same_package, update_version_spec, walk,
    InstallReport, MissingDependency,
};
use super::package::{package_matches, RemotePackage};
use crate::mods::{InstalledMod, ModSource};
use crate::text::{append_str, chars_of, concat_str, decimal, decimal_string, join_strings, join_with, str_eq};
use crate::ui::toast::{shows, ToastKind, ToastQueue};

verus! {

/// Indices, in order, of the first `n` packages that match the query.
pub open spec fn matching_upto(packages: Seq<RemotePackage>, query: Seq<char>, n: int) -> Seq<usize>
    decreases n,
{
    if n <= 0 {
        Seq::empty()
    } else {
        let prev = matching_upto(packages, query, n - 1);
        if package_matches(packages[n - 1], query) {
            prev.push((n - 1) as usize)
        } else {
            prev
        }
    }
}

/// The packages, by index, that match the search.
pub fn filter_indices(packages: &Vec<RemotePackage>, query: &str) -> (r: Vec<usize>)
    ensures
        r@ == matching_upto(packages@, query@, packages.len() as int),
{
    let mut r: Vec<usize> = Vec::new();
    let mut i: usize = 0;
    while i < packages.len()
        invariant
            i <= packages.len(),
            r@ == matching_upto(packages@, query@, i as int),
        decreases packages.len() - i,
    {
        if packages[i].matches_search(query) {
            r.push(i);
        }
        i += 1;
    }
    r
}

/// Finds the first package with the full name.
fn find_package(packages: &Vec<RemotePackage>, entry_name: &str) -> (r: Option<usize>)
    ensures
        match by_full_name(packages@, entry_name@, 0) {
            Some(i) => r is Some && r->0 as int == i,
            None => r is None,
        },
        r is Some ==> r->0 < packages.len(),
{
    let mut i: usize = 0;
    while i < packages.len()
        invariant
            i <= packages.len(),
            by_full_name(packages@, entry_name@, 0) == by_full_name(packages@, entry_name@, i as int),
        decreases packages.len() - i,
    {
        if crate::text::str_eq(packages[i].full_name.as_str(), entry_name) {
            return Some(i);
        }
        i += 1;
    }
    None
}

/// The icon of an installed package, when the list has the package and
/// its icon address is not empty.
pub fn icon_url_for(packages: &Vec<RemotePackage>, entry_name: &str) -> (r: Option<String>)
    ensures
        match by_full_name(packages@, entry_name@, 0) {
            Some(i) => if packages@[i].icon_url@.len() > 0 {
                r matches Some(u) && u@ == packages@[i].icon_url@
            } else {
                r is None
            },
            None => r is None,
        },
{
    match find_package(packages, entry_name) {
        Some(i) => {
            if chars_of(packages[i].icon_url.as_str()).len() > 0 {
                Some(packages[i].icon_url.clone())
            } else {
                None
            }
        },
        None => None,
    }
}

/// The description of an installed package, when the list has the package
/// and the description is not empty.
pub fn description_for(packages: &Vec<RemotePackage>, entry_name: &str) -> (r: Option<String>)
    ensures
        match by_full_name(packages@, entry_name@, 0) {
            Some(i) => if packages@[i].description@.len() > 0 {
                r matches Some(u) && u@ == packages@[i].description@
            } else {
                r is None
            },
            None => r is None,
        },
{
    match find_package(packages, entry_name) {
        Some(i) => {
            if chars_of(packages[i].description.as_str()).len() > 0 {
                Some(packages[i].description.clone())
            } else {
                None
            }
        },
        None => None,
    }
}

/// The updates among the first `n` installed mods, in order: for each mod
/// from Thunderstore or of unknown source that has a newer package version,
/// its entry name and that version.
pub open spec fn updates_upto(mods: Seq<InstalledMod>, packages: Seq<RemotePackage>, n: int) -> Seq<(Seq<char>, Seq<char>)>
    decreases n,
{
    if n <= 0 {
        Seq::empty()
    } else {
        let prev = updates_upto(mods, packages, n - 1);
        let m = mods[n - 1];
        if m.source == ModSource::Nexus {
            prev
        } else {
            match update_version_spec(m, packages) {
                Some(v) => prev.push((m.entry_name@, v)),
                None => prev,
            }
        }
    }
}

/// The views of a list of pairs of texts.
pub open spec fn pair_views(s: Seq<(String, String)>) -> Seq<(Seq<char>, Seq<char>)> {
    s.map_values(|p: (String, String)| (p.0@, p.1@))
}

/// The installed mods that have an update, with the version to update to.
pub fn update_targets(mods: &Vec<InstalledMod>, packages: &Vec<RemotePackage>) -> (r: Vec<(String, String)>)
    ensures
        pair_views(r@) == updates_upto(mods@, packages@, mods.len() as int),
{
    let mut r: Vec<(String, String)> = Vec::new();
    let mut i: usize = 0;
    while i < mods.len()
        invariant
            i <= mods.len(),
            pair_views(r@) == updates_upto(mods@, packages@, i as int),
        decreases mods.len() - i,
    {
        let m = &mods[i];
        let ghost prev = pair_views(r@);
        let nexus = match m.source {
            ModSource::Nexus => true,
            _ => false,
        };
        if !nexus {
            match find_update_version(m, packages.as_slice()) {
                Some(v) => {
                    r.push((m.entry_name.clone(), v));
                    assert(pair_views(r@) =~= prev.push((m.entry_name@, update_version_spec(*m, packages@)->0)));
                },
                None => {},
            }
        }
        i += 1;
    }
    r
}

/// Is a package of this full name installed?
pub fn already_installed(installed: &[InstalledMod], full_name: &str) -> (r: bool)
    ensures
        r == exists|i: int| 0 <= i < installed.len() && (#[trigger] installed@[i]).entry_name@ == full_name@,
{
    let mut i: usize = 0;
    while i < installed.len()
        invariant
            i <= installed.len(),
            forall|k: int| 0 <= k < i ==> (#[trigger] installed@[k]).entry_name@ != full_name@,
        decreases installed.len() - i,
    {
        if crate::text::str_eq(installed[i].entry_name.as_str(), full_name) {
            return true;
        }
        i += 1;
    }
    false
}

/// The line shown for a missing dependency before installing it.
pub open spec fn dependency_line(m: MissingDependency) -> Seq<char> {
    m.full_name@ + " (>= "@ + m.required_version@ + ")"@
}

/// The lines shown for the missing dependencies, in order.
pub fn dependency_prompt_lines(missing: &Vec<MissingDependency>) -> (r: Vec<String>)
    ensures
        r.deep_view() == missing@.map_values(|m: MissingDependency| dependency_line(m)),
{
    let mut r: Vec<String> = Vec::new();
    let mut i: usize = 0;
    while i < missing.len()
        invariant
            i <= missing.len(),
            r.deep_view() == missing@.take(i as int).map_values(|m: MissingDependency| dependency_line(m)),
        decreases missing.len() - i,
    {
        let mut l = missing[i].full_name.clone();
        append_str(&mut l, " (>= ");
        append_str(&mut l, missing[i].required_version.as_str());
        append_str(&mut l, ")");
        let ghost prev = r.deep_view();
        assert(l@ == dependency_line(missing@[i as int]));
        r.push(l);
        assert(r.deep_view() =~= prev.push(dependency_line(missing@[i as int])));
        assert(missing@.take(i as int + 1).map_values(|m: MissingDependency| dependency_line(m)) =~= missing@.take(
            i as int,
        ).map_values(|m: MissingDependency| dependency_line(m)).push(dependency_line(missing@[i as int])));
        i += 1;
    }
    assert(missing@.take(i as int) =~= missing@);
    r
}


/// How loading the package list ended.
#[derive(Debug, Clone)]
pub enum CatalogEvent {
    /// The list, fresh or from the cache.
    Ready(CatalogSnapshot),
    /// The list could not be loaded; the text says why.
    Failed(String),
    /// The loading stopped without an answer.
    WorkerStopped,
}

/// How an install ended.
#[derive(Debug, Clone)]
pub enum InstallOutcome {
    /// The packages were installed; the text reports it.
    Done { report_text: String },
    /// The install failed; the text says why.
    Failed(String),
    /// The install stopped without an answer.
    WorkerStopped,
}

/// What the browser asks before an install.
#[derive(Debug, Clone)]
pub enum PendingInstall {
    /// Whether to bring the missing dependencies, listed as lines.
    Dependencies { package: RemotePackage, missing_names: Vec<String> },
    /// Whether to replace the installed files of the package.
    Reinstall { package: RemotePackage },
}

/// The answer to the question about missing dependencies.
#[derive(Debug, Clone, Copy, PartialEq, Eq, Structural)]
pub enum DependencyChoice {
    WithDependencies,
    WithoutDependencies,
    Cancel,
}

/// State of the Thunderstore browser that outlives a frame.
pub struct ThunderstoreBrowse {
    pub packages: Vec<RemotePackage>,
    pub filtered: Vec<usize>,
    pub filter_query: String,
    /// When the shown list was fetched, in seconds since the Unix epoch.
    pub fetched_at_unix: Option<u64>,
    pub from_cache: bool,
    pub search_query: String,
    pub status_message: Option<String>,
    pub error_message: Option<String>,
    pub catalog_busy: bool,
    pub install_busy: bool,
    pub pending_install: Option<PendingInstall>,
    pub auto_started: bool,
    pub last_install_changed: bool,
}

impl Default for ThunderstoreBrowse {
    /// Nothing loaded, nothing running, nothing asked.
    fn default() -> (r: Self)
        ensures
            r.packages@.len() == 0,
            r.filtered@.len() == 0,
            r.search_query@.len() == 0,
            !r.catalog_busy,
            !r.install_busy,
            r.pending_install is None,
            !r.auto_started,
            !r.last_install_changed,
    {
        ThunderstoreBrowse {
            packages: Vec::new(),
            filtered: Vec::new(),
            filter_query: String::new(),
            fetched_at_unix: None,
            from_cache: false,
            search_query: String::new(),
            status_message: None,
            error_message: None,
            catalog_busy: false,
            install_busy: false,
            pending_install: None,
            auto_started: false,
            last_install_changed: false,
        }
    }
}

/// The status shown once the list was loaded with `count` packages.
pub open spec fn loaded_text(count: nat, offline: bool) -> Seq<char> {
    if offline {
        "showing "@ + decimal(count) + " cached packages"@
    } else {
        "loaded "@ + decimal(count) + " packages"@
    }
}

/// The message shown once the list was loaded with `count` packages.
pub open spec fn loaded_toast(count: nat, offline: bool) -> Seq<char> {
    if offline {
        "catalog offline \u{2014} showing "@ + decimal(count) + " cached packages"@
    } else {
        "loaded "@ + decimal(count) + " thunderstore packages"@
    }
}

/// The missing dependencies of a package as the install finds them, each a
/// name and the version asked for.
pub open spec fn missing_for(installed: Seq<InstalledMod>, catalog: Seq<RemotePackage>, package: RemotePackage) -> Seq<(Seq<char>, Seq<char>)> {
    walk(installed, catalog, package.dependencies@, 0, catalog.len(), (seq![], seq![], seq![])).1
}

/// The line asked about for a missing dependency.
pub open spec fn missing_line(e: (Seq<char>, Seq<char>)) -> Seq<char> {
    e.0 + " (>= "@ + e.1 + ")"@
}

/// Is some installed entry named after the package?
pub open spec fn installed_as(installed: Seq<InstalledMod>, full_name: Seq<char>) -> bool {
    exists|i: int| 0 <= i < installed.len() && (#[trigger] installed[i]).entry_name@ == full_name
}

/// The report of a finished install: what was installed, and the BepInEx
/// packs left to the manager, when there are any.
pub open spec fn install_report_spec(installed: Seq<Seq<char>>, skipped: Seq<Seq<char>>) -> Seq<char> {
    "installed "@ + join_with(installed, ", "@) + if skipped.len() == 0 {
        Seq::<char>::empty()
    } else {
        "\nmodloader dependency handled separately: "@ + join_with(skipped, ", "@)
    }
}

/// Describes a finished install.
pub fn install_report_text(report: &InstallReport) -> (r: String)
    ensures
        r@ == install_report_spec(
            report.installed@.map_values(|s: String| s@),
            report.skipped_modloader_deps@.map_values(|s: String| s@),
        ),
{
    let mut text = concat_str("installed ", join_strings(&report.installed, ", ").as_str());
    if report.skipped_modloader_deps.len() > 0 {
        append_str(&mut text, "\nmodloader dependency handled separately: ");
        append_str(&mut text, join_strings(&report.skipped_modloader_deps, ", ").as_str());
    } else {
        assert(report.skipped_modloader_deps@.map_values(|s: String| s@).len() == 0);
        assert(text@ == text@ + Seq::<char>::empty());
    }
    text
}

impl ThunderstoreBrowse {
    /// Whether an install changed the mods on disk since last asked; asking
    /// clears it.
    pub fn take_install_changed(&mut self) -> (changed: bool)
        ensures
            changed == old(self).last_install_changed,
            !final(self).last_install_changed,
            final(self).packages@ == old(self).packages@,
    {
        let changed = self.last_install_changed;
        self.last_install_changed = false;
        changed
    }

    /// Whether to start loading the list on its own: the first time only.
    pub fn should_auto_start(&mut self) -> (start: bool)
        ensures
            start == !old(self).auto_started,
            final(self).auto_started,
            final(self).catalog_busy == old(self).catalog_busy,
    {
        if !self.auto_started {
            self.auto_started = true;
            true
        } else {
            false
        }
    }

    /// Recomputes the packages that match the search when the search
    /// changed, or always when forced.
    pub fn rebuild_filter(&mut self, force: bool)
        ensures
            final(self).packages@ == old(self).packages@,
            final(self).catalog_busy == old(self).catalog_busy,
            final(self).install_busy == old(self).install_busy,
            final(self).fetched_at_unix == old(self).fetched_at_unix,
            final(self).from_cache == old(self).from_cache,
            final(self).search_query@ == old(self).search_query@,
            !force && old(self).filter_query@ == old(self).search_query@ ==> final(self).filtered@ == old(self).filtered@
                && final(self).filter_query@ == old(self).filter_query@,
            force || old(self).filter_query@ != old(self).search_query@ ==> final(self).filtered@ == matching_upto(
                old(self).packages@,
                old(self).search_query@,
                old(self).packages@.len() as int,
            ) && final(self).filter_query@ == old(self).search_query@,
    {
        if !force && str_eq(self.filter_query.as_str(), self.search_query.as_str()) {
            return;
        }
        self.filter_query = self.search_query.clone();
        self.filtered = filter_indices(&self.packages, self.search_query.as_str());
    }

    /// Starts loading the list unless it is loading already; says whether
    /// to start.
    pub fn begin_catalog_fetch(&mut self, force_refresh: bool) -> (start: bool)
        ensures
            old(self).catalog_busy ==> !start && final(self).status_message == old(self).status_message
                && final(self).error_message == old(self).error_message,
            !old(self).catalog_busy ==> start && final(self).error_message is None && (final(self).status_message matches Some(s) && s@ == (if force_refresh {
                "refreshing thunderstore catalog\u{2026}"@
            } else {
                "loading thunderstore catalog\u{2026}"@
            })),
            final(self).catalog_busy,
            final(self).install_busy == old(self).install_busy,
            final(self).packages@ == old(self).packages@,
    {
        if self.catalog_busy {
            return false;
        }
        self.catalog_busy = true;
        self.error_message = None;
        self.status_message = Some(
            if force_refresh {
                "refreshing thunderstore catalog\u{2026}".to_owned()
            } else {
                "loading thunderstore catalog\u{2026}".to_owned()
            },
        );
        true
    }

    /// Takes in how loading the list ended. A loaded list replaces the
    /// shown one and the search is run again; a list from the cache after a
    /// network failure says so.
    pub fn catalog_finished(&mut self, event: CatalogEvent, toasts: &mut ToastQueue, now_ms: u64)
        ensures
            !final(self).catalog_busy,
            final(self).install_busy == old(self).install_busy,
            match event {
                CatalogEvent::Ready(s) => {
                    &&& final(self).packages@ == s.packages@
                    &&& final(self).fetched_at_unix == Some(s.fetched_at_unix)
                    &&& final(self).from_cache == s.from_cache
                    &&& final(self).filtered@ == matching_upto(s.packages@, old(self).search_query@, s.packages@.len() as int)
                    &&& final(self).filter_query@ == old(self).search_query@
                    &&& (final(self).status_message matches Some(m) && m@ == loaded_text(s.packages@.len(), s.network_warning is Some))
                    &&& match s.network_warning {
                        Some(w) => final(self).error_message matches Some(e) && e@ == w@,
                        None => final(self).error_message is None,
                    }
                    &&& shows(
                        old(toasts).entries@,
                        final(toasts).entries@,
                        ToastKind::Info,
                        loaded_toast(s.packages@.len(), s.network_warning is Some),
                        now_ms,
                    )
                },
                CatalogEvent::Failed(m) => {
                    &&& final(self).packages@ == old(self).packages@
                    &&& (final(self).error_message matches Some(e) && e@ == m@)
                    &&& final(self).status_message is None
                    &&& shows(old(toasts).entries@, final(toasts).entries@, ToastKind::Error, m@, now_ms)
                },
                CatalogEvent::WorkerStopped => {
                    &&& final(self).packages@ == old(self).packages@
                    &&& (final(self).error_message matches Some(e) && e@ == "catalog worker stopped unexpectedly"@)
                    &&& final(self).status_message == old(self).status_message
                    &&& shows(
                        old(toasts).entries@,
                        final(toasts).entries@,
                        ToastKind::Error,
                        "catalog worker stopped unexpectedly"@,
                        now_ms,
                    )
                },
            },
    {
        self.catalog_busy = false;
        match event {
            CatalogEvent::Ready(snapshot) => {
                let count = decimal_string(snapshot.packages.len() as u64);
                self.packages = snapshot.packages;
                self.fetched_at_unix = Some(snapshot.fetched_at_unix);
                self.from_cache = snapshot.from_cache;
                self.rebuild_filter(true);
                match snapshot.network_warning {
                    Some(warning) => {
                        self.error_message = Some(warning);
                        let mut status = concat_str("showing ", count.as_str());
                        append_str(&mut status, " cached packages");
                        self.status_message = Some(status);
                        let mut note = concat_str("catalog offline \u{2014} showing ", count.as_str());
                        append_str(&mut note, " cached packages");
                        toasts.info(note, now_ms);
                    },
                    None => {
                        self.error_message = None;
                        let mut status = concat_str("loaded ", count.as_str());
                        append_str(&mut status, " packages");
                        self.status_message = Some(status);
                        let mut note = concat_str("loaded ", count.as_str());
                        append_str(&mut note, " thunderstore packages");
                        toasts.info(note, now_ms);
                    },
                }
            },
            CatalogEvent::Failed(message) => {
                self.error_message = Some(message.clone());
                self.status_message = None;
                toasts.error(message, now_ms);
            },
            CatalogEvent::WorkerStopped => {
                let message = "catalog worker stopped unexpectedly".to_owned();
                self.error_message = Some(message.clone());
                toasts.error(message, now_ms);
            },
        }
    }

    /// Decides how to go on when the user asks to install a package: an
    /// installed one is first confirmed unless that was already done; one
    /// with missing dependencies asks whether to bring them; otherwise the
    /// install starts, with dependencies. Gives the package to install and
    /// whether to bring its dependencies.
    pub fn begin_install_flow(&mut self, installed: &[InstalledMod], package: RemotePackage, skip_reinstall_prompt: bool) -> (start: Option<(RemotePackage, bool)>)
        ensures
            final(self).packages@ == old(self).packages@,
            final(self).install_busy == old(self).install_busy,
            installed_as(installed@, package.full_name@) && !skip_reinstall_prompt ==> start is None && (final(self).pending_install matches Some(PendingInstall::Reinstall { package: p }) && same_package(p, package)),
            !(installed_as(installed@, package.full_name@) && !skip_reinstall_prompt) ==> {
                let missing = missing_for(installed@, old(self).packages@, package);
                &&& missing.len() == 0 ==> (start matches Some((p, deps)) && same_package(p, package) && deps)
                    && final(self).pending_install == old(self).pending_install
                &&& missing.len() > 0 ==> start is None && (final(self).pending_install matches Some(
                    PendingInstall::Dependencies { package: p, missing_names },
                ) && same_package(p, package) && missing_names.deep_view() == missing.map_values(
                    |e: (Seq<char>, Seq<char>)| missing_line(e),
                ))
            },
    {
        if already_installed(installed, package.full_name.as_str()) && !skip_reinstall_prompt {
            let p = copy_package(&package);
            self.pending_install = Some(PendingInstall::Reinstall { package: p });
            return None;
        }
        let result = collect_missing_dependencies(&package, installed, self.packages.as_slice());
        match result {
            Ok((missing, _skipped)) => {
                let ghost w = missing_for(installed@, self.packages@, package);
                assert(entry_views(missing@) == w);
                if missing.len() == 0 {
                    Some((copy_package(&package), true))
                } else {
                    let lines = dependency_prompt_lines(&missing);
                    proof {
                        assert(lines.deep_view() =~= w.map_values(|e: (Seq<char>, Seq<char>)| missing_line(e))) by {
                            assert forall|i: int| 0 <= i < w.len() implies #[trigger] lines.deep_view()[i] == missing_line(w[i]) by {
                                assert(entry_views(missing@)[i] == (missing@[i].full_name@, missing@[i].required_version@));
                            }
                        }
                    }
                    self.pending_install = Some(PendingInstall::Dependencies { package: copy_package(&package), missing_names: lines });
                    None
                }
            },
            Err(_) => None,
        }
    }

    /// Takes in the answer about missing dependencies; gives the package to
    /// install and whether to bring its dependencies, or nothing when the
    /// install was cancelled.
    pub fn answer_dependencies(&mut self, choice: DependencyChoice) -> (start: Option<(RemotePackage, bool)>)
        ensures
            final(self).pending_install is None,
            final(self).packages@ == old(self).packages@,
            match old(self).pending_install {
                Some(PendingInstall::Dependencies { package, .. }) => match choice {
                    DependencyChoice::WithDependencies => start matches Some((p, deps)) && same_package(p, package) && deps,
                    DependencyChoice::WithoutDependencies => start matches Some((p, deps)) && same_package(p, package) && !deps,
                    DependencyChoice::Cancel => start is None && (final(self).status_message matches Some(s) && s@
                        == "install cancelled"@),
                },
                _ => start is None && final(self).status_message == old(self).status_message,
            },
    {
        let pending = self.pending_install.take();
        match pending {
            Some(PendingInstall::Dependencies { package, .. }) => match choice {
                DependencyChoice::WithDependencies => Some((package, true)),
                DependencyChoice::WithoutDependencies => Some((package, false)),
                DependencyChoice::Cancel => {
                    self.status_message = Some("install cancelled".to_owned());
                    None
                },
            },
            _ => None,
        }
    }

    /// Takes in the answer about replacing an installed package; a
    /// confirmed replacement goes on as a new install request would.
    pub fn answer_reinstall(&mut self, confirm: bool, installed: &[InstalledMod]) -> (start: Option<(RemotePackage, bool)>)
        ensures
            final(self).packages@ == old(self).packages@,
            match old(self).pending_install {
                Some(PendingInstall::Reinstall { package }) => if confirm {
                    let missing = missing_for(installed@, old(self).packages@, package);
                    &&& missing.len() == 0 ==> (start matches Some((p, deps)) && same_package(p, package) && deps)
                        && final(self).pending_install is None
                    &&& missing.len() > 0 ==> start is None && (final(self).pending_install matches Some(
                        PendingInstall::Dependencies { package: p, missing_names },
                    ) && same_package(p, package) && missing_names.deep_view() == missing.map_values(
                        |e: (Seq<char>, Seq<char>)| missing_line(e),
                    ))
                } else {
                    start is None && final(self).pending_install is None
                },
                _ => start is None && final(self).pending_install is None,
            },
    {
        let pending = self.pending_install.take();
        match pending {
            Some(PendingInstall::Reinstall { package }) => {
                if confirm {
                    self.begin_install_flow(installed, package, true)
                } else {
                    None
                }
            },
            _ => None,
        }
    }

    /// Starts installing a package unless an install runs; says whether to
    /// start.
    pub fn begin_install(&mut self, package: &RemotePackage) -> (start: bool)
        ensures
            start == !old(self).install_busy,
            final(self).install_busy,
            start ==> final(self).error_message is None && (final(self).status_message matches Some(s) && s@ == "installing "@
                + package.full_name@ + "\u{2026}"@),
            !start ==> final(self).status_message == old(self).status_message && final(self).error_message == old(self).error_message,
            final(self).catalog_busy == old(self).catalog_busy,
            final(self).packages@ == old(self).packages@,
    {
        if self.install_busy {
            return false;
        }
        self.install_busy = true;
        self.error_message = None;
        let mut status = concat_str("installing ", package.full_name.as_str());
        append_str(&mut status, "\u{2026}");
        self.status_message = Some(status);
        true
    }

    /// Takes in how an install ended; a finished one marks the mods on disk
    /// as changed.
    pub fn install_finished(&mut self, event: InstallOutcome, toasts: &mut ToastQueue, now_ms: u64)
        ensures
            !final(self).install_busy,
            final(self).catalog_busy == old(self).catalog_busy,
            final(self).packages@ == old(self).packages@,
            match event {
                InstallOutcome::Done { report_text } => {
                    &&& (final(self).status_message matches Some(s) && s@ == report_text@)
                    &&& final(self).error_message is None
                    &&& final(self).last_install_changed
                    &&& shows(old(toasts).entries@, final(toasts).entries@, ToastKind::Success, report_text@, now_ms)
                },
                InstallOutcome::Failed(m) => {
                    &&& (final(self).error_message matches Some(e) && e@ == m@)
                    &&& final(self).status_message is None
                    &&& final(self).last_install_changed == old(self).last_install_changed
                    &&& shows(old(toasts).entries@, final(toasts).entries@, ToastKind::Error, "install failed: "@ + m@, now_ms)
                },
                InstallOutcome::WorkerStopped => {
                    &&& (final(self).error_message matches Some(e) && e@ == "install worker stopped unexpectedly"@)
                    &&& final(self).status_message == old(self).status_message
                    &&& final(self).last_install_changed == old(self).last_install_changed
                    &&& shows(
                        old(toasts).entries@,
                        final(toasts).entries@,
                        ToastKind::Error,
                        "install worker stopped unexpectedly"@,
                        now_ms,
                    )
                },
            },
    {
        self.install_busy = false;
        match event {
            InstallOutcome::Done { report_text } => {
                self.status_message = Some(report_text.clone());
                self.error_message = None;
                self.last_install_changed = true;
                toasts.success(report_text, now_ms);
            },
            InstallOutcome::Failed(message) => {
                self.error_message = Some(message.clone());
                self.status_message = None;
                toasts.error(concat_str("install failed: ", message.as_str()), now_ms);
            },
            InstallOutcome::WorkerStopped => {
                let message = "install worker stopped unexpectedly".to_owned();
                self.error_message = Some(message.clone());
                toasts.error(message, now_ms);
            },
        }
    }
}
} // verus!
