//! Switching profiles: the steps that carry a diff out, in a journal that
//! survives an interruption.
use vstd::prelude::*;

use super::model::{
    installed_index, installed_index_exec, matches_installed, profile_mod_matches_installed,
    thunderstore_ref_from_profile_mod, thunderstore_ref_spec, DiffAction, ModOrigin, Profile,
    ProfileDiff, ProfileMod,
};
use super::store::{store_error_text, StoreError};
use crate::mods::InstalledMod;
use crate::paths::{join_path, path_join};
use crate::text::{append_str, concat_str, decimal, decimal_string, has_char};
use crate::thunderstore::package::RemotePackage;

verus! {

/// Whether a switch is being applied or was cut short.
#[derive(Debug, Clone, Copy, PartialEq, Eq, Structural)]
pub enum SwitchPhase {
    Applying,
    Interrupted,
}

/// A Thunderstore download to fall back on when a local stash is missing.
#[derive(Debug, Clone)]
pub struct ThunderstoreFallback {
    pub full_name: String,
    pub version: String,
    pub download_url: String,
}

/// One step of a switch.
#[derive(Debug, Clone)]
pub enum SwitchStep {
    Remove { entry_name: String },
    Disable { entry_name: String },
    Enable { entry_name: String },
    InstallThunderstore {
        entry_name: String,
        full_name: String,
        version: String,
        download_url: String,
        enabled: bool,
    },
    RestoreLocal { entry_name: String, enabled: bool, fallback: Option<ThunderstoreFallback> },
    ReplaceThunderstore {
        entry_name: String,
        full_name: String,
        version: String,
        download_url: String,
        enabled: bool,
    },
}

/// The record of a switch in progress.
#[derive(Debug, Clone)]
pub struct SwitchJournal {
    pub phase: SwitchPhase,
    pub install_folder: String,
    pub target_profile_name: String,
    pub rollback_profile: Profile,
    pub rollback_local_root: String,
    pub target_profile: Profile,
    pub target_local_root: String,
    pub steps: Vec<SwitchStep>,
    pub next_step_index: usize,
}

/// Why a switch failed.
#[derive(Debug, Clone, PartialEq, Eq)]
pub enum SwitchError {
    Store(String),
    Mods(String),
    Install(String),
    Io(String),
    Decode(String),
    MissingLocal { entry_name: String },
    MissingInstalled { entry_name: String },
}

/// The journal's file under the profiles folder.
pub fn journal_path(profiles_directory: &str) -> (r: String)
    ensures
        r@ == join_path(profiles_directory@, ".switch_journal.json"@),
{
    path_join(profiles_directory, ".switch_journal.json")
}

/// A journal found on disk while still applying was cut short: it is
/// marked interrupted.
pub fn mark_loaded_journal(journal: &mut SwitchJournal)
    ensures
        final(journal).phase == SwitchPhase::Interrupted,
        final(journal).next_step_index == old(journal).next_step_index,
        final(journal).steps@ == old(journal).steps@,
{
    if journal.phase == SwitchPhase::Applying {
        journal.phase = SwitchPhase::Interrupted;
    }
}

/// The abstract value of a step: its kind, entry name and install details.
pub enum StepView {
    Remove { entry_name: Seq<char> },
    Disable { entry_name: Seq<char> },
    Enable { entry_name: Seq<char> },
    Install { replacing: bool, entry_name: Seq<char>, full_name: Seq<char>, version: Seq<char>, download_url: Seq<char>, enabled: bool },
    RestoreLocal { entry_name: Seq<char>, enabled: bool, fallback: Option<(Seq<char>, Seq<char>, Seq<char>)> },
}

impl View for SwitchStep {
    type V = StepView;

    open spec fn view(&self) -> StepView {
        match self {
            SwitchStep::Remove { entry_name } => StepView::Remove { entry_name: entry_name@ },
            SwitchStep::Disable { entry_name } => StepView::Disable { entry_name: entry_name@ },
            SwitchStep::Enable { entry_name } => StepView::Enable { entry_name: entry_name@ },
            SwitchStep::InstallThunderstore { entry_name, full_name, version, download_url, enabled } => StepView::Install {
                replacing: false,
                entry_name: entry_name@,
                full_name: full_name@,
                version: version@,
                download_url: download_url@,
                enabled: *enabled,
            },
            SwitchStep::ReplaceThunderstore { entry_name, full_name, version, download_url, enabled } => StepView::Install {
                replacing: true,
                entry_name: entry_name@,
                full_name: full_name@,
                version: version@,
                download_url: download_url@,
                enabled: *enabled,
            },
            SwitchStep::RestoreLocal { entry_name, enabled, fallback } => StepView::RestoreLocal {
                entry_name: entry_name@,
                enabled: *enabled,
                fallback: match fallback {
                    Some(f) => Some((f.full_name@, f.version@, f.download_url@)),
                    None => None,
                },
            },
        }
    }
}

/// The step that brings a profile's mod in. A Thunderstore mod downloads
/// its resolved package (or its own record when nothing resolves). A local
/// or Nexus mod is restored from its stash; without a stash it downloads the
/// package it resolves to, if any, and is otherwise restored with no
/// fallback.
pub open spec fn install_step_spec(pm: ProfileMod, stash_present: bool, catalog: Seq<RemotePackage>, replacing: bool) -> StepView {
    let fallback = thunderstore_ref_spec(pm, catalog);
    match pm.origin {
        ModOrigin::Thunderstore { .. } => {
            let (f, v, u) = fallback.unwrap();
            StepView::Install { replacing, entry_name: pm.entry_name@, full_name: f, version: v, download_url: u, enabled: pm.enabled }
        },
        _ => if !stash_present && fallback is Some {
            let (f, v, u) = fallback.unwrap();
            StepView::Install { replacing, entry_name: pm.entry_name@, full_name: f, version: v, download_url: u, enabled: pm.enabled }
        } else {
            StepView::RestoreLocal { entry_name: pm.entry_name@, enabled: pm.enabled, fallback }
        },
    }
}

/// Plans the step that brings a profile's mod in; `stash_present` tells
/// whether its local stash exists.
pub fn plan_install_step(profile_mod: &ProfileMod, stash_present: bool, catalog: &[RemotePackage], replacing: bool) -> (r: SwitchStep)
    ensures
        r@ == install_step_spec(*profile_mod, stash_present, catalog@, replacing),
{
    let fallback = thunderstore_ref_from_profile_mod(profile_mod, catalog);
    let entry_name = profile_mod.entry_name.clone();
    let enabled = profile_mod.enabled;
    let is_thunderstore = match &profile_mod.origin {
        ModOrigin::Thunderstore { .. } => true,
        _ => false,
    };
    if is_thunderstore || (!stash_present && fallback.is_some()) {
        match fallback {
            Some((full_name, version, download_url)) => {
                if replacing {
                    SwitchStep::ReplaceThunderstore { entry_name, full_name, version, download_url, enabled }
                } else {
                    SwitchStep::InstallThunderstore { entry_name, full_name, version, download_url, enabled }
                }
            },
            None => {
                // A Thunderstore mod always has a reference: its own record.
                SwitchStep::RestoreLocal { entry_name, enabled, fallback: None }
            },
        }
    } else {
        let fb = match fallback {
            Some((full_name, version, download_url)) => Some(ThunderstoreFallback { full_name, version, download_url }),
            None => None,
        };
        SwitchStep::RestoreLocal { entry_name, enabled, fallback: fb }
    }
}

/// Index of the first profile mod with this entry name.
pub open spec fn mod_index(mods: Seq<ProfileMod>, entry: Seq<char>, i: int) -> Option<int>
    decreases mods.len() - i,
{
    if i < 0 || i >= mods.len() {
        None
    } else if mods[i].entry_name@ == entry {
        Some(i)
    } else {
        mod_index(mods, entry, i + 1)
    }
}

/// Finds the profile mod with this entry name.
fn find_mod(profile: &Profile, entry_name: &String) -> (r: Option<usize>)
    ensures
        match mod_index(profile.mods@, entry_name@, 0) {
            Some(i) => r == Some(i as usize) && 0 <= i < profile.mods.len(),
            None => r is None,
        },
{
    let mut i: usize = 0;
    while i < profile.mods.len()
        invariant
            i <= profile.mods.len(),
            mod_index(profile.mods@, entry_name@, 0) == mod_index(profile.mods@, entry_name@, i as int),
        decreases profile.mods.len() - i,
    {
        if profile.mods[i].entry_name == *entry_name {
            return Some(i);
        }
        i += 1;
    }
    None
}

/// Whether the stash of the mod with this entry name exists, from the list
/// of entry names whose stash was found.
pub open spec fn stashed(stashes: Seq<Seq<char>>, entry: Seq<char>) -> bool {
    stashes.contains(entry)
}

/// The removal steps of a diff, in order.
pub open spec fn remove_steps(actions: Seq<DiffAction>) -> Seq<StepView>
    decreases actions.len(),
{
    if actions.len() == 0 {
        Seq::empty()
    } else {
        let prev = remove_steps(actions.drop_last());
        match actions.last() {
            DiffAction::Remove { entry_name, .. } => prev.push(StepView::Remove { entry_name: entry_name@ }),
            _ => prev,
        }
    }
}

/// The install and replace steps of a diff, in order, for the actions whose
/// entry the profile lists.
pub open spec fn install_steps(actions: Seq<DiffAction>, target: Seq<ProfileMod>, stashes: Seq<Seq<char>>, catalog: Seq<RemotePackage>) -> Seq<StepView>
    decreases actions.len(),
{
    if actions.len() == 0 {
        Seq::empty()
    } else {
        let prev = install_steps(actions.drop_last(), target, stashes, catalog);
        let (entry, replacing, relevant) = match actions.last() {
            DiffAction::Install { entry_name, .. } => (entry_name@, false, true),
            DiffAction::ReplaceVersion { entry_name, .. } => (entry_name@, true, true),
            _ => (Seq::empty(), false, false),
        };
        if relevant {
            match mod_index(target, entry, 0) {
                Some(i) => prev.push(install_step_spec(target[i], stashed(stashes, entry), catalog, replacing)),
                None => prev,
            }
        } else {
            prev
        }
    }
}

/// The enable and disable steps of a diff, in order.
pub open spec fn toggle_steps(actions: Seq<DiffAction>) -> Seq<StepView>
    decreases actions.len(),
{
    if actions.len() == 0 {
        Seq::empty()
    } else {
        let prev = toggle_steps(actions.drop_last());
        match actions.last() {
            DiffAction::Enable { entry_name, .. } => prev.push(StepView::Enable { entry_name: entry_name@ }),
            DiffAction::Disable { entry_name, .. } => prev.push(StepView::Disable { entry_name: entry_name@ }),
            _ => prev,
        }
    }
}

/// The views of a list of steps.
pub open spec fn step_views(s: Seq<SwitchStep>) -> Seq<StepView> {
    s.map_values(|x: SwitchStep| x@)
}

/// Is this entry name in the list?
fn listed(names: &Vec<String>, name: &String) -> (r: bool)
    ensures
        r == names.deep_view().contains(name@),
{
    let mut i: usize = 0;
    while i < names.len()
        invariant
            i <= names.len(),
            forall|k: int| 0 <= k < i ==> names.deep_view()[k] != name@,
        decreases names.len() - i,
    {
        if names[i] == *name {
            assert(names.deep_view()[i as int] == name@);
            return true;
        }
        i += 1;
    }
    false
}

/// The steps that carry out a diff: first every removal, then every
/// install or version change of a mod the profile lists, then every enable
/// or disable. `stashes` lists the entry names whose local stash exists.
pub fn steps_from_diff(diff: &ProfileDiff, target: &Profile, stashes: &Vec<String>, catalog: &[RemotePackage]) -> (r: Vec<SwitchStep>)
    ensures
        step_views(r@) == remove_steps(diff.actions@) + install_steps(diff.actions@, target.mods@, stashes.deep_view(), catalog@) + toggle_steps(diff.actions@),
{
    let actions = &diff.actions;
    let mut steps: Vec<SwitchStep> = Vec::new();
    let mut i: usize = 0;
    while i < actions.len()
        invariant
            i <= actions.len(),
            step_views(steps@) == remove_steps(actions@.take(i as int)),
        decreases actions.len() - i,
    {
        proof {
            assert(actions@.take(i as int + 1).drop_last() =~= actions@.take(i as int));
            assert(actions@.take(i as int + 1).last() == actions@[i as int]);
        }
        let ghost prev = step_views(steps@);
        match &actions[i] {
            DiffAction::Remove { entry_name, .. } => {
                steps.push(SwitchStep::Remove { entry_name: entry_name.clone() });
                assert(step_views(steps@) =~= prev.push(StepView::Remove { entry_name: entry_name@ }));
            },
            _ => {},
        }
        i += 1;
    }
    assert(actions@.take(i as int) =~= actions@);
    let ghost first = step_views(steps@);
    let mut j: usize = 0;
    while j < actions.len()
        invariant
            j <= actions.len(),
            step_views(steps@) == first + install_steps(actions@.take(j as int), target.mods@, stashes.deep_view(), catalog@),
        decreases actions.len() - j,
    {
        proof {
            assert(actions@.take(j as int + 1).drop_last() =~= actions@.take(j as int));
            assert(actions@.take(j as int + 1).last() == actions@[j as int]);
        }
        let ghost prev = step_views(steps@);
        let (entry, replacing, relevant) = match &actions[j] {
            DiffAction::Install { entry_name, .. } => (Some(entry_name), false, true),
            DiffAction::ReplaceVersion { entry_name, .. } => (Some(entry_name), true, true),
            _ => (None, false, false),
        };
        match entry {
            Some(e) => {
                match find_mod(target, e) {
                    Some(m) => {
                        let present = listed(stashes, e);
                        let step = plan_install_step(&target.mods[m], present, catalog, replacing);
                        steps.push(step);
                        assert(step_views(steps@) =~= prev.push(install_step_spec(target.mods@[m as int], stashed(stashes.deep_view(), e@), catalog@, replacing)));
                    },
                    None => {},
                }
            },
            None => {},
        }
        j += 1;
    }
    assert(actions@.take(j as int) =~= actions@);
    let ghost second = step_views(steps@);
    let mut k: usize = 0;
    while k < actions.len()
        invariant
            k <= actions.len(),
            step_views(steps@) == second + toggle_steps(actions@.take(k as int)),
        decreases actions.len() - k,
    {
        proof {
            assert(actions@.take(k as int + 1).drop_last() =~= actions@.take(k as int));
            assert(actions@.take(k as int + 1).last() == actions@[k as int]);
        }
        let ghost prev = step_views(steps@);
        match &actions[k] {
            DiffAction::Enable { entry_name, .. } => {
                steps.push(SwitchStep::Enable { entry_name: entry_name.clone() });
                assert(step_views(steps@) =~= prev.push(StepView::Enable { entry_name: entry_name@ }));
            },
            DiffAction::Disable { entry_name, .. } => {
                steps.push(SwitchStep::Disable { entry_name: entry_name.clone() });
                assert(step_views(steps@) =~= prev.push(StepView::Disable { entry_name: entry_name@ }));
            },
            _ => {},
        }
        k += 1;
    }
    assert(actions@.take(k as int) =~= actions@);
    steps
}

/// The next step of a journal to apply, if any.
pub fn next_step(journal: &SwitchJournal) -> (r: Option<&SwitchStep>)
    ensures
        journal.next_step_index < journal.steps.len() ==> (r matches Some(s) && *s == journal.steps@[journal.next_step_index as int]),
        journal.next_step_index >= journal.steps.len() ==> r is None,
{
    if journal.next_step_index < journal.steps.len() {
        Some(&journal.steps[journal.next_step_index])
    } else {
        None
    }
}

/// Records that the next step was applied.
pub fn advance(journal: &mut SwitchJournal)
    requires
        old(journal).next_step_index < old(journal).steps.len(),
    ensures
        final(journal).next_step_index == old(journal).next_step_index + 1,
        final(journal).steps@ == old(journal).steps@,
        final(journal).phase == old(journal).phase,
{
    journal.next_step_index = journal.next_step_index + 1;
}

/// Turns a journal into the rollback of its switch: the rollback profile
/// becomes the target and the given steps restore it from the start.
pub fn begin_rollback(journal: &mut SwitchJournal, steps: Vec<SwitchStep>)
    ensures
        final(journal).phase == SwitchPhase::Applying,
        final(journal).target_profile_name@ == old(journal).rollback_profile.name@,
        same_profile(final(journal).target_profile, old(journal).rollback_profile),
        final(journal).target_local_root@ == old(journal).rollback_local_root@,
        final(journal).steps@ == steps@,
        final(journal).next_step_index == 0,
        same_profile(final(journal).rollback_profile, old(journal).rollback_profile),
{
    journal.phase = SwitchPhase::Applying;
    journal.target_profile_name = journal.rollback_profile.name.clone();
    journal.target_profile = copy_profile(&journal.rollback_profile);
    journal.target_local_root = journal.rollback_local_root.clone();
    journal.steps = steps;
    journal.next_step_index = 0;
}

/// Two profiles hold the same name, times and mods.
pub open spec fn same_profile(a: Profile, b: Profile) -> bool {
    a.name@ == b.name@ && a.created_at_unix == b.created_at_unix && a.updated_at_unix == b.updated_at_unix && a.mods@ == b.mods@
}

/// A copy of a profile, field by field.
pub fn copy_profile(p: &Profile) -> (r: Profile)
    ensures
        same_profile(r, *p),
{
    let mut mods: Vec<ProfileMod> = Vec::new();
    let mut i: usize = 0;
    while i < p.mods.len()
        invariant
            i <= p.mods.len(),
            mods@ == p.mods@.take(i as int),
        decreases p.mods.len() - i,
    {
        mods.push(copy_profile_mod(&p.mods[i]));
        i += 1;
        assert(mods@ =~= p.mods@.take(i as int));
    }
    assert(p.mods@.take(i as int) =~= p.mods@);
    Profile { name: p.name.clone(), created_at_unix: p.created_at_unix, updated_at_unix: p.updated_at_unix, mods }
}

/// A copy of a profile's mod, field by field.
pub fn copy_profile_mod(m: &ProfileMod) -> (r: ProfileMod)
    ensures
        r == *m,
{
    let origin = match &m.origin {
        ModOrigin::Thunderstore { owner, package_name, full_name, version, download_url } => ModOrigin::Thunderstore {
            owner: owner.clone(),
            package_name: package_name.clone(),
            full_name: full_name.clone(),
            version: version.clone(),
            download_url: download_url.clone(),
        },
        ModOrigin::Nexus { mod_id, file_id, game_domain, version, mod_name } => ModOrigin::Nexus {
            mod_id: *mod_id,
            file_id: *file_id,
            game_domain: game_domain.clone(),
            version: version.clone(),
            mod_name: mod_name.clone(),
        },
        ModOrigin::Local { mod_kind } => ModOrigin::Local { mod_kind: *mod_kind },
    };
    ProfileMod { entry_name: m.entry_name.clone(), display_name: m.display_name.clone(), enabled: m.enabled, origin }
}

/// The text shown for a failed switch.
pub open spec fn switch_error_text(e: SwitchError) -> Seq<char> {
    match e {
        SwitchError::Store(d) => d@,
        SwitchError::Mods(d) => d@,
        SwitchError::Install(d) => d@,
        SwitchError::Io(d) => "switch io error: "@ + d@,
        SwitchError::Decode(d) => "switch journal error: "@ + d@,
        SwitchError::MissingLocal { entry_name } => "could not restore '"@ + entry_name@ + "' — local stash missing and no thunderstore package matched"@,
        SwitchError::MissingInstalled { entry_name } => "mod '"@ + entry_name@ + "' is not installed"@,
    }
}

impl SwitchError {
    /// The error as shown to the user.
    pub fn message(&self) -> (r: String)
        ensures
            r@ == switch_error_text(*self),
    {
        match self {
            SwitchError::Store(d) => {
                let mut r = String::new();
                crate::text::append_str(&mut r, d.as_str());
                r
            },
            SwitchError::Mods(d) => {
                let mut r = String::new();
                crate::text::append_str(&mut r, d.as_str());
                r
            },
            SwitchError::Install(d) => {
                let mut r = String::new();
                crate::text::append_str(&mut r, d.as_str());
                r
            },
            SwitchError::Io(d) => {
                let mut r = String::new();
                crate::text::append_str(&mut r, "switch io error: ");
                crate::text::append_str(&mut r, d.as_str());
                r
            },
            SwitchError::Decode(d) => {
                let mut r = String::new();
                crate::text::append_str(&mut r, "switch journal error: ");
                crate::text::append_str(&mut r, d.as_str());
                r
            },
            SwitchError::MissingLocal { entry_name } => {
                let mut r = String::new();
                crate::text::append_str(&mut r, "could not restore '");
                crate::text::append_str(&mut r, entry_name.as_str());
                crate::text::append_str(&mut r, "' — local stash missing and no thunderstore package matched");
                r
            },
            SwitchError::MissingInstalled { entry_name } => {
                let mut r = String::new();
                crate::text::append_str(&mut r, "mod '");
                crate::text::append_str(&mut r, entry_name.as_str());
                crate::text::append_str(&mut r, "' is not installed");
                r
            },
        }
    }
}

/// Where a profile's mod will come from, as shown before a switch:
/// Thunderstore with its version; Nexus with its id and version, noting a
/// local stash; a local mod from its stash, else the Thunderstore package
/// it resolves to.
pub open spec fn install_source_spec(pm: ProfileMod, stash_present: bool, catalog: Seq<RemotePackage>) -> Seq<char> {
    match pm.origin {
        ModOrigin::Thunderstore { version, .. } => "thunderstore v"@ + version@,
        ModOrigin::Nexus { mod_id, version, .. } => "nexus #"@ + decimal(mod_id as nat) + " v"@ + version@ + if stash_present {
            " (local stash)"@
        } else {
            Seq::empty()
        },
        ModOrigin::Local { .. } => if stash_present {
            "local stash"@
        } else {
            match thunderstore_ref_spec(pm, catalog) {
                Some((f, v, _)) => "thunderstore download "@ + f + " v"@ + v,
                None => "local stash (missing \u{2014} no thunderstore match)"@,
            }
        },
    }
}

/// Where a profile's mod will come from, as shown before a switch.
/// `stash_present` tells whether its local stash exists.
pub fn install_source_label(profile_mod: &ProfileMod, stash_present: bool, catalog: &[RemotePackage]) -> (r: String)
    ensures
        r@ == install_source_spec(*profile_mod, stash_present, catalog@),
{
    let mut r = String::new();
    match &profile_mod.origin {
        ModOrigin::Thunderstore { version, .. } => {
            append_str(&mut r, "thunderstore v");
            append_str(&mut r, version.as_str());
        },
        ModOrigin::Nexus { mod_id, version, .. } => {
            append_str(&mut r, "nexus #");
            append_str(&mut r, decimal_string(*mod_id).as_str());
            append_str(&mut r, " v");
            append_str(&mut r, version.as_str());
            if stash_present {
                append_str(&mut r, " (local stash)");
            }
        },
        ModOrigin::Local { .. } => {
            if stash_present {
                append_str(&mut r, "local stash");
            } else {
                match thunderstore_ref_from_profile_mod(profile_mod, catalog) {
                    Some((f, v, _)) => {
                        append_str(&mut r, "thunderstore download ");
                        append_str(&mut r, f.as_str());
                        append_str(&mut r, " v");
                        append_str(&mut r, v.as_str());
                    },
                    None => {
                        append_str(&mut r, "local stash (missing \u{2014} no thunderstore match)");
                    },
                }
            }
        },
    }
    r
}

/// The line shown for one action of a diff; `None` for an install or
/// version change of a mod the profile does not list.
pub open spec fn planned_line(
    a: DiffAction,
    target: Seq<ProfileMod>,
    stashes: Seq<Seq<char>>,
    catalog: Seq<RemotePackage>,
) -> Option<Seq<char>> {
    match a {
        DiffAction::Install { entry_name, display_name, .. } => match mod_index(target, entry_name@, 0) {
            Some(i) => Some(
                "install "@ + display_name@ + " ("@ + install_source_spec(target[i], stashed(stashes, entry_name@), catalog)
                    + ")"@,
            ),
            None => None,
        },
        DiffAction::ReplaceVersion { entry_name, display_name, from_version, to_version } => match mod_index(
            target,
            entry_name@,
            0,
        ) {
            Some(i) => Some(
                "replace "@ + display_name@ + " "@ + from_version@ + " \u{2192} "@ + to_version@ + " ("@
                    + install_source_spec(target[i], stashed(stashes, entry_name@), catalog) + ")"@,
            ),
            None => None,
        },
        DiffAction::Remove { display_name, .. } => Some("remove "@ + display_name@),
        DiffAction::Enable { display_name, .. } => Some("enable "@ + display_name@),
        DiffAction::Disable { display_name, .. } => Some("disable "@ + display_name@),
    }
}

/// The lines shown for a diff's actions, in order.
pub open spec fn planned_lines(
    actions: Seq<DiffAction>,
    target: Seq<ProfileMod>,
    stashes: Seq<Seq<char>>,
    catalog: Seq<RemotePackage>,
) -> Seq<Seq<char>>
    decreases actions.len(),
{
    if actions.len() == 0 {
        Seq::empty()
    } else {
        let prev = planned_lines(actions.drop_last(), target, stashes, catalog);
        match planned_line(actions.last(), target, stashes, catalog) {
            Some(l) => prev.push(l),
            None => prev,
        }
    }
}

/// What a switch will do, one line per action, shown before it runs.
/// `stashes` lists the entry names whose local stash exists.
pub fn describe_planned_actions(diff: &ProfileDiff, target: &Profile, stashes: &Vec<String>, catalog: &[RemotePackage]) -> (r: Vec<String>)
    ensures
        r.deep_view() == planned_lines(diff.actions@, target.mods@, stashes.deep_view(), catalog@),
{
    let actions = &diff.actions;
    let mut lines: Vec<String> = Vec::new();
    let mut i: usize = 0;
    while i < actions.len()
        invariant
            i <= actions.len(),
            lines.deep_view() == planned_lines(actions@.take(i as int), target.mods@, stashes.deep_view(), catalog@),
        decreases actions.len() - i,
    {
        proof {
            assert(actions@.take(i as int + 1).drop_last() =~= actions@.take(i as int));
            assert(actions@.take(i as int + 1).last() == actions@[i as int]);
        }
        let ghost prev = lines.deep_view();
        let line: Option<String> = match &actions[i] {
            DiffAction::Install { entry_name, display_name, .. } => match find_mod(target, entry_name) {
                Some(m) => {
                    let mut l = String::new();
                    append_str(&mut l, "install ");
                    append_str(&mut l, display_name.as_str());
                    append_str(&mut l, " (");
                    let present = listed(stashes, entry_name);
                    append_str(&mut l, install_source_label(&target.mods[m], present, catalog).as_str());
                    append_str(&mut l, ")");
                    Some(l)
                },
                None => None,
            },
            DiffAction::ReplaceVersion { entry_name, display_name, from_version, to_version } => match find_mod(
                target,
                entry_name,
            ) {
                Some(m) => {
                    let mut l = String::new();
                    append_str(&mut l, "replace ");
                    append_str(&mut l, display_name.as_str());
                    append_str(&mut l, " ");
                    append_str(&mut l, from_version.as_str());
                    append_str(&mut l, " \u{2192} ");
                    append_str(&mut l, to_version.as_str());
                    append_str(&mut l, " (");
                    let present = listed(stashes, entry_name);
                    append_str(&mut l, install_source_label(&target.mods[m], present, catalog).as_str());
                    append_str(&mut l, ")");
                    Some(l)
                },
                None => None,
            },
            DiffAction::Remove { display_name, .. } => Some(concat_str("remove ", display_name.as_str())),
            DiffAction::Enable { display_name, .. } => Some(concat_str("enable ", display_name.as_str())),
            DiffAction::Disable { display_name, .. } => Some(concat_str("disable ", display_name.as_str())),
        };
        match line {
            Some(l) => {
                lines.push(l);
                assert(lines.deep_view() =~= prev.push(planned_line(actions@[i as int], target.mods@, stashes.deep_view(), catalog@)->0));
            },
            None => {},
        }
        i += 1;
    }
    assert(actions@.take(i as int) =~= actions@);
    lines
}

// ---------------------------------------------------------------------------
// Bringing the installed mods in line with a profile
// ---------------------------------------------------------------------------

/// Some mod of the profile is this installed mod.
pub open spec fn wanted(target: Seq<ProfileMod>, m: InstalledMod) -> bool {
    exists|j: int| 0 <= j < target.len() && matches_installed(#[trigger] target[j], m)
}

/// Indices, in order, of the installed mods among the first `n` that no
/// mod of the profile is.
pub open spec fn unwanted_upto(target: Seq<ProfileMod>, current: Seq<InstalledMod>, n: int) -> Seq<usize>
    decreases n,
{
    if n <= 0 {
        Seq::empty()
    } else {
        let prev = unwanted_upto(target, current, n - 1);
        if !wanted(target, current[n - 1]) {
            prev.push((n - 1) as usize)
        } else {
            prev
        }
    }
}

/// Is the installed mod one of the profile's?
fn is_wanted(target: &Profile, m: &InstalledMod) -> (r: bool)
    ensures
        r == wanted(target.mods@, *m),
{
    let mut j: usize = 0;
    while j < target.mods.len()
        invariant
            j <= target.mods.len(),
            forall|k: int| 0 <= k < j ==> !matches_installed(#[trigger] target.mods@[k], *m),
        decreases target.mods.len() - j,
    {
        if profile_mod_matches_installed(&target.mods[j], m) {
            return true;
        }
        j += 1;
    }
    false
}

/// The installed mods, by index, that the profile does not list and that a
/// switch removes.
pub fn mods_to_remove(target: &Profile, current: &Vec<InstalledMod>) -> (r: Vec<usize>)
    ensures
        r@ == unwanted_upto(target.mods@, current@, current.len() as int),
{
    let mut r: Vec<usize> = Vec::new();
    let mut k: usize = 0;
    while k < current.len()
        invariant
            k <= current.len(),
            r@ == unwanted_upto(target.mods@, current@, k as int),
        decreases current.len() - k,
    {
        if !is_wanted(target, &current[k]) {
            r.push(k);
        }
        k += 1;
    }
    r
}

/// Indices, in order, of the profile's first `n` mods that no installed
/// mod is.
pub open spec fn missing_upto(target: Seq<ProfileMod>, installed: Seq<InstalledMod>, n: int) -> Seq<usize>
    decreases n,
{
    if n <= 0 {
        Seq::empty()
    } else {
        let prev = missing_upto(target, installed, n - 1);
        if installed_index(target[n - 1], installed, 0) is None {
            prev.push((n - 1) as usize)
        } else {
            prev
        }
    }
}

/// The profile's mods, by index, that no installed mod is and that a
/// switch installs.
pub fn mods_to_install(target: &Profile, installed: &Vec<InstalledMod>) -> (r: Vec<usize>)
    ensures
        r@ == missing_upto(target.mods@, installed@, target.mods.len() as int),
{
    let mut r: Vec<usize> = Vec::new();
    let mut j: usize = 0;
    while j < target.mods.len()
        invariant
            j <= target.mods.len(),
            r@ == missing_upto(target.mods@, installed@, j as int),
        decreases target.mods.len() - j,
    {
        if installed_index_exec(&target.mods[j], installed.as_slice()).is_none() {
            r.push(j);
        }
        j += 1;
    }
    r
}

/// For the profile's first `n` mods that are installed with the wrong
/// state, in order: the installed mod's index and whether to enable it.
pub open spec fn toggles_upto(target: Seq<ProfileMod>, installed: Seq<InstalledMod>, n: int) -> Seq<(usize, bool)>
    decreases n,
{
    if n <= 0 {
        Seq::empty()
    } else {
        let prev = toggles_upto(target, installed, n - 1);
        match installed_index(target[n - 1], installed, 0) {
            Some(i) => if installed[i].enabled != target[n - 1].enabled {
                prev.push((i as usize, target[n - 1].enabled))
            } else {
                prev
            },
            None => prev,
        }
    }
}

/// The installed mods whose enabled state differs from the profile's, with
/// the state each must get.
pub fn mods_to_toggle(target: &Profile, installed: &Vec<InstalledMod>) -> (r: Vec<(usize, bool)>)
    ensures
        r@ == toggles_upto(target.mods@, installed@, target.mods.len() as int),
{
    let mut r: Vec<(usize, bool)> = Vec::new();
    let mut j: usize = 0;
    while j < target.mods.len()
        invariant
            j <= target.mods.len(),
            r@ == toggles_upto(target.mods@, installed@, j as int),
        decreases target.mods.len() - j,
    {
        match installed_index_exec(&target.mods[j], installed.as_slice()) {
            Some(i) => {
                if installed[i].enabled != target.mods[j].enabled {
                    r.push((i, target.mods[j].enabled));
                }
            },
            None => {},
        }
        j += 1;
    }
    r
}

/// The folder a restored local mod goes to: the plugins folder when it is
/// enabled, else the folder of disabled mods.
pub fn restore_parent(install_folder: &str, enabled: bool) -> (r: String)
    ensures
        r@ == join_path(
            install_folder@,
            if enabled {
                "BepInEx/plugins"@
            } else {
                "BepInEx/plugins_disabled"@
            },
        ),
{
    if enabled {
        crate::mods::inventory::plugins_folder(install_folder)
    } else {
        crate::mods::inventory::disabled_folder(install_folder)
    }
}

/// What restoring a local mod comes to once its stash was tried: `None`
/// when the files were restored. When the stash is missing, the package to
/// download in its place: the fallback the plan carries, else the one the
/// catalog gives for the mod, else the error that its local files are
/// missing. Any other error of the store is passed on.
pub fn after_local_restore(
    restored: Result<String, StoreError>,
    profile_mod: &ProfileMod,
    planned: Option<ThunderstoreFallback>,
    catalog: &[RemotePackage],
) -> (r: Result<Option<ThunderstoreFallback>, SwitchError>)
    ensures
        match restored {
            Ok(_) => r matches Ok(None),
            Err(StoreError::Missing(_)) => match planned {
                Some(p) => r == Ok::<Option<ThunderstoreFallback>, SwitchError>(Some(p)),
                None => match thunderstore_ref_spec(*profile_mod, catalog@) {
                    Some((f, v, u)) => (r matches Ok(Some(p)) && p.full_name@ == f && p.version@ == v
                        && p.download_url@ == u),
                    None => (r matches Err(SwitchError::MissingLocal { entry_name })
                        && entry_name@ == profile_mod.entry_name@),
                },
            },
            Err(e) => (r matches Err(SwitchError::Store(m)) && m@ == store_error_text(e)),
        },
{
    match restored {
        Ok(_) => Ok(None),
        Err(StoreError::Missing(what)) => match planned {
            Some(p) => Ok(Some(p)),
            None => match thunderstore_ref_from_profile_mod(profile_mod, catalog) {
                Some((full_name, version, download_url)) => Ok(
                    Some(ThunderstoreFallback { full_name, version, download_url }),
                ),
                None => Err(SwitchError::MissingLocal { entry_name: profile_mod.entry_name.clone() }),
            },
        },
        Err(e) => Err(SwitchError::Store(e.message())),
    }
}

/// The entries a version change removes before installing: the entry, and
/// the package's full name when that differs.
pub fn replaced_entries(entry_name: &str, full_name: &str) -> (r: Vec<String>)
    ensures
        entry_name@ == full_name@ ==> r.deep_view() == seq![entry_name@],
        entry_name@ != full_name@ ==> r.deep_view() == seq![entry_name@, full_name@],
{
    let mut r: Vec<String> = Vec::new();
    r.push(entry_name.to_owned());
    if !crate::text::str_eq(entry_name, full_name) {
        r.push(full_name.to_owned());
    }
    assert(r.deep_view() =~= if entry_name@ == full_name@ {
        seq![entry_name@]
    } else {
        seq![entry_name@, full_name@]
    });
    r
}
} // verus!
