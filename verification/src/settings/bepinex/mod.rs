//! Installing BepInEx into the game folder and wiring Steam to start the
//! game through it.
pub mod install;
pub mod launch;
pub mod pack;
pub mod roundtrip;
pub mod status;

use vstd::prelude::*;

use crate::detection::SilksongInstall;
use crate::text::{append_str, concat_str};
use install::{InstallEvent, InstallPlan, InstallSummary};
use launch::{action_path, LaunchOptionsOutcome, LaunchOptionsPlan, LaunchScriptAction};
use status::{BepinexPresence, BepinexStatus};

verus! {

/// The BepInEx status of an install, from what was found in its folder.
pub fn recommended_status_for(install: &SilksongInstall, presence: BepinexPresence) -> (r: BepinexStatus)
    ensures
        !presence.looks_installed_spec() ==> r is NotInstalled,
        presence.looks_installed_spec() && presence.is_current_spec() ==> r is InstalledCurrent,
        presence.looks_installed_spec() && !presence.is_current_spec() ==> r is NeedsUpdate,
{
    presence.into_status()
}

/// A short description of a status.
pub fn status_label(status: &BepinexStatus) -> (r: &'static str)
    ensures
        r@ == match *status {
            BepinexStatus::NotInstalled => "not installed"@,
            BepinexStatus::InstalledCurrent { .. } => "installed and current"@,
            BepinexStatus::NeedsUpdate { .. } => "needs update"@,
        },
{
    match status {
        BepinexStatus::NotInstalled => "not installed",
        BepinexStatus::InstalledCurrent { .. } => "installed and current",
        BepinexStatus::NeedsUpdate { .. } => "needs update",
    }
}

/// The launch options to show the user.
pub fn build_kind_launch_hint() -> (r: &'static str)
    ensures
        r@ == pack::steam_launch_options(),
{
    "./smm_launch.sh %command%"
}

/// The message shown after the launch script was reset.
pub fn reset_message(action: &LaunchScriptAction) -> (r: String)
    ensures
        r@ == "reset editable launch script at "@ + action_path(*action) + "\nsteam should use: ./smm_launch.sh %command%"@,
{
    let mut r = concat_str("reset editable launch script at ", launch::script_path(action).as_str());
    append_str(&mut r, "\nsteam should use: ./smm_launch.sh %command%");
    r
}

/// The summary of a dry run: the plan's events, and the launch options that
/// would be set.
pub fn dry_run_summary(plan: &InstallPlan, launch_plan: &LaunchOptionsPlan) -> (r: InstallSummary)
    ensures
        r.dry_run,
        r.events@ == plan.events@,
        r.launch matches LaunchOptionsOutcome::DryRun { launch_options } && launch_options@ == launch_plan.required_launch_options@,
        r.backup_root@ == plan.backup_root@,
{
    InstallSummary {
        dry_run: true,
        events: copy_events(&plan.events),
        launch: LaunchOptionsOutcome::DryRun { launch_options: launch_plan.required_launch_options.clone() },
        backup_root: plan.backup_root.clone(),
    }
}

/// The summary of an applied install.
pub fn applied_summary(plan: &InstallPlan, events: Vec<InstallEvent>, launch: LaunchOptionsOutcome) -> (r: InstallSummary)
    ensures
        !r.dry_run,
        r.events@ == events@,
        r.launch == launch,
        r.backup_root@ == plan.backup_root@,
{
    InstallSummary { dry_run: false, events, launch, backup_root: plan.backup_root.clone() }
}

/// A copy of an event.
fn copy_event(e: &InstallEvent) -> (r: InstallEvent)
    ensures
        r == *e,
{
    match e {
        InstallEvent::WouldCreateDirectory { path } => InstallEvent::WouldCreateDirectory { path: path.clone() },
        InstallEvent::WouldWriteFile { path, bytes } => InstallEvent::WouldWriteFile { path: path.clone(), bytes: *bytes },
        InstallEvent::WouldBackupFile { from, to } => InstallEvent::WouldBackupFile { from: from.clone(), to: to.clone() },
        InstallEvent::WouldSetExecutable { path } => InstallEvent::WouldSetExecutable { path: path.clone() },
        InstallEvent::WouldWritePackVersion { path, version } => InstallEvent::WouldWritePackVersion { path: path.clone(), version: version.clone() },
        InstallEvent::CreatedDirectory { path } => InstallEvent::CreatedDirectory { path: path.clone() },
        InstallEvent::WroteFile { path, bytes } => InstallEvent::WroteFile { path: path.clone(), bytes: *bytes },
        InstallEvent::BackedUpFile { from, to } => InstallEvent::BackedUpFile { from: from.clone(), to: to.clone() },
        InstallEvent::SetExecutable { path } => InstallEvent::SetExecutable { path: path.clone() },
        InstallEvent::WrotePackVersion { path, version } => InstallEvent::WrotePackVersion { path: path.clone(), version: version.clone() },
    }
}

/// A copy of a list of events.
fn copy_events(events: &Vec<InstallEvent>) -> (r: Vec<InstallEvent>)
    ensures
        r@ == events@,
{
    let mut out: Vec<InstallEvent> = Vec::new();
    let mut i: usize = 0;
    while i < events.len()
        invariant
            i <= events.len(),
            out@ == events@.take(i as int),
        decreases events.len() - i,
    {
        out.push(copy_event(&events[i]));
        i += 1;
        assert(out@ =~= events@.take(i as int));
    }
    assert(events@.take(i as int) =~= events@);
    out
}

} // verus!

