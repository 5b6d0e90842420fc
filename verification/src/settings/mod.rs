//! The settings side of the manager: BepInEx and its launch wiring.
pub mod bepinex;
pub mod preferences;

use vstd::prelude::*;

use crate::detection::SilksongInstall;
use crate::nexus::settings::NexusSettings;
use crate::text::{append_str, concat_str};
use bepinex::launch::{InjectionState, LaunchOptionsOutcome, LaunchScriptAction};
use bepinex::status::BepinexStatus;

verus! {

/// State of the settings panel that outlives a frame.
pub struct SettingsPanel {
    pub install: Option<SilksongInstall>,
    pub bepinex_status: Option<BepinexStatus>,
    pub injection_state: Option<InjectionState>,
    pub injection_alert: Option<String>,
    pub status_message: Option<String>,
    pub bepinex_log: Option<String>,
    pub dry_run: bool,
    pub busy_message: Option<String>,
    pub nexus: NexusSettings,
}

/// The alert the panel shows for an injection state, if any.
pub open spec fn injection_alert_spec(state: Option<InjectionState>) -> Option<Seq<char>> {
    match state {
        Some(InjectionState::NotConfigured { required_launch_options, reason, .. }) => Some(
            "injection NOT configured \u{2014} "@ + reason@ + ". click configure injection (or paste):\n"@ + required_launch_options@,
        ),
        Some(InjectionState::ConfiguredAwaitingLaunch { steam_restart_recommended, launch_options, .. }) => if steam_restart_recommended {
            Some("launch options written, but restart steam once so they stick:\n"@ + launch_options@)
        } else {
            None
        },
        _ => None,
    }
}

/// The alert for an injection state.
pub fn injection_alert_from_state(state: Option<&InjectionState>) -> (r: Option<String>)
    ensures
        match injection_alert_spec(match state { Some(s) => Some(*s), None => None }) {
            Some(a) => r matches Some(m) && m@ == a,
            None => r is None,
        },
{
    match state {
        Some(InjectionState::NotConfigured { required_launch_options, reason, .. }) => {
            let mut m = concat_str("injection NOT configured \u{2014} ", reason.as_str());
            append_str(&mut m, ". click configure injection (or paste):\n");
            append_str(&mut m, required_launch_options.as_str());
            Some(m)
        },
        Some(InjectionState::ConfiguredAwaitingLaunch { steam_restart_recommended, launch_options, .. }) => {
            if *steam_restart_recommended {
                Some(concat_str("launch options written, but restart steam once so they stick:\n", launch_options.as_str()))
            } else {
                None
            }
        },
        _ => None,
    }
}

impl Default for SettingsPanel {
    /// No install chosen and no messages.
    fn default() -> (r: Self)
        ensures
            r.install is None,
            r.status_message is None,
            r.busy_message is None,
            !r.dry_run,
    {
        SettingsPanel {
            install: None,
            bepinex_status: None,
            injection_state: None,
            injection_alert: None,
            status_message: None,
            bepinex_log: None,
            dry_run: false,
            busy_message: None,
            nexus: NexusSettings::default(),
        }
    }
}

impl SettingsPanel {
    /// The chosen install, if any.
    pub fn install(&self) -> (r: Option<&SilksongInstall>)
        ensures
            match self.install {
                Some(i) => r matches Some(x) && *x == i,
                None => r is None,
            },
    {
        match &self.install {
            Some(i) => Some(i),
            None => None,
        }
    }

    /// The status message, if any.
    pub fn status_message(&self) -> (r: Option<&str>)
        ensures
            match self.status_message {
                Some(m) => r matches Some(x) && x@ == m@,
                None => r is None,
            },
    {
        match &self.status_message {
            Some(m) => Some(m.as_str()),
            None => None,
        }
    }

    /// The message shown while work runs, if any.
    pub fn busy_message(&self) -> (r: Option<&str>)
        ensures
            match self.busy_message {
                Some(m) => r matches Some(x) && x@ == m@,
                None => r is None,
            },
    {
        match &self.busy_message {
            Some(m) => Some(m.as_str()),
            None => None,
        }
    }

    /// Sets the status message.
    pub fn set_status_message(&mut self, message: String)
        ensures
            final(self).status_message == Some(message),
            final(self).install == old(self).install,
    {
        self.status_message = Some(message);
    }

    /// Sets or clears the busy message.
    pub fn set_busy_message(&mut self, message: Option<String>)
        ensures
            final(self).busy_message == message,
            final(self).install == old(self).install,
    {
        self.busy_message = message;
    }

    /// Takes a newly found install with its inspected BepInEx status and
    /// injection state, clearing the log and status message.
    pub fn accept_install_quiet(&mut self, install: SilksongInstall, status: BepinexStatus, injection: InjectionState)
        ensures
            final(self).install == Some(install),
            final(self).bepinex_status == Some(status),
            final(self).injection_state == Some(injection),
            match injection_alert_spec(Some(injection)) {
                Some(a) => final(self).injection_alert matches Some(m) && m@ == a,
                None => final(self).injection_alert is None,
            },
            final(self).bepinex_log is None,
            final(self).status_message is None,
    {
        self.injection_alert = injection_alert_from_state(Some(&injection));
        self.bepinex_status = Some(status);
        self.injection_state = Some(injection);
        self.install = Some(install);
        self.bepinex_log = None;
        self.status_message = None;
    }

    /// Takes a fresh inspection of the chosen install; without an install
    /// nothing changes.
    pub fn refresh_bepinex_status(&mut self, status: BepinexStatus, injection: InjectionState)
        ensures
            old(self).install is None ==> final(self).bepinex_status == old(self).bepinex_status && final(self).injection_state == old(self).injection_state,
            old(self).install is Some ==> final(self).bepinex_status == Some(status) && final(self).injection_state == Some(injection),
            final(self).install == old(self).install,
    {
        if self.install.is_none() {
            return;
        }
        self.injection_alert = injection_alert_from_state(Some(&injection));
        self.bepinex_status = Some(status);
        self.injection_state = Some(injection);
    }

    /// The Nexus Mods settings.
    pub fn nexus(&self) -> (r: &NexusSettings)
        ensures
            *r == self.nexus,
    {
        &self.nexus
    }

    /// The Nexus Mods settings, to change them.
    pub fn nexus_mut(&mut self) -> (r: &mut NexusSettings)
        ensures
            *r == old(self).nexus,
            final(self).nexus == *final(r),
            final(self).install == old(self).install,
    {
        &mut self.nexus
    }
}

/// How the settings panel names what was done to the launch script.
pub open spec fn script_summary_spec(a: LaunchScriptAction) -> Seq<char> {
    match a {
        LaunchScriptAction::Created { path } => "created "@ + path@,
        LaunchScriptAction::AlreadyPresent { path } => "kept editable "@ + path@,
        LaunchScriptAction::Reset { path } => "reset "@ + path@,
    }
}

/// Names what was done to the launch script.
pub fn script_summary(script: &LaunchScriptAction) -> (r: String)
    ensures
        r@ == script_summary_spec(*script),
{
    match script {
        LaunchScriptAction::Created { path } => concat_str("created ", path.as_str()),
        LaunchScriptAction::AlreadyPresent { path } => concat_str("kept editable ", path.as_str()),
        LaunchScriptAction::Reset { path } => concat_str("reset ", path.as_str()),
    }
}

/// What the settings panel reports after configuring injection.
pub open spec fn configure_outcome_spec(o: LaunchOptionsOutcome) -> Seq<char> {
    match o {
        LaunchOptionsOutcome::AlreadyConfigured { launch_options, script } => "injection already configured ("@
            + launch_options@ + "); script "@ + script_summary_spec(script),
        LaunchOptionsOutcome::Updated { localconfig_path, launch_options, script, steam_restart_recommended } =>
            "wrote steam launch options to "@ + localconfig_path@ + " ("@ + launch_options@ + "); script "@
            + script_summary_spec(script) + if steam_restart_recommended {
            "\nfully restart steam once so the options stick"@
        } else {
            Seq::empty()
        },
        LaunchOptionsOutcome::ManualPasteRequired { reason, launch_options, script } => "script "@
            + script_summary_spec(script) + " ready, but steam launch options NOT set \u{2014} "@ + reason@
            + ". paste:\n"@ + launch_options@,
        LaunchOptionsOutcome::DryRun { launch_options } => "would create smm_launch.sh and set steam launch options:\n"@
            + launch_options@,
    }
}

/// Reports what configuring injection did.
pub fn describe_configure_outcome(outcome: &LaunchOptionsOutcome) -> (r: String)
    ensures
        r@ == configure_outcome_spec(*outcome),
{
    let mut r = String::new();
    match outcome {
        LaunchOptionsOutcome::AlreadyConfigured { launch_options, script } => {
            append_str(&mut r, "injection already configured (");
            append_str(&mut r, launch_options.as_str());
            append_str(&mut r, "); script ");
            append_str(&mut r, script_summary(script).as_str());
        },
        LaunchOptionsOutcome::Updated { localconfig_path, launch_options, script, steam_restart_recommended } => {
            append_str(&mut r, "wrote steam launch options to ");
            append_str(&mut r, localconfig_path.as_str());
            append_str(&mut r, " (");
            append_str(&mut r, launch_options.as_str());
            append_str(&mut r, "); script ");
            append_str(&mut r, script_summary(script).as_str());
            if *steam_restart_recommended {
                append_str(&mut r, "\nfully restart steam once so the options stick");
            }
        },
        LaunchOptionsOutcome::ManualPasteRequired { reason, launch_options, script } => {
            append_str(&mut r, "script ");
            append_str(&mut r, script_summary(script).as_str());
            append_str(&mut r, " ready, but steam launch options NOT set \u{2014} ");
            append_str(&mut r, reason.as_str());
            append_str(&mut r, ". paste:\n");
            append_str(&mut r, launch_options.as_str());
        },
        LaunchOptionsOutcome::DryRun { launch_options } => {
            append_str(&mut r, "would create smm_launch.sh and set steam launch options:\n");
            append_str(&mut r, launch_options.as_str());
        },
    }
    r
}

/// A known version, or `unknown`.
pub open spec fn or_unknown(v: Option<String>) -> Seq<char> {
    match v {
        Some(s) => s@,
        None => "unknown"@,
    }
}

/// The versions line the settings panel shows under the pack status; none
/// when nothing is installed.
pub open spec fn status_versions_spec(s: BepinexStatus) -> Option<Seq<char>> {
    match s {
        BepinexStatus::NeedsUpdate { pack_version, bepinex_version, recommended_pack_version } => Some(
            "installed pack "@ + or_unknown(pack_version) + ", bepinex "@ + or_unknown(bepinex_version)
                + ", recommended pack "@ + recommended_pack_version@,
        ),
        BepinexStatus::InstalledCurrent { pack_version, bepinex_version } => Some(
            "pack "@ + or_unknown(pack_version) + ", bepinex "@ + or_unknown(bepinex_version),
        ),
        BepinexStatus::NotInstalled => None,
    }
}

/// Appends a known version, or `unknown`.
fn append_version(r: &mut String, v: &Option<String>)
    ensures
        final(r)@ == old(r)@ + or_unknown(*v),
{
    match v {
        Some(s) => append_str(r, s.as_str()),
        None => append_str(r, "unknown"),
    }
}

/// The versions line shown under the pack status.
pub fn status_versions(status: &BepinexStatus) -> (r: Option<String>)
    ensures
        match status_versions_spec(*status) {
            Some(t) => r matches Some(s) && s@ == t,
            None => r is None,
        },
{
    match status {
        BepinexStatus::NeedsUpdate { pack_version, bepinex_version, recommended_pack_version } => {
            let mut r = String::new();
            append_str(&mut r, "installed pack ");
            append_version(&mut r, pack_version);
            append_str(&mut r, ", bepinex ");
            append_version(&mut r, bepinex_version);
            append_str(&mut r, ", recommended pack ");
            append_str(&mut r, recommended_pack_version.as_str());
            Some(r)
        },
        BepinexStatus::InstalledCurrent { pack_version, bepinex_version } => {
            let mut r = String::new();
            append_str(&mut r, "pack ");
            append_version(&mut r, pack_version);
            append_str(&mut r, ", bepinex ");
            append_version(&mut r, bepinex_version);
            Some(r)
        },
        BepinexStatus::NotInstalled => None,
    }
}

/// The install button's label for a pack status, and whether pressing it
/// asks for confirmation first: it does when something is installed and
/// this is not a dry run.
pub fn install_button(status: &BepinexStatus, dry_run: bool) -> (r: (&'static str, bool))
    ensures
        r.0@ == match *status {
            BepinexStatus::NotInstalled => "install bepinex"@,
            BepinexStatus::NeedsUpdate { .. } => "update bepinex"@,
            BepinexStatus::InstalledCurrent { .. } => "reinstall bepinex"@,
        },
        r.1 == (!(*status is NotInstalled) && !dry_run),
{
    let label = match status {
        BepinexStatus::NotInstalled => "install bepinex",
        BepinexStatus::NeedsUpdate { .. } => "update bepinex",
        BepinexStatus::InstalledCurrent { .. } => "reinstall bepinex",
    };
    let needs_confirm = match status {
        BepinexStatus::NotInstalled => false,
        _ => !dry_run,
    };
    (label, needs_confirm)
}
} // verus!
