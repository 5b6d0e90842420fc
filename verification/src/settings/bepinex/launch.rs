//! Steam launch options for a modded start, the launch script, and the
//! `localconfig.vdf` entries Steam keeps them in.
use vstd::prelude::*;

use super::pack::{smm_launch_script, steam_launch_options};
use crate::detection::{BuildKind, SilksongInstall};
use crate::platform::HostOs;
use crate::paths::{join_path, path_join};
use crate::text::{
    chars_eq, chars_of, contains, contains_exec, decimal, decimal_string, join_strings, join_with,
    lead_index, lead_ws, lines, lines_of, push_char, replace_all, replace_chars, slice_chars,
    starts_with, starts_with_exec, string_of, trim, trim_chars, trim_matches, trim_matches_exec,
    trim_start, trim_start_chars, append_chars, append_str, concat_str,
};

verus! {

// ---------------------------------------------------------------------------
// Launch options and the launch script
// ---------------------------------------------------------------------------

/// The launch options the manager asks Steam to use.
#[derive(Debug, Clone, PartialEq, Eq)]
pub struct LaunchOptionsPlan {
    pub required_launch_options: String,
}

impl LaunchOptionsPlan {
    /// The plan for an install on the given operating system.
    pub fn for_install(install: &SilksongInstall, os: HostOs) -> (r: Self)
        ensures
            r.required_launch_options@ == required_options_spec(install.install_folder@, os),
    {
        LaunchOptionsPlan { required_launch_options: required_launch_options(install, os) }
    }
}

/// The launch options the manager needs: on macOS the launch script's full
/// path in quotes, then `%command%`; elsewhere `./smm_launch.sh %command%`.
pub open spec fn required_options_spec(install_folder: Seq<char>, os: HostOs) -> Seq<char> {
    match os {
        HostOs::MacOs => "\""@ + join_path(install_folder, smm_launch_script()) + "\" %command%"@,
        HostOs::Linux => steam_launch_options(),
    }
}

/// The launch options the manager needs: start through the launch script.
pub fn required_launch_options(install: &SilksongInstall, os: HostOs) -> (r: String)
    ensures
        r@ == required_options_spec(install.install_folder@, os),
{
    match os {
        HostOs::MacOs => {
            let script = launch_script_path(install.install_folder.as_str());
            let head = concat_str("\"", script.as_str());
            let r = concat_str(head.as_str(), "\" %command%");
            proof {
                reveal_strlit("\"");
                reveal_strlit("\" %command%");
            }
            r
        },
        HostOs::Linux => "./smm_launch.sh %command%".to_owned(),
    }
}

/// What was done to the launch script.
#[derive(Debug, Clone, PartialEq, Eq)]
pub enum LaunchScriptAction {
    Created { path: String },
    AlreadyPresent { path: String },
    Reset { path: String },
}

/// The script's path, whatever was done to it.
pub open spec fn action_path(a: LaunchScriptAction) -> Seq<char> {
    match a {
        LaunchScriptAction::Created { path } => path@,
        LaunchScriptAction::AlreadyPresent { path } => path@,
        LaunchScriptAction::Reset { path } => path@,
    }
}

/// The path of the launch script an action speaks of.
pub fn script_path(action: &LaunchScriptAction) -> (r: String)
    ensures
        r@ == action_path(*action),
{
    match action {
        LaunchScriptAction::Created { path } => path.clone(),
        LaunchScriptAction::AlreadyPresent { path } => path.clone(),
        LaunchScriptAction::Reset { path } => path.clone(),
    }
}

/// How setting the launch options went.
#[derive(Debug, Clone, PartialEq, Eq)]
pub enum LaunchOptionsOutcome {
    AlreadyConfigured { launch_options: String, script: LaunchScriptAction },
    Updated {
        localconfig_path: String,
        launch_options: String,
        script: LaunchScriptAction,
        steam_restart_recommended: bool,
    },
    ManualPasteRequired { reason: String, launch_options: String, script: LaunchScriptAction },
    DryRun { launch_options: String },
}

/// The outcome when Steam needs no change: the existing launch options
/// already start the game with BepInEx for this build and the launch
/// script is in place. `None` when the options have to be written.
pub fn already_configured(
    existing: Option<String>,
    build_kind: BuildKind,
    script_present: bool,
    script: LaunchScriptAction,
) -> (r: Option<LaunchOptionsOutcome>)
    ensures
        r is Some <==> script_present && (existing matches Some(e) && launch_options_satisfy_spec(
            e@,
            build_kind,
        )),
        r is Some ==> r == Some(
            LaunchOptionsOutcome::AlreadyConfigured { launch_options: existing->0, script },
        ),
{
    match existing {
        Some(e) => {
            if launch_options_satisfy(e.as_str(), build_kind) && script_present {
                Some(LaunchOptionsOutcome::AlreadyConfigured { launch_options: e, script })
            } else {
                None
            }
        },
        None => None,
    }
}

/// The reason given when `localconfig.vdf` could not be written.
pub open spec fn write_failure_reason(error: Seq<char>) -> Seq<char> {
    "could not update steam localconfig.vdf ("@ + error + ")"@
}

/// The outcome once the required launch options were written to Steam's
/// `localconfig.vdf` (`Ok` with its path) or could not be (`Err` with the
/// error's text): written, with a restart of Steam recommended when it was
/// running, or left for the user to paste.
pub fn outcome_after_write(
    write: Result<String, String>,
    required: &str,
    script: LaunchScriptAction,
    steam_was_running: bool,
) -> (r: LaunchOptionsOutcome)
    ensures
        match write {
            Ok(path) => (r matches LaunchOptionsOutcome::Updated {
                localconfig_path,
                launch_options,
                script: s,
                steam_restart_recommended,
            } && localconfig_path@ == path@ && launch_options@ == required@ && s == script
                && steam_restart_recommended == steam_was_running),
            Err(e) => (r matches LaunchOptionsOutcome::ManualPasteRequired {
                reason,
                launch_options,
                script: s,
            } && reason@ == write_failure_reason(e@) && launch_options@ == required@ && s == script),
        },
{
    match write {
        Ok(localconfig_path) => LaunchOptionsOutcome::Updated {
            localconfig_path,
            launch_options: required.to_owned(),
            script,
            steam_restart_recommended: steam_was_running,
        },
        Err(error) => {
            let head = concat_str("could not update steam localconfig.vdf (", error.as_str());
            let reason = concat_str(head.as_str(), ")");
            proof {
                reveal_strlit("could not update steam localconfig.vdf (");
                reveal_strlit(")");
            }
            LaunchOptionsOutcome::ManualPasteRequired {
                reason,
                launch_options: required.to_owned(),
                script,
            }
        },
    }
}

/// The alert shown when the user has to paste the launch options by hand.
pub open spec fn manual_paste_alert(script: Seq<char>, reason: Seq<char>, options: Seq<char>) -> Seq<char> {
    "launch script ready at "@ + script
        + ", but steam launch options were NOT set automatically \u{2014} "@ + reason
        + ". paste this into steam \u{2192} silksong \u{2192} properties \u{2192} launch options:\n"@
        + options
}

/// The alert shown when Steam has to be restarted for the options to stick.
pub open spec fn restart_alert(script: Seq<char>, options: Seq<char>) -> Seq<char> {
    "steam launch options were written to use "@ + script
        + ", but steam was running \u{2014} fully restart steam once so they stick:\n"@ + options
}

/// The alert an outcome calls for, if any.
pub open spec fn alert_spec(o: LaunchOptionsOutcome) -> Option<Seq<char>> {
    match o {
        LaunchOptionsOutcome::ManualPasteRequired { reason, launch_options, script } => Some(
            manual_paste_alert(action_path(script), reason@, launch_options@),
        ),
        LaunchOptionsOutcome::Updated { steam_restart_recommended, launch_options, script, .. } => if steam_restart_recommended {
            Some(restart_alert(action_path(script), launch_options@))
        } else {
            None
        },
        _ => None,
    }
}

impl LaunchOptionsOutcome {
    /// The alert the user must see for this outcome, if any: a manual paste
    /// is needed, or Steam was running while the options were written.
    pub fn alert_message(&self) -> (r: Option<String>)
        ensures
            match alert_spec(*self) {
                Some(a) => r matches Some(m) && m@ == a,
                None => r is None,
            },
            match *self {
                LaunchOptionsOutcome::ManualPasteRequired { reason, launch_options, script } => {
                    &&& r matches Some(m)
                    &&& m@ == manual_paste_alert(action_path(script), reason@, launch_options@)
                },
                LaunchOptionsOutcome::Updated {
                    steam_restart_recommended,
                    launch_options,
                    script,
                    ..
                } => if steam_restart_recommended {
                    &&& r matches Some(m)
                    &&& m@ == restart_alert(action_path(script), launch_options@)
                } else {
                    r is None
                },
                _ => r is None,
            },
    {
        match self {
            LaunchOptionsOutcome::ManualPasteRequired { reason, launch_options, script } => {
                let mut m = concat_str("launch script ready at ", script_path(script).as_str());
                append_str(
                    &mut m,
                    ", but steam launch options were NOT set automatically \u{2014} ",
                );
                append_str(&mut m, reason.as_str());
                append_str(
                    &mut m,
                    ". paste this into steam \u{2192} silksong \u{2192} properties \u{2192} launch options:\n",
                );
                append_str(&mut m, launch_options.as_str());
                Some(m)
            },
            LaunchOptionsOutcome::Updated {
                steam_restart_recommended,
                launch_options,
                script,
                ..
            } => {
                if *steam_restart_recommended {
                    let mut m = concat_str(
                        "steam launch options were written to use ",
                        script_path(script).as_str(),
                    );
                    append_str(
                        &mut m,
                        ", but steam was running \u{2014} fully restart steam once so they stick:\n",
                    );
                    append_str(&mut m, launch_options.as_str());
                    Some(m)
                } else {
                    None
                }
            },
            _ => None,
        }
    }
}


/// Whether Steam starts the game with BepInEx loaded.
#[derive(Debug, Clone, PartialEq, Eq)]
pub enum InjectionState {
    NotConfigured {
        current_launch_options: Option<String>,
        required_launch_options: String,
        reason: String,
        launch_script: Option<String>,
    },
    ConfiguredAwaitingLaunch {
        launch_options: String,
        launch_script: String,
        steam_restart_recommended: bool,
    },
    Injected { launch_options: String, launch_script: String, log_path: String },
}

impl InjectionState {
    /// A short description of the state.
    pub fn label(&self) -> (r: &'static str)
        ensures
            r@ == match *self {
                InjectionState::NotConfigured { .. } => "not configured"@,
                InjectionState::ConfiguredAwaitingLaunch { steam_restart_recommended, .. } => {
                    if steam_restart_recommended {
                        "launch options written \u{2014} restart steam, then launch once"@
                    } else {
                        "launch options set \u{2014} launch game once"@
                    }
                },
                InjectionState::Injected { .. } => "injected (log present)"@,
            },
    {
        match self {
            InjectionState::NotConfigured { .. } => "not configured",
            InjectionState::ConfiguredAwaitingLaunch { steam_restart_recommended, .. } => {
                if *steam_restart_recommended {
                    "launch options written \u{2014} restart steam, then launch once"
                } else {
                    "launch options set \u{2014} launch game once"
                }
            },
            InjectionState::Injected { .. } => "injected (log present)",
        }
    }

    /// Are the launch options in place?
    pub fn is_configured(&self) -> (r: bool)
        ensures
            r == !(*self is NotConfigured),
    {
        match self {
            InjectionState::NotConfigured { .. } => false,
            _ => true,
        }
    }
}

/// Where the launch script lives in the game folder.
pub fn launch_script_path(install_folder: &str) -> (r: String)
    ensures
        r@ == join_path(install_folder@, smm_launch_script()),
{
    path_join(install_folder, "smm_launch.sh")
}

/// The launch script of a native build: run BepInEx's own wrapper.
pub open spec fn native_script_body() -> Seq<char> {
    "#!/bin/sh\nset -eu\ncd \"$(dirname \"$0\")\"\nexec ./run_bepinex.sh \"$@\"\n"@
}

/// The launch script of a Proton build: load the `winhttp` proxy.
pub open spec fn proton_script_body() -> Seq<char> {
    "#!/bin/sh\nset -eu\ncd \"$(dirname \"$0\")\"\nexport WINEDLLOVERRIDES=\"winhttp=n,b\"\nexec \"$@\"\n"@
}

/// The text of the launch script for a build.
pub fn launch_script_body(build_kind: BuildKind) -> (r: String)
    ensures
        r@ == match build_kind {
            BuildKind::Proton => proton_script_body(),
            _ => native_script_body(),
        },
{
    match build_kind {
        BuildKind::NativeLinux => "#!/bin/sh\nset -eu\ncd \"$(dirname \"$0\")\"\nexec ./run_bepinex.sh \"$@\"\n".to_owned(),
        BuildKind::NativeMacOS => "#!/bin/sh\nset -eu\ncd \"$(dirname \"$0\")\"\nexec ./run_bepinex.sh \"$@\"\n".to_owned(),
        BuildKind::Proton => "#!/bin/sh\nset -eu\ncd \"$(dirname \"$0\")\"\nexport WINEDLLOVERRIDES=\"winhttp=n,b\"\nexec \"$@\"\n".to_owned(),
    }
}

/// Do these launch options start the game with BepInEx for this build?
pub open spec fn launch_options_satisfy_spec(existing: Seq<char>, build_kind: BuildKind) -> bool {
    contains(existing, smm_launch_script()) || match build_kind {
        BuildKind::Proton => contains(existing, "WINEDLLOVERRIDES"@) && (contains(
            existing,
            "winhttp=n,b"@,
        ) || contains(existing, "winhttp.dll=n,b"@)),
        _ => contains(existing, "run_bepinex.sh"@),
    }
}

/// Do the launch options start the game with BepInEx? Anything that runs
/// the launch script does; otherwise a Proton build needs the `winhttp`
/// override and a native build BepInEx's wrapper script.
pub fn launch_options_satisfy(existing: &str, build_kind: BuildKind) -> (r: bool)
    ensures
        r == launch_options_satisfy_spec(existing@, build_kind),
{
    let e = chars_of(existing);
    if contains_exec(&e, &chars_of("smm_launch.sh")) {
        return true;
    }
    match build_kind {
        BuildKind::Proton => contains_exec(&e, &chars_of("WINEDLLOVERRIDES")) && (contains_exec(
            &e,
            &chars_of("winhttp=n,b"),
        ) || contains_exec(&e, &chars_of("winhttp.dll=n,b"))),
        _ => contains_exec(&e, &chars_of("run_bepinex.sh")),
    }
}

/// Why launch options that do not use the script are wrong.
pub open spec fn wrong_options_reason(existing: Seq<char>, required: Seq<char>) -> Seq<char> {
    "current steam launch options do not use smm_launch.sh (have: "@ + existing + "). needed: "@
        + required
}

/// The reason given when Steam points at a missing launch script.
pub open spec fn missing_script_reason() -> Seq<char> {
    "steam points at smm_launch.sh, but that script is missing from the game folder"@
}

/// The reason given when Steam has no launch options for the game.
pub open spec fn empty_options_reason() -> Seq<char> {
    "steam launch options are empty"@
}

/// The view of an optional text.
pub open spec fn opt_view(o: Option<String>) -> Option<Seq<char>> {
    match o {
        Some(s) => Some(s@),
        None => None,
    }
}

/// The injection state, from what was found: the launch options Steam has
/// for the game (`current`), whether the launch script is a file, and
/// whether BepInEx left evidence of having run (its log or plugins folder).
pub fn inspect_injection(
    install: &SilksongInstall,
    current: Option<String>,
    script_present: bool,
    runtime_evidence: bool,
    os: HostOs,
) -> (r: InjectionState)
    ensures
        match current {
            Some(existing) => if launch_options_satisfy_spec(existing@, install.build_kind) {
                if script_present {
                    if runtime_evidence {
                        r matches InjectionState::Injected { launch_options, launch_script, log_path }
                            && launch_options@ == existing@
                            && launch_script@ == join_path(install.install_folder@, smm_launch_script())
                            && log_path@ == join_path(install.install_folder@, "BepInEx/LogOutput.log"@)
                    } else {
                        r matches InjectionState::ConfiguredAwaitingLaunch { launch_options, launch_script, steam_restart_recommended }
                            && launch_options@ == existing@
                            && launch_script@ == join_path(install.install_folder@, smm_launch_script())
                            && !steam_restart_recommended
                    }
                } else {
                    r matches InjectionState::NotConfigured { current_launch_options, required_launch_options, reason, launch_script }
                        && opt_view(current_launch_options) == Some(existing@)
                        && required_launch_options@ == required_options_spec(install.install_folder@, os)
                        && reason@ == missing_script_reason()
                        && launch_script is None
                }
            } else {
                r matches InjectionState::NotConfigured { current_launch_options, required_launch_options, reason, launch_script }
                    && opt_view(current_launch_options) == Some(existing@)
                    && required_launch_options@ == required_options_spec(install.install_folder@, os)
                    && reason@ == wrong_options_reason(existing@, required_options_spec(install.install_folder@, os))
                    && opt_view(launch_script) == (if script_present { Some(join_path(install.install_folder@, smm_launch_script())) } else { None })
            },
            None => r matches InjectionState::NotConfigured { current_launch_options, required_launch_options, reason, launch_script }
                && current_launch_options is None
                && required_launch_options@ == required_options_spec(install.install_folder@, os)
                && reason@ == empty_options_reason()
                && opt_view(launch_script) == (if script_present { Some(join_path(install.install_folder@, smm_launch_script())) } else { None }),
        },
{
    let required = required_launch_options(install, os);
    let script = launch_script_path(install.install_folder.as_str());
    let log_path = path_join(install.install_folder.as_str(), "BepInEx/LogOutput.log");
    match current {
        Some(existing) => {
            if launch_options_satisfy(existing.as_str(), install.build_kind) {
                if script_present {
                    if runtime_evidence {
                        InjectionState::Injected { launch_options: existing, launch_script: script, log_path }
                    } else {
                        InjectionState::ConfiguredAwaitingLaunch {
                            launch_options: existing,
                            launch_script: script,
                            steam_restart_recommended: false,
                        }
                    }
                } else {
                    InjectionState::NotConfigured {
                        current_launch_options: Some(existing),
                        required_launch_options: required,
                        reason: "steam points at smm_launch.sh, but that script is missing from the game folder".to_owned(),
                        launch_script: None,
                    }
                }
            } else {
                let mut reason = concat_str(
                    "current steam launch options do not use smm_launch.sh (have: ",
                    existing.as_str(),
                );
                append_str(&mut reason, "). needed: ");
                append_str(&mut reason, required.as_str());
                InjectionState::NotConfigured {
                    current_launch_options: Some(existing),
                    required_launch_options: required,
                    reason,
                    launch_script: if script_present { Some(script) } else { None },
                }
            }
        },
        None => InjectionState::NotConfigured {
            current_launch_options: None,
            required_launch_options: required,
            reason: "steam launch options are empty".to_owned(),
            launch_script: if script_present { Some(script) } else { None },
        },
    }
}

/// How a launch was started.
#[derive(Debug, Clone, PartialEq, Eq)]
pub struct LaunchGameReport {
    pub method: String,
    pub injection_warning: Option<String>,
}

/// Why the game could not be launched.
#[derive(Debug, Clone, PartialEq, Eq)]
pub enum LaunchGameError {
    BepinexMissing,
    Io(String),
    SteamUnavailable { detail: String },
}

/// The warning a launch carries for an injection state: none when the
/// options are in place and Steam needs no restart.
pub fn injection_warning(state: &InjectionState) -> (r: Option<String>)
    ensures
        match *state {
            InjectionState::NotConfigured { reason, .. } => r matches Some(w) && w@ == "steam injection is not configured ("@ + reason@ + "). the game may start without mods until you fix launch options in settings"@,
            InjectionState::ConfiguredAwaitingLaunch { steam_restart_recommended, .. } => if steam_restart_recommended {
                r matches Some(w) && w@ == "steam may still need a full restart before launch options stick"@
            } else {
                r is None
            },
            _ => r is None,
        },
{
    match state {
        InjectionState::NotConfigured { reason, .. } => {
            let mut w = concat_str("steam injection is not configured (", reason.as_str());
            append_str(&mut w, "). the game may start without mods until you fix launch options in settings");
            Some(w)
        },
        InjectionState::ConfiguredAwaitingLaunch { steam_restart_recommended, .. } => {
            if *steam_restart_recommended {
                Some("steam may still need a full restart before launch options stick".to_owned())
            } else {
                None
            }
        },
        _ => None,
    }
}


// ---------------------------------------------------------------------------
// localconfig.vdf
// ---------------------------------------------------------------------------

/// The key line that opens an app's block: its id in quotes.
pub open spec fn app_key(app_id: u32) -> Seq<char> {
    seq!['"'] + decimal(app_id as nat) + seq!['"']
}

/// The key of the launch options entry, quotes included.
pub open spec fn launch_options_key() -> Seq<char> {
    "\"LaunchOptions\""@
}

/// Index of the first line at or after `i` that is not blank.
pub open spec fn next_nonempty(ls: Seq<Seq<char>>, i: int) -> int
    decreases ls.len() - i,
{
    if 0 <= i < ls.len() && trim(ls[i]).len() == 0 {
        next_nonempty(ls, i + 1)
    } else {
        i
    }
}

/// Line `i` is the app's key and the next non-blank line opens a block.
/// A key with its value on the same line opens nothing.
pub open spec fn block_starts_at(ls: Seq<Seq<char>>, i: int, app_id: u32) -> bool {
    &&& 0 <= i < ls.len()
    &&& trim(ls[i]) == app_key(app_id)
    &&& next_nonempty(ls, i + 1) < ls.len()
    &&& trim(ls[next_nonempty(ls, i + 1)]) == seq!['{']
}

/// Reverses [`escape_vdf`]: `\"` becomes `"`, then `\\` becomes `\`.
pub open spec fn unescape_vdf(v: Seq<char>) -> Seq<char> {
    replace_all(replace_all(v, seq!['\\', '"'], seq!['"']), seq!['\\', '\\'], seq!['\\'])
}

/// How one character is written inside a quoted VDF string: `\` as `\\`,
/// `"` as `\"`, anything else as itself.
pub open spec fn escape_char(c: char) -> Seq<char> {
    if c == '\\' {
        seq!['\\', '\\']
    } else if c == '"' {
        seq!['\\', '"']
    } else {
        seq![c]
    }
}

/// Escapes a value for a quoted VDF string, character by character
/// (`\` doubled, `"` preceded by `\`).
pub open spec fn escape_vdf(v: Seq<char>) -> Seq<char>
    decreases v.len(),
{
    if v.len() == 0 {
        Seq::empty()
    } else {
        escape_char(v[0]) + escape_vdf(v.skip(1))
    }
}

/// The value of a `"LaunchOptions" "..."` line, unescaped, if the line is
/// one and its value is not empty.
pub open spec fn launch_value_of(line: Seq<char>) -> Option<Seq<char>> {
    let t = trim(line);
    let k = launch_options_key();
    if starts_with(t, k) {
        let v = trim_matches(trim(t.skip(k.len() as int)), '"');
        if v.len() > 0 {
            Some(unescape_vdf(v))
        } else {
            None
        }
    } else {
        None
    }
}

/// `depth` after a closing brace.
pub open spec fn close_depth(depth: nat) -> nat {
    if depth > 0 {
        (depth - 1) as nat
    } else {
        0
    }
}

/// Scans an app block from line `i` with the given brace depth: the first
/// launch options value found at the block's top level before it closes.
pub open spec fn scan_value(ls: Seq<Seq<char>>, i: int, depth: nat, saw_open: bool) -> Option<Seq<char>>
    decreases ls.len() - i,
{
    if i < 0 || i >= ls.len() {
        None
    } else {
        let t = trim(ls[i]);
        if t == seq!['{'] {
            scan_value(ls, i + 1, depth + 1, true)
        } else if t == seq!['}'] {
            if saw_open && close_depth(depth) == 0 {
                None
            } else {
                scan_value(ls, i + 1, close_depth(depth), saw_open)
            }
        } else if depth == 1 && launch_value_of(ls[i]) is Some {
            launch_value_of(ls[i])
        } else {
            scan_value(ls, i + 1, depth, saw_open)
        }
    }
}

/// The launch options of the first block of the app, from line `i` on, that
/// has any.
pub open spec fn extract_from(ls: Seq<Seq<char>>, app_id: u32, i: int) -> Option<Seq<char>>
    decreases ls.len() - i,
{
    if i < 0 || i >= ls.len() {
        None
    } else if block_starts_at(ls, i, app_id) && scan_value(ls, i + 1, 0, false) is Some {
        scan_value(ls, i + 1, 0, false)
    } else {
        extract_from(ls, app_id, i + 1)
    }
}

/// The launch options `localconfig.vdf` text holds for an app.
pub open spec fn extract_spec(contents: Seq<char>, app_id: u32) -> Option<Seq<char>> {
    extract_from(lines(contents), app_id, 0)
}

/// Index of the first line at or after `i` that opens the app's block;
/// `ls.len()` when none does.
pub open spec fn first_block(ls: Seq<Seq<char>>, app_id: u32, i: int) -> int
    decreases ls.len() - i,
{
    if i < 0 || i >= ls.len() {
        ls.len() as int
    } else if block_starts_at(ls, i, app_id) {
        i
    } else {
        first_block(ls, app_id, i + 1)
    }
}

/// Scans an app block from line `i`: the line that closes it and the last
/// top-level launch options line before that.
pub open spec fn scan_end(
    ls: Seq<Seq<char>>,
    i: int,
    depth: nat,
    saw_open: bool,
    launch: Option<int>,
) -> Option<(int, Option<int>)>
    decreases ls.len() - i,
{
    if i < 0 || i >= ls.len() {
        None
    } else {
        let t = trim(ls[i]);
        if t == seq!['{'] {
            scan_end(ls, i + 1, depth + 1, true, launch)
        } else if t == seq!['}'] {
            if saw_open && close_depth(depth) == 0 {
                Some((i, launch))
            } else {
                scan_end(ls, i + 1, close_depth(depth), saw_open, launch)
            }
        } else if depth == 1 && starts_with(t, launch_options_key()) {
            scan_end(ls, i + 1, depth, saw_open, Some(i))
        } else {
            scan_end(ls, i + 1, depth, saw_open, launch)
        }
    }
}

/// The indentation of the first line in `ls[i..e]` that starts (after
/// whitespace) with a quote; four tabs when there is none.
pub open spec fn indent_of(ls: Seq<Seq<char>>, i: int, e: int) -> Seq<char>
    decreases e - i,
{
    if i < 0 || i >= e || e > ls.len() {
        "\t\t\t\t"@
    } else {
        let ts = trim_start(ls[i]);
        if ts.len() > 0 && ts[0] == '"' {
            ls[i].take(lead_ws(ls[i], 0))
        } else {
            indent_of(ls, i + 1, e)
        }
    }
}

/// The launch options line written for `v` with the given indentation.
pub open spec fn launch_line(indent: Seq<char>, v: Seq<char>) -> Seq<char> {
    indent + launch_options_key() + "\t\t\""@ + escape_vdf(v) + seq!['"']
}

/// The lines after setting the app's launch options to `v`: in the first
/// block of the app, the last top-level launch options line is replaced,
/// or a new one is added before the block closes. `None` when there is no
/// such block or it never closes.
pub open spec fn upsert_lines(ls: Seq<Seq<char>>, app_id: u32, v: Seq<char>) -> Option<Seq<Seq<char>>> {
    let i = first_block(ls, app_id, 0);
    if i >= ls.len() {
        None
    } else {
        match scan_end(ls, i + 1, 0, false, None) {
            None => None,
            Some((e, l)) => {
                let nl = launch_line(indent_of(ls, i + 1, e), v);
                match l {
                    Some(k) => Some(ls.update(k, nl)),
                    None => Some(ls.insert(e, nl)),
                }
            },
        }
    }
}

/// The `localconfig.vdf` text after setting the app's launch options.
pub open spec fn upsert_spec(contents: Seq<char>, app_id: u32, v: Seq<char>) -> Option<Seq<char>> {
    match upsert_lines(lines(contents), app_id, v) {
        Some(ls) => Some(join_with(ls, seq!['\n'])),
        None => None,
    }
}

/// The views of a vector of lines.
pub open spec fn views(ls: Seq<Vec<char>>) -> Seq<Seq<char>> {
    ls.map_values(|l: Vec<char>| l@)
}

/// The app's key line, as characters.
fn app_key_chars(app_id: u32) -> (r: Vec<char>)
    ensures
        r@ == app_key(app_id),
{
    let mut s = String::new();
    push_char(&mut s, '"');
    let d = decimal_string(app_id as u64);
    append_str(&mut s, d.as_str());
    push_char(&mut s, '"');
    let r = chars_of(s.as_str());
    assert(r@ =~= app_key(app_id));
    r
}

/// Index of the first non-blank line at or after `start`.
fn next_nonempty_line(ls: &Vec<Vec<char>>, start: usize) -> (r: usize)
    requires
        start <= ls.len(),
    ensures
        r == next_nonempty(views(ls@), start as int),
        start <= r <= ls.len(),
{
    let mut i = start;
    while i < ls.len() && trim_chars(&ls[i]).len() == 0
        invariant
            start <= i <= ls.len(),
            next_nonempty(views(ls@), start as int) == next_nonempty(views(ls@), i as int),
        decreases ls.len() - i,
    {
        i += 1;
    }
    i
}

/// Does the app's block open at line `i`?
fn app_block_starts_at(ls: &Vec<Vec<char>>, i: usize, key: &Vec<char>, Ghost(app_id): Ghost<u32>) -> (r: bool)
    requires
        i < ls.len(),
        key@ == app_key(app_id),
    ensures
        r == block_starts_at(views(ls@), i as int, app_id),
{
    let t = trim_chars(&ls[i]);
    if !chars_eq(&t, key) {
        return false;
    }
    let n = next_nonempty_line(ls, i + 1);
    if n >= ls.len() {
        return false;
    }
    let tn = trim_chars(&ls[n]);
    is_single(&tn, '{')
}

/// The launch options value of a line, if it has one.
fn launch_value_exec(line: &Vec<char>) -> (r: Option<Vec<char>>)
    ensures
        opt_chars(r) == launch_value_of(line@),
{
    let t = trim_chars(line);
    let k = chars_of("\"LaunchOptions\"");
    if !starts_with_exec(&t, &k) {
        return None;
    }
    let rest = slice_chars(&t, k.len(), t.len());
    let rest_t = trim_chars(&rest);
    let v = trim_matches_exec(&rest_t, '"');
    proof {
        assert(rest@ == t@.skip(k@.len() as int));
    }
    if v.len() == 0 {
        return None;
    }
    Some(unescape_exec(&v))
}

/// The view of an optional character vector.
pub open spec fn opt_chars(o: Option<Vec<char>>) -> Option<Seq<char>> {
    match o {
        Some(v) => Some(v@),
        None => None,
    }
}

/// [`unescape_vdf`].
fn unescape_exec(v: &Vec<char>) -> (r: Vec<char>)
    ensures
        r@ == unescape_vdf(v@),
{
    let mut p1: Vec<char> = Vec::new();
    p1.push('\\');
    p1.push('"');
    let mut q1: Vec<char> = Vec::new();
    q1.push('"');
    let a = replace_chars(v, &p1, &q1);
    let mut p2: Vec<char> = Vec::new();
    p2.push('\\');
    p2.push('\\');
    let mut q2: Vec<char> = Vec::new();
    q2.push('\\');
    proof {
        assert(p1@ =~= seq!['\\', '"']);
        assert(q1@ =~= seq!['"']);
        assert(p2@ =~= seq!['\\', '\\']);
        assert(q2@ =~= seq!['\\']);
    }
    replace_chars(&a, &p2, &q2)
}

/// [`escape_vdf`].
fn escape_exec(v: &Vec<char>) -> (r: Vec<char>)
    ensures
        r@ == escape_vdf(v@),
{
    let mut out: Vec<char> = Vec::new();
    let mut i: usize = 0;
    assert(v@.skip(0) =~= v@);
    assert(out@ + escape_vdf(v@) =~= escape_vdf(v@));
    while i < v.len()
        invariant
            i <= v.len(),
            out@ + escape_vdf(v@.skip(i as int)) == escape_vdf(v@),
        decreases v.len() - i,
    {
        let ghost before = out@;
        let c = v[i];
        if c == '\\' {
            out.push('\\');
            out.push('\\');
        } else if c == '"' {
            out.push('\\');
            out.push('"');
        } else {
            out.push(c);
        }
        proof {
            let rest = v@.skip(i as int);
            assert(rest[0] == c);
            assert(rest.skip(1) =~= v@.skip(i + 1));
            assert(out@ =~= before + escape_char(c));
            assert(escape_vdf(rest) == escape_char(c) + escape_vdf(rest.skip(1)));
            assert(out@ + escape_vdf(v@.skip(i + 1)) =~= before + escape_vdf(rest));
        }
        i += 1;
    }
    proof {
        assert(v@.skip(i as int) =~= Seq::<char>::empty());
        assert(out@ + Seq::<char>::empty() =~= out@);
    }
    out
}

/// Is this trimmed line exactly the character `c`?
fn is_single(t: &Vec<char>, c: char) -> (r: bool)
    ensures
        r == (t@ == seq![c]),
{
    let r = t.len() == 1 && t[0] == c;
    proof {
        if t.len() == 1 && t[0] == c {
            assert(t@ =~= seq![c]);
        }
    }
    r
}

/// Scans the app block that starts at line `index` for its launch options.
fn scan_app_block_for_launch_options(ls: &Vec<Vec<char>>, from: usize) -> (r: Option<Vec<char>>)
    requires
        from <= ls.len(),
    ensures
        opt_chars(r) == scan_value(views(ls@), from as int, 0, false),
{
    let ghost l = views(ls@);
    let mut index = from;
    let mut depth: usize = 0;
    let mut saw_open = false;
    let ghost start = index as int;
    while index < ls.len()
        invariant
            index <= ls.len(),
            start == from as int,
            l == views(ls@),
            depth <= index,
            scan_value(l, start, 0, false) == scan_value(l, index as int, depth as nat, saw_open),
        decreases ls.len() - index,
    {
        let t = trim_chars(&ls[index]);
        assert(l[index as int] == ls@[index as int]@);
        assert(t@ == trim(l[index as int]));
        let ghost d0 = depth as nat;
        if is_single(&t, '{') {
            depth += 1;
            saw_open = true;
        } else if is_single(&t, '}') {
            depth = if depth > 0 { depth - 1 } else { 0 };
            assert(depth as nat == close_depth(d0));
            if saw_open && depth == 0 {
                assert(scan_value(l, index as int, d0, saw_open) is None);
                return None;
            }
        } else if depth == 1 {
            let found = launch_value_exec(&ls[index]);
            if found.is_some() {
                assert(scan_value(l, index as int, d0, saw_open) == opt_chars(found));
                return found;
            }
        }
        index += 1;
    }
    None
}

/// The launch options `localconfig.vdf` text holds for the app: those of
/// the first block of the app that has any.
pub fn extract_launch_options(contents: &str, app_id: u32) -> (r: Option<String>)
    ensures
        opt_view(r) == extract_spec(contents@, app_id),
{
    let v = chars_of(contents);
    let ls = lines_of(&v);
    proof {
        assert(views(ls@) =~= lines(contents@));
    }
    let key = app_key_chars(app_id);
    let mut index: usize = 0;
    while index < ls.len()
        invariant
            index <= ls.len(),
            views(ls@) == lines(contents@),
            key@ == app_key(app_id),
            extract_from(views(ls@), app_id, 0) == extract_from(views(ls@), app_id, index as int),
        decreases ls.len() - index,
    {
        if app_block_starts_at(&ls, index, &key, Ghost(app_id)) {
            let found = scan_app_block_for_launch_options(&ls, index + 1);
            match found {
                Some(value) => {
                    return Some(string_of(&value));
                },
                None => {},
            }
        }
        index += 1;
    }
    None
}

/// Indentation of the first quoted line in `ls[from..end]`.
fn detect_launch_options_indent(ls: &Vec<Vec<char>>, from: usize, end: usize) -> (r: Vec<char>)
    requires
        from <= end <= ls.len(),
    ensures
        r@ == indent_of(views(ls@), from as int, end as int),
{
    let mut i = from;
    while i < end
        invariant
            from <= i <= end <= ls.len(),
            indent_of(views(ls@), from as int, end as int) == indent_of(views(ls@), i as int, end as int),
        decreases end - i,
    {
        let ts = trim_start_chars(&ls[i]);
        if ts.len() > 0 && ts[0] == '"' {
            let n = lead_index(&ls[i]);
            return slice_chars(&ls[i], 0, n);
        }
        i += 1;
    }
    chars_of("\t\t\t\t")
}

/// Rewrites the app block whose key is at line `app_line_index`.
fn rewrite_app_block(ls: &Vec<Vec<char>>, app_line_index: usize, launch_options: &str, Ghost(app_id): Ghost<u32>) -> (r: Option<String>)
    requires
        app_line_index < ls.len(),
    ensures
        match scan_end(views(ls@), app_line_index + 1, 0, false, None) {
            None => r is None,
            Some((e, l)) => r matches Some(out) && out@ == join_with(
                match l {
                    Some(k) => views(ls@).update(k, launch_line(indent_of(views(ls@), app_line_index + 1, e), launch_options@)),
                    None => views(ls@).insert(e, launch_line(indent_of(views(ls@), app_line_index + 1, e), launch_options@)),
                },
                seq!['\n'],
            ),
        },
{
    let ghost l = views(ls@);
    let mut depth: usize = 0;
    let mut saw_open = false;
    let mut end_index: Option<usize> = None;
    let mut launch_line_index: Option<usize> = None;
    let mut index = app_line_index + 1;
    let ghost start = index as int;
    while index < ls.len()
        invariant_except_break
            end_index is None,
        invariant
            app_line_index < index <= ls.len(),
            l == views(ls@),
            depth <= index,
            launch_line_index matches Some(k) ==> app_line_index < k < index,
            scan_end(l, start, 0, false, None) == scan_end(l, index as int, depth as nat, saw_open, match launch_line_index { Some(k) => Some(k as int), None => None }),
        ensures
            match end_index {
                Some(e) => scan_end(l, start, 0, false, None) == Some((e as int, match launch_line_index { Some(k) => Some(k as int), None => None })) && app_line_index < e < ls.len(),
                None => scan_end(l, start, 0, false, None) is None,
            },
        decreases ls.len() - index,
    {
        let t = trim_chars(&ls[index]);
        assert(l[index as int] == ls@[index as int]@);
        assert(t@ == trim(l[index as int]));
        let ghost d0 = depth as nat;
        if is_single(&t, '{') {
            depth += 1;
            saw_open = true;
        } else if is_single(&t, '}') {
            depth = if depth > 0 { depth - 1 } else { 0 };
            assert(depth as nat == close_depth(d0));
            if saw_open && depth == 0 {
                end_index = Some(index);
                break;
            }
        } else if depth == 1 && starts_with_exec(&t, &chars_of("\"LaunchOptions\"")) {
            launch_line_index = Some(index);
        }
        index += 1;
    }
    let end_index = match end_index {
        Some(e) => e,
        None => {
            return None;
        },
    };
    let indent = detect_launch_options_indent(ls, app_line_index + 1, end_index);
    let lv = chars_of(launch_options);
    let encoded = escape_exec(&lv);
    let mut new_line = string_of(&indent);
    append_str(&mut new_line, "\"LaunchOptions\"");
    append_str(&mut new_line, "\t\t\"");
    append_chars(&mut new_line, &encoded);
    push_char(&mut new_line, '"');
    assert(new_line@ =~= launch_line(indent_of(l, app_line_index + 1, end_index as int), launch_options@));
    let mut output: Vec<String> = Vec::new();
    let mut i: usize = 0;
    while i < ls.len()
        invariant
            i <= ls.len(),
            l == views(ls@),
            output@.len() == i,
            forall|j: int| 0 <= j < i ==> (#[trigger] output@[j])@ == l[j],
        decreases ls.len() - i,
    {
        output.push(string_of(&ls[i]));
        i += 1;
    }
    let ghost base = output@.map_values(|s: String| s@);
    assert(base =~= l);
    match launch_line_index {
        Some(k) => {
            output.set(k, new_line);
        },
        None => {
            output.insert(end_index, new_line);
        },
    }
    proof {
        let target = match launch_line_index {
            Some(k) => l.update(k as int, new_line@),
            None => l.insert(end_index as int, new_line@),
        };
        assert(output@.map_values(|s: String| s@) =~= target);
    }
    let out = join_strings(&output, "\n");
    proof {
        reveal_strlit("\n");
        assert("\n"@ =~= seq!['\n']);
    }
    Some(out)
}

/// Sets the app's launch options in `localconfig.vdf` text: in the first
/// block of the app, replace its launch options line or add one. `None`
/// when the text has no such block or the block never closes.
pub fn upsert_launch_options(contents: &str, app_id: u32, launch_options: &str) -> (r: Option<String>)
    ensures
        opt_view(r) == upsert_spec(contents@, app_id, launch_options@),
{
    let v = chars_of(contents);
    let ls = lines_of(&v);
    proof {
        assert(views(ls@) =~= lines(contents@));
        reveal_strlit("\n");
    }
    let key = app_key_chars(app_id);
    let mut index: usize = 0;
    while index < ls.len()
        invariant
            index <= ls.len(),
            views(ls@) == lines(contents@),
            key@ == app_key(app_id),
            first_block(views(ls@), app_id, 0) == first_block(views(ls@), app_id, index as int),
        decreases ls.len() - index,
    {
        if app_block_starts_at(&ls, index, &key, Ghost(app_id)) {
            return rewrite_app_block(&ls, index, launch_options, Ghost(app_id));
        }
        index += 1;
    }
    None
}

/// The launch options the first of the given `localconfig.vdf` texts that
/// has any holds for the app.
pub open spec fn read_launch_options_spec(contents: Seq<Seq<char>>, app_id: u32) -> Option<Seq<char>>
    decreases contents.len(),
{
    if contents.len() == 0 {
        None
    } else if extract_spec(contents[0], app_id) is Some {
        extract_spec(contents[0], app_id)
    } else {
        read_launch_options_spec(contents.skip(1), app_id)
    }
}

/// Reads the app's launch options from the `localconfig.vdf` texts of the
/// Steam users, in order: the first that has any wins.
pub fn read_launch_options(app_id: u32, localconfigs: &Vec<String>) -> (r: Option<String>)
    ensures
        opt_view(r) == read_launch_options_spec(localconfigs.deep_view(), app_id),
{
    let mut i: usize = 0;
    assert(localconfigs.deep_view().skip(0) =~= localconfigs.deep_view());
    while i < localconfigs.len()
        invariant
            i <= localconfigs.len(),
            read_launch_options_spec(localconfigs.deep_view(), app_id) == read_launch_options_spec(localconfigs.deep_view().skip(i as int), app_id),
        decreases localconfigs.len() - i,
    {
        let found = extract_launch_options(localconfigs[i].as_str(), app_id);
        proof {
            let rest = localconfigs.deep_view().skip(i as int);
            assert(rest[0] == localconfigs@[i as int]@);
            assert(rest.skip(1) =~= localconfigs.deep_view().skip(i as int + 1));
        }
        if found.is_some() {
            return found;
        }
        i += 1;
    }
    None
}

/// The text shown for a launch that could not start.
pub open spec fn launch_game_error_text(e: LaunchGameError) -> Seq<char> {
    match e {
        LaunchGameError::BepinexMissing => "bepinex is not installed — install it in settings before playing modded"@,
        LaunchGameError::Io(d) => "could not prepare launch: "@ + d@,
        LaunchGameError::SteamUnavailable { detail } => "could not ask steam to start silksong: "@ + detail@,
    }
}

impl LaunchGameError {
    /// The error as shown to the user.
    pub fn message(&self) -> (r: String)
        ensures
            r@ == launch_game_error_text(*self),
    {
        match self {
            LaunchGameError::BepinexMissing => {
                let mut r = String::new();
                crate::text::append_str(&mut r, "bepinex is not installed — install it in settings before playing modded");
                r
            },
            LaunchGameError::Io(d) => {
                let mut r = String::new();
                crate::text::append_str(&mut r, "could not prepare launch: ");
                crate::text::append_str(&mut r, d.as_str());
                r
            },
            LaunchGameError::SteamUnavailable { detail } => {
                let mut r = String::new();
                crate::text::append_str(&mut r, "could not ask steam to start silksong: ");
                crate::text::append_str(&mut r, detail.as_str());
                r
            },
        }
    }
}

} // verus!
