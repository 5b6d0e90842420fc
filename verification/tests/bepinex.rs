use pollip::archive::read_archive_entries;
use std::io::{Cursor, Write};
use pollip::detection::{BuildKind, SilksongInstall};
use pollip::platform::HostOs;
use pollip::settings::bepinex::install::{
    build_install_plan, ensure_safe_relative, InstallError, InstallEvent, InstallSummary,
};
use pollip::settings::bepinex::launch::{
    already_configured, extract_launch_options, inspect_injection, launch_options_satisfy, outcome_after_write,
    launch_script_body, read_launch_options, upsert_launch_options, InjectionState,
    LaunchOptionsOutcome, LaunchOptionsPlan, LaunchScriptAction,
};
use pollip::settings::bepinex::pack::{pack_cache_file_name, pack_download_url};
use pollip::settings::bepinex::status::{BepinexPresence, BepinexStatus};
use pollip::settings::bepinex::{status_label, build_kind_launch_hint};

const LEGACY_PROTON_LAUNCH_OPTIONS: &str = r#"WINEDLLOVERRIDES="winhttp=n,b" %command%"#;

#[test]
fn detects_proton_override() {
    assert!(launch_options_satisfy(
        r#"WINEDLLOVERRIDES="winhttp=n,b" %command%"#,
        BuildKind::Proton
    ));
    assert!(launch_options_satisfy(
        r#"WINEDLLOVERRIDES="winhttp.dll=n,b" %command%"#,
        BuildKind::Proton
    ));
    assert!(!launch_options_satisfy("%command%", BuildKind::Proton));
}

#[test]
fn detects_native_runner() {
    assert!(launch_options_satisfy(
        "./run_bepinex.sh %command%",
        BuildKind::NativeLinux
    ));
    assert!(!launch_options_satisfy("%command%", BuildKind::NativeLinux));
    assert!(!launch_options_satisfy(
        r#"WINEDLLOVERRIDES="winhttp=n,b" %command%"#,
        BuildKind::NativeLinux
    ));
}

const LOCALCONFIG: &str = r#"
"UserLocalConfigStore"
{
	"Software"
	{
		"Valve"
		{
			"Steam"
			{
				"apps"
				{
					"1030300"
					{
						"LaunchOptions"		"-windowed"
					}
				}
			}
		}
	}
}
"#;

#[test]
fn extracts_and_upserts_launch_options() {
    assert_eq!(
        extract_launch_options(LOCALCONFIG, 1_030_300).as_deref(),
        Some("-windowed")
    );
    let updated = upsert_launch_options(LOCALCONFIG, 1_030_300, LEGACY_PROTON_LAUNCH_OPTIONS)
        .expect("upsert");
    assert_eq!(
        extract_launch_options(&updated, 1_030_300).as_deref(),
        Some(LEGACY_PROTON_LAUNCH_OPTIONS)
    );
}

#[test]
fn ignores_single_line_app_id_entries() {
    let contents = r#"
"Something"
{
	"1030300"		"deadbeefblob"
	"apps"
	{
		"1030300"
		{
			"LaunchOptions"		"./run_bepinex.sh %command%"
		}
	}
}
"#;
    assert_eq!(
        extract_launch_options(contents, 1_030_300).as_deref(),
        Some("./run_bepinex.sh %command%")
    );
}

#[test]
fn accepts_smm_launch_script_for_any_build() {
    assert!(launch_options_satisfy(
        "./smm_launch.sh %command%",
        BuildKind::NativeLinux
    ));
    assert!(launch_options_satisfy(
        "./smm_launch.sh %command%",
        BuildKind::Proton
    ));
    assert!(launch_options_satisfy(
        "\"/Applications/Hollow Knight Silksong/smm_launch.sh\" %command%",
        BuildKind::NativeMacOS
    ));
}

#[test]
fn native_launch_script_runs_bepinex_wrapper() {
    let body = launch_script_body(BuildKind::NativeLinux);
    assert!(body.contains("exec ./run_bepinex.sh"));
    assert!(!body.contains("WINEDLLOVERRIDES"));
}

#[test]
fn macos_launch_script_runs_bepinex_wrapper() {
    let body = launch_script_body(BuildKind::NativeMacOS);
    assert!(body.contains("exec ./run_bepinex.sh"));
    assert!(!body.contains("WINEDLLOVERRIDES"));
}

#[test]
fn proton_launch_script_sets_winhttp_override() {
    let body = launch_script_body(BuildKind::Proton);
    assert!(body.contains("WINEDLLOVERRIDES"));
    assert!(body.contains("winhttp=n,b"));
}

#[test]
fn manual_paste_alert_is_unmistakable() {
    let launch_options = "./smm_launch.sh %command%";
    let outcome = LaunchOptionsOutcome::ManualPasteRequired {
        reason: "could not update steam localconfig.vdf".to_string(),
        launch_options: launch_options.to_string(),
        script: LaunchScriptAction::Created {
            path: "/tmp/game/smm_launch.sh".to_string(),
        },
    };
    let alert = outcome.alert_message().expect("alert");
    assert!(alert.contains("NOT set automatically"));
    assert!(alert.contains(launch_options));
    assert!(alert.contains("smm_launch.sh"));
}

#[test]
fn rejects_parent_directory_escape() {
    let error = ensure_safe_relative("../outside", "BepInExPack/../outside").unwrap_err();
    assert!(matches!(error, InstallError::UnsafeArchivePath { .. }));
}

fn native_install(folder: &str) -> SilksongInstall {
    SilksongInstall {
        install_folder: folder.to_string(),
        executable: format!("{folder}/Hollow Knight Silksong"),
        build_kind: BuildKind::NativeLinux,
        proton_prefix: None,
    }
}

#[test]
fn upsert_adds_a_line_when_the_block_has_none() {
    let contents = "\"apps\"\n{\n\t\"1030300\"\n\t{\n\t\t\"LastPlayed\"\t\t\"1\"\n\t}\n}";
    let updated = upsert_launch_options(contents, 1_030_300, "./smm_launch.sh %command%")
        .expect("upsert");
    assert_eq!(
        updated,
        "\"apps\"\n{\n\t\"1030300\"\n\t{\n\t\t\"LastPlayed\"\t\t\"1\"\n\t\t\"LaunchOptions\"\t\t\"./smm_launch.sh %command%\"\n\t}\n}"
    );
    assert_eq!(
        extract_launch_options(&updated, 1_030_300).as_deref(),
        Some("./smm_launch.sh %command%")
    );
}

#[test]
fn upsert_without_the_app_block_gives_nothing() {
    assert_eq!(upsert_launch_options("\"apps\"\n{\n}\n", 1_030_300, "x"), None);
    assert_eq!(extract_launch_options("\"apps\"\n{\n}\n", 1_030_300), None);
}

#[test]
fn upsert_escapes_quotes_and_backslashes() {
    let value = r#"say "hi" \o/"#;
    let updated = upsert_launch_options(LOCALCONFIG, 1_030_300, value).expect("upsert");
    assert!(updated.contains(r#""say \"hi\" \\o/""#));
    assert_eq!(extract_launch_options(&updated, 1_030_300).as_deref(), Some(value));
}

#[test]
fn reads_launch_options_from_the_first_config_that_has_them() {
    let configs = vec!["\"x\"\n{\n}\n".to_string(), LOCALCONFIG.to_string()];
    assert_eq!(read_launch_options(1_030_300, &configs).as_deref(), Some("-windowed"));
    assert_eq!(read_launch_options(1_030_300, &Vec::new()), None);
}

#[test]
fn injection_states_follow_what_was_found() {
    let install = native_install("/games/ss");
    let state = inspect_injection(&install, Some("./smm_launch.sh %command%".into()), true, true, HostOs::Linux);
    assert!(matches!(state, InjectionState::Injected { .. }));
    assert_eq!(state.label(), "injected (log present)");
    let state = inspect_injection(&install, Some("./smm_launch.sh %command%".into()), true, false, HostOs::Linux);
    assert!(state.is_configured());
    let state = inspect_injection(&install, Some("./smm_launch.sh %command%".into()), false, false, HostOs::Linux);
    assert!(!state.is_configured());
    let state = inspect_injection(&install, None, false, false, HostOs::Linux);
    match state {
        InjectionState::NotConfigured { reason, .. } => assert_eq!(reason, "steam launch options are empty"),
        _ => panic!("expected not configured"),
    }
    let state = inspect_injection(&install, Some("%command%".into()), true, false, HostOs::Linux);
    match state {
        InjectionState::NotConfigured { reason, launch_script, .. } => {
            assert_eq!(
                reason,
                "current steam launch options do not use smm_launch.sh (have: %command%). needed: ./smm_launch.sh %command%"
            );
            assert_eq!(launch_script.as_deref(), Some("/games/ss/smm_launch.sh"));
        }
        _ => panic!("expected not configured"),
    }
}

fn presence(pack: Option<&str>, bepinex: Option<&str>, complete: bool) -> BepinexPresence {
    BepinexPresence {
        bepinex_folder: true,
        core_assembly: true,
        preloader_assembly: true,
        doorstop_config: true,
        winhttp_proxy: true,
        linux_doorstop: true,
        run_script: complete,
        doorstop_version_file: true,
        pack_version: pack.map(str::to_string),
        bepinex_version: bepinex.map(str::to_string),
    }
}

#[test]
fn status_from_presence() {
    assert_eq!(presence(Some("1.0.3"), None, false).into_status(), BepinexStatus::NotInstalled);
    assert!(matches!(presence(Some("1.0.3"), None, true).into_status(), BepinexStatus::InstalledCurrent { .. }));
    assert!(matches!(presence(None, Some("5.4.23.4"), true).into_status(), BepinexStatus::InstalledCurrent { .. }));
    let status = presence(Some("1.0.2"), Some("5.4.23.4"), true).into_status();
    assert!(matches!(status, BepinexStatus::NeedsUpdate { .. }));
    assert_eq!(status_label(&status), "needs update");
    assert_eq!(build_kind_launch_hint(), "./smm_launch.sh %command%");
}

#[test]
fn pack_addresses() {
    assert_eq!(
        pack_download_url(),
        "https://thunderstore.io/package/download/silksong_modding/BepInExPack_Silksong/1.0.3/"
    );
    assert_eq!(pack_cache_file_name(), "silksong_modding-BepInExPack_Silksong-1.0.3.zip");
}

#[test]
fn plan_backs_up_existing_files_and_marks_the_runner() {
    let entries = vec![
        ("readme.txt".to_string(), 2u64),
        ("BepInExPack/".to_string(), 0u64),
        ("BepInExPack/doorstop_config.ini".to_string(), 15u64),
        ("BepInExPack/run_bepinex.sh".to_string(), 10u64),
        ("BepInExPack/BepInEx/core/BepInEx.dll".to_string(), 16u64),
    ];
    let existing = vec!["/g".to_string(), "/g/doorstop_config.ini".to_string()];
    let plan = build_install_plan("/g", "/tmp/pack.zip", &entries, &existing, "77").expect("plan");
    assert_eq!(plan.backup_root, "/g/BepInEx/.manager_backup/77");
    assert_eq!(plan.files.len(), 3);
    assert_eq!(
        plan.events,
        vec![
            InstallEvent::WouldBackupFile {
                from: "/g/doorstop_config.ini".into(),
                to: "/g/BepInEx/.manager_backup/77/doorstop_config.ini".into()
            },
            InstallEvent::WouldWriteFile { path: "/g/doorstop_config.ini".into(), bytes: 15 },
            InstallEvent::WouldWriteFile { path: "/g/run_bepinex.sh".into(), bytes: 10 },
            InstallEvent::WouldSetExecutable { path: "/g/run_bepinex.sh".into() },
            InstallEvent::WouldCreateDirectory { path: "/g/BepInEx/core".into() },
            InstallEvent::WouldWriteFile { path: "/g/BepInEx/core/BepInEx.dll".into(), bytes: 16 },
            InstallEvent::WouldWritePackVersion {
                path: "/g/BepInEx/.manager_pack_version".into(),
                version: "1.0.3".into()
            },
        ]
    );
    let summary = InstallSummary {
        dry_run: true,
        events: vec![plan.events[1].clone()],
        launch: LaunchOptionsOutcome::DryRun { launch_options: "./smm_launch.sh %command%".into() },
        backup_root: plan.backup_root.clone(),
    };
    assert_eq!(
        summary.describe(),
        "dry run \u{2014} no files were changed\nbackup folder: /g/BepInEx/.manager_backup/77\n- would write /g/doorstop_config.ini (15 bytes)\n- would create editable smm_launch.sh and set steam launch options: ./smm_launch.sh %command%"
    );
}

#[test]
fn plan_refuses_escapes_and_missing_pack_root() {
    let escaping = vec![("BepInExPack/../evil".to_string(), 1u64)];
    assert!(matches!(
        build_install_plan("/g", "/p.zip", &escaping, &Vec::new(), "1"),
        Err(InstallError::UnsafeArchivePath { entry }) if entry == "BepInExPack/../evil"
    ));
    let foreign = vec![("other/file".to_string(), 1u64)];
    assert!(matches!(
        build_install_plan("/g", "/p.zip", &foreign, &Vec::new(), "1"),
        Err(InstallError::MissingPackRoot)
    ));
}

#[test]
fn archive_entries_are_listed_in_order() {
    let mut writer = zip::ZipWriter::new(Cursor::new(Vec::new()));
    writer.start_file("BepInExPack/a.txt", zip::write::SimpleFileOptions::default()).expect("start");
    writer.write_all(b"hello").expect("write");
    writer.start_file("BepInExPack/b.txt", zip::write::SimpleFileOptions::default()).expect("start");
    let bytes = writer.finish().expect("finish").into_inner();
    let entries = read_archive_entries(bytes).expect("opens");
    assert_eq!(entries, vec![("BepInExPack/a.txt".to_string(), 5), ("BepInExPack/b.txt".to_string(), 0)]);

    let empty = zip::ZipWriter::new(Cursor::new(Vec::new())).finish().expect("finish").into_inner();
    assert_eq!(read_archive_entries(empty), Ok(Vec::new()));
    assert!(read_archive_entries(b"not an archive".to_vec()).is_err());
}

#[test]
fn launch_options_already_in_place_need_no_write() {
    let script = LaunchScriptAction::AlreadyPresent { path: "/g/smm_launch.sh".into() };
    let existing = Some("\"/g/smm_launch.sh\" %command%".to_string());
    assert_eq!(
        already_configured(existing.clone(), BuildKind::Proton, true, script.clone()),
        Some(LaunchOptionsOutcome::AlreadyConfigured {
            launch_options: "\"/g/smm_launch.sh\" %command%".into(),
            script: script.clone(),
        })
    );
    assert_eq!(already_configured(existing, BuildKind::Proton, false, script.clone()), None);
    assert_eq!(already_configured(Some("%command%".into()), BuildKind::Proton, true, script.clone()), None);
    assert_eq!(already_configured(None, BuildKind::Proton, true, script), None);
}

#[test]
fn writing_launch_options_reports_the_file_or_asks_for_a_paste() {
    let script = LaunchScriptAction::Created { path: "/g/smm_launch.sh".into() };
    assert_eq!(
        outcome_after_write(Ok("/s/localconfig.vdf".into()), "opts", script.clone(), true),
        LaunchOptionsOutcome::Updated {
            localconfig_path: "/s/localconfig.vdf".into(),
            launch_options: "opts".into(),
            script: script.clone(),
            steam_restart_recommended: true,
        }
    );
    assert_eq!(
        outcome_after_write(Err("denied".into()), "opts", script.clone(), false),
        LaunchOptionsOutcome::ManualPasteRequired {
            reason: "could not update steam localconfig.vdf (denied)".into(),
            launch_options: "opts".into(),
            script,
        }
    );
}

#[test]
fn required_launch_options_follow_the_operating_system() {
    let install = SilksongInstall {
        install_folder: "/Applications/Silksong".into(),
        executable: "/Applications/Silksong/Hollow Knight Silksong.app".into(),
        build_kind: BuildKind::NativeMacOS,
        proton_prefix: None,
    };
    assert_eq!(
        LaunchOptionsPlan::for_install(&install, HostOs::MacOs).required_launch_options,
        "\"/Applications/Silksong/smm_launch.sh\" %command%"
    );
    assert_eq!(LaunchOptionsPlan::for_install(&install, HostOs::Linux).required_launch_options, "./smm_launch.sh %command%");
}
