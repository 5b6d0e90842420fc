use pollip::mods::inventory::{InstalledMod, ModKind, ModSource};
use pollip::profiles::model::{
    build_diff, profile_mod_from_installed, split_owner_and_name, thunderstore_download_url,
    DiffAction, LocalModKind, ModOrigin, Profile, ProfileMod,
};
use pollip::profiles::store::{profile_json_path, profiles_directory, slugify_name, StoreError};
use pollip::profiles::switch::{journal_path, steps_from_diff, SwitchStep};

fn installed(entry_name: &str, display_name: &str, version: Option<&str>, enabled: bool) -> InstalledMod {
    InstalledMod {
        entry_name: entry_name.to_string(),
        display_name: display_name.to_string(),
        version: version.map(str::to_string),
        enabled,
        path: format!("/tmp/{entry_name}"),
        kind: ModKind::Folder,
        source: ModSource::Thunderstore,
    }
}

fn thunderstore_mod(owner: &str, enabled: bool, version: &str) -> ProfileMod {
    ProfileMod {
        entry_name: format!("{owner}-Mod"),
        display_name: owner.to_string(),
        enabled,
        origin: ModOrigin::Thunderstore {
            owner: owner.into(),
            package_name: "Mod".into(),
            full_name: format!("{owner}-Mod"),
            version: version.into(),
            download_url: thunderstore_download_url(owner, "Mod", version),
        },
    }
}

#[test]
fn diff_covers_install_remove_and_toggle() {
    let current = vec![
        installed("keep-Mod", "Keep", Some("1.0.0"), true),
        installed("gone-Mod", "Gone", Some("1.0.0"), true),
        installed("toggle-Mod", "Toggle", Some("1.0.0"), true),
    ];
    let target = Profile {
        name: "demo".into(),
        created_at_unix: 1,
        updated_at_unix: 1,
        mods: vec![
            thunderstore_mod("keep", true, "1.0.0"),
            thunderstore_mod("toggle", false, "1.0.0"),
            thunderstore_mod("new", true, "2.0.0"),
        ],
    };

    let diff = build_diff(&current, &target);
    assert!(diff.actions.iter().any(|action| matches!(
        action,
        DiffAction::Install { entry_name, .. } if entry_name == "new-Mod"
    )));
    assert!(diff.actions.iter().any(|action| matches!(
        action,
        DiffAction::Remove { entry_name, .. } if entry_name == "gone-Mod"
    )));
    assert!(diff.actions.iter().any(|action| matches!(
        action,
        DiffAction::Disable { entry_name, .. } if entry_name == "toggle-Mod"
    )));
}

#[test]
fn diff_orders_changes_and_reports_versions() {
    let current = vec![installed("keep-Mod", "Keep", Some("1.0.0"), true), installed("gone-Mod", "Gone", None, true)];
    let target = Profile { name: "t".into(), created_at_unix: 0, updated_at_unix: 0, mods: vec![thunderstore_mod("keep", false, "1.1.0")] };
    let diff = build_diff(&current, &target);
    assert_eq!(
        diff.actions,
        vec![
            DiffAction::ReplaceVersion {
                entry_name: "keep-Mod".into(),
                display_name: "keep".into(),
                from_version: "1.0.0".into(),
                to_version: "1.1.0".into()
            },
            DiffAction::Disable { entry_name: "keep-Mod".into(), display_name: "keep".into() },
            DiffAction::Remove { entry_name: "gone-Mod".into(), display_name: "Gone".into() },
        ]
    );
}

#[test]
fn local_snapshot_diff_is_empty() {
    let current = vec![installed("a", "A", Some("1"), true), installed("b.dll", "b", None, false)];
    let mods = current
        .iter()
        .map(|m| ProfileMod {
            entry_name: m.entry_name.clone(),
            display_name: m.display_name.clone(),
            enabled: m.enabled,
            origin: ModOrigin::Local { mod_kind: LocalModKind::Folder },
        })
        .collect();
    let target = Profile { name: "same".into(), created_at_unix: 0, updated_at_unix: 0, mods };
    assert!(build_diff(&current, &target).actions.is_empty());
}

#[test]
fn profile_entries_from_installed_mods() {
    let m = installed("owner-Name", "Name", Some("1.2.3"), true);
    let pm = profile_mod_from_installed(&m, &[], None);
    assert_eq!(
        pm.origin,
        ModOrigin::Thunderstore {
            owner: "owner".into(),
            package_name: "Name".into(),
            full_name: "owner-Name".into(),
            version: "1.2.3".into(),
            download_url: "https://thunderstore.io/package/download/owner/Name/1.2.3/".into(),
        }
    );
    let loose = installed("Loose", "Loose", None, false);
    let pm = profile_mod_from_installed(&loose, &[], None);
    assert_eq!(pm.origin, ModOrigin::Local { mod_kind: LocalModKind::Folder });
    assert_eq!(split_owner_and_name("-x"), None);
    assert_eq!(split_owner_and_name("a-b-c"), Some(("a".to_string(), "b-c".to_string())));
}

#[test]
fn slugs_and_paths() {
    assert_eq!(slugify_name("  My Cool Profile!! "), Ok("my_cool_profile".to_string()));
    assert_eq!(slugify_name("__A__b"), Ok("a_b".to_string()));
    assert_eq!(slugify_name("  "), Err(StoreError::InvalidName("  ".to_string())));
    assert_eq!(slugify_name("!!!"), Err(StoreError::InvalidName("!!!".to_string())));
    assert_eq!(profile_json_path("/p", "demo"), "/p/demo.json");
    assert_eq!(journal_path("/p"), "/p/.switch_journal.json");
    assert_eq!(
        profiles_directory(None, Some("/home/u".to_string())),
        Ok("/home/u/.local/share/pollip/profiles".to_string())
    );
    assert_eq!(profiles_directory(None, None), Err(StoreError::DirectoryUnavailable));
}

#[test]
fn steps_remove_then_install_then_toggle() {
    let current = vec![installed("gone-Mod", "Gone", None, true), installed("keep-Mod", "Keep", Some("1.0.0"), true)];
    let local = ProfileMod {
        entry_name: "Local".into(),
        display_name: "Local".into(),
        enabled: true,
        origin: ModOrigin::Local { mod_kind: LocalModKind::Folder },
    };
    let target = Profile {
        name: "t".into(),
        created_at_unix: 0,
        updated_at_unix: 0,
        mods: vec![thunderstore_mod("keep", false, "1.0.0"), local],
    };
    let diff = build_diff(&current, &target);
    let steps = steps_from_diff(&diff, &target, &vec!["Local".to_string()], &[]);
    assert_eq!(steps.len(), 3);
    assert!(matches!(&steps[0], SwitchStep::Remove { entry_name } if entry_name == "gone-Mod"));
    assert!(matches!(&steps[1], SwitchStep::RestoreLocal { entry_name, enabled: true, fallback: None } if entry_name == "Local"));
    assert!(matches!(&steps[2], SwitchStep::Disable { entry_name } if entry_name == "keep-Mod"));
}

#[test]
fn slugs_exist_exactly_for_names_with_letters_or_digits() {
    assert_eq!(slugify_name("a!!b"), Ok("a_b".to_string()));
    assert_eq!(slugify_name("-- 7 --"), Ok("7".to_string()));
    assert_eq!(slugify_name("\u{e9}t\u{e9}"), Ok("t".to_string()));
    assert_eq!(slugify_name("\u{e9}\u{e9}"), Err(StoreError::InvalidName("\u{e9}\u{e9}".to_string())));
}
