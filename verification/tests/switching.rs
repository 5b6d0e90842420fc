use pollip::profiles::store::slugify_name;
use pollip::mods::inventory::{InstalledMod, ModKind, ModSource};
use pollip::profiles::model::{
    looks_like_assembly_entry, thunderstore_download_url, DiffAction, LocalModKind, ModOrigin, Profile, ProfileDiff, ProfileMod,
    ProfileSummary,
};
use pollip::profiles::store::{
    duplicated_profile, imported_profile, profile_file_slug, sort_profile_summaries, StoreError,
};
use pollip::profiles::switch::{
    after_local_restore, plan_install_step, restore_parent, SwitchStep, ThunderstoreFallback,
    describe_planned_actions, install_source_label, mods_to_install, mods_to_remove, mods_to_toggle,
    replaced_entries, SwitchError,
};

fn installed(entry_name: &str, enabled: bool) -> InstalledMod {
    InstalledMod {
        entry_name: entry_name.to_string(),
        display_name: entry_name.to_string(),
        version: None,
        enabled,
        path: format!("/tmp/{entry_name}"),
        kind: ModKind::Folder,
        source: ModSource::Unknown,
    }
}

fn thunderstore_mod(owner: &str, enabled: bool, version: &str) -> ProfileMod {
    ProfileMod {
        entry_name: format!("{owner}-Mod"),
        display_name: owner.to_string(),
        enabled,
        origin: ModOrigin::Thunderstore {
            owner: owner.into(),
            package_name: "Mod".into(),
            full_name: format!("{owner}-Mod"),
            version: version.into(),
            download_url: thunderstore_download_url(owner, "Mod", version),
        },
    }
}

fn nexus_mod(mod_id: u64) -> ProfileMod {
    ProfileMod {
        entry_name: format!("nexus-{mod_id}"),
        display_name: format!("Nexus {mod_id}"),
        enabled: true,
        origin: ModOrigin::Nexus {
            mod_id,
            file_id: 7,
            game_domain: "hollowknightsilksong".into(),
            version: "2.0".into(),
            mod_name: "Thing".into(),
        },
    }
}

fn local_mod(entry_name: &str) -> ProfileMod {
    ProfileMod {
        entry_name: entry_name.into(),
        display_name: entry_name.into(),
        enabled: true,
        origin: ModOrigin::Local { mod_kind: LocalModKind::Folder },
    }
}

fn profile(mods: Vec<ProfileMod>) -> Profile {
    Profile { name: "target".into(), created_at_unix: 1, updated_at_unix: 2, mods }
}

#[test]
fn source_labels_name_where_each_mod_comes_from() {
    assert_eq!(install_source_label(&thunderstore_mod("a", true, "1.2.3"), false, &[]), "thunderstore v1.2.3");
    assert_eq!(install_source_label(&nexus_mod(42), true, &[]), "nexus #42 v2.0 (local stash)");
    assert_eq!(install_source_label(&nexus_mod(42), false, &[]), "nexus #42 v2.0");
    assert_eq!(install_source_label(&local_mod("Loose"), true, &[]), "local stash");
    assert_eq!(
        install_source_label(&local_mod("Loose"), false, &[]),
        "local stash (missing \u{2014} no thunderstore match)"
    );
}

#[test]
fn planned_actions_read_in_diff_order() {
    let target = profile(vec![thunderstore_mod("a", true, "1.0.0"), nexus_mod(9)]);
    let diff = ProfileDiff {
        actions: vec![
            DiffAction::Remove { entry_name: "old".into(), display_name: "Old".into() },
            DiffAction::Install { entry_name: "a-Mod".into(), display_name: "A".into(), detail: String::new() },
            DiffAction::ReplaceVersion {
                entry_name: "nexus-9".into(),
                display_name: "Nine".into(),
                from_version: "1.0".into(),
                to_version: "2.0".into(),
            },
            DiffAction::Install { entry_name: "unlisted".into(), display_name: "X".into(), detail: String::new() },
            DiffAction::Disable { entry_name: "b".into(), display_name: "B".into() },
        ],
    };
    let lines = describe_planned_actions(&diff, &target, &vec!["nexus-9".to_string()], &[]);
    assert_eq!(
        lines,
        vec![
            "remove Old".to_string(),
            "install A (thunderstore v1.0.0)".to_string(),
            "replace Nine 1.0 \u{2192} 2.0 (nexus #9 v2.0 (local stash))".to_string(),
            "disable B".to_string(),
        ]
    );
}

#[test]
fn enforcing_a_profile_removes_installs_and_toggles() {
    let target = profile(vec![thunderstore_mod("a", true, "1.0.0"), nexus_mod(5), local_mod("Loose")]);
    let current = vec![installed("a-Mod", false), installed("extra", true), installed("nexus-5", true)];
    assert_eq!(mods_to_remove(&target, &current), vec![1]);
    assert_eq!(mods_to_install(&target, &current), vec![2]);
    assert_eq!(mods_to_toggle(&target, &current), vec![(0, true)]);
    assert_eq!(replaced_entries("a-Mod", "a-Mod"), vec!["a-Mod".to_string()]);
    assert_eq!(replaced_entries("Mod", "a-Mod"), vec!["Mod".to_string(), "a-Mod".to_string()]);
}

#[test]
fn profile_files_and_listing_order() {
    assert_eq!(profile_file_slug(true, Some("JSON".into()), Some("main".into())).as_deref(), Some("main"));
    assert_eq!(profile_file_slug(true, Some("json".into()), Some(".hidden".into())), None);
    assert_eq!(profile_file_slug(false, Some("json".into()), Some("main".into())), None);
    assert_eq!(profile_file_slug(true, Some("txt".into()), Some("main".into())), None);
    let summary = |name: &str, slug: &str| ProfileSummary {
        name: name.into(),
        slug: slug.into(),
        mod_count: 0,
        path: format!("/p/{slug}.json"),
    };
    let sorted = sort_profile_summaries(vec![summary("beta", "b"), summary("Alpha", "z"), summary("alpha", "a")]);
    let slugs: Vec<&str> = sorted.iter().map(|s| s.slug.as_str()).collect();
    assert_eq!(slugs, vec!["a", "z", "b"]);
}

#[test]
fn duplicated_and_imported_profiles_get_new_times() {
    let source = profile(vec![local_mod("Loose")]);
    let copy = duplicated_profile(&source, "  copy of target ", 99);
    assert_eq!(copy.name, "copy of target");
    assert_eq!(copy.created_at_unix, 99);
    assert_eq!(copy.updated_at_unix, 99);
    assert_eq!(copy.mods, source.mods);
    let imported = imported_profile(source.clone(), 7);
    assert_eq!(imported.name, "target");
    assert_eq!(imported.created_at_unix, 7);
    assert_eq!(imported.updated_at_unix, 7);
}

#[test]
fn profile_and_switch_errors_read_clearly() {
    assert_eq!(StoreError::AlreadyExists("main".into()).message(), "profile 'main' already exists");
    assert_eq!(StoreError::DirectoryUnavailable.message(), "could not resolve the profiles directory");
    assert_eq!(
        SwitchError::MissingInstalled { entry_name: "x".into() }.message(),
        "mod 'x' is not installed"
    );
    assert_eq!(SwitchError::Store("inner".into()).message(), "inner");
}

#[test]
fn a_slug_is_its_own_slug() {
    for name in ["  My Cool Profile!! ", "__A__b", "x", "Tiny--Mods 2"] {
        let slug = slugify_name(name).expect("has letters");
        assert_eq!(slugify_name(&slug), Ok(slug.clone()));
    }
}

#[test]
fn assembly_entries_in_subfolders_are_recognised() {
    assert!(looks_like_assembly_entry("sub/Thing.dll"));
    assert!(looks_like_assembly_entry("Thing.DLL"));
    assert!(!looks_like_assembly_entry("sub.dll/Thing"));
    assert!(!looks_like_assembly_entry("Thing"));
}

#[test]
fn local_assembly_in_a_subfolder_restores_from_the_stash() {
    let step = plan_install_step(&local_mod("sub/Thing.dll"), true, &[], false);
    assert!(matches!(
        step,
        SwitchStep::RestoreLocal { ref entry_name, enabled: true, fallback: None } if entry_name == "sub/Thing.dll"
    ));
}

#[test]
fn restored_local_mods_go_where_their_state_says() {
    assert_eq!(restore_parent("/g", true), "/g/BepInEx/plugins");
    assert_eq!(restore_parent("/g", false), "/g/BepInEx/plugins_disabled");
}

#[test]
fn a_missing_stash_falls_back_to_a_download() {
    let local = local_mod("Loose");
    assert!(matches!(after_local_restore(Ok("/g/BepInEx/plugins/Loose".into()), &local, None, &[]), Ok(None)));
    let planned = ThunderstoreFallback { full_name: "a-Mod".into(), version: "1.0.0".into(), download_url: "u".into() };
    match after_local_restore(Err(StoreError::Missing("x".into())), &local, Some(planned), &[]) {
        Ok(Some(remote)) => assert_eq!((remote.full_name.as_str(), remote.version.as_str(), remote.download_url.as_str()), ("a-Mod", "1.0.0", "u")),
        other => panic!("unexpected {other:?}"),
    }
    assert!(matches!(
        after_local_restore(Err(StoreError::Missing("x".into())), &local, None, &[]),
        Err(SwitchError::MissingLocal { ref entry_name }) if entry_name == "Loose"
    ));
    let ts = thunderstore_mod("a", true, "1.2.3");
    match after_local_restore(Err(StoreError::Missing("x".into())), &ts, None, &[]) {
        Ok(Some(remote)) => {
            assert_eq!(remote.full_name, "a-Mod");
            assert_eq!(remote.version, "1.2.3");
            assert_eq!(remote.download_url, thunderstore_download_url("a", "Mod", "1.2.3"));
        }
        other => panic!("unexpected {other:?}"),
    }
    assert!(matches!(
        after_local_restore(Err(StoreError::Io("disk".into())), &local, None, &[]),
        Err(SwitchError::Store(_))
    ));
}
