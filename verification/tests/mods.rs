use pollip::mods::inventory::{
    detect_source, disabled_folder, display_name_from_assembly, is_assembly, json_string_field,
    manifest_metadata, mod_from_entry, plugins_folder, removed_folder, InstalledMod, ListedEntry, ModKind,
    ModSource,
};
use pollip::mods::manage::{check_move, describe_mod_locations, toggle_destination, ModError};
use pollip::mods::order::sort_installed_mods;
use pollip::mods::panel::{ModsPanel, ModsTab};
use pollip::ui::theme::shorten_line;
use pollip::ui::toast::{ToastKind, ToastQueue};

fn installed(entry_name: &str, display_name: &str, enabled: bool) -> InstalledMod {
    InstalledMod {
        entry_name: entry_name.into(),
        display_name: display_name.into(),
        version: None,
        enabled,
        path: format!("/g/BepInEx/plugins/{entry_name}"),
        kind: ModKind::Folder,
        source: ModSource::Unknown,
    }
}

#[test]
fn folders_and_labels() {
    assert_eq!(plugins_folder("/g"), "/g/BepInEx/plugins");
    assert_eq!(disabled_folder("/g"), "/g/BepInEx/plugins_disabled");
    assert_eq!(removed_folder("/g"), "/g/BepInEx/.manager_removed");
    assert_eq!(ModSource::Unknown.label(), "local");
    assert_eq!(
        describe_mod_locations("/g"),
        "enabled: /g/BepInEx/plugins\ndisabled: /g/BepInEx/plugins_disabled"
    );
}

#[test]
fn assemblies_and_sources() {
    assert!(is_assembly("Mod.DLL"));
    assert!(!is_assembly(".dll"));
    assert!(!is_assembly("Mod.dll.txt"));
    assert_eq!(display_name_from_assembly("Loose.Mod.dll"), "Loose.Mod");
    assert_eq!(display_name_from_assembly("plain"), "plain");
    assert_eq!(detect_source(false, "nexus-12", false), ModSource::Nexus);
    assert_eq!(detect_source(false, "owner-Mod", true), ModSource::Thunderstore);
    assert_eq!(detect_source(false, "owner-Mod", false), ModSource::Unknown);
}

#[test]
fn reads_manifest_fields() {
    let text = r#"{ "name": "Demo \"Mod\"", "version_number" : "1.2.3" }"#;
    assert_eq!(json_string_field(text, "name").as_deref(), Some("Demo \"Mod\""));
    assert_eq!(json_string_field(text, "version_number").as_deref(), Some("1.2.3"));
    assert_eq!(json_string_field(text, "missing"), None);
    assert_eq!(
        manifest_metadata(Some(text.to_string()), "folder"),
        ("Demo \"Mod\"".to_string(), Some("1.2.3".to_string()))
    );
    assert_eq!(manifest_metadata(None, "folder"), ("folder".to_string(), None));
}

#[test]
fn sorts_by_display_name_ignoring_case_then_entry() {
    let mods = vec![installed("z", "beta", true), installed("b", "Alpha", true), installed("a", "alpha", false)];
    let sorted = sort_installed_mods(mods);
    let entries: Vec<&str> = sorted.iter().map(|m| m.entry_name.as_str()).collect();
    assert_eq!(entries, vec!["a", "b", "z"]);
}

#[test]
fn mods_with_the_same_key_keep_their_order() {
    let mut disabled = installed("Same", "same", false);
    disabled.path = "/g/BepInEx/plugins_disabled/Same".into();
    let enabled = installed("Same", "SAME", true);
    let sorted = sort_installed_mods(vec![enabled.clone(), installed("A", "a", true), disabled.clone()]);
    assert_eq!(sorted[1], enabled);
    assert_eq!(sorted[2], disabled);
    let sorted = sort_installed_mods(vec![disabled.clone(), enabled.clone()]);
    assert_eq!(sorted, vec![disabled, enabled]);
}

#[test]
fn moves_are_checked_and_toggles_planned() {
    let m = installed("m", "M", false);
    assert_eq!(toggle_destination("/g", &m, true).as_deref(), Some("/g/BepInEx/plugins/m"));
    assert_eq!(toggle_destination("/g", &m, false), None);
    assert_eq!(check_move("/s", false, "/d", false), Err(ModError::EntryMissing { path: "/s".into() }));
    assert_eq!(check_move("/s", true, "/d", true), Err(ModError::DestinationTaken { path: "/d".into() }));
    assert_eq!(check_move("/s", true, "/d", false), Ok(()));
}

#[test]
fn toasts_keep_the_newest_five() {
    let mut queue = ToastQueue::new();
    for i in 0..7u64 {
        queue.info(format!("message {i}"), i);
    }
    assert_eq!(queue.entries.len(), 5);
    assert_eq!(queue.entries[0].message, "message 2");
    queue.error("bad".to_string(), 100);
    assert_eq!(queue.entries[4].kind, ToastKind::Error);
    queue.expire(100, 50);
    assert_eq!(queue.entries.len(), 1);
}

#[test]
fn shortens_long_lines() {
    assert_eq!(shorten_line("abcdef", 3), "abc\u{2026}");
    assert_eq!(shorten_line("abc", 3), "abc");
}

#[test]
fn mods_page_reports_scans_and_moves() {
    let mut panel = ModsPanel::new();
    assert_eq!(panel.tab, ModsTab::Installed);
    assert!(panel.needs_resync("/g"));
    panel.refreshed(Ok(vec![installed("a", "Alpha", true), installed("b", "Beta", false)]));
    assert_eq!(panel.status_message.as_deref(), Some("found 2 mod(s)"));
    assert!(!panel.needs_resync("/g"));
    assert!(panel.needs_resync("/h"));
    assert!(panel.status_message.is_none());
    panel.refreshed(Err(ModError::Io("denied".into())));
    assert!(panel.mods.is_empty());
    assert_eq!(panel.status_message.as_deref(), Some("filesystem error: denied"));
    panel.refreshed(Ok(vec![installed("a", "Alpha", true)]));
    assert_eq!(panel.listed("a").map(|m| m.display_name.as_str()), Some("Alpha"));
    assert!(panel.listed("zz").is_none());
    assert_eq!(
        panel.remove_prompt("a"),
        "remove 'Alpha'? it will be moved to BepInEx/plugins_removed (not permanently deleted)"
    );
    assert!(panel.remove_prompt("zz").starts_with("remove 'zz'?"));
    let mut toasts = ToastQueue::new();
    panel.toggled("Alpha", false, Ok("/g/BepInEx/plugins_disabled/a".into()), &mut toasts, 1);
    assert_eq!(panel.status_message.as_deref(), Some("disabled Alpha \u{2192} /g/BepInEx/plugins_disabled/a"));
    assert_eq!(toasts.entries[0].message, "disabled Alpha");
    panel.removed("Alpha", Ok("/g/BepInEx/.manager_removed/1/a".into()), &mut toasts, 2);
    assert_eq!(panel.status_message.as_deref(), Some("moved Alpha to backup at /g/BepInEx/.manager_removed/1/a"));
    assert_eq!(toasts.entries[1].message, "removed Alpha");
    panel.removed("Alpha", Err(ModError::EntryMissing { path: "/x".into() }), &mut toasts, 3);
    assert_eq!(toasts.entries[2].kind, ToastKind::Error);
    panel.no_longer_listed("gone");
    assert_eq!(panel.status_message.as_deref(), Some("mod 'gone' is no longer listed"));
    panel.folder_opened(Ok("/g/BepInEx/plugins".into()), &mut toasts, 4);
    assert_eq!(panel.status_message.as_deref(), Some("opened /g/BepInEx/plugins"));
    panel.thunderstore.last_install_changed = true;
    panel.nexus.last_install_changed = true;
    assert!(panel.take_installs_changed());
    assert!(panel.nexus.last_install_changed);
    assert!(panel.take_installs_changed());
    assert!(!panel.take_installs_changed());
}

fn listed(file_name: &str, is_dir: bool, is_file: bool, manifest: Option<&str>) -> ListedEntry {
    ListedEntry {
        file_name: file_name.into(),
        path: format!("/g/BepInEx/plugins/{file_name}"),
        is_dir,
        is_file,
        manifest: manifest.map(|text| text.to_string()),
        has_manifest: manifest.is_some(),
        has_nexus_meta: false,
    }
}

#[test]
fn hidden_entries_and_other_files_are_not_mods() {
    assert_eq!(mod_from_entry(listed(".cache", true, false, None), true), None);
    assert_eq!(mod_from_entry(listed(".hidden.dll", false, true, None), true), None);
    assert_eq!(mod_from_entry(listed("readme.txt", false, true, None), true), None);
    assert_eq!(mod_from_entry(listed("odd.dll", false, false, None), true), None);
}

#[test]
fn folders_take_their_name_from_the_manifest() {
    let manifest = r#"{"name": "Cool Mod", "version_number": "1.2.0"}"#;
    let m = mod_from_entry(listed("Author-Cool", true, false, Some(manifest)), false).expect("a folder is a mod");
    assert_eq!(m.entry_name, "Author-Cool");
    assert_eq!(m.display_name, "Cool Mod");
    assert_eq!(m.version, Some("1.2.0".to_string()));
    assert!(!m.enabled);
    assert_eq!(m.kind, ModKind::Folder);
    assert_eq!(m.path, "/g/BepInEx/plugins/Author-Cool");
    assert_eq!(m.source, detect_source(false, "Author-Cool", true));
    let bare = mod_from_entry(listed("Plain", true, false, None), true).expect("a folder is a mod");
    assert_eq!(bare.display_name, "Plain");
    assert_eq!(bare.version, None);
}

#[test]
fn assemblies_are_mods_named_by_their_stem() {
    let m = mod_from_entry(listed("Speed.DLL", false, true, None), true).expect("an assembly is a mod");
    assert_eq!(m.display_name, "Speed");
    assert_eq!(m.kind, ModKind::Assembly);
    assert_eq!(m.source, ModSource::Unknown);
    assert_eq!(m.version, None);
}

#[test]
fn assembly_names_look_at_the_last_path_part() {
    assert!(is_assembly("sub/Thing.dll"));
    assert!(is_assembly("Thing.dll/"));
    assert!(!is_assembly("sub.dll/Thing"));
    assert!(!is_assembly("a/.."));
    assert!(!is_assembly(".dll"));
    assert_eq!(display_name_from_assembly("sub/Thing.dll"), "Thing");
}
