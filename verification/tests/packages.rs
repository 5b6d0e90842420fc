use pollip::mods::inventory::{InstalledMod, ModKind, ModSource};
use pollip::thunderstore::browse::{
    already_installed, dependency_prompt_lines, description_for, filter_indices, icon_url_for,
    install_report_text, update_targets, CatalogEvent, DependencyChoice, InstallOutcome, PendingInstall,
    ThunderstoreBrowse,
};
use pollip::thunderstore::catalog::CatalogSnapshot;
use pollip::thunderstore::install::InstallReport;
use pollip::ui::toast::{ToastKind, ToastQueue};
use pollip::thunderstore::catalog::{
    cache_age_label, cache_directory, cache_is_fresh, catalog_cache_path, flatten_packages,
    sort_packages, zip_cache_directory, CatalogError,
};
use pollip::thunderstore::install::{
    collect_missing_dependencies, install_queue, InstallError, InstallRequest, MissingDependency,
};
use pollip::thunderstore::package::{ApiPackage, ApiVersion, RemotePackage};

fn package(full_name: &str, version: &str, downloads: u64, deps: &[&str]) -> RemotePackage {
    let name = full_name.rsplit('-').next().unwrap_or(full_name).to_string();
    RemotePackage {
        name,
        full_name: full_name.into(),
        owner: full_name.split('-').next().unwrap_or("").into(),
        description: format!("about {full_name}"),
        version: version.into(),
        version_full_name: format!("{full_name}-{version}"),
        downloads,
        download_url: format!("https://example.invalid/{full_name}/{version}"),
        icon_url: String::new(),
        dependencies: deps.iter().map(|d| d.to_string()).collect(),
        date_updated: String::new(),
        is_deprecated: false,
    }
}

fn installed(entry_name: &str, display_name: &str, version: Option<&str>, source: ModSource) -> InstalledMod {
    InstalledMod {
        entry_name: entry_name.into(),
        display_name: display_name.into(),
        version: version.map(str::to_string),
        enabled: true,
        path: format!("/tmp/{entry_name}"),
        kind: ModKind::Folder,
        source,
    }
}

fn api(full_name: &str, downloads: u64, deprecated: bool, with_version: bool) -> ApiPackage {
    let versions = if with_version {
        vec![ApiVersion {
            name: full_name.rsplit('-').next().unwrap().into(),
            full_name: format!("{full_name}-1.0.0"),
            description: "newest".into(),
            version_number: "1.0.0".into(),
            downloads,
            download_url: "https://example.invalid/pkg".into(),
            icon: String::new(),
            dependencies: Vec::new(),
        }]
    } else {
        Vec::new()
    };
    ApiPackage {
        name: full_name.rsplit('-').next().unwrap().into(),
        full_name: full_name.into(),
        owner: full_name.split('-').next().unwrap().into(),
        date_updated: String::new(),
        is_deprecated: deprecated,
        versions,
    }
}

#[test]
fn collects_transitive_missing_dependencies_once() {
    let root = package(
        "me-Root",
        "1.0.0",
        1,
        &["a-Lib-1.0.0", "BepInEx-BepInExPack-5.4.2100", "b-Done-2.0.0", "a-Lib-1.0.0"],
    );
    let catalog = vec![
        package("a-Lib", "1.0.0", 5, &["c-Core-1.2.0", "me-Root-1.0.0"]),
        package("c-Core", "1.2.0", 5, &[]),
    ];
    let installed_mods = vec![installed("b-Done", "Done", Some("2.1.0"), ModSource::Thunderstore)];
    let (missing, skipped) =
        collect_missing_dependencies(&root, &installed_mods, &catalog).expect("never fails");
    let names: Vec<&str> = missing.iter().map(|m| m.full_name.as_str()).collect();
    assert_eq!(names, vec!["c-Core", "me-Root", "a-Lib"]);
    assert_eq!(missing[0].required_version, "1.2.0");
    assert_eq!(missing[0].package.as_ref().map(|p| p.full_name.as_str()), Some("c-Core"));
    assert!(missing[1].package.is_none());
    assert_eq!(skipped, vec!["BepInEx-BepInExPack".to_string()]);
}

#[test]
fn nothing_missing_when_everything_is_installed() {
    let root = package("me-Root", "1.0.0", 1, &["a-Lib-1.0.0"]);
    let installed_mods = vec![installed("a-Lib", "Lib", None, ModSource::Unknown)];
    let (missing, skipped) = collect_missing_dependencies(&root, &installed_mods, &[]).unwrap();
    assert!(missing.is_empty());
    assert!(skipped.is_empty());
}

#[test]
fn install_queue_puts_dependencies_first() {
    let request = InstallRequest { package: package("me-Root", "1.0.0", 1, &[]), include_dependencies: true };
    let missing = vec![MissingDependency {
        full_name: "a-Lib".into(),
        required_version: "1.0.0".into(),
        package: Some(package("a-Lib", "1.0.0", 1, &[])),
    }];
    let queue = install_queue(&request, missing).expect("resolved");
    let names: Vec<&str> = queue.iter().map(|p| p.full_name.as_str()).collect();
    assert_eq!(names, vec!["a-Lib", "me-Root"]);
}

#[test]
fn install_queue_refuses_dependency_outside_catalog() {
    let request = InstallRequest { package: package("me-Root", "1.0.0", 1, &[]), include_dependencies: true };
    let missing = vec![
        MissingDependency { full_name: "x-Gone".into(), required_version: "1.0.0".into(), package: None },
        MissingDependency { full_name: "y-Gone".into(), required_version: "1.0.0".into(), package: None },
    ];
    match install_queue(&request, missing) {
        Err(InstallError::MissingDependency { full_name }) => assert_eq!(full_name, "x-Gone"),
        other => panic!("unexpected {other:?}"),
    }
    let alone = InstallRequest { package: package("me-Root", "1.0.0", 1, &[]), include_dependencies: false };
    let queue = install_queue(&alone, Vec::new()).unwrap();
    assert_eq!(queue.len(), 1);
    assert_eq!(queue[0].full_name, "me-Root");
}

#[test]
fn missing_dependency_message_names_it() {
    let error = InstallError::MissingDependency { full_name: "x-Gone".into() };
    assert_eq!(error.message(), "dependency 'x-Gone' is not in the thunderstore catalog");
    assert_eq!(InstallError::Zip("bad".into()).message(), "zip error: bad");
}

#[test]
fn flattened_list_sorts_by_downloads_then_name() {
    let list = vec![
        api("o-beta", 10, false, true),
        api("o-Alpha", 10, false, true),
        api("o-Old", 99, true, true),
        api("o-Empty", 50, false, false),
        api("o-Top", 20, false, true),
    ];
    let shown = flatten_packages(list);
    let names: Vec<&str> = shown.iter().map(|p| p.name.as_str()).collect();
    assert_eq!(names, vec!["Top", "Alpha", "beta"]);
}

#[test]
fn sorting_packages_keeps_ties_in_order() {
    let mut a = package("o-Same", "1.0.0", 3, &[]);
    a.description = "first".into();
    let mut b = package("o-Same", "1.0.0", 3, &[]);
    b.description = "second".into();
    let sorted = sort_packages(vec![a, package("o-Less", "1.0.0", 1, &[]), b]);
    assert_eq!(sorted[0].description, "first");
    assert_eq!(sorted[1].description, "second");
    assert_eq!(sorted[2].name, "Less");
}

#[test]
fn catalog_locations_and_freshness() {
    assert_eq!(
        cache_directory(None, Some("/home/u".into())).unwrap(),
        "/home/u/.cache/silksong-mod-manager/thunderstore"
    );
    assert_eq!(cache_directory(Some("/x".into()), None).unwrap(), "/x");
    assert_eq!(cache_directory(None, None), Err(CatalogError::CacheDirectoryUnavailable));
    assert_eq!(zip_cache_directory(Some("/x".into()), None).unwrap(), "/x/zips");
    assert_eq!(catalog_cache_path("/x"), "/x/catalog.json");
    assert!(cache_is_fresh(100, 100));
    assert!(!cache_is_fresh(101, 100));
    assert_eq!(cache_age_label(125), "updated 2m ago");
    assert_eq!(
        CatalogError::Network("timeout".into()).message(),
        "could not reach thunderstore (check your network): timeout"
    );
}

#[test]
fn browser_lookups_find_installed_packages() {
    let mut with_icon = package("o-Icon", "1.0.0", 1, &[]);
    with_icon.icon_url = "https://example.invalid/icon.png".into();
    let packages = vec![with_icon, package("o-Plain", "2.0.0", 1, &[])];
    assert_eq!(icon_url_for(&packages, "o-Icon").as_deref(), Some("https://example.invalid/icon.png"));
    assert_eq!(icon_url_for(&packages, "o-Plain"), None);
    assert_eq!(description_for(&packages, "o-Plain").as_deref(), Some("about o-Plain"));
    assert_eq!(description_for(&packages, "o-None"), None);
    assert_eq!(filter_indices(&packages, "  PLAIN "), vec![1]);
    assert_eq!(filter_indices(&packages, ""), vec![0, 1]);

    let mods = vec![
        installed("o-Plain", "Plain", Some("1.0.0"), ModSource::Thunderstore),
        installed("o-Icon", "Icon", Some("1.0.0"), ModSource::Nexus),
    ];
    assert_eq!(update_targets(&mods, &packages), vec![("o-Plain".to_string(), "2.0.0".to_string())]);
    assert!(already_installed(&mods, "o-Icon"));
    assert!(!already_installed(&mods, "o-Other"));

    let lines = dependency_prompt_lines(&vec![MissingDependency {
        full_name: "a-Lib".into(),
        required_version: "1.2.0".into(),
        package: None,
    }]);
    assert_eq!(lines, vec!["a-Lib (>= 1.2.0)".to_string()]);
}

#[test]
fn thunderstore_browser_asks_before_installing() {
    let mut browse = ThunderstoreBrowse::default();
    assert!(browse.should_auto_start());
    assert!(!browse.should_auto_start());
    assert!(browse.begin_catalog_fetch(true));
    assert_eq!(browse.status_message.as_deref(), Some("refreshing thunderstore catalog\u{2026}"));
    let mut toasts = ToastQueue::new();
    let snapshot = CatalogSnapshot {
        packages: vec![
            package("me-Root", "1.0.0", 9, &["a-Lib-1.0.0"]),
            package("a-Lib", "1.0.0", 5, &[]),
        ],
        fetched_at_unix: 5,
        from_cache: false,
        network_warning: None,
    };
    browse.catalog_finished(CatalogEvent::Ready(snapshot), &mut toasts, 1);
    assert_eq!(browse.filtered, vec![0, 1]);
    assert_eq!(browse.status_message.as_deref(), Some("loaded 2 packages"));
    assert_eq!(toasts.entries[0].message, "loaded 2 thunderstore packages");
    let root = browse.packages[0].clone();
    assert!(browse.begin_install_flow(&[], root.clone(), false).is_none());
    match &browse.pending_install {
        Some(PendingInstall::Dependencies { package, missing_names }) => {
            assert_eq!(package.full_name, "me-Root");
            assert_eq!(missing_names, &vec!["a-Lib (>= 1.0.0)".to_string()]);
        }
        other => panic!("unexpected prompt {other:?}"),
    }
    let (chosen, with_deps) = browse.answer_dependencies(DependencyChoice::WithoutDependencies).expect("install");
    assert_eq!(chosen.full_name, "me-Root");
    assert!(!with_deps);
    assert!(browse.pending_install.is_none());
    let lib = browse.packages[1].clone();
    let installed_lib = vec![installed("a-Lib", "Lib", Some("1.0.0"), ModSource::Thunderstore)];
    assert!(browse.begin_install_flow(&installed_lib, lib, false).is_none());
    assert!(matches!(browse.pending_install, Some(PendingInstall::Reinstall { .. })));
    let (again, deps) = browse.answer_reinstall(true, &installed_lib).expect("confirmed");
    assert_eq!(again.full_name, "a-Lib");
    assert!(deps);
    let (direct, deps) = browse.begin_install_flow(&installed_lib, root, false).expect("nothing missing");
    assert_eq!(direct.full_name, "me-Root");
    assert!(deps);
    assert!(browse.begin_install(&direct));
    assert_eq!(browse.status_message.as_deref(), Some("installing me-Root\u{2026}"));
    assert!(!browse.begin_install(&direct));
    let report = InstallReport {
        installed: vec!["a-Lib".into(), "me-Root".into()],
        skipped_modloader_deps: vec!["BepInEx-BepInExPack".into()],
    };
    let text = install_report_text(&report);
    assert_eq!(text, "installed a-Lib, me-Root\nmodloader dependency handled separately: BepInEx-BepInExPack");
    browse.install_finished(InstallOutcome::Done { report_text: text }, &mut toasts, 2);
    assert!(browse.take_install_changed());
    browse.install_finished(InstallOutcome::Failed("disk".into()), &mut toasts, 3);
    assert_eq!(toasts.entries.last().map(|t| t.message.as_str()), Some("install failed: disk"));
    assert_eq!(toasts.entries.last().map(|t| t.kind), Some(ToastKind::Error));
    browse.pending_install = Some(PendingInstall::Dependencies { package: direct, missing_names: Vec::new() });
    assert!(browse.answer_dependencies(DependencyChoice::Cancel).is_none());
    assert_eq!(browse.status_message.as_deref(), Some("install cancelled"));
}
