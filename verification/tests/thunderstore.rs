use pollip::mods::inventory::{InstalledMod, ModKind, ModSource};
use pollip::thunderstore::install::{dependency_satisfied, find_update_version, match_installed_package};
use pollip::thunderstore::package::{
    compare_versions, is_modloader_pack, parse_dependency, version_is_newer, ApiPackage, ApiVersion,
    RemotePackage,
};
use std::cmp::Ordering;

fn remote(name: &str, full_name: &str, version: &str) -> RemotePackage {
    RemotePackage {
        name: name.into(),
        full_name: full_name.into(),
        owner: "owner".into(),
        description: String::new(),
        version: version.into(),
        version_full_name: format!("{full_name}-{version}"),
        downloads: 1,
        download_url: "https://example.invalid".into(),
        icon_url: String::new(),
        dependencies: Vec::new(),
        date_updated: String::new(),
        is_deprecated: false,
    }
}

fn installed(entry_name: &str, display_name: &str, version: Option<&str>) -> InstalledMod {
    InstalledMod {
        entry_name: entry_name.into(),
        display_name: display_name.into(),
        version: version.map(str::to_string),
        enabled: true,
        path: format!("/tmp/{entry_name}"),
        kind: ModKind::Folder,
        source: ModSource::Thunderstore,
    }
}

#[test]
fn finds_update_when_remote_is_newer() {
    let installed = installed("owner-Sample", "Sample", Some("1.0.0"));
    let remote = remote("Sample", "owner-Sample", "1.1.0");
    assert_eq!(
        find_update_version(&installed, &[remote]).as_deref(),
        Some("1.1.0")
    );
}

#[test]
fn parses_dependency_identity() {
    let (full_name, version) = parse_dependency("cometcake575-Architect-3.32.3").expect("parse");
    assert_eq!(full_name, "cometcake575-Architect");
    assert_eq!(version, "3.32.3");
}

#[test]
fn compares_dotted_versions() {
    assert!(version_is_newer("1.2.3", "1.2.2"));
    assert!(!version_is_newer("1.2.3", "1.2.3"));
    assert!(!version_is_newer("1.2.3", "2.0.0"));
}

#[test]
fn search_matches_owner_and_description() {
    let package = RemotePackage {
        name: "FsmUtil".into(),
        full_name: "silksong_modding-FsmUtil".into(),
        owner: "silksong_modding".into(),
        description: "PlayMaker helpers".into(),
        version: "0.3.17".into(),
        version_full_name: "silksong_modding-FsmUtil-0.3.17".into(),
        downloads: 10,
        download_url: "https://example.invalid".into(),
        icon_url: String::new(),
        dependencies: Vec::new(),
        date_updated: String::new(),
        is_deprecated: false,
    };
    assert!(package.matches_search("playmaker"));
    assert!(package.matches_search("SILKSONG_MODDING"));
    assert!(!package.matches_search("architect"));
}

#[test]
fn builds_icon_url_when_api_icon_missing() {
    let package = RemotePackage::from_api(ApiPackage {
        name: "FsmUtil".into(),
        full_name: "silksong_modding-FsmUtil".into(),
        owner: "silksong_modding".into(),
        date_updated: String::new(),
        is_deprecated: false,
        versions: vec![ApiVersion {
            name: "FsmUtil".into(),
            full_name: "silksong_modding-FsmUtil-0.3.17".into(),
            description: String::new(),
            version_number: "0.3.17".into(),
            downloads: 1,
            download_url: "https://example.invalid".into(),
            icon: String::new(),
            dependencies: Vec::new(),
        }],
    })
    .expect("package");
    assert_eq!(
        package.icon_url,
        "https://gcdn.thunderstore.io/live/repository/icons/silksong_modding-FsmUtil-0.3.17.png"
    );
}

#[test]
fn version_order_edge_cases() {
    assert_eq!(compare_versions("1.2", "1.2.0"), Ordering::Equal);
    assert_eq!(compare_versions("1.10", "1.9"), Ordering::Greater);
    assert_eq!(compare_versions("2.0-beta", "2.0"), Ordering::Equal);
    assert_eq!(compare_versions("1.x.3", "1.0.3"), Ordering::Greater);
    assert!(version_is_newer("0.0.1", ""));
}

#[test]
fn dependency_strings_and_loaders() {
    assert_eq!(parse_dependency("a-b"), None);
    assert_eq!(parse_dependency("a-b-1.2"), None);
    assert_eq!(parse_dependency("a-b-c-1.2.3"), Some(("a-b-c".to_string(), "1.2.3".to_string())));
    assert!(is_modloader_pack("silksong_modding-BepInExPack_Silksong"));
    assert!(!is_modloader_pack("owner-Mod"));
}

#[test]
fn matches_packages_by_full_name_then_name() {
    let packages = vec![remote("Other", "x-Other", "1.0.0"), remote("sample", "y-Sample", "2.0.0")];
    let by_name = installed("Sample", "Sample", None);
    assert_eq!(match_installed_package(&by_name, &packages).map(|p| p.full_name.clone()), Some("y-Sample".to_string()));
    let by_full = installed("x-Other", "zzz", None);
    assert_eq!(match_installed_package(&by_full, &packages).map(|p| p.name.clone()), Some("Other".to_string()));
    assert!(match_installed_package(&installed("none", "none", None), &packages).is_none());
    assert_eq!(find_update_version(&installed("Sample", "Sample", None), &packages), None);
}

#[test]
fn satisfied_dependencies() {
    let mods = vec![installed("owner-Lib", "Lib", Some("1.2.0"))];
    assert!(dependency_satisfied("owner-Lib", "1.1.0", &mods));
    assert!(!dependency_satisfied("owner-Lib", "1.3.0", &mods));
    assert!(dependency_satisfied("other-Lib", "1.2.0", &mods));
    assert!(!dependency_satisfied("owner-Missing", "1.0.0", &mods));
}
