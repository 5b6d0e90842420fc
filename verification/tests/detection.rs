use pollip::detection::steam::{candidate_steam_roots, common_folders_from_steam_roots, library_paths_from_vdf, push_unique};
use pollip::detection::{find_under_common_folders, inspect_install_folder, BuildKind, DetectionError, InstallProbe};
use pollip::platform::{cache_directory, data_directory, steam_root_candidates, HostOs};

#[test]
fn reads_library_paths_from_vdf() {
    let contents = r#"
"libraryfolders"
{
	"0"
	{
		"path"		"/home/player/.local/share/Steam"
		"apps"
		{
			"1030300"		"12000"
		}
	}
	"1"
	{
		"path"		"/mnt/games/SteamLibrary"
	}
}
"#;

    let paths = library_paths_from_vdf(contents);
    assert_eq!(
        paths,
        vec![
            "/home/player/.local/share/Steam".to_string(),
            "/mnt/games/SteamLibrary".to_string(),
        ]
    );
}

#[test]
fn candidate_roots_include_flatpak_and_snap() {
    let home = "/home/player";
    let roots = candidate_steam_roots(home);
    assert!(roots.contains(&"/home/player/.local/share/Steam".to_string()));
    assert!(roots.contains(&"/home/player/.var/app/com.valvesoftware.Steam/.local/share/Steam".to_string()));
    assert!(roots.contains(&"/home/player/snap/steam/common/.local/share/Steam".to_string()));
}

#[test]
fn steam_roots_include_the_current_platform_default() {
    let roots = steam_root_candidates("/home/player", HostOs::Linux);
    assert!(roots.contains(&"/home/player/.local/share/Steam".to_string()));
    let roots = steam_root_candidates("/home/player", HostOs::MacOs);
    assert!(roots.contains(&"/home/player/Library/Application Support/Steam".to_string()));
}

#[test]
fn per_user_folders() {
    assert_eq!(data_directory("/home/p", HostOs::Linux), "/home/p/.local/share/pollip");
    assert_eq!(cache_directory("/home/p/", HostOs::Linux), "/home/p/.cache/pollip");
    assert_eq!(data_directory("/home/p", HostOs::MacOs), "/home/p/Library/Application Support/pollip");
    assert_eq!(cache_directory("/home/p", HostOs::MacOs), "/home/p/Library/Caches/pollip");
}

fn probe(windows: bool, macos: bool, native: bool) -> InstallProbe {
    InstallProbe {
        exists: true,
        is_dir: true,
        windows_executable: windows,
        macos_application: macos,
        native_executable: native,
        proton_prefix: Some("/lib/steamapps/compatdata/1030300/pfx".to_string()),
    }
}

#[test]
fn prefers_windows_executable_when_both_present() {
    let found = inspect_install_folder("/lib/common/Hollow Knight Silksong", &probe(true, false, true)).expect("install");
    assert_eq!(found.build_kind, BuildKind::Proton);
    assert_eq!(found.executable, "/lib/common/Hollow Knight Silksong/Hollow Knight Silksong.exe");
    assert_eq!(found.proton_prefix.as_deref(), Some("/lib/steamapps/compatdata/1030300/pfx"));
    let native = inspect_install_folder("/x", &probe(false, false, true)).expect("native");
    assert_eq!(native.build_kind, BuildKind::NativeLinux);
    assert_eq!(native.proton_prefix, None);
    let mac = inspect_install_folder("/x", &probe(false, true, true)).expect("mac");
    assert_eq!(mac.executable, "/x/Hollow Knight Silksong.app");
}

#[test]
fn reports_missing_pieces() {
    assert_eq!(
        inspect_install_folder("/x", &probe(false, false, false)),
        Err(DetectionError::ExecutableMissing { install_folder: "/x".to_string() })
    );
    let mut missing = probe(true, false, false);
    missing.exists = false;
    assert_eq!(
        inspect_install_folder("/x", &missing),
        Err(DetectionError::PathMissing { path: "/x".to_string() })
    );
}

#[test]
fn finds_first_common_folder_with_the_game() {
    let folders = vec!["/a/common".to_string(), "/b/common".to_string()];
    assert_eq!(
        find_under_common_folders(&folders, &vec![false, true]),
        Ok("/b/common/Hollow Knight Silksong".to_string())
    );
    assert_eq!(
        find_under_common_folders(&folders, &vec![false, false]),
        Err(DetectionError::InstallNotFound { searched: folders.clone() })
    );
}

#[test]
fn common_folders_come_from_libraries_then_root_without_repeats() {
    let roots = vec!["/r".to_string()];
    let vdf = "\"path\"\t\t\"/r\"\n\"path\"\t\t\"/extra\"\n".to_string();
    let folders = common_folders_from_steam_roots(&roots, &vec![Some(vdf)]);
    assert_eq!(folders, vec!["/r/steamapps/common".to_string(), "/extra/steamapps/common".to_string()]);
    let mut list = vec!["a".to_string()];
    push_unique(&mut list, "a".to_string());
    push_unique(&mut list, "b".to_string());
    assert_eq!(list, vec!["a".to_string(), "b".to_string()]);
}

#[test]
fn paths_that_differ_only_in_separators_count_once() {
    let mut list: Vec<String> = Vec::new();
    push_unique(&mut list, "/a/b".to_string());
    push_unique(&mut list, "/a/b/".to_string());
    push_unique(&mut list, "/a//./b".to_string());
    push_unique(&mut list, "a/b".to_string());
    push_unique(&mut list, "./a/b".to_string());
    push_unique(&mut list, "a//b".to_string());
    assert_eq!(list, vec!["/a/b".to_string(), "a/b".to_string(), "./a/b".to_string()]);
}
