use pollip::config::parse::ParseError;
use pollip::config::model::ValueCoerceError;
use pollip::detection::{BuildKind, DetectionError};
use pollip::launch::logging::LogError;
use pollip::mods::manage::ModError;
use pollip::nexus::catalog::CatalogError;
use pollip::nexus::key::KeyError;
use pollip::nexus::nxm::NxmError;
use pollip::settings::bepinex::install::InstallError;
use pollip::settings::bepinex::launch::{
    extract_launch_options, upsert_launch_options, LaunchGameError, LaunchOptionsOutcome, LaunchScriptAction,
};
use pollip::settings::bepinex::pack::PackError;
use pollip::settings::bepinex::status::{
    contains_bytes, is_plausible_bepinex_version, pack_version_from_text, version_hint, BepinexStatus,
};
use pollip::settings::preferences::PreferencesError;
use pollip::settings::{describe_configure_outcome, install_button, script_summary, status_versions};

const BLOCK: &str = "\"UserLocalConfigStore\"\n{\n\t\"apps\"\n\t{\n\t\t\"1030300\"\n\t\t{\n\t\t\t\"LastPlayed\"\t\t\"1\"\n\t\t}\n\t}\n}\n";

#[test]
fn launch_options_read_back_as_written() {
    let value = r#"A="x\y" %command%"#;
    let updated = upsert_launch_options(BLOCK, 1_030_300, value).expect("block exists");
    assert!(updated.contains("\t\t\t\"LaunchOptions\"\t\t\"A=\\\"x\\\\y\\\" %command%\""));
    assert_eq!(extract_launch_options(&updated, 1_030_300).as_deref(), Some(value));
    let again = upsert_launch_options(&updated, 1_030_300, "-windowed").expect("block exists");
    assert_eq!(extract_launch_options(&again, 1_030_300).as_deref(), Some("-windowed"));
    assert_eq!(upsert_launch_options(BLOCK, 42, "-windowed"), None);
}

#[test]
fn launch_value_ending_in_a_quote_does_not_read_back() {
    let updated = upsert_launch_options(BLOCK, 1_030_300, "a\"").expect("block exists");
    assert_eq!(extract_launch_options(&updated, 1_030_300).as_deref(), Some("a\\"));
}

#[test]
fn bepinex_version_is_read_from_assembly_bytes() {
    assert_eq!(version_hint(b"BepInEx 5.4.23.4 loader").as_deref(), Some("5.4.23.4"));
    assert_eq!(version_hint(b"xx 6.0.0.1 yy 5.4.22.0\xffzz").as_deref(), Some("5.4.22.0"));
    assert_eq!(version_hint(b"5.4.1234.0 and 5.1.2"), None);
    assert!(is_plausible_bepinex_version("5.4.21.0"));
    assert!(!is_plausible_bepinex_version("5.4.21"));
    assert!(!is_plausible_bepinex_version("4.4.21.0"));
    assert!(!is_plausible_bepinex_version("5..21.0"));
    assert!(contains_bytes(b"abcdef", b"cde"));
    assert!(!contains_bytes(b"abc", b"abcd"));
    assert_eq!(pack_version_from_text(" 1.0.3\n").as_deref(), Some("1.0.3"));
    assert_eq!(pack_version_from_text("  \n"), None);
}

#[test]
fn settings_panel_texts_and_button() {
    let status = BepinexStatus::NeedsUpdate {
        pack_version: None,
        bepinex_version: Some("5.4.22.0".into()),
        recommended_pack_version: "1.0.3".into(),
    };
    assert_eq!(
        status_versions(&status).as_deref(),
        Some("installed pack unknown, bepinex 5.4.22.0, recommended pack 1.0.3")
    );
    assert_eq!(status_versions(&BepinexStatus::NotInstalled), None);
    assert_eq!(install_button(&status, false), ("update bepinex", true));
    assert_eq!(install_button(&status, true), ("update bepinex", false));
    assert_eq!(install_button(&BepinexStatus::NotInstalled, false), ("install bepinex", false));
    let script = LaunchScriptAction::AlreadyPresent { path: "/g/smm_launch.sh".into() };
    assert_eq!(script_summary(&script), "kept editable /g/smm_launch.sh");
    let outcome = LaunchOptionsOutcome::Updated {
        localconfig_path: "/s/localconfig.vdf".into(),
        launch_options: "./smm_launch.sh %command%".into(),
        script,
        steam_restart_recommended: true,
    };
    assert_eq!(
        describe_configure_outcome(&outcome),
        "wrote steam launch options to /s/localconfig.vdf (./smm_launch.sh %command%); script kept editable /g/smm_launch.sh\nfully restart steam once so the options stick"
    );
}

#[test]
fn error_messages_match_what_users_see() {
    let parse = ParseError { line_number: 2, line_text: "not valid".into(), reason: "expected key".into() };
    assert_eq!(parse.message(), "config parse error on line 2: expected key (not valid)");
    assert!(parse.message().contains("line 2"));
    assert_eq!(
        ValueCoerceError::InvalidInteger { raw: "x".into() }.message(),
        "expected an integer, got 'x'"
    );
    assert_eq!(BuildKind::Proton.label(), "proton");
    assert_eq!(
        DetectionError::InstallNotFound { searched: vec!["/a".into(), "/b".into()] }.message(),
        "could not find \"Hollow Knight Silksong\" under any steam common folder. searched:\n  - /a\n  - /b"
    );
    assert_eq!(
        DetectionError::InstallNotFound { searched: Vec::new() }.message(),
        "could not find \"Hollow Knight Silksong\" under any steam common folder (no steam library paths were available to search)"
    );
    assert_eq!(LogError::OpenFailed { path: "/l".into(), detail: "denied".into() }.message(), "could not open log file /l: denied");
    assert_eq!(
        ModError::DestinationTaken { path: "/m".into() }.message(),
        "cannot move mod because /m already exists"
    );
    assert_eq!(CatalogError::MissingApiKey.message(), "add your nexus mods api key in settings before browsing");
    assert_eq!(KeyError::Io("disk".into()).message(), "nexus key io error: disk");
    assert_eq!(NxmError::InvalidUrl("x".into()).message(), "invalid nxm url: x");
    assert_eq!(
        InstallError::Pack(PackError::DownloadFailed { detail: "404".into() }).message(),
        "failed to download silksong_modding-BepInExPack_Silksong-1.0.3: 404"
    );
    assert_eq!(InstallError::MissingPackRoot.message(), "archive does not contain a BepInExPack/ root folder");
    assert_eq!(LaunchGameError::Io("x".into()).message(), "could not prepare launch: x");
    assert_eq!(PreferencesError::Decode("bad".into()).message(), "preferences json error: bad");
}
