use pollip::nexus::nxm::{pending_urls_from_text, queue_line};
use pollip::nexus::client::ModListPaging;
use pollip::nexus::nxm::{desktop_entry_text, mimeapps_registers_handler, upsert_mime_default_text};
use pollip::config::scan::{scan_config_files, sort_config_files, ConfigError, ConfigFileSummary, FolderEntry};
use pollip::nexus::browse::{description_for, filter_indices, icon_url_for, mod_id_of_entry};
use pollip::nexus::catalog::{flatten_mods, sort_remote_mods};
use pollip::nexus::client::{classify_response, split_status, ClientError, GraphqlModNode};
use pollip::nexus::package::{ApiMod, RemoteMod};
use pollip::nexus::settings::format_validate_error;
use pollip::nexus::browse::{nxm_install_report, premium_install_report, split_pending_links, CatalogEvent, InstallOutcome, NexusBrowse};
use pollip::nexus::catalog::CatalogSnapshot;
use pollip::ui::toast::{ToastKind, ToastQueue};

fn api_mod(mod_id: u64, name: &str, endorsements: u64, available: bool) -> ApiMod {
    ApiMod {
        mod_id,
        name: name.into(),
        summary: format!("summary {mod_id}"),
        description: String::new(),
        picture_url: String::new(),
        version: "1.0".into(),
        author: "author".into(),
        uploaded_by: String::new(),
        endorsement_count: endorsements,
        domain_name: "hollowknightsilksong".into(),
        available,
        status: String::new(),
    }
}

fn remote(mod_id: u64, name: &str, endorsements: u64, picture: &str) -> RemoteMod {
    RemoteMod {
        mod_id,
        name: name.into(),
        author: "author".into(),
        version: "1.0".into(),
        endorsement_count: endorsements,
        description: format!("about {name}"),
        summary: String::new(),
        picture_url: picture.into(),
        domain_name: "hollowknightsilksong".into(),
    }
}

fn entry(file_name: &str, is_file: bool, extension: Option<&str>) -> FolderEntry {
    FolderEntry {
        path: format!("/g/BepInEx/config/{file_name}"),
        file_name: file_name.into(),
        is_file,
        extension: extension.map(str::to_string),
    }
}

#[test]
fn flattened_mods_sort_by_endorsements_then_name() {
    let list = vec![
        api_mod(1, "zeta", 5, true),
        api_mod(2, "", 9, false),
        api_mod(3, "Beta", 5, true),
        api_mod(4, "", 1, true),
        api_mod(5, "Top", 50, false),
    ];
    let shown = flatten_mods(list);
    let names: Vec<&str> = shown.iter().map(|m| m.name.as_str()).collect();
    assert_eq!(names, vec!["Top", "Beta", "zeta", "mod 4"]);
    let sorted = sort_remote_mods(vec![remote(1, "b", 1, ""), remote(2, "a", 1, ""), remote(3, "c", 2, "")]);
    let ids: Vec<u64> = sorted.iter().map(|m| m.mod_id).collect();
    assert_eq!(ids, vec![3, 2, 1]);
}

#[test]
fn nexus_browser_lookups_use_the_entry_id() {
    let mods = vec![remote(12, "Pic", 1, "https://example.invalid/p.png"), remote(13, "NoPic", 1, "")];
    assert_eq!(mod_id_of_entry("nexus-12"), Some(12));
    assert_eq!(mod_id_of_entry("nexus-x"), None);
    assert_eq!(mod_id_of_entry("other-12"), None);
    assert_eq!(icon_url_for(&mods, "nexus-12").as_deref(), Some("https://example.invalid/p.png"));
    assert_eq!(icon_url_for(&mods, "nexus-13"), None);
    assert_eq!(description_for(&mods, "nexus-13").as_deref(), Some("about NoPic"));
    assert_eq!(filter_indices(&mods, "nopic"), vec![1]);
    assert_eq!(filter_indices(&mods, "12"), vec![0]);
}

#[test]
fn curl_output_splits_into_body_and_status() {
    assert_eq!(split_status("{\"ok\":1}\n200\n").unwrap(), ("{\"ok\":1}".to_string(), 200));
    assert_eq!(split_status("a\nb\n 404 ").unwrap(), ("a\nb".to_string(), 404));
    assert_eq!(
        split_status("no trailer"),
        Err(ClientError::Decode("curl response missing http status trailer".into()))
    );
    assert_eq!(
        split_status("body\nabc"),
        Err(ClientError::Decode("could not parse http status 'abc'".into()))
    );
    assert_eq!(classify_response("b".into(), 201), Ok("b".to_string()));
    assert_eq!(classify_response("b".into(), 401), Err(ClientError::Unauthorized));
    assert_eq!(classify_response("b".into(), 403), Err(ClientError::Forbidden("b".into())));
    assert_eq!(classify_response("b".into(), 429), Err(ClientError::RateLimited));
    assert_eq!(classify_response("b".into(), 500), Err(ClientError::Http { status: 500, detail: "b".into() }));
}

#[test]
fn client_errors_read_clearly() {
    assert_eq!(ClientError::Http { status: 502, detail: "bad gateway".into() }.message(), "nexus http 502: bad gateway");
    assert_eq!(
        format_validate_error(ClientError::Unauthorized),
        "invalid nexus api key \u{2014} check the key and try again"
    );
    assert_eq!(
        format_validate_error(ClientError::Network("down".into())),
        "could not reach nexus mods (check your network): down"
    );
}

#[test]
fn graphql_node_becomes_api_mod() {
    let node = GraphqlModNode {
        mod_id: 8,
        name: "Eight".into(),
        version: "1.1".into(),
        summary: "s".into(),
        author: "a".into(),
        picture_url: "p".into(),
        endorsements: 3,
        status: "Published".into(),
        game_domain: Some(String::new()),
        uploader_name: Some("up".into()),
    };
    let api = node.into_api_mod("fallback");
    assert_eq!(api.domain_name, "fallback");
    assert_eq!(api.uploaded_by, "up");
    assert!(api.available);
    assert_eq!(api.endorsement_count, 3);
    let hidden = GraphqlModNode {
        mod_id: 9,
        name: String::new(),
        version: String::new(),
        summary: String::new(),
        author: String::new(),
        picture_url: String::new(),
        endorsements: 0,
        status: "hidden".into(),
        game_domain: Some("other".into()),
        uploader_name: None,
    };
    let api = hidden.into_api_mod("fallback");
    assert_eq!(api.domain_name, "other");
    assert_eq!(api.uploaded_by, "");
    assert!(!api.available);
}

#[test]
fn config_scan_keeps_cfg_files_sorted() {
    let entries = vec![
        entry("zeta.cfg", true, Some("cfg")),
        entry("notes.txt", true, Some("txt")),
        entry("nested", false, None),
        entry("Alpha.CFG", true, Some("CFG")),
        entry("alpha.cfg", true, Some("cfg")),
    ];
    let files = scan_config_files("/g", true, true, entries).expect("scan");
    let names: Vec<&str> = files.iter().map(|f| f.file_name.as_str()).collect();
    assert_eq!(names, vec!["Alpha.CFG", "alpha.cfg", "zeta.cfg"]);
    assert_eq!(files[0].display_name, "Alpha");
    assert!(scan_config_files("/g", false, false, Vec::new()).unwrap().is_empty());
    assert_eq!(
        scan_config_files("/g", true, false, Vec::new()),
        Err(ConfigError::NotADirectory { path: "/g/BepInEx/config".into() })
    );
    let one = ConfigFileSummary { path: "/p".into(), file_name: "b.cfg".into(), display_name: "b".into() };
    assert_eq!(sort_config_files(vec![one.clone()]), vec![one]);
}

#[test]
fn queued_link_appended_to_a_queue_reads_back_last() {
    let mut text = String::new();
    text.push_str(&queue_line("nxm://a/mods/1/files/2"));
    text.push_str(&queue_line("  nxm://a/mods/3/files/4\r"));
    assert_eq!(
        pending_urls_from_text(&text),
        vec!["nxm://a/mods/1/files/2".to_string(), "nxm://a/mods/3/files/4".to_string()]
    );
}

#[test]
fn paging_never_keeps_a_mod_twice() {
    let mut paging = ModListPaging::new();
    paging.absorb_page(10, vec![api_mod(1, "a", 0, true), api_mod(2, "b", 0, true), api_mod(1, "a", 0, true)]);
    paging.absorb_page(10, vec![api_mod(2, "b", 0, true), api_mod(3, "c", 0, true)]);
    let ids: Vec<u64> = paging.combined.iter().map(|m| m.mod_id).collect();
    assert_eq!(ids, vec![1, 2, 3]);
    assert_eq!(paging.seen, vec![1, 2, 3]);
}

#[test]
fn mimeapps_gets_the_manager_as_nxm_handler() {
    let desktop = "silksong-mod-manager-nxm.desktop";
    let mime = "x-scheme-handler/nxm";
    assert_eq!(
        upsert_mime_default_text("[Added Associations]\nfoo=bar.desktop", mime, desktop),
        "[Added Associations]\nfoo=bar.desktop\n\n[Default Applications]\nx-scheme-handler/nxm=silksong-mod-manager-nxm.desktop\n"
    );
    assert_eq!(
        upsert_mime_default_text("[Default Applications]\n  x-scheme-handler/nxm=old.desktop\n", mime, desktop),
        "[Default Applications]\nx-scheme-handler/nxm=silksong-mod-manager-nxm.desktop\n"
    );
    assert_eq!(
        upsert_mime_default_text("", mime, desktop),
        "[Default Applications]\nx-scheme-handler/nxm=silksong-mod-manager-nxm.desktop\n"
    );
    let written = upsert_mime_default_text("", mime, desktop);
    assert!(mimeapps_registers_handler(&written));
    assert!(!mimeapps_registers_handler("[Default Applications]\nx-scheme-handler/nxm=other.desktop\n"));
    assert!(desktop_entry_text("/opt/pollip").contains("Exec=\"/opt/pollip\" %u\n"));
}

#[test]
fn nexus_browser_takes_in_loaded_lists_and_installs() {
    let mut browse = NexusBrowse::default();
    assert!(!browse.should_auto_start(false));
    assert!(browse.should_auto_start(true));
    assert!(!browse.should_auto_start(true));
    assert!(browse.begin_catalog_fetch(false));
    assert_eq!(browse.status_message.as_deref(), Some("loading nexus catalog\u{2026}"));
    assert!(!browse.begin_catalog_fetch(true));
    let mut toasts = ToastQueue::new();
    let snapshot = CatalogSnapshot {
        mods: vec![remote(1, "Alpha", 5, ""), remote(2, "Beta", 3, "")],
        fetched_at_unix: 100,
        from_cache: true,
        network_warning: Some("offline".into()),
    };
    browse.search_query = "beta".into();
    browse.catalog_finished(CatalogEvent::Ready(snapshot), &mut toasts, 1);
    assert!(!browse.catalog_busy);
    assert_eq!(browse.filtered, vec![1]);
    assert_eq!(browse.fetched_at_unix, Some(100));
    assert_eq!(browse.error_message.as_deref(), Some("offline"));
    assert_eq!(browse.status_message.as_deref(), Some("showing 2 cached mods"));
    assert_eq!(toasts.entries[0].message, "nexus offline \u{2014} showing 2 cached mods");
    assert!(browse.begin_premium_install(&remote(1, "Alpha", 5, "")));
    assert_eq!(browse.status_message.as_deref(), Some("installing Alpha\u{2026}"));
    assert!(browse.begin_nxm_install("nxm://hollowknightsilksong/mods/3/files/4").is_none());
    browse.install_finished(InstallOutcome::Done { report_text: premium_install_report(&remote(1, "Alpha", 5, "")) }, &mut toasts, 2);
    assert!(browse.take_install_changed());
    assert!(!browse.take_install_changed());
    assert_eq!(browse.status_message.as_deref(), Some("installed Alpha"));
    let link = browse.begin_nxm_install("nxm://hollowknightsilksong/mods/3/files/4").expect("link");
    assert_eq!(browse.status_message.as_deref(), Some("installing nexus mod 3 (file 4)\u{2026}"));
    assert_eq!(nxm_install_report(&link), "installed nexus-3");
    browse.install_finished(InstallOutcome::Failed("no space".into()), &mut toasts, 3);
    assert_eq!(toasts.entries.last().map(|t| t.message.as_str()), Some("nexus install failed: no space"));
    assert_eq!(toasts.entries.last().map(|t| t.kind), Some(ToastKind::Error));
    assert!(browse.begin_nxm_install("http://example.com").is_none());
    assert!(browse.error_message.as_deref().unwrap_or_default().starts_with("invalid nxm url: "));
    assert!(browse.can_take_pending(true));
    let (first, rest) = split_pending_links(vec!["a".into(), "b".into()], &mut toasts, 4);
    assert_eq!(first.as_deref(), Some("a"));
    assert_eq!(rest, vec!["b".to_string()]);
    assert_eq!(toasts.entries.last().map(|t| t.message.as_str()), Some("received nexus mod manager download"));
    browse.catalog_finished(CatalogEvent::WorkerStopped, &mut toasts, 5);
    assert_eq!(browse.error_message.as_deref(), Some("nexus catalog worker stopped unexpectedly"));
    assert_eq!(browse.mods.len(), 2);
}
