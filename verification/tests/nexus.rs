use pollip::nexus::catalog::{cache_age_label, zip_cache_directory};
use pollip::nexus::client::{download_links_url, ModListPaging};
use pollip::nexus::domain::user_agent;
use pollip::nexus::install::{nexus_entry_name, nxm_meta, pick_primary_file};
use pollip::nexus::key::{key_file_text, key_from_file_text, key_path};
use pollip::nexus::nxm::{parse_nxm_url, pending_urls_from_text, queue_line, NxmError};
use pollip::nexus::package::{strip_bbcode, ApiFile, ApiFileList, ApiMod, RemoteMod};
use pollip::nexus::client::ValidateResult;
use pollip::nexus::key::KeyError;
use pollip::nexus::settings::{NexusSettings, ValidateEvent};
use pollip::ui::toast::{ToastKind, ToastQueue};

#[test]
fn parses_premium_style_nxm_without_query() {
    let link = parse_nxm_url("nxm://hollowknightsilksong/mods/12/files/34").expect("parse");
    assert_eq!(link.game_domain, "hollowknightsilksong");
    assert_eq!(link.mod_id, 12);
    assert_eq!(link.file_id, 34);
    assert!(link.key.is_none());
}

#[test]
fn parses_free_user_nxm_with_key() {
    let link = parse_nxm_url(
        "nxm://hollowknightsilksong/mods/12/files/34?key=abc&expires=999&user_id=1",
    )
    .expect("parse");
    assert_eq!(link.key.as_deref(), Some("abc"));
    assert_eq!(link.expires.as_deref(), Some("999"));
    assert_eq!(link.user_id.as_deref(), Some("1"));
}

#[test]
fn rejects_bad_nxm_links() {
    assert_eq!(
        parse_nxm_url("https://example.com"),
        Err(NxmError::InvalidUrl("missing nxm:// scheme".to_string()))
    );
    assert_eq!(
        parse_nxm_url("nxm://game/mods/x/files/1"),
        Err(NxmError::InvalidUrl("bad mod id 'x'".to_string()))
    );
    assert_eq!(
        parse_nxm_url("  NXM://game/files/1  "),
        Err(NxmError::InvalidUrl("expected nxm://{game}/mods/{id}/files/{fileId}, got NXM://game/files/1".to_string()))
    );
    let link = parse_nxm_url("nxm://g//mods/5/files/6?key=a&key=b").expect("parse");
    assert_eq!(link.key.as_deref(), Some("b"));
}

#[test]
fn queued_links_read_back() {
    let mut text = queue_line("nxm://g/mods/1/files/2");
    text.push_str(&queue_line("  nxm://g/mods/3/files/4 "));
    text.push_str("\n");
    assert_eq!(
        pending_urls_from_text(&text),
        vec!["nxm://g/mods/1/files/2".to_string(), "nxm://g/mods/3/files/4".to_string()]
    );
}

fn api_mod(name: &str, summary: &str, description: &str) -> ApiMod {
    ApiMod {
        mod_id: 7,
        name: name.to_string(),
        summary: summary.to_string(),
        description: description.to_string(),
        picture_url: String::new(),
        version: "1.0".to_string(),
        author: "  ".to_string(),
        uploaded_by: "uploader".to_string(),
        endorsement_count: 3,
        domain_name: String::new(),
        available: true,
        status: "published".to_string(),
    }
}

#[test]
fn remote_mod_fills_missing_fields() {
    let m = RemoteMod::from_api(api_mod("", " ", "[b]Bold[/b]   text\n here")).expect("mod");
    assert_eq!(m.name, "mod 7");
    assert_eq!(m.author, "uploader");
    assert_eq!(m.description, "Bold text here");
    assert_eq!(m.domain_name, "hollowknightsilksong");
    assert_eq!(m.page_url(), "https://www.nexusmods.com/hollowknightsilksong/mods/7");
    assert!(m.matches_search("BOLD"));
    assert!(m.matches_search("7"));
    assert!(!m.matches_search("nope"));
    let mut hidden = api_mod("", "", "");
    hidden.available = false;
    assert!(RemoteMod::from_api(hidden).is_none());
    assert_eq!(strip_bbcode("a [unclosed"), "a");
}

#[test]
fn domain_key_and_cache_helpers() {
    assert_eq!(user_agent(), "silksong-mod-manager/0.1.0");
    assert_eq!(key_path("/d"), "/d/nexus-key");
    assert_eq!(key_from_file_text("  secret \n"), Some("secret".to_string()));
    assert_eq!(key_from_file_text(" \n"), None);
    assert_eq!(key_from_file_text(&key_file_text("  k1 ")), Some("k1".to_string()));
    assert_eq!(cache_age_label(59), "updated just now");
    assert_eq!(cache_age_label(150), "updated 2m ago");
    assert_eq!(cache_age_label(7300), "updated 2h ago");
    assert_eq!(zip_cache_directory("/c"), "/c/zips");
    assert_eq!(nexus_entry_name(42), "nexus-42");
}

fn file(id: u64, category: &str, primary: bool) -> ApiFile {
    ApiFile {
        file_id: id,
        name: format!("file {id}"),
        version: "2.0".to_string(),
        category_name: category.to_string(),
        is_primary: primary,
        file_name: String::new(),
    }
}

#[test]
fn picks_primary_then_main_then_first() {
    let files = vec![file(1, "OPTIONAL", false), file(2, "main", false), file(3, "MAIN", true)];
    assert_eq!(pick_primary_file(&files).map(|f| f.file_id), Some(3));
    let files = vec![file(1, "OPTIONAL", false), file(2, "Main", false)];
    assert_eq!(pick_primary_file(&files).map(|f| f.file_id), Some(2));
    let files = vec![file(1, "OPTIONAL", false)];
    assert_eq!(pick_primary_file(&files).map(|f| f.file_id), Some(1));
    assert!(pick_primary_file(&[]).is_none());
}

#[test]
fn nxm_meta_uses_the_linked_file() {
    let link = parse_nxm_url("nxm://g/mods/5/files/2").expect("parse");
    let meta = nxm_meta(&link, Some(ApiFileList { files: vec![file(1, "MAIN", true), file(2, "MAIN", false)] }));
    assert_eq!(meta.mod_name, "file 2");
    assert_eq!(meta.version, "2.0");
    let meta = nxm_meta(&link, None);
    assert_eq!(meta.mod_name, "nexus-5");
    assert_eq!(meta.version, "");
}

#[test]
fn paging_keeps_new_mods_and_stops_at_the_total() {
    let mut paging = ModListPaging::new();
    let more = paging.absorb_page(3, vec![api_mod("a", "", ""), api_mod("b", "", "")]);
    assert_eq!(paging.combined.len(), 1);
    assert_eq!(paging.offset, 2);
    assert!(more);
    let more = paging.absorb_page(99, vec![api_mod("c", "", "")]);
    assert!(!more);
    assert_eq!(paging.expected_total, Some(3));
    assert!(!paging.absorb_page(3, Vec::new()));
}

#[test]
fn a_stored_key_is_validated_on_first_look() {
    let mut settings = NexusSettings::default();
    let key = settings.load(false, Ok(Some("  abc  ".to_string())));
    assert_eq!(key.as_deref(), Some("abc"));
    assert!(settings.validating);
    assert!(!settings.validate_from_user);
    assert_eq!(settings.load(true, Ok(None)), None);
    assert!(!settings.handler_registered);
    let mut toasts = ToastQueue::new();
    let free = ValidateResult { username: "hornet".into(), is_premium: false, is_supporter: false };
    let register = settings.finish_validate(ValidateEvent::Ready(free), &mut toasts, 7);
    assert!(register);
    assert!(!settings.validating);
    assert!(!settings.catalog_refresh_pending);
    assert_eq!(settings.status_message.as_deref(), Some("validated \u{b7} hornet \u{b7} free"));
    assert_eq!(settings.account_line().as_deref(), Some("signed in as hornet \u{b7} free (non-premium)"));
    assert_eq!(toasts.entries[0].kind, ToastKind::Success);
    assert_eq!(toasts.entries[0].message, "nexus: signed in as hornet");
    settings.handler_auto_registered(&mut toasts, 8);
    assert!(settings.handler_registered);
    assert_eq!(toasts.entries[1].message, "registered nxm:// handler for free-account downloads");
}

#[test]
fn saving_a_key_validates_it_and_refreshes_the_list() {
    let mut settings = NexusSettings::default();
    assert_eq!(settings.key_to_save(), None);
    assert_eq!(settings.error_message.as_deref(), Some("api key cannot be empty"));
    settings.key_input = " k ".to_string();
    assert!(settings.can_save());
    assert_eq!(settings.key_to_save().as_deref(), Some("k"));
    let mut toasts = ToastQueue::new();
    assert_eq!(settings.key_saved(Ok(()), &mut toasts, 1).as_deref(), Some("k"));
    assert_eq!(settings.status_message.as_deref(), Some("validating\u{2026}"));
    assert!(!settings.can_save());
    let premium = ValidateResult { username: "grub".into(), is_premium: true, is_supporter: true };
    assert!(!settings.finish_validate(ValidateEvent::Ready(premium), &mut toasts, 2));
    assert!(settings.catalog_refresh_pending);
    assert!(settings.take_catalog_refresh());
    assert!(!settings.take_catalog_refresh());
    settings.key_cleared(Ok(()), &mut toasts, 3);
    assert!(settings.account.is_none());
    assert_eq!(settings.key_input, "");
    assert_eq!(settings.status_message.as_deref(), Some("nexus api key cleared"));
}

#[test]
fn failed_validation_and_registration_show_why() {
    let mut settings = NexusSettings::default();
    settings.key_input = "k".to_string();
    let mut toasts = ToastQueue::new();
    assert_eq!(settings.begin_validate(true).as_deref(), Some("k"));
    assert_eq!(settings.begin_validate(true), None);
    settings.finish_validate(ValidateEvent::Failed("nope".to_string()), &mut toasts, 1);
    assert_eq!(settings.error_message.as_deref(), Some("nope"));
    assert!(settings.status_message.is_none());
    settings.finish_validate(ValidateEvent::WorkerStopped, &mut toasts, 2);
    assert_eq!(settings.error_message.as_deref(), Some("nexus validation worker stopped unexpectedly"));
    settings.handler_registration(Err(NxmError::HomeUnavailable), &mut toasts, 3);
    assert!(!settings.handler_registered);
    assert_eq!(toasts.entries.last().map(|t| t.kind), Some(ToastKind::Error));
    settings.handler_registration(Ok("/x.desktop".to_string()), &mut toasts, 4);
    assert!(settings.handler_registered);
    assert_eq!(settings.status_message.as_deref(), Some("registered nxm handler at /x.desktop"));
    settings.key_saved(Err(KeyError::HomeUnavailable), &mut toasts, 5);
    assert_eq!(settings.error_message.as_deref(), Some("HOME is unset; cannot store nexus api key"));
}

#[test]
fn download_link_addresses_carry_the_nxm_key_when_present() {
    let premium = "https://api.nexusmods.com/v1/games/hollowknightsilksong/mods/12/files/34/download_link.json";
    assert_eq!(download_links_url("hollowknightsilksong", 12, 34, None, None), premium);
    assert_eq!(
        download_links_url("hollowknightsilksong", 12, 34, Some("k".into()), Some("99".into())),
        format!("{premium}?key=k&expires=99")
    );
    assert_eq!(download_links_url("hollowknightsilksong", 12, 34, Some("k".into()), None), premium);
}
