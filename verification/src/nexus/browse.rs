//! What the Nexus Mods browser looks up: which mods match the search, and
//! the picture and description of an installed Nexus mod.
use vstd::prelude::*;

use super::catalog::CatalogSnapshot;
use super::client::ValidateResult;
use super::nxm::{parse_nxm_spec, parse_nxm_url, NxmLink};
use super::package::{mod_matches, RemoteMod};
use crate::text::{append_str, concat_str, decimal, decimal_string, str_eq};
use crate::ui::toast::{shows, ToastKind, ToastQueue};
use crate::text::{chars_of, parse_u64, parse_u64_spec, slice_chars, starts_with};

verus! {

/// Indices, in order, of the first `n` mods that match the query.
pub open spec fn matching_upto(mods: Seq<RemoteMod>, query: Seq<char>, n: int) -> Seq<usize>
    decreases n,
{
    if n <= 0 {
        Seq::empty()
    } else {
        let prev = matching_upto(mods, query, n - 1);
        if mod_matches(mods[n - 1], query) {
            prev.push((n - 1) as usize)
        } else {
            prev
        }
    }
}

/// The mods, by index, that match the search.
pub fn filter_indices(mods: &Vec<RemoteMod>, query: &str) -> (r: Vec<usize>)
    ensures
        r@ == matching_upto(mods@, query@, mods.len() as int),
{
    let mut r: Vec<usize> = Vec::new();
    let mut i: usize = 0;
    while i < mods.len()
        invariant
            i <= mods.len(),
            r@ == matching_upto(mods@, query@, i as int),
        decreases mods.len() - i,
    {
        if mods[i].matches_search(query) {
            r.push(i);
        }
        i += 1;
    }
    r
}

/// The mod id an installed Nexus mod's entry name carries: what follows
/// `nexus-`, read as a `u64`.
pub open spec fn entry_mod_id(entry_name: Seq<char>) -> Option<nat> {
    if starts_with(entry_name, "nexus-"@) {
        parse_u64_spec(entry_name.skip(6))
    } else {
        None
    }
}

/// Reads the mod id from an entry name.
pub fn mod_id_of_entry(entry_name: &str) -> (r: Option<u64>)
    ensures
        match entry_mod_id(entry_name@) {
            Some(n) => r == Some(n as u64),
            None => r is None,
        },
{
    let v = chars_of(entry_name);
    proof {
        reveal_strlit("nexus-");
    }
    if v.len() < 6 || v[0] != 'n' || v[1] != 'e' || v[2] != 'x' || v[3] != 'u' || v[4] != 's' || v[5] != '-' {
        assert(!starts_with(entry_name@, "nexus-"@)) by {
            if starts_with(entry_name@, "nexus-"@) {
                let p = entry_name@.subrange(0, 6);
                assert(p == "nexus-"@);
                assert(v@[0] == p[0] && v@[1] == p[1] && v@[2] == p[2]);
                assert(v@[3] == p[3] && v@[4] == p[4] && v@[5] == p[5]);
            }
        }
        return None;
    }
    assert(entry_name@.subrange(0, 6) =~= "nexus-"@);
    let rest = slice_chars(&v, 6, v.len());
    assert(rest@ =~= entry_name@.skip(6));
    parse_u64(&rest)
}

/// Index of the first mod with the id.
pub open spec fn mod_with_id(mods: Seq<RemoteMod>, id: nat, i: int) -> Option<int>
    decreases mods.len() - i,
{
    if i < 0 || i >= mods.len() {
        None
    } else if mods[i].mod_id == id {
        Some(i)
    } else {
        mod_with_id(mods, id, i + 1)
    }
}

/// The listed mod an installed entry is, by the id in its name.
pub open spec fn entry_mod(mods: Seq<RemoteMod>, entry_name: Seq<char>) -> Option<int> {
    match entry_mod_id(entry_name) {
        Some(id) => mod_with_id(mods, id, 0),
        None => None,
    }
}

/// Finds the listed mod an installed entry is.
fn find_entry_mod(mods: &Vec<RemoteMod>, entry_name: &str) -> (r: Option<usize>)
    ensures
        match entry_mod(mods@, entry_name@) {
            Some(i) => r is Some && r->0 as int == i,
            None => r is None,
        },
        r is Some ==> r->0 < mods.len(),
{
    let id = match mod_id_of_entry(entry_name) {
        Some(id) => id,
        None => {
            return None;
        },
    };
    let mut i: usize = 0;
    while i < mods.len()
        invariant
            i <= mods.len(),
            entry_mod_id(entry_name@) == Some(id as nat),
            mod_with_id(mods@, id as nat, 0) == mod_with_id(mods@, id as nat, i as int),
        decreases mods.len() - i,
    {
        if mods[i].mod_id == id {
            return Some(i);
        }
        i += 1;
    }
    None
}

/// The picture of an installed Nexus mod, when the list has the mod and
/// the picture address is not empty.
pub fn icon_url_for(mods: &Vec<RemoteMod>, entry_name: &str) -> (r: Option<String>)
    ensures
        match entry_mod(mods@, entry_name@) {
            Some(i) => if mods@[i].picture_url@.len() > 0 {
                r matches Some(u) && u@ == mods@[i].picture_url@
            } else {
                r is None
            },
            None => r is None,
        },
{
    match find_entry_mod(mods, entry_name) {
        Some(i) => {
            if chars_of(mods[i].picture_url.as_str()).len() > 0 {
                Some(mods[i].picture_url.clone())
            } else {
                None
            }
        },
        None => None,
    }
}

/// The description of an installed Nexus mod, when the list has the mod
/// and the description is not empty.
pub fn description_for(mods: &Vec<RemoteMod>, entry_name: &str) -> (r: Option<String>)
    ensures
        match entry_mod(mods@, entry_name@) {
            Some(i) => if mods@[i].description@.len() > 0 {
                r matches Some(u) && u@ == mods@[i].description@
            } else {
                r is None
            },
            None => r is None,
        },
{
    match find_entry_mod(mods, entry_name) {
        Some(i) => {
            if chars_of(mods[i].description.as_str()).len() > 0 {
                Some(mods[i].description.clone())
            } else {
                None
            }
        },
        None => None,
    }
}


/// How loading the mod list ended.
#[derive(Debug, Clone)]
pub enum CatalogEvent {
    /// The list, fresh or from the cache.
    Ready(CatalogSnapshot),
    /// The list could not be loaded; the text says why.
    Failed(String),
    /// The loading stopped without an answer.
    WorkerStopped,
}

/// How an install ended.
#[derive(Debug, Clone)]
pub enum InstallOutcome {
    /// The mod was installed; the text reports it.
    Done { report_text: String },
    /// The install failed; the text says why.
    Failed(String),
    /// The install stopped without an answer.
    WorkerStopped,
}

/// State of the Nexus Mods browser that outlives a frame.
pub struct NexusBrowse {
    pub mods: Vec<RemoteMod>,
    pub filtered: Vec<usize>,
    pub filter_query: String,
    /// When the shown list was fetched, in seconds since the Unix epoch.
    pub fetched_at_unix: Option<u64>,
    pub from_cache: bool,
    pub search_query: String,
    pub status_message: Option<String>,
    pub error_message: Option<String>,
    pub catalog_busy: bool,
    pub install_busy: bool,
    pub auto_started: bool,
    pub last_install_changed: bool,
    pub is_premium: Option<bool>,
    pub account_name: Option<String>,
}

impl Default for NexusBrowse {
    /// Nothing loaded, nothing running.
    fn default() -> (r: Self)
        ensures
            r.mods@.len() == 0,
            r.filtered@.len() == 0,
            r.search_query@.len() == 0,
            !r.catalog_busy,
            !r.install_busy,
            !r.auto_started,
            !r.last_install_changed,
            r.is_premium is None,
    {
        NexusBrowse {
            mods: Vec::new(),
            filtered: Vec::new(),
            filter_query: String::new(),
            fetched_at_unix: None,
            from_cache: false,
            search_query: String::new(),
            status_message: None,
            error_message: None,
            catalog_busy: false,
            install_busy: false,
            auto_started: false,
            last_install_changed: false,
            is_premium: None,
            account_name: None,
        }
    }
}

/// The status shown once the list was loaded with `count` mods.
pub open spec fn loaded_text(count: nat, offline: bool) -> Seq<char> {
    if offline {
        "showing "@ + decimal(count) + " cached mods"@
    } else {
        "loaded "@ + decimal(count) + " nexus mods"@
    }
}

/// The message shown once the list was loaded with `count` mods.
pub open spec fn loaded_toast(count: nat, offline: bool) -> Seq<char> {
    if offline {
        "nexus offline \u{2014} showing "@ + decimal(count) + " cached mods"@
    } else {
        "loaded "@ + decimal(count) + " nexus mods"@
    }
}

impl NexusBrowse {
    /// Whether an install changed the mods on disk since last asked; asking
    /// clears it.
    pub fn take_install_changed(&mut self) -> (changed: bool)
        ensures
            changed == old(self).last_install_changed,
            !final(self).last_install_changed,
            final(self).mods@ == old(self).mods@,
    {
        let changed = self.last_install_changed;
        self.last_install_changed = false;
        changed
    }

    /// Takes in the validated account, if any.
    pub fn set_account(&mut self, account: Option<&ValidateResult>)
        ensures
            match account {
                Some(a) => final(self).is_premium == Some(a.is_premium) && (final(self).account_name matches Some(n)
                    && n@ == a.username@),
                None => final(self).is_premium is None && final(self).account_name is None,
            },
            final(self).mods@ == old(self).mods@,
    {
        match account {
            Some(info) => {
                self.is_premium = Some(info.is_premium);
                self.account_name = Some(info.username.clone());
            },
            None => {
                self.is_premium = None;
                self.account_name = None;
            },
        }
    }

    /// Whether to start loading the list on its own: once, when a key is
    /// stored.
    pub fn should_auto_start(&mut self, has_key: bool) -> (start: bool)
        ensures
            start == (!old(self).auto_started && has_key),
            final(self).auto_started == (old(self).auto_started || has_key),
            final(self).catalog_busy == old(self).catalog_busy,
    {
        if !self.auto_started && has_key {
            self.auto_started = true;
            true
        } else {
            false
        }
    }

    /// Recomputes the mods that match the search when the search changed,
    /// or always when forced.
    pub fn rebuild_filter(&mut self, force: bool)
        ensures
            final(self).mods@ == old(self).mods@,
            final(self).catalog_busy == old(self).catalog_busy,
            final(self).install_busy == old(self).install_busy,
            final(self).fetched_at_unix == old(self).fetched_at_unix,
            final(self).from_cache == old(self).from_cache,
            final(self).search_query@ == old(self).search_query@,
            !force && old(self).filter_query@ == old(self).search_query@ ==> final(self).filtered@ == old(self).filtered@
                && final(self).filter_query@ == old(self).filter_query@,
            force || old(self).filter_query@ != old(self).search_query@ ==> final(self).filtered@ == matching_upto(
                old(self).mods@,
                old(self).search_query@,
                old(self).mods@.len() as int,
            ) && final(self).filter_query@ == old(self).search_query@,
    {
        if !force && str_eq(self.filter_query.as_str(), self.search_query.as_str()) {
            return;
        }
        self.filter_query = self.search_query.clone();
        self.filtered = filter_indices(&self.mods, self.search_query.as_str());
    }

    /// Starts loading the list unless it is loading already; says whether
    /// to start.
    pub fn begin_catalog_fetch(&mut self, force_refresh: bool) -> (start: bool)
        ensures
            old(self).catalog_busy ==> !start && final(self).status_message == old(self).status_message
                && final(self).error_message == old(self).error_message,
            !old(self).catalog_busy ==> start && final(self).catalog_busy && final(self).error_message is None && (final(self).status_message matches Some(s) && s@ == (if force_refresh {
                "refreshing nexus catalog\u{2026}"@
            } else {
                "loading nexus catalog\u{2026}"@
            })),
            final(self).catalog_busy,
            final(self).install_busy == old(self).install_busy,
            final(self).mods@ == old(self).mods@,
    {
        if self.catalog_busy {
            return false;
        }
        self.catalog_busy = true;
        self.error_message = None;
        self.status_message = Some(
            if force_refresh {
                "refreshing nexus catalog\u{2026}".to_owned()
            } else {
                "loading nexus catalog\u{2026}".to_owned()
            },
        );
        true
    }

    /// Takes in how loading the list ended. A loaded list replaces the
    /// shown one and the search is run again; a list from the cache after a
    /// network failure says so.
    pub fn catalog_finished(&mut self, event: CatalogEvent, toasts: &mut ToastQueue, now_ms: u64)
        ensures
            !final(self).catalog_busy,
            final(self).install_busy == old(self).install_busy,
            match event {
                CatalogEvent::Ready(s) => {
                    &&& final(self).mods@ == s.mods@
                    &&& final(self).fetched_at_unix == Some(s.fetched_at_unix)
                    &&& final(self).from_cache == s.from_cache
                    &&& final(self).filtered@ == matching_upto(s.mods@, old(self).search_query@, s.mods@.len() as int)
                    &&& final(self).filter_query@ == old(self).search_query@
                    &&& (final(self).status_message matches Some(m) && m@ == loaded_text(s.mods@.len(), s.network_warning is Some))
                    &&& match s.network_warning {
                        Some(w) => final(self).error_message matches Some(e) && e@ == w@,
                        None => final(self).error_message is None,
                    }
                    &&& shows(
                        old(toasts).entries@,
                        final(toasts).entries@,
                        ToastKind::Info,
                        loaded_toast(s.mods@.len(), s.network_warning is Some),
                        now_ms,
                    )
                },
                CatalogEvent::Failed(m) => {
                    &&& final(self).mods@ == old(self).mods@
                    &&& (final(self).error_message matches Some(e) && e@ == m@)
                    &&& final(self).status_message is None
                    &&& shows(old(toasts).entries@, final(toasts).entries@, ToastKind::Error, m@, now_ms)
                },
                CatalogEvent::WorkerStopped => {
                    &&& final(self).mods@ == old(self).mods@
                    &&& (final(self).error_message matches Some(e) && e@ == "nexus catalog worker stopped unexpectedly"@)
                    &&& final(self).status_message == old(self).status_message
                    &&& shows(
                        old(toasts).entries@,
                        final(toasts).entries@,
                        ToastKind::Error,
                        "nexus catalog worker stopped unexpectedly"@,
                        now_ms,
                    )
                },
            },
    {
        self.catalog_busy = false;
        match event {
            CatalogEvent::Ready(snapshot) => {
                let count = decimal_string(snapshot.mods.len() as u64);
                self.mods = snapshot.mods;
                self.fetched_at_unix = Some(snapshot.fetched_at_unix);
                self.from_cache = snapshot.from_cache;
                self.rebuild_filter(true);
                match snapshot.network_warning {
                    Some(warning) => {
                        self.error_message = Some(warning);
                        let mut status = concat_str("showing ", count.as_str());
                        append_str(&mut status, " cached mods");
                        self.status_message = Some(status);
                        let mut note = concat_str("nexus offline \u{2014} showing ", count.as_str());
                        append_str(&mut note, " cached mods");
                        toasts.info(note, now_ms);
                    },
                    None => {
                        self.error_message = None;
                        let mut status = concat_str("loaded ", count.as_str());
                        append_str(&mut status, " nexus mods");
                        self.status_message = Some(status.clone());
                        toasts.info(status, now_ms);
                    },
                }
            },
            CatalogEvent::Failed(message) => {
                self.error_message = Some(message.clone());
                self.status_message = None;
                toasts.error(message, now_ms);
            },
            CatalogEvent::WorkerStopped => {
                let message = "nexus catalog worker stopped unexpectedly".to_owned();
                self.error_message = Some(message.clone());
                toasts.error(message, now_ms);
            },
        }
    }

    /// Starts installing a mod with a premium account unless an install
    /// runs; says whether to start.
    pub fn begin_premium_install(&mut self, remote: &RemoteMod) -> (start: bool)
        ensures
            start == !old(self).install_busy,
            final(self).install_busy,
            start ==> final(self).error_message is None && (final(self).status_message matches Some(s) && s@ == "installing "@
                + remote.name@ + "\u{2026}"@),
            !start ==> final(self).status_message == old(self).status_message && final(self).error_message == old(self).error_message,
            final(self).catalog_busy == old(self).catalog_busy,
    {
        if self.install_busy {
            return false;
        }
        self.install_busy = true;
        self.error_message = None;
        let mut status = concat_str("installing ", remote.name.as_str());
        append_str(&mut status, "\u{2026}");
        self.status_message = Some(status);
        true
    }

    /// Starts installing the file an `nxm://` link names unless an install
    /// runs; gives the parsed link to install, or shows why it is unusable.
    pub fn begin_nxm_install(&mut self, url: &str) -> (link: Option<NxmLink>)
        ensures
            old(self).install_busy ==> link is None && final(self).status_message == old(self).status_message
                && final(self).error_message == old(self).error_message,
            !old(self).install_busy ==> match parse_nxm_spec(url@) {
                Ok(v) => {
                    &&& link matches Some(l) && l.view_of() == v
                    &&& final(self).install_busy
                    &&& final(self).error_message is None
                    &&& (final(self).status_message matches Some(s) && s@ == "installing nexus mod "@ + decimal(v.mod_id)
                        + " (file "@ + decimal(v.file_id) + ")\u{2026}"@)
                },
                Err(m) => {
                    &&& link is None
                    &&& !final(self).install_busy
                    &&& (final(self).error_message matches Some(e) && e@ == "invalid nxm url: "@ + m)
                },
            },
            final(self).catalog_busy == old(self).catalog_busy,
    {
        if self.install_busy {
            return None;
        }
        match parse_nxm_url(url) {
            Ok(link) => {
                self.install_busy = true;
                self.error_message = None;
                let mut status = concat_str("installing nexus mod ", decimal_string(link.mod_id).as_str());
                append_str(&mut status, " (file ");
                append_str(&mut status, decimal_string(link.file_id).as_str());
                append_str(&mut status, ")\u{2026}");
                self.status_message = Some(status);
                Some(link)
            },
            Err(error) => {
                self.error_message = Some(error.message());
                None
            },
        }
    }

    /// Takes in how an install ended; a finished one marks the mods on disk
    /// as changed.
    pub fn install_finished(&mut self, event: InstallOutcome, toasts: &mut ToastQueue, now_ms: u64)
        ensures
            !final(self).install_busy,
            final(self).catalog_busy == old(self).catalog_busy,
            final(self).mods@ == old(self).mods@,
            match event {
                InstallOutcome::Done { report_text } => {
                    &&& (final(self).status_message matches Some(s) && s@ == report_text@)
                    &&& final(self).error_message is None
                    &&& final(self).last_install_changed
                    &&& shows(old(toasts).entries@, final(toasts).entries@, ToastKind::Success, report_text@, now_ms)
                },
                InstallOutcome::Failed(m) => {
                    &&& (final(self).error_message matches Some(e) && e@ == m@)
                    &&& final(self).status_message is None
                    &&& final(self).last_install_changed == old(self).last_install_changed
                    &&& shows(old(toasts).entries@, final(toasts).entries@, ToastKind::Error, "nexus install failed: "@ + m@, now_ms)
                },
                InstallOutcome::WorkerStopped => {
                    &&& (final(self).error_message matches Some(e) && e@ == "nexus install worker stopped unexpectedly"@)
                    &&& final(self).status_message == old(self).status_message
                    &&& final(self).last_install_changed == old(self).last_install_changed
                    &&& shows(
                        old(toasts).entries@,
                        final(toasts).entries@,
                        ToastKind::Error,
                        "nexus install worker stopped unexpectedly"@,
                        now_ms,
                    )
                },
            },
    {
        self.install_busy = false;
        match event {
            InstallOutcome::Done { report_text } => {
                self.status_message = Some(report_text.clone());
                self.error_message = None;
                self.last_install_changed = true;
                toasts.success(report_text, now_ms);
            },
            InstallOutcome::Failed(message) => {
                self.error_message = Some(message.clone());
                self.status_message = None;
                toasts.error(concat_str("nexus install failed: ", message.as_str()), now_ms);
            },
            InstallOutcome::WorkerStopped => {
                let message = "nexus install worker stopped unexpectedly".to_owned();
                self.error_message = Some(message.clone());
                toasts.error(message, now_ms);
            },
        }
    }

    /// Whether queued `nxm://` links may be taken now: no install runs and
    /// the game was found.
    pub fn can_take_pending(&self, has_install: bool) -> (r: bool)
        ensures
            r == (!self.install_busy && has_install),
    {
        !self.install_busy && has_install
    }
}

/// The report of a finished premium install.
pub fn premium_install_report(remote: &RemoteMod) -> (r: String)
    ensures
        r@ == "installed "@ + remote.name@,
{
    concat_str("installed ", remote.name.as_str())
}

/// The report of a finished install from an `nxm://` link.
pub fn nxm_install_report(link: &NxmLink) -> (r: String)
    ensures
        r@ == "installed nexus-"@ + decimal(link.mod_id as nat),
{
    concat_str("installed nexus-", decimal_string(link.mod_id).as_str())
}

/// Splits the taken queue of `nxm://` links: the first is installed now
/// and announced, the others go back in the queue.
pub fn split_pending_links(urls: Vec<String>, toasts: &mut ToastQueue, now_ms: u64) -> (r: (Option<String>, Vec<String>))
    ensures
        urls@.len() == 0 ==> r.0 is None && r.1@.len() == 0 && final(toasts).entries@ == old(toasts).entries@,
        urls@.len() > 0 ==> {
            &&& r.0 == Some(urls@[0])
            &&& r.1@ == urls@.skip(1)
            &&& shows(
                old(toasts).entries@,
                final(toasts).entries@,
                ToastKind::Info,
                "received nexus mod manager download"@,
                now_ms,
            )
        },
{
    let mut rest = urls;
    if rest.len() == 0 {
        return (None, rest);
    }
    let first = rest.remove(0);
    toasts.info("received nexus mod manager download".to_owned(), now_ms);
    (Some(first), rest)
}
} // verus!
