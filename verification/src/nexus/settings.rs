//! The Nexus Mods part of the settings panel: the key being entered and
//! the account it belongs to.
use vstd::prelude::*;

use super::client::{client_error_text, ClientError, ValidateResult};
use super::key::{key_error_text, KeyError};
use super::nxm::{nxm_error_text, NxmError};
use crate::text::{append_str, chars_of, concat_str, trim, trim_str};
use crate::ui::toast::{shows, ToastKind, ToastQueue};

verus! {

/// State of the Nexus Mods settings.
pub struct NexusSettings {
    pub key_input: String,
    pub show_key: bool,
    pub account: Option<ValidateResult>,
    pub error_message: Option<String>,
    pub status_message: Option<String>,
    pub validating: bool,
    pub validate_from_user: bool,
    pub loaded: bool,
    pub handler_registered: bool,
    pub catalog_refresh_pending: bool,
}

impl Default for NexusSettings {
    /// Nothing entered, nothing validated, nothing pending.
    fn default() -> (r: Self)
        ensures
            r.key_input@.len() == 0,
            r.account is None,
            !r.catalog_refresh_pending,
            !r.loaded,
            !r.validating,
    {
        NexusSettings {
            key_input: String::new(),
            show_key: false,
            account: None,
            error_message: None,
            status_message: None,
            validating: false,
            validate_from_user: false,
            loaded: false,
            handler_registered: false,
            catalog_refresh_pending: false,
        }
    }
}

impl NexusSettings {
    /// The validated account, if any.
    pub fn account(&self) -> (r: Option<&ValidateResult>)
        ensures
            match self.account {
                Some(a) => r matches Some(x) && *x == a,
                None => r is None,
            },
    {
        match &self.account {
            Some(a) => Some(a),
            None => None,
        }
    }

    /// Whether a refresh of the mod list was asked for; asking clears it.
    pub fn take_catalog_refresh(&mut self) -> (pending: bool)
        ensures
            pending == old(self).catalog_refresh_pending,
            !final(self).catalog_refresh_pending,
            final(self).account == old(self).account,
    {
        let pending = self.catalog_refresh_pending;
        self.catalog_refresh_pending = false;
        pending
    }

    /// Records a successful validation; one the user asked for also asks for
    /// a refresh of the mod list.
    pub fn accept_validation(&mut self, result: ValidateResult)
        ensures
            final(self).account == Some(result),
            !final(self).validating,
            final(self).error_message is None,
            final(self).catalog_refresh_pending == (old(self).catalog_refresh_pending || old(self).validate_from_user),
    {
        if self.validate_from_user {
            self.catalog_refresh_pending = true;
        }
        self.account = Some(result);
        self.validating = false;
        self.error_message = None;
    }
}

/// How a key validation that was started ended.
#[derive(Debug, Clone)]
pub enum ValidateEvent {
    /// The key belongs to this account.
    Ready(ValidateResult),
    /// The key could not be validated; the text says why.
    Failed(String),
    /// The validation stopped without an answer.
    WorkerStopped,
}

/// The account tier shown for a validated key.
pub open spec fn tier_text(is_premium: bool) -> Seq<char> {
    if is_premium {
        "premium"@
    } else {
        "free"@
    }
}

/// The status shown once a key was validated.
pub open spec fn validated_text(r: ValidateResult) -> Seq<char> {
    "validated \u{b7} "@ + r.username@ + " \u{b7} "@ + tier_text(r.is_premium)
}

/// The account line shown under the key.
pub open spec fn account_line_spec(r: ValidateResult) -> Seq<char> {
    "signed in as "@ + r.username@ + " \u{b7} "@ + if r.is_premium {
        "premium"@
    } else {
        "free (non-premium)"@
    }
}

/// The entered key, whether it is shown, whether the stored key was
/// loaded, and whether the link handler is registered are the same.
pub open spec fn same_entry(a: NexusSettings, b: NexusSettings) -> bool {
    &&& a.key_input@ == b.key_input@
    &&& a.show_key == b.show_key
    &&& a.loaded == b.loaded
    &&& a.handler_registered == b.handler_registered
}

impl NexusSettings {
    /// Can the entered key be saved: it is not blank and no validation runs.
    pub fn can_save(&self) -> (r: bool)
        ensures
            r == (trim(self.key_input@).len() > 0 && !self.validating),
    {
        chars_of(trim_str(self.key_input.as_str()).as_str()).len() > 0 && !self.validating
    }

    /// Starts validating the entered key, unless one validation already
    /// runs or the key is blank; gives the key to send. One the user asked
    /// for says so in the status.
    pub fn begin_validate(&mut self, from_user: bool) -> (key: Option<String>)
        ensures
            old(self).validating || trim(old(self).key_input@).len() == 0 ==> key is None && *final(self) == *old(self),
            !old(self).validating && trim(old(self).key_input@).len() > 0 ==> {
                &&& key matches Some(k) && k@ == trim(old(self).key_input@)
                &&& final(self).validating
                &&& final(self).validate_from_user == from_user
                &&& final(self).error_message is None
                &&& (from_user ==> (final(self).status_message matches Some(s) && s@ == "validating\u{2026}"@))
                &&& (!from_user ==> final(self).status_message == old(self).status_message)
                &&& final(self).account == old(self).account
                &&& final(self).catalog_refresh_pending == old(self).catalog_refresh_pending
                &&& same_entry(*old(self), *final(self))
            },
    {
        if self.validating {
            return None;
        }
        let key = trim_str(self.key_input.as_str());
        if chars_of(key.as_str()).len() == 0 {
            return None;
        }
        self.validating = true;
        self.validate_from_user = from_user;
        self.error_message = None;
        if from_user {
            self.status_message = Some("validating\u{2026}".to_owned());
        }
        Some(key)
    }

    /// Takes in how a validation ended. A validated key shows its account,
    /// says so in a message, and asks for a refresh of the mod list when the
    /// user started it; the result says whether to register the link
    /// handler now, which a free account needs for its downloads. A failure
    /// clears the account and shows why.
    pub fn finish_validate(&mut self, event: ValidateEvent, toasts: &mut ToastQueue, now_ms: u64) -> (register_handler: bool)
        ensures
            !final(self).validating,
            !final(self).validate_from_user,
            same_entry(*old(self), *final(self)),
            match event {
                ValidateEvent::Ready(r) => {
                    &&& final(self).account == Some(r)
                    &&& final(self).error_message is None
                    &&& (final(self).status_message matches Some(s) && s@ == validated_text(r))
                    &&& final(self).catalog_refresh_pending == (old(self).catalog_refresh_pending || old(self).validate_from_user)
                    &&& register_handler == (!r.is_premium && !old(self).handler_registered)
                    &&& shows(old(toasts).entries@, final(toasts).entries@, ToastKind::Success, "nexus: signed in as "@ + r.username@, now_ms)
                },
                ValidateEvent::Failed(m) => {
                    &&& final(self).account is None
                    &&& (final(self).error_message matches Some(e) && e@ == m@)
                    &&& final(self).status_message is None
                    &&& final(self).catalog_refresh_pending == old(self).catalog_refresh_pending
                    &&& !register_handler
                    &&& shows(old(toasts).entries@, final(toasts).entries@, ToastKind::Error, m@, now_ms)
                },
                ValidateEvent::WorkerStopped => {
                    &&& final(self).account == old(self).account
                    &&& (final(self).error_message matches Some(e) && e@ == "nexus validation worker stopped unexpectedly"@)
                    &&& final(self).status_message == old(self).status_message
                    &&& final(self).catalog_refresh_pending == old(self).catalog_refresh_pending
                    &&& !register_handler
                    &&& shows(
                        old(toasts).entries@,
                        final(toasts).entries@,
                        ToastKind::Error,
                        "nexus validation worker stopped unexpectedly"@,
                        now_ms,
                    )
                },
            },
    {
        self.validating = false;
        match event {
            ValidateEvent::Ready(result) => {
                self.error_message = None;
                let mut status = concat_str("validated \u{b7} ", result.username.as_str());
                append_str(&mut status, " \u{b7} ");
                append_str(&mut status, if result.is_premium { "premium" } else { "free" });
                self.status_message = Some(status);
                toasts.success(concat_str("nexus: signed in as ", result.username.as_str()), now_ms);
                let register = !result.is_premium && !self.handler_registered;
                self.account = Some(result);
                if self.validate_from_user {
                    self.catalog_refresh_pending = true;
                }
                self.validate_from_user = false;
                register
            },
            ValidateEvent::Failed(message) => {
                self.validate_from_user = false;
                self.account = None;
                self.error_message = Some(message.clone());
                self.status_message = None;
                toasts.error(message, now_ms);
                false
            },
            ValidateEvent::WorkerStopped => {
                self.validate_from_user = false;
                let message = "nexus validation worker stopped unexpectedly".to_owned();
                self.error_message = Some(message.clone());
                toasts.error(message, now_ms);
                false
            },
        }
    }

    /// The link handler was registered on its own after a free account
    /// was validated.
    pub fn handler_auto_registered(&mut self, toasts: &mut ToastQueue, now_ms: u64)
        ensures
            final(self).handler_registered,
            final(self).account == old(self).account,
            final(self).status_message == old(self).status_message,
            final(self).error_message == old(self).error_message,
            shows(
                old(toasts).entries@,
                final(toasts).entries@,
                ToastKind::Info,
                "registered nxm:// handler for free-account downloads"@,
                now_ms,
            ),
    {
        self.handler_registered = true;
        toasts.info("registered nxm:// handler for free-account downloads".to_owned(), now_ms);
    }

    /// Takes in what registering the link handler gave: where its entry was
    /// written, or why it failed.
    pub fn handler_registration(&mut self, result: Result<String, NxmError>, toasts: &mut ToastQueue, now_ms: u64)
        ensures
            final(self).account == old(self).account,
            match result {
                Ok(path) => {
                    &&& final(self).handler_registered
                    &&& (final(self).status_message matches Some(s) && s@ == "registered nxm handler at "@ + path@)
                    &&& final(self).error_message == old(self).error_message
                    &&& shows(old(toasts).entries@, final(toasts).entries@, ToastKind::Success, "registered as nxm:// handler"@, now_ms)
                },
                Err(e) => {
                    &&& final(self).handler_registered == old(self).handler_registered
                    &&& final(self).status_message == old(self).status_message
                    &&& (final(self).error_message matches Some(m) && m@ == nxm_error_text(e))
                    &&& shows(old(toasts).entries@, final(toasts).entries@, ToastKind::Error, nxm_error_text(e), now_ms)
                },
            },
    {
        match result {
            Ok(path) => {
                self.handler_registered = true;
                self.status_message = Some(concat_str("registered nxm handler at ", path.as_str()));
                toasts.success("registered as nxm:// handler".to_owned(), now_ms);
            },
            Err(error) => {
                self.error_message = Some(error.message());
                toasts.error(error.message(), now_ms);
            },
        }
    }

    /// The key to store when the user saves: the entered key without
    /// surrounding whitespace; a blank key is refused with a message.
    pub fn key_to_save(&mut self) -> (key: Option<String>)
        ensures
            trim(old(self).key_input@).len() == 0 ==> key is None && (final(self).error_message matches Some(m) && m@
                == "api key cannot be empty"@),
            trim(old(self).key_input@).len() > 0 ==> (key matches Some(k) && k@ == trim(old(self).key_input@))
                && final(self).error_message == old(self).error_message,
            final(self).account == old(self).account,
            final(self).status_message == old(self).status_message,
            final(self).validating == old(self).validating,
            same_entry(*old(self), *final(self)),
    {
        let key = trim_str(self.key_input.as_str());
        if chars_of(key.as_str()).len() == 0 {
            self.error_message = Some("api key cannot be empty".to_owned());
            None
        } else {
            Some(key)
        }
    }

    /// Takes in whether the key was stored; a stored key is then validated
    /// at the user's request, and the key to send is given.
    pub fn key_saved(&mut self, result: Result<(), KeyError>, toasts: &mut ToastQueue, now_ms: u64) -> (key: Option<String>)
        ensures
            match result {
                Ok(_) => {
                    &&& shows(old(toasts).entries@, final(toasts).entries@, ToastKind::Info, "api key saved locally"@, now_ms)
                    &&& (!old(self).validating && trim(old(self).key_input@).len() > 0 ==> {
                        &&& key matches Some(k) && k@ == trim(old(self).key_input@)
                        &&& final(self).validating
                        &&& final(self).validate_from_user
                        &&& final(self).error_message is None
                        &&& (final(self).status_message matches Some(s) && s@ == "validating\u{2026}"@)
                    })
                    &&& (old(self).validating || trim(old(self).key_input@).len() == 0 ==> key is None)
                },
                Err(e) => {
                    &&& key is None
                    &&& (final(self).error_message matches Some(m) && m@ == key_error_text(e))
                    &&& final(self).validating == old(self).validating
                    &&& shows(old(toasts).entries@, final(toasts).entries@, ToastKind::Error, key_error_text(e), now_ms)
                },
            },
            final(self).account == old(self).account,
            same_entry(*old(self), *final(self)),
    {
        match result {
            Ok(()) => {
                toasts.info("api key saved locally".to_owned(), now_ms);
                self.begin_validate(true)
            },
            Err(error) => {
                self.error_message = Some(error.message());
                toasts.error(error.message(), now_ms);
                None
            },
        }
    }

    /// Takes in whether the stored key was removed; then the entered key and
    /// the account are forgotten.
    pub fn key_cleared(&mut self, result: Result<(), KeyError>, toasts: &mut ToastQueue, now_ms: u64)
        ensures
            match result {
                Ok(_) => {
                    &&& final(self).key_input@.len() == 0
                    &&& final(self).account is None
                    &&& final(self).error_message is None
                    &&& (final(self).status_message matches Some(s) && s@ == "nexus api key cleared"@)
                    &&& shows(old(toasts).entries@, final(toasts).entries@, ToastKind::Info, "nexus api key cleared"@, now_ms)
                },
                Err(e) => {
                    &&& final(self).key_input@ == old(self).key_input@
                    &&& final(self).account == old(self).account
                    &&& (final(self).error_message matches Some(m) && m@ == key_error_text(e))
                    &&& shows(old(toasts).entries@, final(toasts).entries@, ToastKind::Error, key_error_text(e), now_ms)
                },
            },
            final(self).validating == old(self).validating,
            final(self).handler_registered == old(self).handler_registered,
    {
        match result {
            Ok(()) => {
                self.key_input = String::new();
                self.account = None;
                self.error_message = None;
                self.status_message = Some("nexus api key cleared".to_owned());
                toasts.info("nexus api key cleared".to_owned(), now_ms);
            },
            Err(error) => {
                self.error_message = Some(error.message());
                toasts.error(error.message(), now_ms);
            },
        }
    }

    /// The first look at the settings: takes in whether the link handler is
    /// registered and the stored key, and starts validating a stored key;
    /// gives the key to send. Later looks change nothing.
    pub fn load(&mut self, handler_registered: bool, stored: Result<Option<String>, KeyError>) -> (key: Option<String>)
        ensures
            old(self).loaded ==> key is None && *final(self) == *old(self),
            !old(self).loaded ==> {
                &&& final(self).loaded
                &&& final(self).handler_registered == handler_registered
                &&& match stored {
                    Ok(Some(k)) => {
                        &&& final(self).key_input@ == k@
                        &&& (!old(self).validating && trim(k@).len() > 0 ==> (key matches Some(x) && x@ == trim(k@))
                            && final(self).validating && !final(self).validate_from_user)
                        &&& (old(self).validating || trim(k@).len() == 0 ==> key is None)
                    },
                    Ok(None) => key is None && final(self).key_input@ == old(self).key_input@,
                    Err(e) => key is None && (final(self).error_message matches Some(m) && m@ == key_error_text(e)),
                }
            },
    {
        if self.loaded {
            return None;
        }
        self.loaded = true;
        self.handler_registered = handler_registered;
        match stored {
            Ok(Some(k)) => {
                self.key_input = k;
                self.begin_validate(false)
            },
            Ok(None) => None,
            Err(error) => {
                self.error_message = Some(error.message());
                None
            },
        }
    }

    /// The line naming the validated account and its tier, if any.
    pub fn account_line(&self) -> (r: Option<String>)
        ensures
            match self.account {
                Some(a) => r matches Some(s) && s@ == account_line_spec(a),
                None => r is None,
            },
    {
        match &self.account {
            Some(a) => {
                let mut s = concat_str("signed in as ", a.username.as_str());
                append_str(&mut s, " \u{b7} ");
                append_str(&mut s, if a.is_premium { "premium" } else { "free (non-premium)" });
                Some(s)
            },
            None => None,
        }
    }
}

/// What the settings show when validating a key failed.
pub open spec fn validate_error_text(e: ClientError) -> Seq<char> {
    match e {
        ClientError::Unauthorized => "invalid nexus api key \u{2014} check the key and try again"@,
        ClientError::RateLimited => "rate limited by nexus mods while validating \u{2014} try again later"@,
        _ => client_error_text(e),
    }
}

/// Describes a failed key validation.
pub fn format_validate_error(error: ClientError) -> (r: String)
    ensures
        r@ == validate_error_text(error),
{
    match error {
        ClientError::Unauthorized => "invalid nexus api key \u{2014} check the key and try again".to_owned(),
        ClientError::RateLimited => "rate limited by nexus mods while validating \u{2014} try again later".to_owned(),
        other => other.message(),
    }
}
} // verus!
