//! Where the Nexus Mods API key is stored.
use vstd::prelude::*;

use crate::paths::{join_path, path_join};

verus! {

/// Why the key could not be stored or read.
#[derive(Debug, Clone, PartialEq, Eq)]
pub enum KeyError {
    HomeUnavailable,
    Io(String),
}

/// The key file under the manager's data folder.
pub fn key_path(data_directory: &str) -> (r: String)
    ensures
        r@ == join_path(data_directory@, "nexus-key"@),
{
    path_join(data_directory, "nexus-key")
}

/// The key as stored: the file's text without surrounding whitespace, when
/// anything is left.
pub fn key_from_file_text(text: &str) -> (r: Option<String>)
    ensures
        crate::text::trim(text@).len() == 0 ==> r is None,
        crate::text::trim(text@).len() > 0 ==> (r matches Some(k) && k@ == crate::text::trim(text@)),
{
    let t = crate::text::trim_str(text);
    if crate::text::chars_of(t.as_str()).len() == 0 {
        None
    } else {
        Some(t)
    }
}

/// The text written to the key file for a key: the key without surrounding
/// whitespace, then a line break.
pub fn key_file_text(key: &str) -> (r: String)
    ensures
        r@ == crate::text::trim(key@) + seq!['\n'],
{
    let mut t = crate::text::trim_str(key);
    crate::text::push_char(&mut t, '\n');
    t
}

/// Saving a key and loading it back gives the key without surrounding
/// whitespace; a key that is all whitespace loads as no key.
pub proof fn lemma_key_save_then_load(key: Seq<char>)
    ensures
        crate::text::trim(crate::text::trim(key) + seq!['\n']) == crate::text::trim(key),
{
    let t = crate::text::trim(key);
    crate::text::lemma_trim_idempotent(key);
    crate::text::lemma_trim_append_ws(t, seq!['\n']);
}

/// The text shown for an API key storage error.
pub open spec fn key_error_text(e: KeyError) -> Seq<char> {
    match e {
        KeyError::HomeUnavailable => "HOME is unset; cannot store nexus api key"@,
        KeyError::Io(d) => "nexus key io error: "@ + d@,
    }
}

impl KeyError {
    /// The error as shown to the user.
    pub fn message(&self) -> (r: String)
        ensures
            r@ == key_error_text(*self),
    {
        match self {
            KeyError::HomeUnavailable => {
                let mut r = String::new();
                crate::text::append_str(&mut r, "HOME is unset; cannot store nexus api key");
                r
            },
            KeyError::Io(d) => {
                let mut r = String::new();
                crate::text::append_str(&mut r, "nexus key io error: ");
                crate::text::append_str(&mut r, d.as_str());
                r
            },
        }
    }
}

} // verus!
