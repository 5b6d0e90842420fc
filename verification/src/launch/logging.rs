//! The session log: where it is written and what a line looks like.
use vstd::prelude::*;

use crate::paths::{join_path, path_join};
use crate::text::{append_str, concat_str, decimal, decimal_string};

verus! {

/// Why the log could not be set up.
#[derive(Debug, Clone, PartialEq, Eq)]
pub enum LogError {
    HomeUnavailable,
    Io(String),
    OpenFailed { path: String, detail: String },
}

/// The folder of session logs under the data folder.
pub fn logs_directory(data_directory: &str) -> (r: String)
    ensures
        r@ == join_path(data_directory@, "logs"@),
{
    path_join(data_directory, "logs")
}

/// The log file of a session started at `stamp`.
pub fn session_log_path(logs_directory: &str, stamp: u64) -> (r: String)
    ensures
        r@ == join_path(logs_directory@, "session-"@ + decimal(stamp as nat) + ".log"@),
{
    let mut name = concat_str("session-", decimal_string(stamp).as_str());
    append_str(&mut name, ".log");
    path_join(logs_directory, name.as_str())
}

/// A line of the log: the level in brackets, then the message.
pub fn log_line(level: &str, message: &str) -> (r: String)
    ensures
        r@ == "["@ + level@ + "] "@ + message@ + "\n"@,
{
    let mut r = concat_str("[", level);
    append_str(&mut r, "] ");
    append_str(&mut r, message);
    append_str(&mut r, "\n");
    r
}

/// The text shown for a session log error.
pub open spec fn log_error_text(e: LogError) -> Seq<char> {
    match e {
        LogError::HomeUnavailable => "HOME is unset; cannot create log directory"@,
        LogError::Io(d) => "log io error: "@ + d@,
        LogError::OpenFailed { path, detail } => "could not open log file "@ + path@ + ": "@ + detail@,
    }
}

impl LogError {
    /// The error as shown to the user.
    pub fn message(&self) -> (r: String)
        ensures
            r@ == log_error_text(*self),
    {
        match self {
            LogError::HomeUnavailable => {
                let mut r = String::new();
                crate::text::append_str(&mut r, "HOME is unset; cannot create log directory");
                r
            },
            LogError::Io(d) => {
                let mut r = String::new();
                crate::text::append_str(&mut r, "log io error: ");
                crate::text::append_str(&mut r, d.as_str());
                r
            },
            LogError::OpenFailed { path, detail } => {
                let mut r = String::new();
                crate::text::append_str(&mut r, "could not open log file ");
                crate::text::append_str(&mut r, path.as_str());
                crate::text::append_str(&mut r, ": ");
                crate::text::append_str(&mut r, detail.as_str());
                r
            },
        }
    }
}

} // verus!
