//! The lines of the log.

use crate::text::{push_str, string_of};
use vstd::prelude::*;

verus! {

/// How grave a log entry is.
#[derive(Debug, Clone, Copy, PartialEq, Eq, Structural)]
pub enum LogLevel {
    Info,
    Warn,
    Error,
    Debug,
}

impl LogLevel {
    /// The word that stands for the level in a log line.
    pub open spec fn word(self) -> Seq<char> {
        match self {
            LogLevel::Info => "INFO"@,
            LogLevel::Warn => "WARN"@,
            LogLevel::Error => "ERROR"@,
            LogLevel::Debug => "DEBUG"@,
        }
    }

    /// The word that stands for the level in a log line.
    pub fn as_str(&self) -> (r: &'static str)
        ensures
            r@ == self.word(),
    {
        match self {
            LogLevel::Info => "INFO",
            LogLevel::Warn => "WARN",
            LogLevel::Error => "ERROR",
            LogLevel::Debug => "DEBUG",
        }
    }
}

/// A log line: the time and the level in square brackets, then the message
/// and a line feed.
pub open spec fn entry_text(timestamp: Seq<char>, level: LogLevel, message: Seq<char>) -> Seq<char> {
    "["@ + timestamp + "] ["@ + level.word() + "] "@ + message + "\n"@
}

/// The log line of a message, or none where logging is off.
pub fn format_entry(enabled: bool, timestamp: &str, level: LogLevel, message: &str) -> (r: Option<
    String,
>)
    ensures
        r is Some <==> enabled,
        r matches Some(line) ==> line@ == entry_text(timestamp@, level, message@),
{
    if enabled {
        Some(log_line(timestamp, level, message))
    } else {
        None
    }
}

/// The log line of a message.
pub fn log_line(timestamp: &str, level: LogLevel, message: &str) -> (line: String)
    ensures
        line@ == entry_text(timestamp@, level, message@),
{
    let mut out: Vec<char> = Vec::new();
    push_str(&mut out, "[");
    push_str(&mut out, timestamp);
    push_str(&mut out, "] [");
    push_str(&mut out, level.as_str());
    push_str(&mut out, "] ");
    push_str(&mut out, message);
    push_str(&mut out, "\n");
    assert(out@ =~= entry_text(timestamp@, level, message@));
    string_of(&out)
}

/// The log line of an information.
pub fn log_info(timestamp: &str, message: &str) -> (line: String)
    ensures
        line@ == entry_text(timestamp@, LogLevel::Info, message@),
{
    log_line(timestamp, LogLevel::Info, message)
}

/// The log line of a warning.
pub fn log_warn(timestamp: &str, message: &str) -> (line: String)
    ensures
        line@ == entry_text(timestamp@, LogLevel::Warn, message@),
{
    log_line(timestamp, LogLevel::Warn, message)
}

/// The log line of an error.
pub fn log_error(timestamp: &str, message: &str) -> (line: String)
    ensures
        line@ == entry_text(timestamp@, LogLevel::Error, message@),
{
    log_line(timestamp, LogLevel::Error, message)
}

/// The log line of a note for debugging.
pub fn log_debug(timestamp: &str, message: &str) -> (line: String)
    ensures
        line@ == entry_text(timestamp@, LogLevel::Debug, message@),
{
    log_line(timestamp, LogLevel::Debug, message)
}

} // verus!
