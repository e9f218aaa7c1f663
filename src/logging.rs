//! The log levels that the configuration names.
use vstd::prelude::*;

verus! {

/// What `str::to_lowercase` gives for a string.
pub uninterp spec fn lowercase_of(s: Seq<char>) -> Seq<char>;

/// Relies on `str::to_lowercase`: its result depends on the characters alone.
#[verifier::external_body]
fn to_lowercase(s: &str) -> (r: String)
    ensures
        r@ == lowercase_of(s@),
{
    s.to_lowercase()
}

#[derive(Debug, Clone, Copy, PartialEq, Eq)]
pub enum LogLevel {
    Error,
    Warn,
    Info,
    Debug,
    Trace,
}

/// The level of an already lower-cased name.
pub open spec fn level_of_lowercase(s: Seq<char>) -> Option<LogLevel> {
    if s == "error"@ {
        Some(LogLevel::Error)
    } else if s == "warn"@ {
        Some(LogLevel::Warn)
    } else if s == "info"@ {
        Some(LogLevel::Info)
    } else if s == "debug"@ {
        Some(LogLevel::Debug)
    } else if s == "trace"@ {
        Some(LogLevel::Trace)
    } else {
        None
    }
}

/// The level that a lower-case name denotes: `error`, `warn`, `info`, `debug`
/// or `trace`; any other name denotes none.
pub fn level_from_lowercase(s: &str) -> (r: Option<LogLevel>)
    ensures
        r == level_of_lowercase(s@),
{
    let s = s.to_owned();
    if s == String::from_str("error") {
        Some(LogLevel::Error)
    } else if s == String::from_str("warn") {
        Some(LogLevel::Warn)
    } else if s == String::from_str("info") {
        Some(LogLevel::Info)
    } else if s == String::from_str("debug") {
        Some(LogLevel::Debug)
    } else if s == String::from_str("trace") {
        Some(LogLevel::Trace)
    } else {
        None
    }
}

/// The level a configured name denotes, whatever its case; an unknown name
/// falls back to `Info`, and the second component says that it did.
pub fn parse_log_level(level: &str) -> (r: (LogLevel, bool))
    ensures
        match level_of_lowercase(lowercase_of(level@)) {
            Some(l) => r == (l, true),
            None => r == (LogLevel::Info, false),
        },
{
    let lowered = to_lowercase(level);
    match level_from_lowercase(lowered.as_str()) {
        Some(l) => (l, true),
        None => (LogLevel::Info, false),
    }
}

} // verus!
