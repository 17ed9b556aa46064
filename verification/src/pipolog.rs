//! Log lines: what the bridge asks to be logged, and at which level.
use vstd::prelude::*;
use vstd::string::*;

verus! {

/// The severity of a log line.
#[derive(Clone, Copy, Debug, PartialEq, Eq, Structural)]
pub enum LogLevel {
    Error,
    Warn,
    Info,
    Debug,
    Trace,
}

/// A line to be written to the log.
#[derive(Clone, Debug, PartialEq, Eq)]
pub struct LogLine {
    pub level: LogLevel,
    pub message: String,
}

/// The bridge's logger.
pub struct Logger {}

impl Logger {
    /// The informational log line that records `s`.
    pub fn log(s: &str) -> (line: LogLine)
        ensures
            line.level == LogLevel::Info,
            line.message@ == s@,
    {
        LogLine { level: LogLevel::Info, message: String::from_str(s) }
    }
}

} // verus!
