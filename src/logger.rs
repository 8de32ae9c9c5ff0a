//! Severity-tagged log lines for the log sink.

use vstd::prelude::*;
use vstd::string::StringExecFns;

verus! {

#[derive(Clone, Copy, Debug, PartialEq, Eq, Structural)]
pub enum LogLevel {
    Debug,
    Info,
    Warn,
    Error,
}

pub open spec fn prefix_text(level: LogLevel) -> Seq<char> {
    match level {
        LogLevel::Debug => "[-]"@,
        LogLevel::Info => "[*]"@,
        LogLevel::Warn => "[!]"@,
        LogLevel::Error => "[ERROR]"@,
    }
}

pub fn prefix(level: LogLevel) -> (r: &'static str)
    ensures
        r@ == prefix_text(level),
{
    match level {
        LogLevel::Debug => "[-]",
        LogLevel::Info => "[*]",
        LogLevel::Warn => "[!]",
        LogLevel::Error => "[ERROR]",
    }
}

/// Decides which lines reach the sink: debug lines only when enabled.
pub struct LogFilter {
    debug_enabled: bool,
}

impl LogFilter {
    pub closed spec fn debug_enabled(&self) -> bool {
        self.debug_enabled
    }

    pub fn new() -> (r: LogFilter)
        ensures
            !r.debug_enabled(),
    {
        LogFilter { debug_enabled: false }
    }

    pub fn set_debug_enabled(&mut self, enabled: bool)
        ensures
            final(self).debug_enabled() == enabled,
    {
        self.debug_enabled = enabled;
    }

    pub fn accepts(&self, level: LogLevel) -> (r: bool)
        ensures
            r == (level != LogLevel::Debug || self.debug_enabled()),
    {
        match level {
            LogLevel::Debug => self.debug_enabled,
            _ => true,
        }
    }

    /// The line for `msg`, prefixed with its severity; nothing where the
    /// level is filtered out.
    pub fn format_line(&self, level: LogLevel, msg: &str) -> (r: Option<String>)
        ensures
            (level != LogLevel::Debug || self.debug_enabled()) == r.is_some(),
            r.is_some() ==> r.unwrap()@ == prefix_text(level) + " "@ + msg@,
    {
        if !self.accepts(level) {
            return None;
        }
        let mut line = String::from_str(prefix(level));
        line.append(" ");
        line.append(msg);
        Some(line)
    }
}

} // verus!
