//! Log categories, log lines, and the messages that operations report.

use vstd::prelude::*;

use crate::text::{owned, push_str};

verus! {

/// How a log message is classed.
#[derive(Debug, Clone, Copy, PartialEq, Eq, Structural)]
pub enum LogCategory {
    Info,
    Warning,
    Success,
    Error,
}

impl LogCategory {
    pub open spec fn name(self) -> Seq<char> {
        match self {
            LogCategory::Info => "Info"@,
            LogCategory::Warning => "Warning"@,
            LogCategory::Success => "Success"@,
            LogCategory::Error => "Error"@,
        }
    }

    /// The category's name, as log lines show it.
    pub fn as_str(self) -> (r: &'static str)
        ensures
            r@ == self.name(),
    {
        match self {
            LogCategory::Info => "Info",
            LogCategory::Warning => "Warning",
            LogCategory::Success => "Success",
            LogCategory::Error => "Error",
        }
    }
}

/// One logged message with the time it was logged.
#[derive(Debug, Clone)]
pub struct LogEntry {
    pub timestamp: String,
    pub category: LogCategory,
    pub message: String,
}

/// The log file's line for an entry.
pub open spec fn log_line(timestamp: Seq<char>, category: LogCategory, message: Seq<char>) -> Seq<char> {
    timestamp + " - "@ + category.name() + ": "@ + message + "\n"@
}

impl LogEntry {
    /// The line that the log file gets: `timestamp - Category: message`,
    /// with a line ending.
    pub fn line(&self) -> (r: String)
        ensures
            r@ == log_line(self.timestamp@, self.category, self.message@),
    {
        let mut r = owned(self.timestamp.as_str());
        push_str(&mut r, " - ");
        push_str(&mut r, self.category.as_str());
        push_str(&mut r, ": ");
        push_str(&mut r, self.message.as_str());
        push_str(&mut r, "\n");
        assert(r@ =~= log_line(self.timestamp@, self.category, self.message@));
        r
    }
}

/// A message that an operation asks to have logged.
#[derive(Debug, Clone)]
pub struct Note {
    pub category: LogCategory,
    pub message: String,
}

/// The note for the outcome of a background operation: its success
/// message, or its error text as an error.
pub fn report_result(result: Result<(), String>, success_message: &str) -> (r: Note)
    ensures
        result is Ok ==> r.category == LogCategory::Success && r.message@ == success_message@,
        result matches Err(e) ==> r.category == LogCategory::Error && r.message@ == e@,
{
    match result {
        Ok(()) => Note { category: LogCategory::Success, message: owned(success_message) },
        Err(e) => Note { category: LogCategory::Error, message: e },
    }
}

} // verus!
