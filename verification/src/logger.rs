use vstd::prelude::*;
use crate::strutil::{ascii_uppercase, upper_seq};

verus! {

/// One structured log record: level, message, timestamp and optional
/// details.
#[derive(Debug, Clone)]
pub struct LogEntry {
    pub level: String,
    pub message: String,
    pub timestamp: String,
    pub details: Option<String>,
}

/// Formats log records; appending them to the log file is the host's work.
#[derive(Debug)]
pub struct Logger;

/// The line a record is written as: `[timestamp] [LEVEL] message`, the
/// details on a `Details:` line of their own when present, and a trailing
/// newline.
pub open spec fn spec_log_line(
    timestamp: Seq<char>,
    level: Seq<char>,
    message: Seq<char>,
    details: Option<Seq<char>>,
) -> Seq<char> {
    "["@ + timestamp + "] ["@ + upper_seq(level) + "] "@ + message + (match details {
        Some(d) => "\nDetails: "@ + d,
        None => Seq::<char>::empty(),
    }) + "\n"@
}

impl Logger {
    /// The log line for one record.
    pub fn format_line(entry: &LogEntry) -> (r: String)
        ensures
            r@ == spec_log_line(
                entry.timestamp@,
                entry.level@,
                entry.message@,
                match entry.details {
                    Some(d) => Some(d@),
                    None => None,
                },
            ),
    {
        let level = ascii_uppercase(entry.level.as_str());
        let mut r = "[".to_owned();
        r.append(entry.timestamp.as_str());
        r.append("] [");
        r.append(level.as_str());
        r.append("] ");
        r.append(entry.message.as_str());
        match &entry.details {
            Some(d) => {
                r.append("\nDetails: ");
                r.append(d.as_str());
            }
            None => {}
        }
        r.append("\n");
        r
    }
}

} // verus!
