//! The log of a conversation: a list of entries that each say when, who and what.

use crate::json;
use crate::run_turn::{LogRecord, LogView};
use vstd::prelude::*;

verus! {

/// `chrono::Local::now().to_rfc3339()`, the date and time of this moment in the
/// local time zone, such as `1996-12-19T16:39:57-08:00`. Which moment that is
/// depends on the clock; a date and a time are always there, so the text holds at
/// least the nineteen characters that they take.
#[verifier::external_body]
pub(crate) fn local_timestamp() -> (r: String)
    ensures
        r@.len() >= 19,
{
    chrono::Local::now().to_rfc3339()
}

/// One entry of the log.
#[derive(Debug)]
pub struct LogEntry {
    pub timestamp: String,
    pub entity: String,
    pub content: serde_json::Value,
}

/// What an entry says.
#[verifier::ext_equal]
pub struct LogEntryView {
    pub timestamp: Seq<char>,
    pub said: LogView,
}

impl View for LogEntry {
    type V = LogEntryView;

    open spec fn view(&self) -> LogEntryView {
        LogEntryView {
            timestamp: self.timestamp@,
            said: LogView { entity: self.entity@, content: json::json_text(self.content) },
        }
    }
}

/// What the entries of a log say.
pub open spec fn log_entry_views(logs: Seq<LogEntry>) -> Seq<LogEntryView> {
    Seq::new(logs.len(), |i: int| logs[i]@)
}

/// What a log holds that may not be there: one that is not, or that could not be
/// read, holds nothing.
pub open spec fn held(logs: Option<Vec<LogEntry>>) -> Seq<LogEntryView> {
    match logs {
        Some(l) => log_entry_views(l@),
        None => Seq::empty(),
    }
}

/// The log with one more entry at its end.
pub fn append_at(logs: Option<Vec<LogEntry>>, timestamp: String, record: LogRecord) -> (r: Vec<
    LogEntry,
>)
    ensures
        log_entry_views(r@) == held(logs).push(LogEntryView { timestamp: timestamp@, said: record@ }),
{
    let mut out: Vec<LogEntry> = match logs {
        Some(l) => l,
        None => Vec::new(),
    };
    let ghost before = out@;
    proof {
        assert(log_entry_views(before) =~= held(logs));
    }
    out.push(LogEntry { timestamp, entity: record.entity.to_owned(), content: record.content });
    proof {
        assert(log_entry_views(out@) =~= log_entry_views(before).push(
            LogEntryView { timestamp: timestamp@, said: record@ },
        ));
    }
    out
}

/// The log with one more entry at its end, dated now. The entries that were there
/// stay as they are.
pub fn append_to_log(logs: Option<Vec<LogEntry>>, record: LogRecord) -> (r: Vec<LogEntry>)
    ensures
        log_entry_views(r@).len() == held(logs).len() + 1,
        log_entry_views(r@).drop_last() == held(logs),
        log_entry_views(r@).last().said == record@,
        log_entry_views(r@).last().timestamp.len() >= 19,
{
    let timestamp = local_timestamp();
    let ghost before = held(logs);
    let out = append_at(logs, timestamp, record);
    proof {
        assert(log_entry_views(out@).drop_last() =~= before);
    }
    out
}

} // verus!
