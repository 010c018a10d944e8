//! The in-memory run log: the most recent entries, at most 500 of them.

use vstd::prelude::*;
use crate::text::owned;

verus! {

broadcast use vstd::string::group_string_axioms;

/// One run-log entry.
#[derive(Debug)]
pub struct LogEntry {
    pub timestamp: String,
    pub level: String,
    pub message: String,
}

/// How many entries the run log keeps.
pub open spec fn log_capacity() -> nat {
    500
}

/// The log after appending `e`: the oldest entry goes once there are more
/// than 500.
pub open spec fn appended(log: Seq<LogEntry>, e: LogEntry) -> Seq<LogEntry> {
    let s = log.push(e);
    if s.len() > log_capacity() {
        s.drop_first()
    } else {
        s
    }
}

/// The log after appending each of `entries` in turn to `log`.
pub open spec fn appended_all(log: Seq<LogEntry>, entries: Seq<LogEntry>) -> Seq<LogEntry>
    decreases entries.len(),
{
    if entries.len() == 0 {
        log
    } else {
        appended(appended_all(log, entries.drop_last()), entries.last())
    }
}

/// Appends an entry to the run log.
pub fn push_log(buffer: &mut Vec<LogEntry>, timestamp: String, level: &str, message: &str)
    ensures
        final(buffer)@.len() > 0,
        final(buffer)@ == appended(old(buffer)@, final(buffer)@.last()),
        final(buffer)@.last().timestamp == timestamp,
        final(buffer)@.last().level@ == level@,
        final(buffer)@.last().message@ == message@,
{
    let entry = LogEntry { timestamp, level: owned(level), message: owned(message) };
    buffer.push(entry);
    if buffer.len() > 500 {
        buffer.remove(0);
        assert(buffer@ =~= old(buffer)@.push(buffer@.last()).drop_first());
    }
}

/// The level names written in the run log.
#[derive(Debug)]
pub enum LogLevel {
    Error,
    Warn,
    Info,
    Debug,
    Trace,
}

/// The name of a level in the run log.
pub open spec fn level_name_of(l: LogLevel) -> Seq<char> {
    match l {
        LogLevel::Error => "ERROR"@,
        LogLevel::Warn => "WARN"@,
        LogLevel::Info => "INFO"@,
        LogLevel::Debug => "DEBUG"@,
        LogLevel::Trace => "TRACE"@,
    }
}

/// Names a level for the run log.
pub fn level_name(l: LogLevel) -> (r: String)
    ensures
        r@ == level_name_of(l),
{
    match l {
        LogLevel::Error => owned("ERROR"),
        LogLevel::Warn => owned("WARN"),
        LogLevel::Info => owned("INFO"),
        LogLevel::Debug => owned("DEBUG"),
        LogLevel::Trace => owned("TRACE"),
    }
}

/// The run log never holds more than 500 entries once it holds at most 500.
pub proof fn law_log_bounded(log: Seq<LogEntry>, e: LogEntry)
    requires
        log.len() <= log_capacity(),
    ensures
        appended(log, e).len() <= log_capacity(),
        appended(log, e).last() == e,
{
}

/// Starting empty, the run log holds exactly the last (at most 500) entries
/// appended, in order.
pub proof fn law_log_keeps_latest(entries: Seq<LogEntry>)
    ensures
        appended_all(Seq::empty(), entries) == entries.skip(
            if entries.len() > log_capacity() {
                entries.len() - log_capacity()
            } else {
                0
            },
        ),
    decreases entries.len(),
{
    if entries.len() == 0 {
        assert(entries.skip(0) =~= entries);
    } else {
        law_log_keeps_latest(entries.drop_last());
        let prev = entries.drop_last();
        let k: int = if prev.len() > log_capacity() { prev.len() - log_capacity() } else { 0 };
        let k2: int = if entries.len() > log_capacity() {
            entries.len() - log_capacity()
        } else {
            0
        };
        assert(prev.skip(k).push(entries.last()) =~= entries.skip(k));
        if entries.len() > log_capacity() {
            assert(entries.skip(k).drop_first() =~= entries.skip(k2));
        } else {
            assert(k == k2);
        }
    }
}

} // verus!
