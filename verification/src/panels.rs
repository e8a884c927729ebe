//! Panel state: the classifier panel's log buffer and the log level colors.

use std::collections::VecDeque;
use std::time::Instant;
use vstd::prelude::*;
use crate::health::NodeHealth;
use crate::text::{decimal, push_decimal, push_str};

verus! {

#[verifier::external_type_specification]
#[verifier::external_body]
pub struct ExInstant(std::time::Instant);

/// `Instant::clone`: `Instant` is `Copy`, so its clone is the same instant.
pub assume_specification[ <std::time::Instant as std::clone::Clone>::clone ](i: &std::time::Instant) -> (r: std::time::Instant)
    ensures
        r == *i,
;

/// Severity of a log entry.
#[derive(Clone, Copy, Debug, PartialEq, Eq, Structural)]
pub enum LogLevel {
    Info,
    Warning,
    Error,
}

impl LogLevel {
    /// The display color of the level as `(red, green, blue)`: grey for info, amber for
    /// warnings, red for errors.
    pub fn rgb(&self) -> (c: (u8, u8, u8))
        ensures
            *self == LogLevel::Info ==> c == (180u8, 180u8, 180u8),
            *self == LogLevel::Warning ==> c == (255u8, 200u8, 50u8),
            *self == LogLevel::Error ==> c == (255u8, 80u8, 80u8),
    {
        match self {
            LogLevel::Info => (180, 180, 180),
            LogLevel::Warning => (255, 200, 50),
            LogLevel::Error => (255, 80, 80),
        }
    }
}

/// A single log entry from Loki.
#[derive(Clone, Debug)]
pub struct LogEntry {
    pub timestamp: Instant,
    pub source: String,
    pub message: String,
    pub level: LogLevel,
}

/// Buffer holding recent log entries for display, newest first.
pub struct LogBuffer {
    pub entries: VecDeque<LogEntry>,
    pub max_entries: usize,
    pub last_fetch: Option<Instant>,
    pub fetch_error: Option<String>,
}

impl Default for LogBuffer {
    /// Empty, holding up to 100 entries, never fetched.
    fn default() -> (b: LogBuffer)
        ensures
            b.entries@.len() == 0,
            b.max_entries == 100,
            b.last_fetch is None,
            b.fetch_error is None,
    {
        LogBuffer {
            entries: VecDeque::new(),
            max_entries: 100,
            last_fetch: None,
            fetch_error: None,
        }
    }
}

/// The first `max` elements of `s` (all of `s` when it has no more).
pub open spec fn keep_first<T>(s: Seq<T>, max: nat) -> Seq<T> {
    if s.len() > max {
        s.take(max as int)
    } else {
        s
    }
}

impl LogBuffer {
    /// Puts an entry in front, dropping the oldest entries beyond `max_entries`.
    pub fn push(&mut self, entry: LogEntry)
        ensures
            final(self).entries@ == keep_first(seq![entry] + old(self).entries@, old(self).max_entries as nat),
            final(self).max_entries == old(self).max_entries,
            final(self).last_fetch == old(self).last_fetch,
            final(self).fetch_error == old(self).fetch_error,
    {
        let ghost s = seq![entry] + old(self).entries@;
        self.entries.push_front(entry);
        assert(self.entries@ == s);
        assert(s.take(s.len() as int) == s);
        while self.entries.len() > self.max_entries
            invariant
                self.entries@.len() < s.len() ==> self.entries@.len() >= self.max_entries,
                self.entries@ == s.take(self.entries@.len() as int),
                s.len() >= self.entries@.len(),
                self.max_entries == old(self).max_entries,
                self.last_fetch == old(self).last_fetch,
                self.fetch_error == old(self).fetch_error,
            decreases self.entries@.len(),
        {
            self.entries.pop_back();
            assert(self.entries@ == s.take(self.entries@.len() as int));
        }
        assert(self.entries@ == keep_first(s, self.max_entries as nat));
    }

    /// Removes all entries.
    pub fn clear(&mut self)
        ensures
            final(self).entries@.len() == 0,
            final(self).max_entries == old(self).max_entries,
            final(self).last_fetch == old(self).last_fetch,
            final(self).fetch_error == old(self).fetch_error,
    {
        self.entries.clear();
    }
}

} // verus!

verus! {

/// The entries after pushing `pushed` in order, each in front (see `LogBuffer::push`).
pub open spec fn after_pushes(entries: Seq<LogEntry>, max: nat, pushed: Seq<LogEntry>) -> Seq<LogEntry>
    decreases pushed.len(),
{
    if pushed.len() == 0 {
        entries
    } else {
        keep_first(seq![pushed.last()] + after_pushes(entries, max, pushed.drop_last()), max)
    }
}

proof fn lemma_keep_first_front<T>(s: Seq<T>, a: T, max: nat)
    ensures
        keep_first(seq![a] + keep_first(s, max), max) == keep_first(seq![a] + s, max),
{
    if s.len() > max {
        assert(keep_first(seq![a] + keep_first(s, max), max) =~= keep_first(seq![a] + s, max));
    }
}

/// Law: the log buffer shows the newest entries first: after any pushes, it holds the
/// pushed entries, newest first, followed by the earlier ones, cut to `max_entries`.
pub proof fn law_log_buffer_newest_first(entries: Seq<LogEntry>, max: nat, pushed: Seq<LogEntry>)
    requires
        entries.len() <= max,
    ensures
        after_pushes(entries, max, pushed) == keep_first(pushed.reverse() + entries, max),
    decreases pushed.len(),
{
    if pushed.len() > 0 {
        law_log_buffer_newest_first(entries, max, pushed.drop_last());
        let prev = pushed.drop_last().reverse() + entries;
        lemma_keep_first_front(prev, pushed.last(), max);
        assert(pushed.reverse() + entries =~= seq![pushed.last()] + prev);
    } else {
        assert(pushed.reverse() + entries =~= entries);
    }
}

} // verus!

verus! {

broadcast use vstd::string::group_string_axioms;

/// The colors panel texts use for a node's health.
#[derive(Clone, Copy, Debug, PartialEq, Eq, Structural)]
pub enum StatusColor {
    Green,
    Yellow,
    Red,
}

/// The status text and color the detail panel shows for a node's health.
pub fn health_status_label(health: NodeHealth) -> (r: (String, StatusColor))
    ensures
        health == NodeHealth::Healthy ==> r.0@ == "Healthy"@ && r.1 == StatusColor::Green,
        health == NodeHealth::Warning ==> r.0@ == "Warning"@ && r.1 == StatusColor::Yellow,
        health == NodeHealth::Critical ==> r.0@ == "Critical"@ && r.1 == StatusColor::Red,
{
    match health {
        NodeHealth::Healthy => ("Healthy".to_string(), StatusColor::Green),
        NodeHealth::Warning => ("Warning".to_string(), StatusColor::Yellow),
        NodeHealth::Critical => ("Critical".to_string(), StatusColor::Red),
    }
}

/// The freshness line of a panel: `Updated: <s>s ago` after a fetch `s` seconds ago,
/// else `Waiting for data...`.
pub fn updated_label(seconds_since_fetch: Option<u64>) -> (r: String)
    ensures
        seconds_since_fetch matches Some(s) ==> r@ == "Updated: "@ + decimal(s as nat) + "s ago"@,
        seconds_since_fetch is None ==> r@ == "Waiting for data..."@,
{
    match seconds_since_fetch {
        Some(s) => {
            let mut r = String::new();
            push_str(&mut r, "Updated: ");
            push_decimal(&mut r, s as u128);
            push_str(&mut r, "s ago");
            r
        },
        None => "Waiting for data...".to_string(),
    }
}

/// The entry count line of the classifier panel: `Entries: <n>`.
pub fn entries_label(n: usize) -> (r: String)
    ensures
        r@ == "Entries: "@ + decimal(n as nat),
{
    let mut r = String::new();
    push_str(&mut r, "Entries: ");
    push_decimal(&mut r, n as u128);
    r
}

/// The age tag of a log entry: `[<s>s]`.
pub fn age_label(seconds: u64) -> (r: String)
    ensures
        r@ == "["@ + decimal(seconds as nat) + "s]"@,
{
    let mut r = String::new();
    push_str(&mut r, "[");
    push_decimal(&mut r, seconds as u128);
    push_str(&mut r, "s]");
    r
}

/// The error line of a panel: `Error: <message>`.
pub fn error_label(message: &str) -> (r: String)
    ensures
        r@ == "Error: "@ + message@,
{
    let mut r = String::new();
    push_str(&mut r, "Error: ");
    push_str(&mut r, message);
    r
}

} // verus!
