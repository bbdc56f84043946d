//! The kinds of history record and the summary statistics over them.

use vstd::prelude::*;

verus! {

/// One record of the history: a command that ran, or a noteworthy event.
#[derive(Debug, Clone)]
pub enum HistoryEntry {
    Command { command: String, timestamp: u64, exit_code: i32, duration: u64 },
    Event { description: String, timestamp: u64 },
}

/// The mathematical shape of a history record.
pub ghost enum EntryView {
    Command { command: Seq<char>, timestamp: u64, exit_code: i32, duration: u64 },
    Event { description: Seq<char>, timestamp: u64 },
}

impl View for HistoryEntry {
    type V = EntryView;

    open spec fn view(&self) -> EntryView {
        match self {
            HistoryEntry::Command { command, timestamp, exit_code, duration } => EntryView::Command {
                command: command@,
                timestamp: *timestamp,
                exit_code: *exit_code,
                duration: *duration,
            },
            HistoryEntry::Event { description, timestamp } => EntryView::Event {
                description: description@,
                timestamp: *timestamp,
            },
        }
    }
}

impl EntryView {
    /// The record's timestamp, whichever kind it is.
    pub open spec fn timestamp(self) -> u64 {
        match self {
            EntryView::Command { timestamp, .. } => timestamp,
            EntryView::Event { timestamp, .. } => timestamp,
        }
    }

    /// The text of the record: the command line, or the event description.
    pub open spec fn text(self) -> Seq<char> {
        match self {
            EntryView::Command { command, .. } => command,
            EntryView::Event { description, .. } => description,
        }
    }
}

impl HistoryEntry {
    /// A command record. The caller supplies the clock reading, since the
    /// library does not read the clock.
    pub fn new_command(command: String, exit_code: i32, duration: u64, timestamp: u64) -> (r:
        HistoryEntry)
        ensures
            r@ == (EntryView::Command { command: command@, timestamp, exit_code, duration }),
    {
        HistoryEntry::Command { command, timestamp, exit_code, duration }
    }

    /// An event record. The caller supplies the clock reading.
    pub fn new_event(description: String, timestamp: u64) -> (r: HistoryEntry)
        ensures
            r@ == (EntryView::Event { description: description@, timestamp }),
    {
        HistoryEntry::Event { description, timestamp }
    }
}

/// How a history search interprets its query.
#[derive(Debug, Clone, PartialEq, Eq, Structural)]
pub enum HistorySearchMode {
    Prefix,
    Contains,
    TimeRange(u64, u64),
    LastN(usize),
}

/// Summary statistics over the recorded commands.
#[derive(Debug)]
pub struct HistoryStats {
    pub total_commands: usize,
    pub unique_commands: usize,
    pub failed_commands: usize,
    pub average_duration: u64,
    pub most_used: Vec<(String, usize)>,
}

impl Default for HistoryStats {
    /// All counts zero and no most-used entries.
    fn default() -> (r: HistoryStats)
        ensures
            r.total_commands == 0,
            r.unique_commands == 0,
            r.failed_commands == 0,
            r.average_duration == 0,
            r.most_used@.len() == 0,
    {
        HistoryStats {
            total_commands: 0,
            unique_commands: 0,
            failed_commands: 0,
            average_duration: 0,
            most_used: Vec::new(),
        }
    }
}

} // verus!
