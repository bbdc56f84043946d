//! The in-memory command history and the line format of its backing file.

pub mod types;

pub mod file_ops;

pub use self::file_ops::FileOps;
pub use self::types::{HistoryEntry, HistorySearchMode, HistoryStats};

use vstd::prelude::*;
use vstd::string::StringExecFns;
use self::types::EntryView;
use crate::text::{lemma_lex_lt_total, lemma_lex_lt_trans, lex_lt};

verus! {

/// Failures of history bookkeeping.
#[derive(Debug)]
pub enum HistoryError {
    IoError(String),
    InvalidIndex(usize),
    LockError(String),
    FileOperationError(String),
    EmptyCommand,
}

impl HistoryError {
    /// The human-readable description of this error.
    pub fn message(&self) -> (r: String)
        ensures
            match self {
                HistoryError::IoError(msg) => r@ == "IO error: "@ + msg@,
                HistoryError::InvalidIndex(_) => r@.len() > 0,
                HistoryError::LockError(msg) => r@ == "Lock error: "@ + msg@,
                HistoryError::FileOperationError(msg) => r@ == "File operation error: "@ + msg@,
                HistoryError::EmptyCommand => r@ == "Empty command"@,
            },
    {
        match self {
            HistoryError::IoError(msg) => {
                let mut s = String::from_str("IO error: ");
                s.append(msg.as_str());
                s
            },
            HistoryError::InvalidIndex(idx) => {
                let mut s = String::from_str("Invalid history index: ");
                let digits = crate::text::u64_to_string(*idx as u64);
                s.append(digits.as_str());
                proof {
                    reveal_strlit("Invalid history index: ");
                }
                s
            },
            HistoryError::LockError(msg) => {
                let mut s = String::from_str("Lock error: ");
                s.append(msg.as_str());
                s
            },
            HistoryError::FileOperationError(msg) => {
                let mut s = String::from_str("File operation error: ");
                s.append(msg.as_str());
                s
            },
            HistoryError::EmptyCommand => String::from_str("Empty command"),
        }
    }
}


/// The views of a sequence of records.
pub open spec fn entries_of(v: Seq<HistoryEntry>) -> Seq<EntryView> {
    v.map_values(|e: HistoryEntry| e@)
}

/// Copy one record.
fn duplicate_entry(e: &HistoryEntry) -> (r: HistoryEntry)
    ensures
        r@ == e@,
{
    match e {
        HistoryEntry::Command { command, timestamp, exit_code, duration } => HistoryEntry::Command {
            command: command.clone(),
            timestamp: *timestamp,
            exit_code: *exit_code,
            duration: *duration,
        },
        HistoryEntry::Event { description, timestamp } => HistoryEntry::Event {
            description: description.clone(),
            timestamp: *timestamp,
        },
    }
}

/// The records loaded from the file lines from `i` on: blank lines are
/// skipped, any unreadable field fails the whole load.
pub open spec fn spec_load_lines(lines: Seq<Seq<char>>, i: int, ts: u64) -> Result<
    Seq<EntryView>,
    (),
>
    decreases lines.len() - i,
{
    if i < 0 || i >= lines.len() {
        Ok(Seq::empty())
    } else if crate::text::is_blank(lines[i]) {
        spec_load_lines(lines, i + 1, ts)
    } else {
        match crate::input::history::file_ops::spec_parse_entry(lines[i], ts) {
            Ok(e) => match spec_load_lines(lines, i + 1, ts) {
                Ok(rest) => Ok(seq![e] + rest),
                Err(()) => Err(()),
            },
            Err(()) => Err(()),
        }
    }
}

/// The most recent `count` records, latest first.
pub open spec fn spec_recent(es: Seq<EntryView>, count: int) -> Seq<EntryView> {
    let n = if count < es.len() {
        count
    } else {
        es.len() as int
    };
    Seq::new(n as nat, |i: int| es[es.len() - 1 - i])
}

/// The in-memory command history. The backing file is read and written by
/// the embedding program: loading takes the file's lines, and the
/// operations that change the history hand back what must be appended to
/// or rewritten in the file.
pub struct History {
    entries: Vec<HistoryEntry>,
    file_ops: FileOps,
    max_entries: usize,
}

impl View for History {
    type V = Seq<EntryView>;

    closed spec fn view(&self) -> Seq<EntryView> {
        entries_of(self.entries@)
    }
}

impl History {
    /// The largest number of records kept in memory.
    pub closed spec fn max_entries_spec(&self) -> int {
        self.max_entries as int
    }

    /// The path of the backing file.
    pub closed spec fn path_spec(&self) -> Seq<char> {
        self.file_ops.get_path_spec()
    }

    /// An empty history backed by the given file. The embedding program
    /// loads the file's lines through `load_from_lines`.
    pub fn new(history_file: String, max_entries: usize) -> (r: Result<History, HistoryError>)
        ensures
            r matches Ok(h) && h@ == Seq::<EntryView>::empty() && h.max_entries_spec()
                == max_entries && h.path_spec() == history_file@,
    {
        let r = History {
            entries: Vec::new(),
            file_ops: FileOps::new(history_file),
            max_entries,
        };
        proof {
            assert(r@ =~= Seq::<EntryView>::empty());
        }
        Ok(r)
    }

    /// Load the records from the backing file's lines, appending to the
    /// records already held. `fallback_timestamp` is the clock reading used
    /// for lines without a timestamp field.
    pub fn load_from_lines(&mut self, lines: &Vec<String>, fallback_timestamp: u64) -> (r: Result<
        (),
        HistoryError,
    >)
        ensures
            match r {
                Ok(()) => spec_load_lines(lines.deep_view(), 0, fallback_timestamp) matches Ok(es)
                    && final(self)@ == old(self)@ + es,
                Err(e) => spec_load_lines(lines.deep_view(), 0, fallback_timestamp) is Err && (e
                    matches HistoryError::FileOperationError(_)) && final(self)@ == old(self)@,
            },
            final(self).max_entries_spec() == old(self).max_entries_spec(),
            final(self).path_spec() == old(self).path_spec(),
    {
        let ghost lv = lines.deep_view();
        let mut parsed: Vec<HistoryEntry> = Vec::new();
        let mut i: usize = 0;
        let ghost mut done: Seq<EntryView> = Seq::empty();
        proof {
            assert(entries_of(parsed@) =~= done);
        }
        while i < lines.len()
            invariant
                0 <= i <= lv.len(),
                lv == lines.deep_view(),
                entries_of(parsed@) == done,
                self == old(self),
                match spec_load_lines(lv, i as int, fallback_timestamp) {
                    Ok(rest) => spec_load_lines(lv, 0, fallback_timestamp)
                        == Ok::<Seq<EntryView>, ()>(done + rest),
                    Err(()) => spec_load_lines(lv, 0, fallback_timestamp) is Err,
                },
            decreases lv.len() - i,
        {
            proof {
                assert(lv[i as int] == lines@[i as int]@);
            }
            let cs = crate::text::chars_of(lines[i].as_str());
            if !crate::text::all_spaces_from(cs.as_slice(), 0) {
                match file_ops::parse_entry_line(lines[i].as_str(), fallback_timestamp) {
                    Ok(e) => {
                        let ghost ev = e@;
                        let ghost pre = entries_of(parsed@);
                        parsed.push(e);
                        proof {
                            assert(entries_of(parsed@) =~= pre.push(ev));
                            if spec_load_lines(lv, i as int + 1, fallback_timestamp) is Ok {
                                let rest = spec_load_lines(
                                    lv,
                                    i as int + 1,
                                    fallback_timestamp,
                                )->Ok_0;
                                assert(spec_load_lines(lv, i as int, fallback_timestamp)
                                    == Ok::<Seq<EntryView>, ()>(seq![ev] + rest));
                                assert(done.push(ev) =~= done + seq![ev]);
                                vstd::seq_lib::lemma_concat_associative(done, seq![ev], rest);
                            }
                            done = done.push(ev);
                        }
                    },
                    Err(e) => {
                        return Err(e);
                    },
                }
            }
            i = i + 1;
        }
        proof {
            assert(spec_load_lines(lv, i as int, fallback_timestamp) == Ok::<Seq<EntryView>, ()>(
                Seq::empty(),
            ));
            assert(done + Seq::<EntryView>::empty() =~= done);
        }
        let ghost pre_self = self@;
        let mut k: usize = 0;
        while k < parsed.len()
            invariant
                0 <= k <= parsed@.len(),
                entries_of(parsed@) == done,
                self@ == pre_self + done.subrange(0, k as int),
                self.max_entries_spec() == old(self).max_entries_spec(),
                self.path_spec() == old(self).path_spec(),
            decreases parsed@.len() - k,
        {
            let ghost pre = self@;
            let e = duplicate_entry(&parsed[k]);
            proof {
                assert(e@ == done[k as int]);
            }
            self.entries.push(e);
            proof {
                assert(self@ =~= pre.push(done[k as int]));
                assert(self@ =~= pre_self + done.subrange(0, k as int + 1));
            }
            k = k + 1;
        }
        proof {
            assert(done.subrange(0, done.len() as int) =~= done);
        }
        Ok(())
    }

    /// Drop the oldest records until no more than the configured maximum
    /// remain.
    pub fn trim_entries(&mut self)
        ensures
            final(self)@ == if old(self)@.len() > old(self).max_entries_spec() {
                old(self)@.skip(old(self)@.len() - old(self).max_entries_spec())
            } else {
                old(self)@
            },
            final(self).max_entries_spec() == old(self).max_entries_spec(),
            final(self).path_spec() == old(self).path_spec(),
    {
        let ghost orig = self@;
        while self.entries.len() > self.max_entries
            invariant
                self.max_entries_spec() == old(self).max_entries_spec(),
                self.path_spec() == old(self).path_spec(),
                self@.len() <= orig.len(),
                self@ == orig.skip(orig.len() - self@.len()),
                self@.len() >= self.max_entries_spec() || self@ == orig,
            decreases self.entries@.len(),
        {
            let ghost pre = self@;
            let ghost prevv = self.entries@;
            self.entries.remove(0);
            proof {
                assert(self.entries@ == prevv.remove(0));
                prevv.remove_ensures(0);
                assert forall|j: int| 0 <= j < self@.len() implies self@[j] == pre[j + 1] by {
                    assert(self.entries@[j] == prevv[j + 1]);
                }
                assert(self@ =~= pre.drop_first());
                let k = orig.len() - pre.len();
                assert(pre == orig.skip(k));
                assert forall|j: int| 0 <= j < self@.len() implies self@[j] == orig.skip(k + 1)[j]
                    by {
                    assert(self@[j] == pre[j + 1]);
                    assert(0 <= k && k + pre.len() == orig.len());
                    assert(pre[j + 1] == orig.skip(k)[j + 1]);
                    assert(orig.skip(k)[j + 1] == orig[k + (j + 1)]);
                }
                assert(self@ =~= orig.skip(k + 1));
                assert(orig.len() - self@.len() == k + 1);
            }
        }
    }

    /// Record a command with its exit code and duration; the caller
    /// supplies the clock reading. A blank command is refused. On success
    /// the returned line is what the embedding program appends to the
    /// backing file; the in-memory records gain the new one and are
    /// trimmed to the maximum.
    pub fn add_with_details(
        &mut self,
        command: &str,
        exit_code: i32,
        duration: u64,
        timestamp: u64,
    ) -> (r: Result<String, HistoryError>)
        ensures
            match r {
                Ok(line) => {
                    let e = EntryView::Command { command: command@, timestamp, exit_code, duration };
                    let pushed = old(self)@.push(e);
                    &&& !crate::text::is_blank(command@)
                    &&& line@ == file_ops::spec_render_entry(e)
                    &&& final(self)@ == if pushed.len() > old(self).max_entries_spec() {
                        pushed.skip(pushed.len() - old(self).max_entries_spec())
                    } else {
                        pushed
                    }
                },
                Err(e) => crate::text::is_blank(command@) && (e matches HistoryError::EmptyCommand)
                    && final(self)@ == old(self)@,
            },
            final(self).max_entries_spec() == old(self).max_entries_spec(),
            final(self).path_spec() == old(self).path_spec(),
    {
        let cs = crate::text::chars_of(command);
        if crate::text::all_spaces_from(cs.as_slice(), 0) {
            return Err(HistoryError::EmptyCommand);
        }
        let entry = HistoryEntry::new_command(
            String::from_str(command),
            exit_code,
            duration,
            timestamp,
        );
        let line = file_ops::render_entry(&entry);
        let ghost pre = self@;
        let ghost ev = entry@;
        self.entries.push(entry);
        proof {
            assert(self@ =~= pre.push(ev));
        }
        self.trim_entries();
        Ok(line)
    }

    /// Record a command with exit code 0 and no duration.
    pub fn add(&mut self, command: &str, timestamp: u64) -> (r: Result<String, HistoryError>)
        ensures
            match r {
                Ok(line) => {
                    let e = EntryView::Command {
                        command: command@,
                        timestamp,
                        exit_code: 0,
                        duration: 0,
                    };
                    let pushed = old(self)@.push(e);
                    &&& !crate::text::is_blank(command@)
                    &&& line@ == file_ops::spec_render_entry(e)
                    &&& final(self)@ == if pushed.len() > old(self).max_entries_spec() {
                        pushed.skip(pushed.len() - old(self).max_entries_spec())
                    } else {
                        pushed
                    }
                },
                Err(e) => crate::text::is_blank(command@) && (e matches HistoryError::EmptyCommand)
                    && final(self)@ == old(self)@,
            },
            final(self).max_entries_spec() == old(self).max_entries_spec(),
            final(self).path_spec() == old(self).path_spec(),
    {
        self.add_with_details(command, 0, 0, timestamp)
    }

    /// The most recent `count` records, latest first.
    pub fn get_recent(&self, count: usize) -> (r: Vec<HistoryEntry>)
        ensures
            entries_of(r@) == spec_recent(self@, count as int),
    {
        let mut out: Vec<HistoryEntry> = Vec::new();
        let n = self.entries.len();
        let limit: usize = if count < n {
            count
        } else {
            n
        };
        let mut i: usize = 0;
        while i < limit
            invariant
                0 <= i <= limit <= n == self@.len(),
                limit == if count < n {
                    count as int
                } else {
                    n as int
                },
                entries_of(out@) == spec_recent(self@, count as int).subrange(0, i as int),
            decreases limit - i,
        {
            let ghost pre = entries_of(out@);
            let e = duplicate_entry(&self.entries[n - 1 - i]);
            proof {
                assert(e@ == self@[n - 1 - i]);
                assert(spec_recent(self@, count as int)[i as int] == self@[n - 1 - i]);
            }
            out.push(e);
            proof {
                assert(entries_of(out@) =~= pre.push(e@));
                assert(entries_of(out@) =~= spec_recent(self@, count as int).subrange(
                    0,
                    i as int + 1,
                ));
            }
            i = i + 1;
        }
        proof {
            assert(spec_recent(self@, count as int).subrange(
                0,
                spec_recent(self@, count as int).len() as int,
            ) =~= spec_recent(self@, count as int));
        }
        out
    }

    /// Forget every record.
    pub fn clear(&mut self) -> (r: Result<(), HistoryError>)
        ensures
            r is Ok,
            final(self)@ == Seq::<EntryView>::empty(),
            final(self).max_entries_spec() == old(self).max_entries_spec(),
            final(self).path_spec() == old(self).path_spec(),
    {
        self.entries = Vec::new();
        proof {
            assert(self@ =~= Seq::<EntryView>::empty());
        }
        Ok(())
    }

    /// Remove the record at `index`; an index past the end is refused. The
    /// embedding program rewrites the backing file with
    /// `rewrite_history_file` afterwards.
    pub fn delete_at(&mut self, index: usize) -> (r: Result<(), HistoryError>)
        ensures
            match r {
                Ok(()) => index < old(self)@.len() && final(self)@ == old(self)@.remove(
                    index as int,
                ),
                Err(e) => {
                    &&& index >= old(self)@.len()
                    &&& (e matches HistoryError::InvalidIndex(i) && i == index)
                    &&& final(self)@ == old(self)@
                },
            },
            final(self).max_entries_spec() == old(self).max_entries_spec(),
            final(self).path_spec() == old(self).path_spec(),
    {
        if index >= self.entries.len() {
            return Err(HistoryError::InvalidIndex(index));
        }
        let ghost pre = self@;
        self.entries.remove(index);
        proof {
            assert(self@ =~= pre.remove(index as int));
        }
        Ok(())
    }

    /// The lines that rewrite the whole backing file.
    pub fn rewrite_history_file(&self) -> (r: Vec<String>)
        ensures
            r.deep_view().len() == self@.len(),
            forall|i: int|
                0 <= i < self@.len() ==> r.deep_view()[i] == file_ops::spec_render_entry(
                    #[trigger] self@[i],
                ),
    {
        let mut out: Vec<String> = Vec::new();
        let mut i: usize = 0;
        while i < self.entries.len()
            invariant
                0 <= i <= self@.len(),
                out.deep_view().len() == i,
                forall|j: int|
                    0 <= j < i ==> out.deep_view()[j] == file_ops::spec_render_entry(
                        #[trigger] self@[j],
                    ),
            decreases self@.len() - i,
        {
            let ghost pre = out.deep_view();
            let line = file_ops::render_entry(&self.entries[i]);
            let ghost lv = line@;
            out.push(line);
            proof {
                assert(out.deep_view() =~~= pre.push(lv));
            }
            i = i + 1;
        }
        out
    }
}


/// Whether the record's text starts with `q`.
pub open spec fn text_has_prefix(e: EntryView, q: Seq<char>) -> bool {
    crate::text::occurs_at(e.text(), q, 0)
}

/// The records whose text starts with `q`, from `i` on, in order.
pub open spec fn spec_filter_prefix(es: Seq<EntryView>, q: Seq<char>, i: int) -> Seq<EntryView>
    decreases es.len() - i,
{
    if i < 0 || i >= es.len() {
        Seq::empty()
    } else if text_has_prefix(es[i], q) {
        seq![es[i]] + spec_filter_prefix(es, q, i + 1)
    } else {
        spec_filter_prefix(es, q, i + 1)
    }
}

/// The records whose text contains `q`, from `i` on, in order.
pub open spec fn spec_filter_contains(es: Seq<EntryView>, q: Seq<char>, i: int) -> Seq<EntryView>
    decreases es.len() - i,
{
    if i < 0 || i >= es.len() {
        Seq::empty()
    } else if crate::text::occurs_somewhere(es[i].text(), q) {
        seq![es[i]] + spec_filter_contains(es, q, i + 1)
    } else {
        spec_filter_contains(es, q, i + 1)
    }
}

/// The records whose timestamp lies in `[lo, hi]`, from `i` on, in order.
pub open spec fn spec_filter_range(es: Seq<EntryView>, lo: u64, hi: u64, i: int) -> Seq<EntryView>
    decreases es.len() - i,
{
    if i < 0 || i >= es.len() {
        Seq::empty()
    } else if lo <= es[i].timestamp() && es[i].timestamp() <= hi {
        seq![es[i]] + spec_filter_range(es, lo, hi, i + 1)
    } else {
        spec_filter_range(es, lo, hi, i + 1)
    }
}

/// How many of the records are commands.
pub open spec fn spec_total_commands(es: Seq<EntryView>) -> int
    decreases es.len(),
{
    if es.len() == 0 {
        0
    } else {
        spec_total_commands(es.drop_last()) + if es.last() is Command {
            1int
        } else {
            0int
        }
    }
}

/// How many of the recorded commands exited nonzero.
pub open spec fn spec_failed_commands(es: Seq<EntryView>) -> int
    decreases es.len(),
{
    if es.len() == 0 {
        0
    } else {
        spec_failed_commands(es.drop_last()) + match es.last() {
            EntryView::Command { exit_code, .. } => if exit_code != 0 {
                1int
            } else {
                0int
            },
            EntryView::Event { .. } => 0int,
        }
    }
}

/// The sum of the recorded commands' durations.
pub open spec fn spec_duration_sum(es: Seq<EntryView>) -> int
    decreases es.len(),
{
    if es.len() == 0 {
        0
    } else {
        spec_duration_sum(es.drop_last()) + match es.last() {
            EntryView::Command { duration, .. } => duration as int,
            EntryView::Event { .. } => 0int,
        }
    }
}

/// How often `c` occurs as a recorded command.
pub open spec fn spec_freq_of(es: Seq<EntryView>, c: Seq<char>) -> int
    decreases es.len(),
{
    if es.len() == 0 {
        0
    } else {
        spec_freq_of(es.drop_last(), c) + match es.last() {
            EntryView::Command { command, .. } => if command == c {
                1int
            } else {
                0int
            },
            EntryView::Event { .. } => 0int,
        }
    }
}

/// The distinct recorded commands.
pub open spec fn spec_distinct_commands(es: Seq<EntryView>) -> Set<Seq<char>>
    decreases es.len(),
{
    if es.len() == 0 {
        Set::empty()
    } else {
        match es.last() {
            EntryView::Command { command, .. } => spec_distinct_commands(es.drop_last()).insert(
                command,
            ),
            EntryView::Event { .. } => spec_distinct_commands(es.drop_last()),
        }
    }
}


impl History {
    /// The record at `i`, and its text, for the search loops.
    fn entry_text_chars(&self, i: usize) -> (r: Vec<char>)
        requires
            i < self@.len(),
        ensures
            r@ == self@[i as int].text(),
    {
        match &self.entries[i] {
            HistoryEntry::Command { command, .. } => crate::text::chars_of(command.as_str()),
            HistoryEntry::Event { description, .. } => crate::text::chars_of(description.as_str()),
        }
    }

    /// The records whose text starts with `prefix`, in order.
    pub fn search_by_prefix(&self, prefix: &str) -> (r: Vec<HistoryEntry>)
        ensures
            entries_of(r@) == spec_filter_prefix(self@, prefix@, 0),
    {
        let q = crate::text::chars_of(prefix);
        let mut out: Vec<HistoryEntry> = Vec::new();
        let mut i: usize = 0;
        let ghost mut done: Seq<EntryView> = Seq::empty();
        proof {
            assert(entries_of(out@) =~= done);
        }
        while i < self.entries.len()
            invariant
                0 <= i <= self@.len(),
                q@ == prefix@,
                entries_of(out@) == done,
                spec_filter_prefix(self@, prefix@, 0) == done + spec_filter_prefix(
                    self@,
                    prefix@,
                    i as int,
                ),
            decreases self@.len() - i,
        {
            let text = self.entry_text_chars(i);
            if crate::text::matches_at(text.as_slice(), q.as_slice(), 0) {
                proof {
                    assert(spec_filter_prefix(self@, prefix@, i as int) == seq![self@[i as int]]
                        + spec_filter_prefix(self@, prefix@, i as int + 1));
                    vstd::seq_lib::lemma_concat_associative(
                        done,
                        seq![self@[i as int]],
                        spec_filter_prefix(self@, prefix@, i as int + 1),
                    );
                }
                let ghost pre = entries_of(out@);
                let e = duplicate_entry(&self.entries[i]);
                out.push(e);
                proof {
                    assert(entries_of(out@) =~= pre.push(self@[i as int]));
                    done = done + seq![self@[i as int]];
                    assert(entries_of(out@) =~= done);
                }
            }
            i = i + 1;
        }
        proof {
            assert(spec_filter_prefix(self@, prefix@, i as int) =~= Seq::<EntryView>::empty());
            assert(done + Seq::<EntryView>::empty() =~= done);
        }
        out
    }

    /// The records whose text contains `substring`, in order.
    pub fn search_by_contains(&self, substring: &str) -> (r: Vec<HistoryEntry>)
        ensures
            entries_of(r@) == spec_filter_contains(self@, substring@, 0),
    {
        let q = crate::text::chars_of(substring);
        let mut out: Vec<HistoryEntry> = Vec::new();
        let mut i: usize = 0;
        let ghost mut done: Seq<EntryView> = Seq::empty();
        proof {
            assert(entries_of(out@) =~= done);
        }
        while i < self.entries.len()
            invariant
                0 <= i <= self@.len(),
                q@ == substring@,
                entries_of(out@) == done,
                spec_filter_contains(self@, substring@, 0) == done + spec_filter_contains(
                    self@,
                    substring@,
                    i as int,
                ),
            decreases self@.len() - i,
        {
            let text = self.entry_text_chars(i);
            if crate::text::occurs_in(text.as_slice(), q.as_slice()) {
                proof {
                    assert(spec_filter_contains(self@, substring@, i as int) == seq![
                        self@[i as int]] + spec_filter_contains(self@, substring@, i as int + 1));
                    vstd::seq_lib::lemma_concat_associative(
                        done,
                        seq![self@[i as int]],
                        spec_filter_contains(self@, substring@, i as int + 1),
                    );
                }
                let ghost pre = entries_of(out@);
                let e = duplicate_entry(&self.entries[i]);
                out.push(e);
                proof {
                    assert(entries_of(out@) =~= pre.push(self@[i as int]));
                    done = done + seq![self@[i as int]];
                    assert(entries_of(out@) =~= done);
                }
            }
            i = i + 1;
        }
        proof {
            assert(spec_filter_contains(self@, substring@, i as int) =~= Seq::<EntryView>::empty());
            assert(done + Seq::<EntryView>::empty() =~= done);
        }
        out
    }

    /// The records whose timestamp lies in `[start, end]`, in order.
    pub fn search_by_timerange(&self, start: u64, end: u64) -> (r: Vec<HistoryEntry>)
        ensures
            entries_of(r@) == spec_filter_range(self@, start, end, 0),
    {
        let mut out: Vec<HistoryEntry> = Vec::new();
        let mut i: usize = 0;
        let ghost mut done: Seq<EntryView> = Seq::empty();
        proof {
            assert(entries_of(out@) =~= done);
        }
        while i < self.entries.len()
            invariant
                0 <= i <= self@.len(),
                entries_of(out@) == done,
                spec_filter_range(self@, start, end, 0) == done + spec_filter_range(
                    self@,
                    start,
                    end,
                    i as int,
                ),
            decreases self@.len() - i,
        {
            let ts = match &self.entries[i] {
                HistoryEntry::Command { timestamp, .. } => *timestamp,
                HistoryEntry::Event { timestamp, .. } => *timestamp,
            };
            proof {
                assert(ts == self@[i as int].timestamp());
            }
            if start <= ts && ts <= end {
                proof {
                    assert(spec_filter_range(self@, start, end, i as int) == seq![self@[i as int]]
                        + spec_filter_range(self@, start, end, i as int + 1));
                    vstd::seq_lib::lemma_concat_associative(
                        done,
                        seq![self@[i as int]],
                        spec_filter_range(self@, start, end, i as int + 1),
                    );
                }
                let ghost pre = entries_of(out@);
                let e = duplicate_entry(&self.entries[i]);
                out.push(e);
                proof {
                    assert(entries_of(out@) =~= pre.push(self@[i as int]));
                    done = done + seq![self@[i as int]];
                    assert(entries_of(out@) =~= done);
                }
            }
            i = i + 1;
        }
        proof {
            assert(spec_filter_range(self@, start, end, i as int) =~= Seq::<EntryView>::empty());
            assert(done + Seq::<EntryView>::empty() =~= done);
        }
        out
    }

    /// Search the records as `mode` asks: by prefix, by substring, by time
    /// range, or the most recent `n`.
    pub fn search(&self, mode: HistorySearchMode, query: &str) -> (r: Vec<HistoryEntry>)
        ensures
            match mode {
                HistorySearchMode::Prefix => entries_of(r@) == spec_filter_prefix(
                    self@,
                    query@,
                    0,
                ),
                HistorySearchMode::Contains => entries_of(r@) == spec_filter_contains(
                    self@,
                    query@,
                    0,
                ),
                HistorySearchMode::TimeRange(start, end) => entries_of(r@) == spec_filter_range(
                    self@,
                    start,
                    end,
                    0,
                ),
                HistorySearchMode::LastN(n) => entries_of(r@) == spec_recent(self@, n as int),
            },
    {
        match mode {
            HistorySearchMode::Prefix => self.search_by_prefix(query),
            HistorySearchMode::Contains => self.search_by_contains(query),
            HistorySearchMode::TimeRange(start, end) => self.search_by_timerange(start, end),
            HistorySearchMode::LastN(n) => self.get_recent(n),
        }
    }
}


/// A nonzero count is recorded exactly for the distinct commands.
proof fn lemma_freq_distinct(es: Seq<EntryView>, c: Seq<char>)
    ensures
        spec_freq_of(es, c) >= 0,
        spec_freq_of(es, c) > 0 <==> spec_distinct_commands(es).contains(c),
    decreases es.len(),
{
    if es.len() > 0 {
        lemma_freq_distinct(es.drop_last(), c);
    }
}

/// The set of distinct commands is finite.
proof fn lemma_distinct_finite(es: Seq<EntryView>)
    ensures
        spec_distinct_commands(es).finite(),
    decreases es.len(),
{
    if es.len() > 0 {
        lemma_distinct_finite(es.drop_last());
    }
}


/// Whether `x` comes strictly before `y` in the most-used listing: the
/// larger count first, ties broken by name.
pub open spec fn pair_lt(x: (Seq<char>, int), y: (Seq<char>, int)) -> bool {
    x.1 > y.1 || (x.1 == y.1 && lex_lt(x.0, y.0))
}

/// The listing order is transitive.
proof fn lemma_pair_lt_trans(x: (Seq<char>, int), y: (Seq<char>, int), z: (Seq<char>, int))
    requires
        pair_lt(x, y),
        pair_lt(y, z),
    ensures
        pair_lt(x, z),
{
    if x.1 == y.1 && y.1 == z.1 {
        lemma_lex_lt_trans(x.0, y.0, z.0);
    }
}

/// Pairs with different names are ordered one way or the other.
proof fn lemma_pair_lt_total(x: (Seq<char>, int), y: (Seq<char>, int))
    requires
        x.0 != y.0,
    ensures
        pair_lt(x, y) || pair_lt(y, x),
{
    if x.1 == y.1 {
        lemma_lex_lt_total(x.0, y.0);
    }
}

/// A count paired with the command it counts, as `most_used` holds them.
pub open spec fn count_pair_ok(es: Seq<EntryView>, p: (Seq<char>, int)) -> bool {
    p.1 == spec_freq_of(es, p.0) && p.1 > 0
}

/// The mathematical shape of one listing entry.
pub open spec fn pair_of(p: (String, usize)) -> (Seq<char>, int) {
    (p.0@, p.1 as int)
}

/// Whether `x` comes before `y` in the most-used listing: larger count
/// first, ties broken by name.
fn pair_before(x: &(String, usize), y: &(String, usize)) -> (r: bool)
    ensures
        r == pair_lt((x.0@, x.1 as int), (y.0@, y.1 as int)),
{
    if x.1 != y.1 {
        x.1 > y.1
    } else {
        crate::text::lex_less(&x.0, &y.0)
    }
}

impl History {
    /// Totals over the records: commands seen, distinct commands, failures,
    /// the mean duration (the sum saturating at the 64-bit bound), and up
    /// to ten of the most used commands, each with its exact count, most
    /// used first.
    pub fn calculate_stats(&self) -> (r: HistoryStats)
        ensures
            r.total_commands == spec_total_commands(self@),
            r.failed_commands == spec_failed_commands(self@),
            r.unique_commands == spec_distinct_commands(self@).len(),
            r.average_duration as int == if spec_total_commands(self@) > 0 {
                (if spec_duration_sum(self@) <= u64::MAX {
                    spec_duration_sum(self@)
                } else {
                    u64::MAX as int
                }) / spec_total_commands(self@)
            } else {
                0
            },
            r.most_used@.len() <= 10,
            forall|i: int|
                0 <= i < r.most_used@.len() ==> count_pair_ok(
                    self@,
                    ((#[trigger] r.most_used@[i]).0@, r.most_used@[i].1 as int),
                ),
            forall|i: int, j: int|
                0 <= i < j < r.most_used@.len() ==> pair_lt(
                    pair_of(#[trigger] r.most_used@[i]),
                    pair_of(#[trigger] r.most_used@[j]),
                ),
    {
        let n = self.entries.len();
        let mut total: usize = 0;
        let mut failed: usize = 0;
        let mut dur: u64 = 0;
        let mut counts: Vec<(String, usize)> = Vec::new();
        let ghost mut dist: Set<Seq<char>> = Set::empty();
        let mut i: usize = 0;
        proof {
            assert(self@.subrange(0, 0) =~= Seq::<EntryView>::empty());
        }
        while i < n
            invariant
                0 <= i <= n == self@.len(),
                total == spec_total_commands(self@.subrange(0, i as int)),
                total <= i,
                failed == spec_failed_commands(self@.subrange(0, i as int)),
                failed <= i,
                dur as int == if spec_duration_sum(self@.subrange(0, i as int)) <= u64::MAX {
                    spec_duration_sum(self@.subrange(0, i as int))
                } else {
                    u64::MAX as int
                },
                dist == spec_distinct_commands(self@.subrange(0, i as int)),
                dist.finite(),
                counts@.len() == dist.len(),
                forall|k: int|
                    0 <= k < counts@.len() ==> dist.contains((#[trigger] counts@[k]).0@)
                        && counts@[k].1 as int == spec_freq_of(
                        self@.subrange(0, i as int),
                        counts@[k].0@,
                    ) && counts@[k].1 > 0 && counts@[k].1 <= i,
                forall|k1: int, k2: int|
                    0 <= k1 < k2 < counts@.len() ==> (#[trigger] counts@[k1]).0@ != (
                    #[trigger] counts@[k2]).0@,
                forall|c: Seq<char>|
                    dist.contains(c) ==> exists|k: int|
                        0 <= k < counts@.len() && (#[trigger] counts@[k]).0@ == c,
            decreases n - i,
        {
            let ghost prefix = self@.subrange(0, i as int);
            let ghost prefix2 = self@.subrange(0, i as int + 1);
            proof {
                assert(prefix2.drop_last() =~= prefix);
                assert(prefix2.last() == self@[i as int]);
            }
            match &self.entries[i] {
                HistoryEntry::Command { command, exit_code, duration, .. } => {
                    let ghost cv = command@;
                    total = total + 1;
                    if *exit_code != 0 {
                        failed = failed + 1;
                    }
                    dur = dur.saturating_add(*duration);
                    let mut found: bool = false;
                    let mut idx: usize = 0;
                    while idx < counts.len() && !found
                        invariant
                            0 <= idx <= counts@.len(),
                            cv == command@,
                            !found ==> forall|k: int|
                                0 <= k < idx ==> (#[trigger] counts@[k]).0@ != cv,
                            found ==> idx < counts@.len() && counts@[idx as int].0@ == cv,
                        decreases counts@.len() - idx + if found {
                            0int
                        } else {
                            1int
                        },
                    {
                        if crate::text::str_eq(counts[idx].0.as_str(), command.as_str()) {
                            found = true;
                        } else {
                            idx = idx + 1;
                        }
                    }
                    proof {
                        lemma_freq_distinct(prefix, cv);
                        assert forall|c: Seq<char>| c != cv implies spec_freq_of(prefix2, c)
                            == spec_freq_of(prefix, c) by {}
                        assert(spec_freq_of(prefix2, cv) == spec_freq_of(prefix, cv) + 1);
                        assert(spec_distinct_commands(prefix2) == spec_distinct_commands(
                            prefix,
                        ).insert(cv));
                    }
                    if found {
                        let ghost pre_counts = counts@;
                        let cnt = counts[idx].1;
                        let name = counts[idx].0.clone();
                        let ghost nv = name@;
                        counts.remove(idx);
                        counts.insert(idx, (name, cnt + 1));
                        proof {
                            pre_counts.remove_ensures(idx as int);
                            assert(nv == cv);
                            assert(counts@ =~= pre_counts.update(idx as int, counts@[idx as int]));
                            assert(counts@[idx as int].0@ == cv);
                            assert(counts@[idx as int].1 == cnt + 1);
                            assert(dist.contains(cv));
                            assert(dist.insert(cv) =~= dist);
                            dist = dist.insert(cv);
                            assert forall|c: Seq<char>|
                                dist.contains(c) implies exists|k: int|
                                    0 <= k < counts@.len() && (#[trigger] counts@[k]).0@ == c by {
                                let k0 = choose|k0: int|
                                    0 <= k0 < pre_counts.len() && pre_counts[k0].0@ == c;
                                assert(counts@[k0].0@ == c);
                            }
                        }
                    } else {
                        proof {
                            if dist.contains(cv) {
                                let k0 = choose|k0: int|
                                    0 <= k0 < counts@.len() && counts@[k0].0@ == cv;
                                assert(false);
                            }
                            assert(!dist.contains(cv));
                            assert(spec_freq_of(prefix, cv) == 0) by {
                                lemma_freq_distinct(prefix, cv);
                            }
                            assert(dist.insert(cv).len() == dist.len() + 1);
                        }
                        let ghost pre_counts = counts@;
                        counts.push((command.clone(), 1));
                        proof {
                            dist = dist.insert(cv);
                            assert forall|c: Seq<char>|
                                dist.contains(c) implies exists|k: int|
                                    0 <= k < counts@.len() && (#[trigger] counts@[k]).0@ == c by {
                                if c == cv {
                                    assert(counts@[counts@.len() - 1].0@ == cv);
                                } else {
                                    let k0 = choose|k0: int|
                                        0 <= k0 < pre_counts.len() && pre_counts[k0].0@ == c;
                                    assert(counts@[k0].0@ == c);
                                }
                            }
                        }
                    }
                },
                HistoryEntry::Event { .. } => {
                    proof {
                        assert(spec_total_commands(prefix2) == spec_total_commands(prefix));
                        assert(spec_failed_commands(prefix2) == spec_failed_commands(prefix));
                        assert(spec_duration_sum(prefix2) == spec_duration_sum(prefix));
                        assert(spec_distinct_commands(prefix2) == spec_distinct_commands(prefix));
                        assert forall|c: Seq<char>| spec_freq_of(prefix2, c) == spec_freq_of(
                            prefix,
                            c,
                        ) by {}
                    }
                },
            }
            i = i + 1;
        }
        proof {
            assert(self@.subrange(0, n as int) =~= self@);
        }
        let unique = counts.len();
        let average: u64 = if total > 0 {
            dur / (total as u64)
        } else {
            0
        };
        let mut rest = counts;
        let mut most_used: Vec<(String, usize)> = Vec::new();
        while rest.len() > 0 && most_used.len() < 10
            invariant
                forall|k: int|
                    0 <= k < rest@.len() ==> (#[trigger] rest@[k]).1 as int == spec_freq_of(
                        self@,
                        rest@[k].0@,
                    ) && rest@[k].1 > 0,
                forall|k: int|
                    0 <= k < most_used@.len() ==> (#[trigger] most_used@[k]).1 as int
                        == spec_freq_of(self@, most_used@[k].0@) && most_used@[k].1 > 0,
                most_used@.len() <= 10,
                forall|k1: int, k2: int|
                    0 <= k1 < k2 < rest@.len() ==> (#[trigger] rest@[k1]).0@ != (
                    #[trigger] rest@[k2]).0@,
                forall|i: int, j: int|
                    0 <= i < j < most_used@.len() ==> pair_lt(
                        pair_of(#[trigger] most_used@[i]),
                        pair_of(#[trigger] most_used@[j]),
                    ),
                forall|i: int, k: int|
                    0 <= i < most_used@.len() && 0 <= k < rest@.len() ==> pair_lt(
                        pair_of(#[trigger] most_used@[i]),
                        pair_of(#[trigger] rest@[k]),
                    ),
            decreases rest@.len(),
        {
            let mut best: usize = 0;
            let mut m: usize = 1;
            while m < rest.len()
                invariant
                    0 <= best < m <= rest@.len(),
                    forall|k1: int, k2: int|
                        0 <= k1 < k2 < rest@.len() ==> (#[trigger] rest@[k1]).0@ != (
                        #[trigger] rest@[k2]).0@,
                    forall|mp: int|
                        0 <= mp < m && mp != best ==> pair_lt(
                            pair_of(rest@[best as int]),
                            pair_of(#[trigger] rest@[mp]),
                        ),
                decreases rest@.len() - m,
            {
                if pair_before(&rest[m], &rest[best]) {
                    let ghost old_best = best as int;
                    best = m;
                    proof {
                        assert forall|mp: int|
                            0 <= mp < m + 1 && mp != best implies pair_lt(
                            pair_of(rest@[best as int]),
                            pair_of(#[trigger] rest@[mp]),
                        ) by {
                            if mp != old_best {
                                lemma_pair_lt_trans(
                                    pair_of(rest@[best as int]),
                                    pair_of(rest@[old_best]),
                                    pair_of(rest@[mp]),
                                );
                            }
                        }
                    }
                } else {
                    proof {
                        lemma_pair_lt_total(
                            pair_of(rest@[best as int]),
                            pair_of(rest@[m as int]),
                        );
                    }
                }
                m = m + 1;
            }
            let ghost pre_rest = rest@;
            let ghost pre_mu = most_used@;
            let ghost bi = best as int;
            let e = rest.remove(best);
            proof {
                pre_rest.remove_ensures(bi);
                assert(e == pre_rest[bi]);
                assert forall|k1: int, k2: int|
                    0 <= k1 < k2 < rest@.len() implies (#[trigger] rest@[k1]).0@ != (
                    #[trigger] rest@[k2]).0@ by {
                    let o1 = if k1 < bi {
                        k1
                    } else {
                        k1 + 1
                    };
                    let o2 = if k2 < bi {
                        k2
                    } else {
                        k2 + 1
                    };
                    assert(rest@[k1] == pre_rest[o1]);
                    assert(rest@[k2] == pre_rest[o2]);
                }
                assert forall|k: int| 0 <= k < rest@.len() implies pair_lt(
                    pair_of(e),
                    pair_of(#[trigger] rest@[k]),
                ) by {
                    let o = if k < bi {
                        k
                    } else {
                        k + 1
                    };
                    assert(rest@[k] == pre_rest[o]);
                    assert(o != bi);
                }
            }
            most_used.push(e);
            proof {
                assert(most_used@ == pre_mu.push(e));
                assert forall|i: int, k: int|
                    0 <= i < most_used@.len() && 0 <= k < rest@.len() implies pair_lt(
                    pair_of(#[trigger] most_used@[i]),
                    pair_of(#[trigger] rest@[k]),
                ) by {
                    let o = if k < bi {
                        k
                    } else {
                        k + 1
                    };
                    assert(rest@[k] == pre_rest[o]);
                    if i < pre_mu.len() {
                        assert(most_used@[i] == pre_mu[i]);
                    } else {
                        assert(most_used@[i] == e);
                    }
                }
            }
        }
        HistoryStats {
            total_commands: total,
            unique_commands: unique,
            failed_commands: failed,
            average_duration: average,
            most_used,
        }
    }
}

} // verus!
