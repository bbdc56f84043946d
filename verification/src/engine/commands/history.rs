//! The `history` built-in: list, search, summarize, and edit the recorded
//! commands.

use vstd::prelude::*;
use vstd::string::StringExecFns;
use super::{Action, ActionView, CommandError};
use crate::input::history::types::EntryView;
use crate::input::history::{
    entries_of, spec_filter_contains, spec_filter_prefix, spec_filter_range, spec_recent,
    History, HistoryEntry, HistorySearchMode,
};
use crate::text::{
    all_digits, chars_of, dec_value, spec_dec, spec_i32_dec, spec_two_digits, str_eq,
    string_from_chars, two_digits, u64_to_string,
};

verus! {

/// `hh:mm:ss` of the timestamp's time of day.
pub open spec fn spec_format_timestamp(ts: u64) -> Seq<char> {
    spec_two_digits((ts as int / 3600) % 24) + seq![':'] + spec_two_digits((ts as int / 60) % 60)
        + seq![':'] + spec_two_digits(ts as int % 60)
}

/// The display line of one record.
pub open spec fn spec_format_entry(e: EntryView) -> Seq<char> {
    match e {
        EntryView::Command { command, timestamp, exit_code, duration } => spec_format_timestamp(
            timestamp,
        ) + " ["@ + (if exit_code == 0 {
            "\u{2713}"@
        } else {
            "\u{2717}"@
        }) + "] ("@ + spec_i32_dec(exit_code as int) + ") "@ + command + " ["@ + spec_dec(
            duration as int,
        ) + "ms]"@,
        EntryView::Event { description, timestamp } => spec_format_timestamp(timestamp)
            + " [EVENT] "@ + description,
    }
}

/// The display lines of a sequence of records.
pub open spec fn lines_format(lines: Seq<Seq<char>>, es: Seq<EntryView>) -> bool {
    lines.len() == es.len() && forall|i: int|
        0 <= i < es.len() ==> #[trigger] lines[i] == spec_format_entry(es[i])
}

/// `hh:mm:ss` of the timestamp's time of day.
pub fn format_timestamp(timestamp: u64) -> (r: String)
    ensures
        r@ == spec_format_timestamp(timestamp),
{
    let hours = (timestamp / 3600) % 24;
    let mins = (timestamp / 60) % 60;
    let secs = timestamp % 60;
    let mut out: Vec<char> = Vec::new();
    let mut h = two_digits(hours);
    out.append(&mut h);
    out.push(':');
    let mut m = two_digits(mins);
    out.append(&mut m);
    out.push(':');
    let mut s = two_digits(secs);
    out.append(&mut s);
    proof {
        assert(out@ =~= spec_format_timestamp(timestamp));
    }
    string_from_chars(out.as_slice())
}

/// How a `history search` reads its arguments: `--prefix`, `--contains`
/// and `--last n` pick the mode, anything else searches by substring.
pub open spec fn spec_search_mode(args: Seq<Seq<char>>) -> HistorySearchMode {
    if args.len() > 0 && args[0] == "--prefix"@ {
        HistorySearchMode::Prefix
    } else if args.len() > 0 && args[0] == "--contains"@ {
        HistorySearchMode::Contains
    } else if args.len() > 0 && args[0] == "--last"@ {
        HistorySearchMode::LastN(
            if args.len() > 1 && args[1].len() > 0 && all_digits(args[1]) && dec_value(args[1])
                <= usize::MAX {
                dec_value(args[1]) as usize
            } else {
                10
            },
        )
    } else {
        HistorySearchMode::Contains
    }
}

/// The query of a `history search`: the last argument, or nothing.
pub open spec fn spec_search_query(args: Seq<Seq<char>>) -> Seq<char> {
    if args.len() > 0 {
        args.last()
    } else {
        Seq::empty()
    }
}

/// The records a search yields.
pub open spec fn spec_search_result(
    es: Seq<EntryView>,
    mode: HistorySearchMode,
    q: Seq<char>,
) -> Seq<EntryView> {
    match mode {
        HistorySearchMode::Prefix => spec_filter_prefix(es, q, 0),
        HistorySearchMode::Contains => spec_filter_contains(es, q, 0),
        HistorySearchMode::TimeRange(lo, hi) => spec_filter_range(es, lo, hi, 0),
        HistorySearchMode::LastN(n) => spec_recent(es, n as int),
    }
}

/// Reads and edits its history.
pub struct HistoryCommand {
    history: History,
}

impl View for HistoryCommand {
    type V = Seq<EntryView>;

    closed spec fn view(&self) -> Seq<EntryView> {
        self.history@
    }
}

/// The display line of one record.
pub fn render_format_entry(entry: &HistoryEntry) -> (r: String)
    ensures
        r@ == spec_format_entry(entry@),
{
    match entry {
        HistoryEntry::Command { command, timestamp, exit_code, duration } => {
            let mut s = format_timestamp(*timestamp);
            s.append(" [");
            if *exit_code == 0 {
                s.append("\u{2713}");
            } else {
                s.append("\u{2717}");
            }
            s.append("] (");
            let code = crate::text::i32_to_string(*exit_code);
            s.append(code.as_str());
            s.append(") ");
            s.append(command.as_str());
            s.append(" [");
            let dur = u64_to_string(*duration);
            s.append(dur.as_str());
            s.append("ms]");
            proof {
                assert(s@ =~= spec_format_entry(entry@));
            }
            s
        },
        HistoryEntry::Event { description, timestamp } => {
            let mut s = format_timestamp(*timestamp);
            s.append(" [EVENT] ");
            s.append(description.as_str());
            proof {
                assert(s@ =~= spec_format_entry(entry@));
            }
            s
        },
    }
}

/// The display lines of the given records.
fn format_entries(entries: &Vec<HistoryEntry>) -> (r: Vec<String>)
    ensures
        lines_format(r.deep_view(), entries_of(entries@)),
{
    let mut out: Vec<String> = Vec::new();
    let mut i: usize = 0;
    while i < entries.len()
        invariant
            0 <= i <= entries@.len(),
            out.deep_view().len() == i,
            forall|j: int|
                0 <= j < i ==> #[trigger] out.deep_view()[j] == spec_format_entry(
                    entries_of(entries@)[j],
                ),
        decreases entries@.len() - i,
    {
        let ghost pre = out.deep_view();
        let line = render_format_entry(&entries[i]);
        let ghost lv = line@;
        out.push(line);
        proof {
            assert(out.deep_view() =~~= pre.push(lv));
        }
        i = i + 1;
    }
    out
}

impl HistoryCommand {
    pub fn new(history: History) -> (r: HistoryCommand)
        ensures
            r@ == history@,
    {
        HistoryCommand { history }
    }

    /// The formatted display of each record among the most recent `count`.
    pub fn format_entry(&self, entry: &HistoryEntry) -> (r: String)
        ensures
            r@ == spec_format_entry(entry@),
    {
        render_format_entry(entry)
    }

    /// List the most recent `count` records.
    fn show_recent(&self, count: usize) -> (r: Result<Action, CommandError>)
        ensures
            r matches Ok(a) && (a@ matches ActionView::Output(lines) && lines_format(
                lines,
                spec_recent(self@, count as int),
            )),
    {
        let recent = self.history.get_recent(count);
        let lines = format_entries(&recent);
        Ok(Action::Output(lines))
    }

    /// Search the records as the arguments ask and list the matches.
    fn search(&self, args: &[String]) -> (r: Result<Action, CommandError>)
        ensures
            r matches Ok(a) && (a@ matches ActionView::Output(lines) && lines_format(
                lines,
                spec_search_result(
                    self@,
                    spec_search_mode(args.deep_view()),
                    spec_search_query(args.deep_view()),
                ),
            )),
    {
        let ghost av = args.deep_view();
        let mode: HistorySearchMode = if args.len() > 0 {
            proof {
                assert(av[0] == args@[0]@);
            }
            if str_eq(args[0].as_str(), "--prefix") {
                HistorySearchMode::Prefix
            } else if str_eq(args[0].as_str(), "--contains") {
                HistorySearchMode::Contains
            } else if str_eq(args[0].as_str(), "--last") {
                let n: usize = if args.len() > 1 {
                    proof {
                        assert(av[1] == args@[1]@);
                    }
                    let digits = chars_of(args[1].as_str());
                    match crate::text::parse_u64(digits.as_slice()) {
                        Some(v) => {
                            if v <= usize::MAX as u64 {
                                v as usize
                            } else {
                                10
                            }
                        },
                        None => 10,
                    }
                } else {
                    10
                };
                HistorySearchMode::LastN(n)
            } else {
                HistorySearchMode::Contains
            }
        } else {
            HistorySearchMode::Contains
        };
        proof {
            assert(mode == spec_search_mode(av));
        }
        let query: String = if args.len() > 0 {
            proof {
                assert(av.last() == args@[args@.len() - 1]@);
            }
            args[args.len() - 1].clone()
        } else {
            String::new()
        };
        let results = self.history.search(mode, query.as_str());
        let lines = format_entries(&results);
        Ok(Action::Output(lines))
    }

    /// Delete the record at the index named by the arguments; the action
    /// carries the lines that rewrite the backing file.
    fn delete_entry(&mut self, args: &[String]) -> (r: Result<Action, CommandError>)
        ensures
            match r {
                Ok(a) => {
                    &&& args.deep_view().len() > 0
                    &&& all_digits(args.deep_view()[0])
                    &&& args.deep_view()[0].len() > 0
                    &&& {
                        let idx = dec_value(args.deep_view()[0]);
                        &&& idx < old(self)@.len()
                        &&& final(self)@ == old(self)@.remove(idx)
                        &&& final(self)@.len() == old(self)@.len() - 1
                        &&& (a@ matches ActionView::PersistHistory(lines) && lines.len() == old(
                            self,
                        )@.len() - 1)
                    }
                },
                Err(_) => final(self)@ == old(self)@,
            },
    {
        if args.len() == 0 {
            return Err(CommandError::InvalidArguments(String::from_str("Index required")));
        }
        proof {
            assert(args.deep_view()[0] == args@[0]@);
        }
        let digits = chars_of(args[0].as_str());
        let index: usize = match crate::text::parse_u64(digits.as_slice()) {
            Some(v) => {
                if v <= usize::MAX as u64 {
                    v as usize
                } else {
                    return Err(
                        CommandError::InvalidArguments(String::from_str("Invalid index")),
                    );
                }
            },
            None => {
                return Err(CommandError::InvalidArguments(String::from_str("Invalid index")));
            },
        };
        match self.history.delete_at(index) {
            Ok(()) => {
                proof {
                    old(self)@.remove_ensures(index as int);
                }
                let lines = self.history.rewrite_history_file();
                Ok(Action::PersistHistory(lines))
            },
            Err(e) => Err(CommandError::HistoryError(e)),
        }
    }

    /// Without arguments, list the ten most recent records. `search`,
    /// `stats`, `clear` and `delete` pick the other services; anything
    /// else is refused.
    pub fn execute(&mut self, args: &[String]) -> (r: Result<Action, CommandError>)
        ensures
            args.deep_view().len() == 0 ==> (final(self)@ == old(self)@ && (r matches Ok(a) && (
            a@ matches ActionView::Output(lines) && lines_format(
                lines,
                spec_recent(old(self)@, 10),
            )))),
            args.deep_view().len() > 0 && args.deep_view()[0] == "search"@ ==> (final(self)@ == old(
                self,
            )@ && (r matches Ok(a) && (a@ matches ActionView::Output(lines) && lines_format(
                lines,
                spec_search_result(
                    old(self)@,
                    spec_search_mode(args.deep_view().drop_first()),
                    spec_search_query(args.deep_view().drop_first()),
                ),
            )))),
            args.deep_view().len() > 0 && args.deep_view()[0] == "stats"@ ==> (final(self)@
                == old(self)@ && (r matches Ok(a) && (a@ matches ActionView::Output(lines)
                && lines.len() >= 6 && lines.len() <= 11 && lines[0] == "History Statistics:"@
                && lines[1] == "Total commands: "@ + spec_dec(
                crate::input::history::spec_total_commands(old(self)@),
            ) && lines[2] == "Unique commands: "@ + spec_dec(
                crate::input::history::spec_distinct_commands(old(self)@).len() as int,
            ) && lines[3] == "Failed commands: "@ + spec_dec(
                crate::input::history::spec_failed_commands(old(self)@),
            )))),
            args.deep_view().len() > 0 && args.deep_view()[0] == "clear"@ ==> (final(self)@
                == Seq::<EntryView>::empty() && (r matches Ok(a) && a@ is Done)),
            args.deep_view().len() > 0 && args.deep_view()[0] == "delete"@ ==> (match r {
                Ok(a) => a@ is PersistHistory && final(self)@.len() == old(self)@.len() - 1,
                Err(_) => final(self)@ == old(self)@,
            }),
            args.deep_view().len() > 0 && args.deep_view()[0] != "search"@ && args.deep_view()[0]
                != "stats"@ && args.deep_view()[0] != "clear"@ && args.deep_view()[0] != "delete"@
                ==> (final(self)@ == old(self)@ && (r matches Err(e) && e
                matches CommandError::InvalidArguments(_))),
    {
        if args.len() == 0 {
            return self.show_recent(10);
        }
        proof {
            assert(args.deep_view()[0] == args@[0]@);
            assert("search"@ != "stats"@) by {
                reveal_strlit("search");
                reveal_strlit("stats");
                assert("search"@.len() == 6);
                assert("stats"@.len() == 5);
            }
            assert("search"@ != "clear"@) by {
                reveal_strlit("search");
                reveal_strlit("clear");
                assert("search"@.len() == 6);
                assert("clear"@.len() == 5);
            }
            assert("stats"@ != "clear"@) by {
                reveal_strlit("stats");
                reveal_strlit("clear");
                assert("stats"@[0] == 's');
                assert("clear"@[0] == 'c');
            }
            assert("delete"@ != "clear"@) by {
                reveal_strlit("delete");
                reveal_strlit("clear");
                assert("delete"@.len() == 6);
                assert("clear"@.len() == 5);
            }
            assert("search"@ != "delete"@) by {
                reveal_strlit("search");
                reveal_strlit("delete");
                assert("search"@[0] == 's');
                assert("delete"@[0] == 'd');
            }
            assert("stats"@ != "delete"@) by {
                reveal_strlit("stats");
                reveal_strlit("delete");
                assert("stats"@.len() == 5);
                assert("delete"@.len() == 6);
            }
            assert("clear"@ != "delete"@) by {
                reveal_strlit("clear");
                reveal_strlit("delete");
                assert("clear"@.len() == 5);
                assert("delete"@.len() == 6);
            }
        }
        let rest: Vec<String> = slice_rest(args);
        if str_eq(args[0].as_str(), "search") {
            proof {
                assert(rest.deep_view() =~~= args.deep_view().drop_first());
            }
            self.search(rest.as_slice())
        } else if str_eq(args[0].as_str(), "stats") {
            self.show_statistics()
        } else if str_eq(args[0].as_str(), "clear") {
            match self.history.clear() {
                Ok(()) => {
                    proof {
                        assert(self@ =~= Seq::<EntryView>::empty());
                    }
                    let a = Action::Done;
                    proof {
                        assert(a@ is Done);
                    }
                    Ok(a)
                },
                Err(e) => Err(CommandError::HistoryError(e)),
            }
        } else if str_eq(args[0].as_str(), "delete") {
            match self.delete_entry(rest.as_slice()) {
                Ok(a) => {
                    Ok(a)
                },
                Err(e) => Err(e),
            }
        } else {
            Err(CommandError::InvalidArguments(String::from_str("Unknown history subcommand")))
        }
    }

    /// Summarize the records: the totals, and up to five of the most used
    /// commands with their counts.
    fn show_statistics(&self) -> (r: Result<Action, CommandError>)
        ensures
            r matches Ok(a) && (a@ matches ActionView::Output(lines) && lines.len() >= 6
                && lines[0] == "History Statistics:"@ && lines[1] == "Total commands: "@
                + spec_dec(crate::input::history::spec_total_commands(self@)) && lines[2]
                == "Unique commands: "@ + spec_dec(
                crate::input::history::spec_distinct_commands(self@).len() as int,
            ) && lines[3] == "Failed commands: "@ + spec_dec(
                crate::input::history::spec_failed_commands(self@),
            ) && lines.len() <= 11),
    {
        let stats = self.history.calculate_stats();
        let mut lines: Vec<String> = Vec::new();
        lines.push(String::from_str("History Statistics:"));
        let mut l1 = String::from_str("Total commands: ");
        let t = u64_to_string(stats.total_commands as u64);
        l1.append(t.as_str());
        lines.push(l1);
        let mut l2 = String::from_str("Unique commands: ");
        let u = u64_to_string(stats.unique_commands as u64);
        l2.append(u.as_str());
        lines.push(l2);
        let mut l3 = String::from_str("Failed commands: ");
        let f = u64_to_string(stats.failed_commands as u64);
        l3.append(f.as_str());
        lines.push(l3);
        let mut l4 = String::from_str("Average duration: ");
        let avg = u64_to_string(stats.average_duration);
        l4.append(avg.as_str());
        l4.append("ms");
        lines.push(l4);
        lines.push(String::from_str("\nMost used commands:"));
        let ghost base = lines.deep_view();
        proof {
            assert(lines.deep_view().subrange(0, 6) =~~= base);
        }
        let mut i: usize = 0;
        let limit: usize = if stats.most_used.len() < 5 {
            stats.most_used.len()
        } else {
            5
        };
        while i < limit
            invariant
                0 <= i <= limit <= stats.most_used@.len(),
                limit <= 5,
                lines.deep_view().len() == base.len() + i,
                base.len() == 6,
                lines.deep_view().subrange(0, 6) == base,
            decreases limit - i,
        {
            let mut line = String::from_str("  ");
            line.append(stats.most_used[i].0.as_str());
            line.append(" (");
            let c = u64_to_string(stats.most_used[i].1 as u64);
            line.append(c.as_str());
            line.append("x)");
            let ghost pre = lines.deep_view();
            let ghost lv = line@;
            lines.push(line);
            proof {
                assert(lines.deep_view() =~~= pre.push(lv));
                assert(lines.deep_view().subrange(0, 6) =~~= pre.subrange(0, 6));
            }
            i = i + 1;
        }
        proof {
            assert(lines.deep_view()[0] == base[0]);
            assert(lines.deep_view()[1] == base[1]);
            assert(lines.deep_view()[2] == base[2]);
            assert(lines.deep_view()[3] == base[3]);
        }
        Ok(Action::Output(lines))
    }
}

/// Everything after the first argument.
fn slice_rest(args: &[String]) -> (r: Vec<String>)
    requires
        args@.len() > 0,
    ensures
        r.deep_view() == args.deep_view().drop_first(),
{
    let mut out: Vec<String> = Vec::new();
    let mut i: usize = 1;
    while i < args.len()
        invariant
            1 <= i <= args@.len(),
            out.deep_view() == args.deep_view().subrange(1, i as int),
        decreases args@.len() - i,
    {
        let ghost pre = out.deep_view();
        let a = args[i].clone();
        proof {
            assert(a@ == args.deep_view()[i as int]);
        }
        out.push(a);
        proof {
            assert(out.deep_view() =~~= pre.push(a@));
            assert(out.deep_view() =~~= args.deep_view().subrange(1, i as int + 1));
        }
        i = i + 1;
    }
    proof {
        assert(out.deep_view() =~~= args.deep_view().drop_first());
    }
    out
}

} // verus!
