//! The line format of the history file: `command|timestamp|exit_code|duration`.
//! Reading and writing the file itself is the embedding program's task; the
//! library renders and parses single lines.

use vstd::prelude::*;
use vstd::string::StringExecFns;
use super::types::{EntryView, HistoryEntry};
use super::HistoryError;
use crate::text::{
    all_digits, chars_of, dec_value, spec_dec, spec_i32_dec, spec_parse_i32, spec_split_char,
    split_on_char,
};

verus! {

/// Remembers where the history file lives.
pub struct FileOps {
    file_path: String,
}

impl FileOps {
    pub fn new(file_path: String) -> (r: FileOps)
        ensures
            r.get_path_spec() == file_path@,
    {
        FileOps { file_path }
    }

    /// The path of the history file.
    pub closed spec fn get_path_spec(&self) -> Seq<char> {
        self.file_path@
    }

    /// The path of the history file.
    pub fn get_path(&self) -> (r: &String)
        ensures
            r@ == self.get_path_spec(),
    {
        &self.file_path
    }
}

/// The line that records `e` in the history file.
pub open spec fn spec_render_entry(e: EntryView) -> Seq<char> {
    match e {
        EntryView::Command { command, timestamp, exit_code, duration } => command + seq!['|']
            + spec_dec(timestamp as int) + seq!['|'] + spec_i32_dec(exit_code as int) + seq!['|']
            + spec_dec(duration as int),
        EntryView::Event { description, timestamp } => description + seq!['|'] + spec_dec(
            timestamp as int,
        ) + seq!['|'] + seq!['0'] + seq!['|'] + seq!['0'],
    }
}

/// Render one history record as its file line.
pub fn render_entry(entry: &HistoryEntry) -> (r: String)
    ensures
        r@ == spec_render_entry(entry@),
{
    match entry {
        HistoryEntry::Command { command, timestamp, exit_code, duration } => {
            let mut s = command.clone();
            s.append("|");
            let ts = crate::text::u64_to_string(*timestamp);
            s.append(ts.as_str());
            s.append("|");
            let code = crate::text::i32_to_string(*exit_code);
            s.append(code.as_str());
            s.append("|");
            let dur = crate::text::u64_to_string(*duration);
            s.append(dur.as_str());
            proof {
                reveal_strlit("|");
                assert(s@ =~= spec_render_entry(entry@));
            }
            s
        },
        HistoryEntry::Event { description, timestamp } => {
            let mut s = description.clone();
            s.append("|");
            let ts = crate::text::u64_to_string(*timestamp);
            s.append(ts.as_str());
            s.append("|0|0");
            proof {
                reveal_strlit("|");
                reveal_strlit("|0|0");
                reveal_strlit("0");
                assert(s@ =~= spec_render_entry(entry@));
            }
            s
        },
    }
}

/// What parsing one history line yields: the four `|`-separated fields give
/// a command record; a line of any other shape is kept whole as a command
/// with the fallback timestamp; a field that is not a number is an error.
pub open spec fn spec_parse_entry(line: Seq<char>, fallback_timestamp: u64) -> Result<
    EntryView,
    (),
> {
    let parts = spec_split_char(line, '|');
    if parts.len() == 4 {
        if !(all_digits(parts[1]) && parts[1].len() > 0 && dec_value(parts[1]) <= u64::MAX) {
            Err(())
        } else if spec_parse_i32(parts[2]) is None {
            Err(())
        } else if !(all_digits(parts[3]) && parts[3].len() > 0 && dec_value(parts[3])
            <= u64::MAX) {
            Err(())
        } else {
            Ok(
                EntryView::Command {
                    command: parts[0],
                    timestamp: dec_value(parts[1]) as u64,
                    exit_code: spec_parse_i32(parts[2]).unwrap() as i32,
                    duration: dec_value(parts[3]) as u64,
                },
            )
        }
    } else {
        Ok(
            EntryView::Command {
                command: line,
                timestamp: fallback_timestamp,
                exit_code: 0,
                duration: 0,
            },
        )
    }
}

/// Parse one non-blank history line. The caller supplies the clock reading
/// used for lines without a timestamp field.
pub fn parse_entry_line(line: &str, fallback_timestamp: u64) -> (r: Result<
    HistoryEntry,
    HistoryError,
>)
    ensures
        match r {
            Ok(e) => spec_parse_entry(line@, fallback_timestamp) == Ok::<EntryView, ()>(e@),
            Err(e) => spec_parse_entry(line@, fallback_timestamp) is Err && e
                matches HistoryError::FileOperationError(_),
        },
{
    let cs = chars_of(line);
    let parts = split_on_char(cs.as_slice(), '|');
    if parts.len() == 4 {
        proof {
            assert(parts.deep_view()[0] == parts@[0]@);
            assert(parts.deep_view()[1] == parts@[1]@);
            assert(parts.deep_view()[2] == parts@[2]@);
            assert(parts.deep_view()[3] == parts@[3]@);
        }
        let ts_chars = chars_of(parts[1].as_str());
        let timestamp = match crate::text::parse_u64(ts_chars.as_slice()) {
            Some(v) => v,
            None => {
                return Err(
                    HistoryError::FileOperationError(String::from_str("Invalid timestamp")),
                );
            },
        };
        let code_chars = chars_of(parts[2].as_str());
        let exit_code = match crate::text::parse_i32(code_chars.as_slice()) {
            Some(v) => v,
            None => {
                return Err(
                    HistoryError::FileOperationError(String::from_str("Invalid exit code")),
                );
            },
        };
        let dur_chars = chars_of(parts[3].as_str());
        let duration = match crate::text::parse_u64(dur_chars.as_slice()) {
            Some(v) => v,
            None => {
                return Err(HistoryError::FileOperationError(String::from_str("Invalid duration")));
            },
        };
        let command = parts[0].clone();
        Ok(HistoryEntry::Command { command, timestamp, exit_code, duration })
    } else {
        Ok(
            HistoryEntry::Command {
                command: String::from_str(line),
                timestamp: fallback_timestamp,
                exit_code: 0,
                duration: 0,
            },
        )
    }
}

} // verus!
