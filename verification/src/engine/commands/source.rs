//! The `source` built-in: run the commands of a script file.

use vstd::prelude::*;
use vstd::string::StringExecFns;
use super::{Action, ActionView, CommandError};
use crate::path::{spec_expand_path, spec_is_home_path, PathExpander};
use crate::text::{
    all_spaces_from, chars_of, is_blank, spec_tokens, spec_trim, split_tokens, trim_chars,
};

verus! {

/// What one script line asks for: nothing for a blank line or a comment,
/// else its first token as the command and the rest as arguments.
pub open spec fn spec_script_line(line: Seq<char>) -> Option<(Seq<char>, Seq<Seq<char>>)> {
    let trimmed = spec_trim(line);
    if trimmed.len() == 0 || trimmed[0] == '#' {
        None
    } else {
        let toks = spec_tokens(line);
        if toks.len() == 0 {
            None
        } else {
            Some((toks[0], toks.drop_first()))
        }
    }
}

/// Resolves the script path; reading the file and feeding its lines back
/// through the dispatcher is the embedding program's part.
#[derive(Debug, Clone)]
pub struct SourceCommand {
    path_expander: PathExpander,
}

impl SourceCommand {
    /// The executing side lives outside the library, so the command only
    /// holds the expander.
    pub fn new() -> (r: SourceCommand) {
        SourceCommand { path_expander: PathExpander::new() }
    }

    /// Asks for the script at the first argument (with `~` resolved) to be
    /// read and run; without an argument the call is refused.
    pub fn execute(&self, args: &[String]) -> (r: Result<Action, CommandError>)
        ensures
            match r {
                Ok(a) => {
                    &&& args.deep_view().len() > 0
                    &&& a@ matches ActionView::ReadScript(p)
                    &&& (!spec_is_home_path(args.deep_view()[0]) ==> p == args.deep_view()[0])
                    &&& (spec_is_home_path(args.deep_view()[0]) ==> exists|home: Seq<char>|
                        p == spec_expand_path(args.deep_view()[0], home))
                },
                Err(e) => {
                    ||| (args.deep_view().len() == 0 && (e
                        matches CommandError::InvalidArguments(_)))
                    ||| (args.deep_view().len() > 0 && spec_is_home_path(args.deep_view()[0]) && (
                    e matches CommandError::ExecutionError(_)))
                },
            },
    {
        if args.len() == 0 {
            return Err(
                CommandError::InvalidArguments(
                    String::from_str("Source command requires a file path"),
                ),
            );
        }
        proof {
            assert(args.deep_view()[0] == args@[0]@);
        }
        match self.path_expander.expand(args[0].as_str()) {
            Ok(p) => Ok(Action::ReadScript(p)),
            Err(_) => Err(
                CommandError::ExecutionError(String::from_str("Home directory not found")),
            ),
        }
    }
}

/// Read one script line: `None` for a blank line or a comment, else the
/// command and its arguments.
pub fn parse_script_line(line: &str) -> (r: Option<(String, Vec<String>)>)
    ensures
        match r {
            Some(p) => spec_script_line(line@) == Some((p.0@, p.1.deep_view())),
            None => spec_script_line(line@) is None,
        },
{
    let cs = chars_of(line);
    let trimmed = trim_chars(cs.as_slice());
    if trimmed.len() == 0 || trimmed[0] == '#' {
        return None;
    }
    let toks = split_tokens(cs.as_slice());
    proof {
        assert(toks.deep_view().len() == toks@.len());
        crate::text::lemma_tokens_nonblank(cs@, 0, Seq::empty());
        crate::text::lemma_trim_blank(cs@);
        if is_blank(cs@) {
            assert(spec_trim(cs@).len() == 0);
        }
    }
    let command = toks[0].clone();
    let mut args: Vec<String> = Vec::new();
    let mut k: usize = 1;
    while k < toks.len()
        invariant
            1 <= k <= toks@.len(),
            toks.deep_view() == spec_tokens(line@),
            args.deep_view() == toks.deep_view().subrange(1, k as int),
        decreases toks@.len() - k,
    {
        let ghost pre = args.deep_view();
        let a = toks[k].clone();
        proof {
            assert(a@ == toks.deep_view()[k as int]);
        }
        args.push(a);
        proof {
            assert(args.deep_view() =~~= pre.push(a@));
            assert(args.deep_view() =~~= toks.deep_view().subrange(1, k as int + 1));
        }
        k = k + 1;
    }
    proof {
        assert(args.deep_view() =~~= spec_tokens(line@).drop_first());
    }
    Some((command, args))
}

} // verus!
