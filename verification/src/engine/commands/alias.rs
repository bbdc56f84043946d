//! The `alias` built-in: list aliases or define one.

use vstd::prelude::*;
use vstd::string::StringExecFns;
use super::{Action, ActionView, CommandError};
use crate::engine::config::AliasManager;
use crate::engine::commands::export::{spec_unquote_once, unquote_once};
use crate::expand::join_spaces;
use crate::table::spec_put;
use crate::text::{chars_of, find_char, find_char_from, spec_trim, string_from_chars, trim_chars};

verus! {

/// The line that lists one alias: `name='value'`.
pub open spec fn spec_alias_line(name: Seq<char>, value: Seq<char>) -> Seq<char> {
    name + "='"@ + value + "'"@
}

/// What defining an alias from the joined argument text yields: the text
/// before the first `=` (trimmed) names the alias, the text after it
/// (trimmed, one layer of matching quotes removed) is its value; without
/// `=` the argument is malformed.
pub open spec fn spec_alias_def(joined: Seq<char>) -> Option<(Seq<char>, Seq<char>)> {
    let eq = find_char_from(joined, '=', 0);
    if eq < joined.len() {
        Some(
            (
                spec_trim(joined.subrange(0, eq)),
                spec_unquote_once(spec_trim(joined.subrange(eq + 1, joined.len() as int))),
            ),
        )
    } else {
        None
    }
}

/// Lists and defines aliases in its own table.
pub struct AliasCommand {
    aliases: AliasManager,
}

impl View for AliasCommand {
    type V = Seq<(Seq<char>, Seq<char>)>;

    closed spec fn view(&self) -> Seq<(Seq<char>, Seq<char>)> {
        self.aliases@
    }
}

impl AliasCommand {
    pub fn new(aliases: AliasManager) -> (r: AliasCommand)
        ensures
            r@ == aliases@,
    {
        AliasCommand { aliases }
    }

    /// Without arguments, list every alias as `name='value'`. With
    /// arguments, join them with spaces and read them as `name=value`,
    /// trimming both sides and removing one layer of matching quotes off
    /// the value; an argument without `=` is refused.
    pub fn execute(&mut self, args: &[String]) -> (r: Result<Action, CommandError>)
        ensures
            match r {
                Ok(a) => {
                    if args.deep_view().len() == 0 {
                        &&& final(self)@ == old(self)@
                        &&& a@ matches ActionView::Output(lines)
                        &&& lines.len() == old(self)@.len()
                        &&& exists|listing: Seq<(Seq<char>, Seq<char>)>|
                            crate::engine::config::aliases::sorted_listing_of(old(self)@, listing)
                                && lines.len() == listing.len() && (forall|i: int|
                                0 <= i < listing.len() ==> #[trigger] lines[i] == spec_alias_line(
                                    listing[i].0,
                                    listing[i].1,
                                ))
                    } else {
                        &&& spec_alias_def(join_spaces(args.deep_view())) matches Some(def)
                        &&& final(self)@ == spec_put(old(self)@, def.0, def.1)
                        &&& a@ is Done
                    }
                },
                Err(e) => {
                    &&& args.deep_view().len() > 0
                    &&& spec_alias_def(join_spaces(args.deep_view())) is None
                    &&& final(self)@ == old(self)@
                    &&& (e matches CommandError::InvalidArguments(_))
                },
            },
    {
        if args.len() == 0 {
            let pairs = self.aliases.get_all();
            let ghost listing = crate::engine::config::aliases::pairs_view(pairs@);
            let mut lines: Vec<String> = Vec::new();
            let mut i: usize = 0;
            while i < pairs.len()
                invariant
                    0 <= i <= pairs@.len(),
                    listing == crate::engine::config::aliases::pairs_view(pairs@),
                    lines.deep_view().len() == i,
                    forall|j: int|
                        0 <= j < i ==> #[trigger] lines.deep_view()[j] == spec_alias_line(
                            listing[j].0,
                            listing[j].1,
                        ),
                decreases pairs@.len() - i,
            {
                let ghost pre = lines.deep_view();
                let mut line = pairs[i].0.clone();
                line.append("='");
                line.append(pairs[i].1.as_str());
                line.append("'");
                proof {
                    assert(listing[i as int].0 == pairs@[i as int].0@);
                    assert(listing[i as int].1 == pairs@[i as int].1@);
                    assert(line@ == spec_alias_line(listing[i as int].0, listing[i as int].1));
                }
                let ghost lv = line@;
                lines.push(line);
                proof {
                    assert(lines.deep_view() =~~= pre.push(lv));
                }
                i = i + 1;
            }
            return Ok(Action::Output(lines));
        }
        let mut joined_parts: Vec<String> = Vec::new();
        let mut k: usize = 0;
        while k < args.len()
            invariant
                0 <= k <= args@.len(),
                joined_parts.deep_view() == args.deep_view().subrange(0, k as int),
            decreases args@.len() - k,
        {
            let ghost pre = joined_parts.deep_view();
            let a = args[k].clone();
            proof {
                assert(a@ == args.deep_view()[k as int]);
            }
            joined_parts.push(a);
            proof {
                assert(joined_parts.deep_view() =~~= pre.push(a@));
                assert(joined_parts.deep_view() =~~= args.deep_view().subrange(0, k as int + 1));
            }
            k = k + 1;
        }
        proof {
            assert(joined_parts.deep_view() =~~= args.deep_view());
        }
        let alias_str = crate::expand::join_with_spaces(&joined_parts);
        let cs = chars_of(alias_str.as_str());
        match find_char(cs.as_slice(), '=') {
            Some(eq) => {
                let mut left: Vec<char> = Vec::new();
                let mut p: usize = 0;
                while p < eq
                    invariant
                        0 <= p <= eq < cs@.len(),
                        left@ == cs@.subrange(0, p as int),
                    decreases eq - p,
                {
                    left.push(cs[p]);
                    assert(left@ =~= cs@.subrange(0, p as int + 1));
                    p = p + 1;
                }
                let n = cs.len();
                assert(eq < n);
                let mut right: Vec<char> = Vec::new();
                let mut q: usize = eq + 1;
                while q < cs.len()
                    invariant
                        eq + 1 <= q <= cs@.len(),
                        right@ == cs@.subrange(eq as int + 1, q as int),
                    decreases cs@.len() - q,
                {
                    right.push(cs[q]);
                    assert(right@ =~= cs@.subrange(eq as int + 1, q as int + 1));
                    q = q + 1;
                }
                let name_chars = trim_chars(left.as_slice());
                let trimmed_right = trim_chars(right.as_slice());
                let value_chars = unquote_once(trimmed_right.as_slice());
                let name = string_from_chars(name_chars.as_slice());
                let value = string_from_chars(value_chars.as_slice());
                self.aliases.add(name.as_str(), value.as_str());
                Ok(Action::Done)
            },
            None => Err(
                CommandError::InvalidArguments(String::from_str("Usage: alias name='command'")),
            ),
        }
    }

    /// The replacement text of `cmd`, if it is an alias.
    pub fn get(&self, cmd: &str) -> (r: Option<&String>)
        ensures
            match r {
                Some(v) => crate::table::spec_lookup(self@, cmd@) == Some(v@),
                None => crate::table::spec_lookup(self@, cmd@) is None,
            },
    {
        self.aliases.get(cmd)
    }
}

} // verus!
