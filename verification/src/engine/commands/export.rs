//! The `export` built-in: set an environment variable.

use vstd::prelude::*;
use vstd::string::StringExecFns;
use super::{Action, ActionView, CommandError};
use crate::engine::env::vars::spec_sanitize_path;
use crate::engine::env::EnvVarManager;
use crate::table::{spec_lookup, spec_put};
use crate::text::{
    chars_of, find_char, find_char_from, spec_trim, string_from_chars, trim_chars,
};

verus! {

/// One layer of matching quotes removed: only when the text both starts
/// and ends with the same quote character and has at least two characters.
pub open spec fn spec_unquote_once(s: Seq<char>) -> Seq<char> {
    if s.len() >= 2 && ((s[0] == '"' && s.last() == '"') || (s[0] == '\'' && s.last() == '\'')) {
        s.subrange(1, s.len() - 1)
    } else {
        s
    }
}

/// What `export`'s first argument denotes: the text before the first `=`
/// (trimmed) names the variable, the text after it (trimmed, one layer of
/// quotes removed) is the value. No argument, no `=`, or an empty name is
/// malformed.
pub open spec fn spec_parse_export(args: Seq<Seq<char>>) -> Option<(Seq<char>, Seq<char>)> {
    if args.len() == 0 {
        None
    } else {
        let arg = args[0];
        let eq = find_char_from(arg, '=', 0);
        if eq >= arg.len() {
            None
        } else {
            let name = spec_trim(arg.subrange(0, eq));
            let value = spec_unquote_once(spec_trim(arg.subrange(eq + 1, arg.len() as int)));
            if name.len() == 0 {
                None
            } else {
                Some((name, value))
            }
        }
    }
}

/// Sets variables in its environment table; the embedding program mirrors
/// each change into the real process environment.
pub struct ExportCommand {
    env_vars: EnvVarManager,
}

impl View for ExportCommand {
    type V = Seq<(Seq<char>, Seq<char>)>;

    closed spec fn view(&self) -> Seq<(Seq<char>, Seq<char>)> {
        self.env_vars@
    }
}

impl ExportCommand {
    pub fn new(env_vars: EnvVarManager) -> (r: ExportCommand)
        ensures
            r@ == env_vars@,
    {
        ExportCommand { env_vars }
    }

    /// Read `NAME=VALUE` from the arguments, trimming both sides and
    /// removing one layer of quotes from the value.
    pub fn parse_export(&self, args: &[String]) -> (r: Result<(String, String), CommandError>)
        ensures
            match r {
                Ok(p) => spec_parse_export(args.deep_view()) == Some((p.0@, p.1@)),
                Err(e) => spec_parse_export(args.deep_view()) is None && (e
                    matches CommandError::InvalidArguments(_)),
            },
    {
        if args.len() == 0 {
            return Err(
                CommandError::InvalidArguments(String::from_str("Export syntax: export NAME=VALUE")),
            );
        }
        proof {
            assert(args.deep_view()[0] == args@[0]@);
        }
        let arg = chars_of(args[0].as_str());
        match find_char(arg.as_slice(), '=') {
            Some(eq) => {
                let mut left: Vec<char> = Vec::new();
                let mut p: usize = 0;
                while p < eq
                    invariant
                        0 <= p <= eq < arg@.len(),
                        left@ == arg@.subrange(0, p as int),
                    decreases eq - p,
                {
                    left.push(arg[p]);
                    assert(left@ =~= arg@.subrange(0, p as int + 1));
                    p = p + 1;
                }
                let n = arg.len();
                assert(eq < n);
                let mut right: Vec<char> = Vec::new();
                let mut q: usize = eq + 1;
                while q < arg.len()
                    invariant
                        eq + 1 <= q <= arg@.len(),
                        right@ == arg@.subrange(eq as int + 1, q as int),
                    decreases arg@.len() - q,
                {
                    right.push(arg[q]);
                    assert(right@ =~= arg@.subrange(eq as int + 1, q as int + 1));
                    q = q + 1;
                }
                let name_chars = trim_chars(left.as_slice());
                let value_trimmed = trim_chars(right.as_slice());
                let value_chars = unquote_once(value_trimmed.as_slice());
                if name_chars.len() == 0 {
                    return Err(
                        CommandError::InvalidArguments(
                            String::from_str("Variable name cannot be empty"),
                        ),
                    );
                }
                Ok(
                    (
                        string_from_chars(name_chars.as_slice()),
                        string_from_chars(value_chars.as_slice()),
                    ),
                )
            },
            None => Err(
                CommandError::InvalidArguments(String::from_str("Export syntax: export NAME=VALUE")),
            ),
        }
    }

    /// Set the variable named by the arguments in the table. On success the
    /// action carries the name and the stored value (a `PATH` value is
    /// sanitized) for the embedding program to mirror into the real
    /// environment. Setting `PATH` to an empty value is refused by the
    /// environment table and reported as invalid arguments.
    pub fn execute(&mut self, args: &[String]) -> (r: Result<Action, CommandError>)
        ensures
            match r {
                Ok(a) => {
                    &&& spec_parse_export(args.deep_view()) matches Some(def)
                    &&& {
                        let stored = if def.0 == "PATH"@ {
                            spec_sanitize_path(def.1)
                        } else {
                            def.1
                        };
                        &&& final(self)@ == spec_put(old(self)@, def.0, stored)
                        &&& a@ == ActionView::SetEnv(def.0, stored)
                    }
                },
                Err(e) => {
                    &&& final(self)@ == old(self)@
                    &&& (e matches CommandError::InvalidArguments(_))
                    &&& (spec_parse_export(args.deep_view()) is None || (
                    spec_parse_export(args.deep_view()) matches Some(def) && def.0 == "PATH"@
                        && def.1.len() == 0))
                },
            },
    {
        let parsed = match self.parse_export(args) {
            Ok(p) => p,
            Err(e) => {
                return Err(e);
            },
        };
        let (name, value) = parsed;
        match self.env_vars.set(name.as_str(), value.as_str()) {
            Ok(()) => {
                proof {
                    crate::table::lemma_lookup_put(
                        old(self)@,
                        name@,
                        if name@ == "PATH"@ {
                            spec_sanitize_path(value@)
                        } else {
                            value@
                        },
                        name@,
                    );
                }
                let stored = match self.env_vars.lookup(name.as_str()) {
                    Some(v) => v.clone(),
                    None => {
                        proof {
                            assert(false);
                        }
                        String::new()
                    },
                };
                Ok(Action::SetEnv(name, stored))
            },
            Err(err) => {
                let msg = match err {
                    crate::engine::env::EnvError::InvalidValue(m) => m,
                    _ => String::from_str("invalid value"),
                };
                Err(CommandError::InvalidArguments(msg))
            },
        }
    }
}

/// Remove one layer of matching quotes.
pub(crate) fn unquote_once(s: &[char]) -> (r: Vec<char>)
    ensures
        r@ == spec_unquote_once(s@),
{
    let slen = s.len();
    if slen >= 2 && ((s[0] == '"' && s[slen - 1] == '"') || (s[0] == '\'' && s[slen - 1] == '\'')) {
        let mut out: Vec<char> = Vec::new();
        let mut i: usize = 1;
        while i < slen - 1
            invariant
                1 <= i <= slen - 1,
                slen == s@.len(),
                out@ == s@.subrange(1, i as int),
            decreases slen - 1 - i,
        {
            out.push(s[i]);
            assert(out@ =~= s@.subrange(1, i as int + 1));
            i = i + 1;
        }
        out
    } else {
        let mut out: Vec<char> = Vec::new();
        let mut i: usize = 0;
        while i < slen
            invariant
                0 <= i <= slen == s@.len(),
                out@ == s@.subrange(0, i as int),
            decreases slen - i,
        {
            out.push(s[i]);
            assert(out@ =~= s@.subrange(0, i as int + 1));
            i = i + 1;
        }
        proof {
            assert(out@ =~= s@);
        }
        out
    }
}

} // verus!
