//! Interprets the lines of the startup configuration files: exports, PATH
//! assignments, alias definitions, conditional blocks, nested sourcing,
//! and plain commands. The embedding program reads the files and drives
//! the conditional blocks; the library decides what every line means.

use vstd::prelude::*;
use vstd::string::StringExecFns;
use super::{Config, ConfigError, ConfigPaths};
use crate::engine::env::vars::{spec_expand_home_path, spec_sanitize_path};
use crate::table::{spec_lookup, spec_put};
use crate::text::{
    chars_of, find_char, find_char_from, matches_at, occurs_at, occurs_in, occurs_somewhere,
    replace_all, replace_all_chars, spec_trim, str_eq, string_from_chars, strip_prefix_all,
    strip_prefix_all_chars, strip_suffix_all, strip_suffix_all_chars, trim_char_all,
    trim_char_all_chars, trim_chars,
};

verus! {

/// A condition of an `if` line: either already decided from the variable
/// tables, or a file or directory probe the embedding program must answer.
#[derive(Debug)]
pub enum Condition {
    Decided(bool),
    NeedsFile(String),
    NeedsDir(String),
}

/// What one configuration line asks for.
#[derive(Debug)]
pub enum LineDirective {
    /// Fully handled inside the library.
    Handled,
    /// An `if` line: the embedding program runs the block under this
    /// condition.
    Branch(Condition),
    /// A `. path` or `source path` line: read that file and feed its lines
    /// back.
    SourceFile(String),
    /// Any other line: dispatch it, then perform the action.
    Run(crate::engine::commands::Action),
}

/// Within a conditional block, what to do with one line.
#[derive(Debug, PartialEq, Eq, Structural)]
pub enum BlockStep {
    Process,
    Skip,
    End,
}

/// One quote layer removed when the text starts and ends with `"`.
pub open spec fn spec_unquote_double(s: Seq<char>) -> Seq<char> {
    if s.len() >= 2 && s[0] == '"' && s.last() == '"' {
        s.subrange(1, s.len() - 1)
    } else {
        s
    }
}

/// One quote layer removed when the text is wrapped in `"` or `'`.
pub open spec fn spec_unquote_either(s: Seq<char>) -> Seq<char> {
    if s.len() >= 2 && ((s[0] == '"' && s.last() == '"') || (s[0] == '\'' && s.last() == '\'')) {
        s.subrange(1, s.len() - 1)
    } else {
        s
    }
}

/// The environment table after an `export NAME=VALUE` configuration line:
/// the value is trimmed, unquoted once, `$HOME`/`$PATH`-expanded and
/// bound; a line without `=` changes nothing.
pub open spec fn spec_env_after_export(env: Seq<(Seq<char>, Seq<char>)>, rest: Seq<char>) -> Seq<
    (Seq<char>, Seq<char>),
> {
    let eq = find_char_from(rest, '=', 0);
    if eq < rest.len() {
        let name = spec_trim(rest.subrange(0, eq));
        let raw = spec_unquote_double(spec_trim(rest.subrange(eq + 1, rest.len() as int)));
        let value = spec_expand_home_path(env, raw);
        spec_put(
            env,
            name,
            if name == "PATH"@ {
                spec_sanitize_path(value)
            } else {
                value
            },
        )
    } else {
        env
    }
}

/// The new `PATH` after a `PATH=value` configuration line against the
/// current `PATH` `cur`: a value naming `$PATH` has it substituted, any
/// other value is prepended to `cur` with `:`.
pub open spec fn spec_new_path(value: Seq<char>, cur: Seq<char>) -> Seq<char> {
    let v = spec_unquote_either(spec_trim(value));
    if occurs_somewhere(v, "$PATH"@) {
        replace_all(v, "$PATH"@, cur)
    } else {
        v + seq![':'] + cur
    }
}

/// The alias table after an `alias name=value` configuration line; a line
/// without `=` changes nothing.
pub open spec fn spec_alias_after(aliases: Seq<(Seq<char>, Seq<char>)>, rest: Seq<char>) -> Seq<
    (Seq<char>, Seq<char>),
> {
    let eq = find_char_from(rest, '=', 0);
    if eq < rest.len() {
        let name = spec_trim(rest.subrange(0, eq));
        let value = spec_unquote_either(spec_trim(rest.subrange(eq + 1, rest.len() as int)));
        spec_put(aliases, name, value)
    } else {
        aliases
    }
}

/// A condition's variable name: the prefix and a trailing ` ]` removed,
/// then quotes and `$` signs.
pub open spec fn spec_extract_var_name(s: Seq<char>, prefix: Seq<char>) -> Seq<char> {
    trim_char_all(trim_char_all(strip_suffix_all(strip_prefix_all(s, prefix), " ]"@), '"'), '$')
}

/// A condition's path: the prefix and a trailing ` ]` removed, then
/// quotes, then `$HOME`/`$PATH` expanded.
pub open spec fn spec_extract_path(
    s: Seq<char>,
    prefix: Seq<char>,
    env: Seq<(Seq<char>, Seq<char>)>,
) -> Seq<char> {
    spec_expand_home_path(env, trim_char_all(strip_suffix_all(strip_prefix_all(s, prefix), " ]"@), '"'))
}

/// Remove one layer of matching quotes.
fn unquote_either_chars(s: &[char]) -> (r: Vec<char>)
    ensures
        r@ == spec_unquote_either(s@),
{
    let slen = s.len();
    if slen >= 2 && ((s[0] == '"' && s[slen - 1] == '"') || (s[0] == '\'' && s[slen - 1] == '\'')) {
        let mut out: Vec<char> = Vec::new();
        let mut i: usize = 1;
        while i < slen - 1
            invariant
                1 <= i <= slen - 1,
                slen == s@.len(),
                out@ == s@.subrange(1, i as int),
            decreases slen - 1 - i,
        {
            out.push(s[i]);
            assert(out@ =~= s@.subrange(1, i as int + 1));
            i = i + 1;
        }
        out
    } else {
        let mut out: Vec<char> = Vec::new();
        let mut i: usize = 0;
        while i < slen
            invariant
                0 <= i <= slen == s@.len(),
                out@ == s@.subrange(0, i as int),
            decreases slen - i,
        {
            out.push(s[i]);
            assert(out@ =~= s@.subrange(0, i as int + 1));
            i = i + 1;
        }
        proof {
            assert(out@ =~= s@);
        }
        out
    }
}

/// Remove one layer of double quotes.
fn unquote_double_chars(s: &[char]) -> (r: Vec<char>)
    ensures
        r@ == spec_unquote_double(s@),
{
    let slen = s.len();
    if slen >= 2 && s[0] == '"' && s[slen - 1] == '"' {
        let mut out: Vec<char> = Vec::new();
        let mut i: usize = 1;
        while i < slen - 1
            invariant
                1 <= i <= slen - 1,
                slen == s@.len(),
                out@ == s@.subrange(1, i as int),
            decreases slen - 1 - i,
        {
            out.push(s[i]);
            assert(out@ =~= s@.subrange(1, i as int + 1));
            i = i + 1;
        }
        out
    } else {
        let mut out: Vec<char> = Vec::new();
        let mut i: usize = 0;
        while i < slen
            invariant
                0 <= i <= slen == s@.len(),
                out@ == s@.subrange(0, i as int),
            decreases slen - i,
        {
            out.push(s[i]);
            assert(out@ =~= s@.subrange(0, i as int + 1));
            i = i + 1;
        }
        proof {
            assert(out@ =~= s@);
        }
        out
    }
}

/// The characters of `s` from `from` on.
fn tail_chars(s: &[char], from: usize) -> (r: Vec<char>)
    requires
        from <= s@.len(),
    ensures
        r@ == s@.skip(from as int),
{
    let mut out: Vec<char> = Vec::new();
    let mut i = from;
    while i < s.len()
        invariant
            from <= i <= s@.len(),
            out@ == s@.subrange(from as int, i as int),
        decreases s@.len() - i,
    {
        out.push(s[i]);
        assert(out@ =~= s@.subrange(from as int, i as int + 1));
        i = i + 1;
    }
    proof {
        assert(out@ =~= s@.skip(from as int));
    }
    out
}

/// The characters of `s` before `to`.
fn head_chars(s: &[char], to: usize) -> (r: Vec<char>)
    requires
        to <= s@.len(),
    ensures
        r@ == s@.take(to as int),
{
    let mut out: Vec<char> = Vec::new();
    let mut i: usize = 0;
    while i < to
        invariant
            0 <= i <= to <= s@.len(),
            out@ == s@.subrange(0, i as int),
        decreases to - i,
    {
        out.push(s[i]);
        assert(out@ =~= s@.subrange(0, i as int + 1));
        i = i + 1;
    }
    out
}

/// Interprets configuration lines against a `Config`.
pub struct ConfigLoader<'a> {
    paths: &'a ConfigPaths,
}

impl<'a> ConfigLoader<'a> {
    pub fn new(paths: &'a ConfigPaths) -> (r: ConfigLoader<'a>)
        ensures
            r.paths_spec() == (paths.profile_path@, paths.rc_path@),
    {
        ConfigLoader { paths }
    }

    /// The profile and rc paths this loader reads, in order.
    pub closed spec fn paths_spec(&self) -> (Seq<char>, Seq<char>) {
        (self.paths.profile_path@, self.paths.rc_path@)
    }

    /// The files to source at startup, in order: the profile, then the rc
    /// file. The embedding program reads each that exists and feeds its
    /// lines through `process_line`.
    pub fn load_configs(&self) -> (r: Vec<String>)
        ensures
            r.deep_view() == seq![self.paths_spec().0, self.paths_spec().1],
    {
        let mut out: Vec<String> = Vec::new();
        out.push(self.paths.profile_path.clone());
        out.push(self.paths.rc_path.clone());
        proof {
            assert(out.deep_view() =~~= seq![self.paths_spec().0, self.paths_spec().1]);
        }
        out
    }

    /// Bind the variable of an `export` line (without the `export `
    /// prefix) in the configuration's environment table.
    pub fn process_env_var(&self, var_def: &str, config: &mut Config) -> (r: Result<
        (),
        ConfigError,
    >)
        ensures
            r is Ok,
            final(config).env_view() == spec_env_after_export(old(config).env_view(), var_def@),
            final(config).aliases_view() == old(config).aliases_view(),
    {
        let cs = chars_of(var_def);
        match find_char(cs.as_slice(), '=') {
            Some(eq) => {
                let left = head_chars(cs.as_slice(), eq);
                let n = cs.len();
                assert(eq < n);
                let right = tail_chars(cs.as_slice(), eq + 1);
                proof {
                    assert(left@ =~= cs@.subrange(0, eq as int));
                    assert(right@ =~= cs@.subrange(eq as int + 1, cs@.len() as int));
                }
                let name_chars = trim_chars(left.as_slice());
                let raw_chars = unquote_double_chars(trim_chars(right.as_slice()).as_slice());
                let name = string_from_chars(name_chars.as_slice());
                let raw = string_from_chars(raw_chars.as_slice());
                let expanded = config.env_vars.expand_value(raw.as_str());
                config.env_vars.set(name.as_str(), expanded.as_str());
                Ok(())
            },
            None => Ok(()),
        }
    }

    /// Prepend or substitute into `PATH` from a `PATH=` line (without the
    /// prefix); without a current `PATH` binding the line fails.
    pub fn process_path_var(&self, value: &str, config: &mut Config) -> (r: Result<
        (),
        ConfigError,
    >)
        ensures
            match r {
                Ok(()) => {
                    &&& spec_lookup(old(config).env_view(), "PATH"@) matches Some(cur)
                    &&& final(config).env_view() == spec_put(
                        old(config).env_view(),
                        "PATH"@,
                        spec_sanitize_path(spec_new_path(value@, cur)),
                    )
                },
                Err(e) => {
                    &&& spec_lookup(old(config).env_view(), "PATH"@) is None
                    &&& final(config).env_view() == old(config).env_view()
                    &&& (e matches ConfigError::EnvVarNotFound(_))
                },
            },
            final(config).aliases_view() == old(config).aliases_view(),
    {
        let current = match config.env_vars.lookup("PATH") {
            Some(p) => p.clone(),
            None => {
                return Err(ConfigError::EnvVarNotFound(String::from_str("PATH")));
            },
        };
        let cs = chars_of(value);
        let v = unquote_either_chars(trim_chars(cs.as_slice()).as_slice());
        let pat = chars_of("$PATH");
        let cur_chars = chars_of(current.as_str());
        let new_path: Vec<char> = if occurs_in(v.as_slice(), pat.as_slice()) {
            replace_all_chars(v.as_slice(), pat.as_slice(), cur_chars.as_slice())
        } else {
            let mut joined: Vec<char> = Vec::new();
            let mut vv = v;
            let ghost vv0 = vv@;
            joined.append(&mut vv);
            joined.push(':');
            let mut cc = cur_chars;
            joined.append(&mut cc);
            proof {
                assert(joined@ =~= vv0 + seq![':'] + current@);
            }
            joined
        };
        let new_path_str = string_from_chars(new_path.as_slice());
        config.env_vars.set("PATH", new_path_str.as_str());
        proof {
            reveal_strlit("PATH");
        }
        Ok(())
    }

    /// Define the alias of an `alias` line (without the `alias ` prefix)
    /// in the configuration's alias table.
    pub fn process_alias(&self, line: &str, config: &mut Config) -> (r: Result<(), ConfigError>)
        ensures
            r is Ok,
            final(config).aliases_view() == spec_alias_after(old(config).aliases_view(), line@),
            final(config).env_view() == old(config).env_view(),
    {
        let cs = chars_of(line);
        match find_char(cs.as_slice(), '=') {
            Some(eq) => {
                let left = head_chars(cs.as_slice(), eq);
                let n = cs.len();
                assert(eq < n);
                let right = tail_chars(cs.as_slice(), eq + 1);
                proof {
                    assert(left@ =~= cs@.subrange(0, eq as int));
                    assert(right@ =~= cs@.subrange(eq as int + 1, cs@.len() as int));
                }
                let name_chars = trim_chars(left.as_slice());
                let value_chars = unquote_either_chars(trim_chars(right.as_slice()).as_slice());
                let name = string_from_chars(name_chars.as_slice());
                let value = string_from_chars(value_chars.as_slice());
                config.aliases.add(name.as_str(), value.as_str());
                Ok(())
            },
            None => Ok(()),
        }
    }

    /// The variable name inside a `[ -n ... ]` or `[ -z ... ]` condition.
    pub fn extract_var_name(&self, s: &str, prefix: &str) -> (r: String)
        ensures
            r@ == spec_extract_var_name(s@, prefix@),
    {
        let cs = chars_of(s);
        let pc = chars_of(prefix);
        let no_prefix = strip_prefix_all_chars(cs.as_slice(), pc.as_slice());
        let bracket = chars_of(" ]");
        let no_suffix = strip_suffix_all_chars(no_prefix.as_slice(), bracket.as_slice());
        let no_quotes = trim_char_all_chars(no_suffix.as_slice(), '"');
        let name = trim_char_all_chars(no_quotes.as_slice(), '$');
        string_from_chars(name.as_slice())
    }

    /// The path inside a `[ -f ... ]` or `[ -d ... ]` condition, with
    /// `$HOME` and `$PATH` expanded.
    pub fn extract_path(&self, s: &str, prefix: &str, config: &Config) -> (r: Result<
        String,
        ConfigError,
    >)
        ensures
            r matches Ok(p) && p@ == spec_extract_path(s@, prefix@, config.env_view()),
    {
        let cs = chars_of(s);
        let pc = chars_of(prefix);
        let no_prefix = strip_prefix_all_chars(cs.as_slice(), pc.as_slice());
        let bracket = chars_of(" ]");
        let no_suffix = strip_suffix_all_chars(no_prefix.as_slice(), bracket.as_slice());
        let no_quotes = trim_char_all_chars(no_suffix.as_slice(), '"');
        let path = string_from_chars(no_quotes.as_slice());
        Ok(config.env_vars.expand_value(path.as_str()))
    }

    /// Whether a `[ a = b ]` condition holds: exactly two `=`-separated
    /// parts, each unquoted, trimmed and expanded, that are equal.
    pub fn check_equality(&self, s: &str, config: &Config) -> (r: bool)
        ensures
            r == spec_check_equality(s@, config.env_view()),
    {
        let cs = chars_of(s);
        let open_b = chars_of("[ ");
        let close_b = chars_of(" ]");
        let inner = strip_suffix_all_chars(
            strip_prefix_all_chars(cs.as_slice(), open_b.as_slice()).as_slice(),
            close_b.as_slice(),
        );
        let parts = crate::text::split_on_char(inner.as_slice(), '=');
        if parts.len() == 2 {
            proof {
                assert(parts.deep_view()[0] == parts@[0]@);
                assert(parts.deep_view()[1] == parts@[1]@);
            }
            let c0 = chars_of(parts[0].as_str());
            let c1 = chars_of(parts[1].as_str());
            let p0 = trim_chars(trim_char_all_chars(c0.as_slice(), '"').as_slice());
            let p1 = trim_chars(trim_char_all_chars(c1.as_slice(), '"').as_slice());
            let left = config.env_vars.expand_value(string_from_chars(p0.as_slice()).as_str());
            let right = config.env_vars.expand_value(string_from_chars(p1.as_slice()).as_str());
            str_eq(left.as_str(), right.as_str())
        } else {
            false
        }
    }

    /// Evaluate an `if` condition: variable tests are decided against the
    /// environment table, file and directory tests become probes for the
    /// embedding program, and anything else is false.
    pub fn evaluate_condition(&self, condition: &str, config: &Config) -> (r: Result<
        Condition,
        ConfigError,
    >)
        ensures
            r matches Ok(c) && spec_condition_ok(condition@, config.env_view(), c),
    {
        let cs = chars_of(condition);
        let n_pre = chars_of("[ -n ");
        let z_pre = chars_of("[ -z ");
        let f_pre = chars_of("[ -f ");
        let d_pre = chars_of("[ -d ");
        if matches_at(cs.as_slice(), n_pre.as_slice(), 0) {
            let var = self.extract_var_name(condition, "[ -n ");
            let set = match config.env_vars.lookup(var.as_str()) {
                Some(_) => true,
                None => false,
            };
            Ok(Condition::Decided(set))
        } else if matches_at(cs.as_slice(), z_pre.as_slice(), 0) {
            let var = self.extract_var_name(condition, "[ -z ");
            let unset = match config.env_vars.lookup(var.as_str()) {
                Some(_) => false,
                None => true,
            };
            Ok(Condition::Decided(unset))
        } else if matches_at(cs.as_slice(), f_pre.as_slice(), 0) {
            let path = match self.extract_path(condition, "[ -f ", config) {
                Ok(p) => p,
                Err(e) => {
                    return Err(e);
                },
            };
            Ok(Condition::NeedsFile(path))
        } else if matches_at(cs.as_slice(), d_pre.as_slice(), 0) {
            let path = match self.extract_path(condition, "[ -d ", config) {
                Ok(p) => p,
                Err(e) => {
                    return Err(e);
                },
            };
            Ok(Condition::NeedsDir(path))
        } else if crate::text::has_char(cs.as_slice(), '=') {
            Ok(Condition::Decided(self.check_equality(condition, config)))
        } else {
            Ok(Condition::Decided(false))
        }
    }

    /// Evaluate the condition of an `if` line.
    pub fn process_conditional(&self, line: &str, config: &Config) -> (r: Result<
        Condition,
        ConfigError,
    >)
        ensures
            r matches Ok(c) && spec_condition_ok(
                spec_trim(strip_prefix_all(line@, "if "@)),
                config.env_view(),
                c,
            ),
    {
        let cs = chars_of(line);
        let if_pre = chars_of("if ");
        let stripped = strip_prefix_all_chars(cs.as_slice(), if_pre.as_slice());
        let condition_chars = trim_chars(stripped.as_slice());
        let condition = string_from_chars(condition_chars.as_slice());
        self.evaluate_condition(condition.as_str(), config)
    }

    /// The file a `. path` or `source path` line asks to source, with
    /// `$HOME` and `$PATH` expanded; whether it exists is the embedding
    /// program's check.
    pub fn process_source(&self, line: &str, config: &Config) -> (r: Result<String, ConfigError>)
        ensures
            r matches Ok(p) && p@ == spec_expand_home_path(
                config.env_view(),
                spec_trim(strip_prefix_all(strip_prefix_all(line@, ". "@), "source "@)),
            ),
    {
        let cs = chars_of(line);
        let dot_pre = chars_of(". ");
        let source_pre = chars_of("source ");
        let after_dot = strip_prefix_all_chars(cs.as_slice(), dot_pre.as_slice());
        let after_source = strip_prefix_all_chars(after_dot.as_slice(), source_pre.as_slice());
        let path_chars = trim_chars(after_source.as_slice());
        let path = string_from_chars(path_chars.as_slice());
        Ok(config.env_vars.expand_value(path.as_str()))
    }

    /// Drive one line of a conditional block: `then` opens the taken
    /// branch, `else` flips the skipping, `fi` ends the block; any other
    /// line is processed exactly when the block is open and not skipped.
    pub fn process_conditional_block(&self, in_then: bool, skip_until_fi: bool, line: &str) -> (r:
        (bool, bool, BlockStep))
        ensures
            ({
                let t = spec_trim(line@);
                if t == "then"@ {
                    r == (true, skip_until_fi, BlockStep::Skip)
                } else if t == "else"@ {
                    r == (in_then, !skip_until_fi, BlockStep::Skip)
                } else if t == "fi"@ {
                    r == (in_then, skip_until_fi, BlockStep::End)
                } else if in_then && !skip_until_fi {
                    r == (in_then, skip_until_fi, BlockStep::Process)
                } else {
                    r == (in_then, skip_until_fi, BlockStep::Skip)
                }
            }),
    {
        let cs = chars_of(line);
        let t = trim_chars(cs.as_slice());
        let ts = string_from_chars(t.as_slice());
        if str_eq(ts.as_str(), "then") {
            (true, skip_until_fi, BlockStep::Skip)
        } else if str_eq(ts.as_str(), "else") {
            proof {
                assert("then"@ != "else"@) by {
                    reveal_strlit("then");
                    reveal_strlit("else");
                    assert("then"@[0] == 't');
                    assert("else"@[0] == 'e');
                }
            }
            (in_then, !skip_until_fi, BlockStep::Skip)
        } else if str_eq(ts.as_str(), "fi") {
            proof {
                assert("fi"@ != "then"@ && "fi"@ != "else"@) by {
                    reveal_strlit("then");
                    reveal_strlit("else");
                    reveal_strlit("fi");
                    assert("fi"@.len() == 2);
                    assert("then"@.len() == 4);
                    assert("else"@.len() == 4);
                }
            }
            (in_then, skip_until_fi, BlockStep::End)
        } else if in_then && !skip_until_fi {
            (in_then, skip_until_fi, BlockStep::Process)
        } else {
            (in_then, skip_until_fi, BlockStep::Skip)
        }
    }
}

/// Whether a `[ a = b ]` condition holds against `env`.
pub open spec fn spec_check_equality(s: Seq<char>, env: Seq<(Seq<char>, Seq<char>)>) -> bool {
    let inner = strip_suffix_all(strip_prefix_all(s, "[ "@), " ]"@);
    let parts = crate::text::spec_split_char(inner, '=');
    if parts.len() == 2 {
        spec_expand_home_path(env, spec_trim(trim_char_all(parts[0], '"'))) == spec_expand_home_path(
            env,
            spec_trim(trim_char_all(parts[1], '"')),
        )
    } else {
        false
    }
}

/// What `evaluate_condition` promises of its result for a condition text.
pub open spec fn spec_condition_ok(
    s: Seq<char>,
    env: Seq<(Seq<char>, Seq<char>)>,
    c: Condition,
) -> bool {
    if occurs_at(s, "[ -n "@, 0) {
        c == Condition::Decided(spec_lookup(env, spec_extract_var_name(s, "[ -n "@)) is Some)
    } else if occurs_at(s, "[ -z "@, 0) {
        c == Condition::Decided(spec_lookup(env, spec_extract_var_name(s, "[ -z "@)) is None)
    } else if occurs_at(s, "[ -f "@, 0) {
        c matches Condition::NeedsFile(p) && p@ == spec_extract_path(s, "[ -f "@, env)
    } else if occurs_at(s, "[ -d "@, 0) {
        c matches Condition::NeedsDir(p) && p@ == spec_extract_path(s, "[ -d "@, env)
    } else if crate::text::contains_char(s, '=') {
        c == Condition::Decided(spec_check_equality(s, env))
    } else {
        c == Condition::Decided(false)
    }
}


impl<'a> ConfigLoader<'a> {
    /// Interpret one configuration line: blank lines, comments and the
    /// block keywords are skipped; `export`, `PATH=` and `alias` lines
    /// update the tables; `if` lines yield their condition; `. `/`source`
    /// lines yield the file to read; anything else runs through the
    /// attached dispatcher.
    pub fn process_line(&self, line: &str, config: &mut Config) -> (r: Result<
        LineDirective,
        ConfigError,
    >)
        ensures
            ({
                let t = spec_trim(line@);
                if t.len() == 0 || t[0] == '#' || t == "then"@ || t == "else"@ || t == "fi"@ {
                    r matches Ok(d) && d is Handled && final(config).aliases_view() == old(config).aliases_view() && final(config).env_view() == old(config).env_view()
                } else if occurs_at(t, "export "@, 0) {
                    r matches Ok(d) && d is Handled && final(config).aliases_view() == old(config).aliases_view() && final(config).env_view() == spec_env_after_export(
                        old(config).env_view(),
                        t.skip("export "@.len() as int),
                    )
                } else if occurs_at(t, "PATH="@, 0) {
                    final(config).aliases_view() == old(config).aliases_view() && (match r {
                        Ok(d) => d is Handled && (spec_lookup(old(config).env_view(), "PATH"@)
                            matches Some(cur) && final(config).env_view() == spec_put(
                            old(config).env_view(),
                            "PATH"@,
                            spec_sanitize_path(spec_new_path(t.skip("PATH="@.len() as int), cur)),
                        )),
                        Err(e) => e matches ConfigError::EnvVarNotFound(_) && final(config).env_view() == old(config).env_view(),
                    })
                } else if occurs_at(t, "alias "@, 0) {
                    r matches Ok(d) && d is Handled && final(config).env_view() == old(config).env_view() && final(config).aliases_view() == spec_alias_after(
                        old(config).aliases_view(),
                        t.skip("alias "@.len() as int),
                    )
                } else if occurs_at(t, "if "@, 0) {
                    final(config).aliases_view() == old(config).aliases_view() && final(config).env_view() == old(config).env_view() && (r matches Ok(d) && (d
                        matches LineDirective::Branch(c) && spec_condition_ok(
                        spec_trim(strip_prefix_all(t, "if "@)),
                        old(config).env_view(),
                        c,
                    )))
                } else if occurs_at(t, ". "@, 0) || occurs_at(t, "source "@, 0) {
                    final(config).aliases_view() == old(config).aliases_view() && final(config).env_view() == old(config).env_view() && (r matches Ok(d) && (d
                        matches LineDirective::SourceFile(p) && p@ == spec_expand_home_path(
                        old(config).env_view(),
                        spec_trim(strip_prefix_all(strip_prefix_all(t, ". "@), "source "@)),
                    )))
                } else {
                    &&& final(config).aliases_view() == old(config).aliases_view()
                    &&& final(config).env_view() == old(config).env_view()
                    &&& (match r {
                        Ok(d) => (d is Handled || d is Run) && ((d is Handled) <==> (
                        crate::engine::commands::source::spec_script_line(t) is None || !old(
                            config,
                        ).has_executor())),
                        Err(e) => crate::engine::commands::source::spec_script_line(t) is Some
                            && old(config).has_executor() && (e
                            matches ConfigError::CommandError(_)),
                    })
                }
            }),
    {
        let lc = chars_of(line);
        let tc = trim_chars(lc.as_slice());
        let t = string_from_chars(tc.as_slice());
        if tc.len() == 0 {
            return Ok(LineDirective::Handled);
        }
        if tc[0] == '#' {
            return Ok(LineDirective::Handled);
        }
        if str_eq(t.as_str(), "then") || str_eq(t.as_str(), "else") || str_eq(t.as_str(), "fi") {
            return Ok(LineDirective::Handled);
        }
        let export_pre = chars_of("export ");
        let path_pre = chars_of("PATH=");
        let alias_pre = chars_of("alias ");
        let if_pre = chars_of("if ");
        let dot_pre = chars_of(". ");
        let source_pre = chars_of("source ");
        if matches_at(tc.as_slice(), export_pre.as_slice(), 0) {
            let rest = tail_chars(tc.as_slice(), export_pre.len());
            let rest_str = string_from_chars(rest.as_slice());
            match self.process_env_var(rest_str.as_str(), config) {
                Ok(()) => Ok(LineDirective::Handled),
                Err(e) => Err(e),
            }
        } else if matches_at(tc.as_slice(), path_pre.as_slice(), 0) {
            let rest = tail_chars(tc.as_slice(), path_pre.len());
            let rest_str = string_from_chars(rest.as_slice());
            match self.process_path_var(rest_str.as_str(), config) {
                Ok(()) => Ok(LineDirective::Handled),
                Err(e) => Err(e),
            }
        } else if matches_at(tc.as_slice(), alias_pre.as_slice(), 0) {
            let rest = tail_chars(tc.as_slice(), alias_pre.len());
            let rest_str = string_from_chars(rest.as_slice());
            match self.process_alias(rest_str.as_str(), config) {
                Ok(()) => Ok(LineDirective::Handled),
                Err(e) => Err(e),
            }
        } else if matches_at(tc.as_slice(), if_pre.as_slice(), 0) {
            match self.process_conditional(t.as_str(), config) {
                Ok(c) => Ok(LineDirective::Branch(c)),
                Err(e) => Err(e),
            }
        } else if matches_at(tc.as_slice(), dot_pre.as_slice(), 0) || matches_at(
            tc.as_slice(),
            source_pre.as_slice(),
            0,
        ) {
            match self.process_source(t.as_str(), config) {
                Ok(p) => Ok(LineDirective::SourceFile(p)),
                Err(e) => Err(e),
            }
        } else {
            match config.execute_command(t.as_str()) {
                Ok(Some(a)) => Ok(LineDirective::Run(a)),
                Ok(None) => Ok(LineDirective::Handled),
                Err(e) => Err(e),
            }
        }
    }
}

} // verus!
