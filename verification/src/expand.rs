//! The expander: `$NAME` environment-variable substitution and first-token
//! alias substitution. Both are single-pass; a substituted value is not
//! itself re-expanded.

use vstd::prelude::*;
use crate::table::{spec_lookup, StrTable};
use crate::text::{
    chars_of, contains_char, first_non_space, is_space, lemma_first_non_space_bounds,
    lemma_first_token, lemma_token_end_bounds, space, spec_tokens, string_from_chars, token_end,
};

verus! {

/// Characters that may form a variable name after `$`.
pub open spec fn word_char(c: char) -> bool {
    ('a' <= c && c <= 'z') || ('A' <= c && c <= 'Z') || ('0' <= c && c <= '9') || c == '_'
}

fn is_word_char(c: char) -> (r: bool)
    ensures
        r == word_char(c),
{
    ('a' <= c && c <= 'z') || ('A' <= c && c <= 'Z') || ('0' <= c && c <= '9') || c == '_'
}

/// The end (exclusive) of the run of name characters starting at `i`.
pub open spec fn var_end(s: Seq<char>, i: int) -> int
    decreases s.len() - i,
{
    if i < 0 || i >= s.len() || !word_char(s[i]) {
        i
    } else {
        var_end(s, i + 1)
    }
}

proof fn lemma_var_end(s: Seq<char>, i: int)
    requires
        0 <= i <= s.len(),
    ensures
        i <= var_end(s, i) <= s.len(),
        forall|j: int| i <= j < var_end(s, i) ==> word_char(#[trigger] s[j]),
        var_end(s, i) < s.len() ==> !word_char(s[var_end(s, i)]),
    decreases s.len() - i,
{
    if i < s.len() && word_char(s[i]) {
        lemma_var_end(s, i + 1);
    }
}

/// What remains to be produced when expanding `s` from position `i`: plain
/// characters are copied; a `$` followed by name characters becomes the
/// variable's value, or nothing if it is unset; a `$` followed by another
/// character disappears; a trailing `$` is kept.
pub open spec fn expand_from(s: Seq<char>, i: int, env: Seq<(Seq<char>, Seq<char>)>) -> Seq<char>
    decreases s.len() - i,
    via expand_from_dec
{
    if i < 0 || i >= s.len() {
        Seq::empty()
    } else if s[i] != '$' {
        seq![s[i]] + expand_from(s, i + 1, env)
    } else if i + 1 >= s.len() {
        seq!['$']
    } else if !word_char(s[i + 1]) {
        expand_from(s, i + 1, env)
    } else {
        let j = var_end(s, i + 1);
        let value = match spec_lookup(env, s.subrange(i + 1, j)) {
            Some(v) => v,
            None => Seq::empty(),
        };
        value + expand_from(s, j, env)
    }
}

#[via_fn]
proof fn expand_from_dec(s: Seq<char>, i: int, env: Seq<(Seq<char>, Seq<char>)>) {
    if 0 <= i && i < s.len() && s[i] == '$' && i + 1 < s.len() && word_char(s[i + 1]) {
        lemma_var_end(s, i + 1);
        assert(var_end(s, i + 1) == var_end(s, i + 2));
    }
}

/// The single-pass `$NAME` expansion of `s` against `env`.
pub open spec fn spec_expand_env(s: Seq<char>, env: Seq<(Seq<char>, Seq<char>)>) -> Seq<char> {
    expand_from(s, 0, env)
}

/// A string without `$` expands to itself.
pub proof fn lemma_expand_no_dollar(s: Seq<char>, i: int, env: Seq<(Seq<char>, Seq<char>)>)
    requires
        0 <= i <= s.len(),
        forall|j: int| 0 <= j < s.len() ==> s[j] != '$',
    ensures
        expand_from(s, i, env) == s.skip(i),
    decreases s.len() - i,
{
    if i >= s.len() {
        assert(s.skip(i) =~= Seq::<char>::empty());
    } else {
        lemma_expand_no_dollar(s, i + 1, env);
        assert(s.skip(i) =~= seq![s[i]] + s.skip(i + 1));
    }
}

/// Expansion is idempotent on expanded strings: re-expanding a string with
/// no remaining `$` is the identity.
pub proof fn lemma_expand_idempotent_env(s: Seq<char>, env: Seq<(Seq<char>, Seq<char>)>)
    requires
        !contains_char(s, '$'),
    ensures
        spec_expand_env(s, env) == s,
{
    assert forall|j: int| 0 <= j < s.len() implies s[j] != '$' by {
        if s[j] == '$' {
            assert(contains_char(s, '$'));
        }
    }
    lemma_expand_no_dollar(s, 0, env);
    assert(s.skip(0) =~= s);
}

/// A reference to an unset variable expands to the empty string in its
/// place, never to the literal `$NAME`.
pub proof fn lemma_expand_unset_var(name: Seq<char>, env: Seq<(Seq<char>, Seq<char>)>)
    requires
        name.len() > 0,
        forall|j: int| 0 <= j < name.len() ==> word_char(#[trigger] name[j]),
        spec_lookup(env, name) is None,
    ensures
        spec_expand_env(seq!['$'] + name, env) == Seq::<char>::empty(),
{
    let s = seq!['$'] + name;
    assert(s[0] == '$');
    assert(word_char(s[1]));
    lemma_var_end_all_word(s, 1);
    let j = var_end(s, 1);
    assert(j == s.len());
    assert(s.subrange(1, j) =~= name);
    assert(expand_from(s, j, env) == Seq::<char>::empty());
    assert(spec_expand_env(s, env) =~= Seq::<char>::empty());
}

/// `var_end` runs to exactly the end of a run of name characters bounded
/// by a non-name character or the end of the string.
proof fn lemma_var_end_run(s: Seq<char>, i: int, e: int)
    requires
        0 <= i <= e <= s.len(),
        forall|k: int| i <= k < e ==> word_char(#[trigger] s[k]),
        e == s.len() || !word_char(s[e]),
    ensures
        var_end(s, i) == e,
    decreases e - i,
{
    if i < e {
        lemma_var_end_run(s, i + 1, e);
    }
}

/// Shifting the string by a prefix shifts `var_end` with it.
proof fn lemma_var_end_shift(s: Seq<char>, j: int, m: int)
    requires
        0 <= j <= m <= s.len(),
    ensures
        var_end(s, m) == j + var_end(s.skip(j), m - j),
    decreases s.len() - m,
{
    if m < s.len() {
        assert(s.skip(j)[m - j] == s[m]);
        if word_char(s[m]) {
            lemma_var_end_shift(s, j, m + 1);
        }
    }
}

/// Expansion of the rest of a string is expansion of that rest on its own.
proof fn lemma_expand_suffix(s: Seq<char>, j: int, i: int, env: Seq<(Seq<char>, Seq<char>)>)
    requires
        0 <= j <= i <= s.len(),
    ensures
        expand_from(s, i, env) == expand_from(s.skip(j), i - j, env),
    decreases s.len() - i,
{
    let t = s.skip(j);
    if i < s.len() {
        assert(t[i - j] == s[i]);
        if s[i] != '$' {
            lemma_expand_suffix(s, j, i + 1, env);
        } else if i + 1 >= s.len() {
        } else {
            assert(t[i - j + 1] == s[i + 1]);
            if !word_char(s[i + 1]) {
                lemma_expand_suffix(s, j, i + 1, env);
            } else {
                lemma_var_end(s, i + 1);
                lemma_var_end_shift(s, j, i + 1);
                let ve = var_end(s, i + 1);
                assert(var_end(t, i - j + 1) == ve - j);
                assert(s.subrange(i + 1, ve) =~= t.subrange(i - j + 1, ve - j));
                lemma_expand_suffix(s, j, ve, env);
            }
        }
    }
}

/// Characters before `b` that are not `$` are copied verbatim.
proof fn lemma_expand_copy(s: Seq<char>, i: int, b: int, env: Seq<(Seq<char>, Seq<char>)>)
    requires
        0 <= i <= b <= s.len(),
        forall|k: int| i <= k < b ==> #[trigger] s[k] != '$',
    ensures
        expand_from(s, i, env) == s.subrange(i, b) + expand_from(s, b, env),
    decreases b - i,
{
    if i < b {
        lemma_expand_copy(s, i + 1, b, env);
        assert(s.subrange(i, b) =~= seq![s[i]] + s.subrange(i + 1, b));
        assert(seq![s[i]] + (s.subrange(i + 1, b) + expand_from(s, b, env)) =~= s.subrange(i, b)
            + expand_from(s, b, env));
    } else {
        assert(s.subrange(i, b) =~= Seq::<char>::empty());
        assert(Seq::<char>::empty() + expand_from(s, b, env) =~= expand_from(s, b, env));
    }
}

/// Wherever it stands, a reference to an unset variable expands to the
/// empty string in its place: the text before it (holding no `$`) is
/// copied, the reference vanishes, and the rest expands on its own.
pub proof fn lemma_expand_unset_var_at(
    pre: Seq<char>,
    name: Seq<char>,
    rest: Seq<char>,
    env: Seq<(Seq<char>, Seq<char>)>,
)
    requires
        !contains_char(pre, '$'),
        name.len() > 0,
        forall|j: int| 0 <= j < name.len() ==> word_char(#[trigger] name[j]),
        spec_lookup(env, name) is None,
        rest.len() == 0 || !word_char(rest[0]),
    ensures
        spec_expand_env(pre + seq!['$'] + name + rest, env) == pre + spec_expand_env(rest, env),
{
    let s = pre + seq!['$'] + name + rest;
    let b = pre.len() as int;
    assert forall|k: int| 0 <= k < b implies #[trigger] s[k] != '$' by {
        assert(s[k] == pre[k]);
        if pre[k] == '$' {
            assert(contains_char(pre, '$'));
        }
    }
    lemma_expand_copy(s, 0, b, env);
    assert(s.subrange(0, b) =~= pre);
    assert(s[b] == '$');
    let j0 = b + 1;
    let j1 = j0 + name.len() as int;
    assert forall|k: int| j0 <= k < j1 implies word_char(#[trigger] s[k]) by {
        assert(s[k] == name[k - j0]);
    }
    if j1 < s.len() {
        assert(s[j1] == rest[0]);
    }
    lemma_var_end_run(s, j0, j1);
    assert(word_char(s[j0]));
    assert(s.subrange(j0, j1) =~= name);
    lemma_expand_suffix(s, j1, j1, env);
    assert(s.skip(j1) =~= rest);
    assert(expand_from(s, b, env) == Seq::<char>::empty() + expand_from(s, j1, env));
    assert(Seq::<char>::empty() + expand_from(s, j1, env) =~= expand_from(s, j1, env));
    assert(spec_expand_env(s, env) =~= pre + spec_expand_env(rest, env));
}

proof fn lemma_var_end_all_word(s: Seq<char>, i: int)
    requires
        0 <= i <= s.len(),
        forall|j: int| i <= j < s.len() ==> word_char(#[trigger] s[j]),
    ensures
        var_end(s, i) == s.len(),
    decreases s.len() - i,
{
    if i < s.len() {
        lemma_var_end_all_word(s, i + 1);
    }
}

/// Expand every `$NAME` reference in `s` against `env`.
pub fn expand_env_chars(s: &[char], env: &StrTable) -> (r: Vec<char>)
    ensures
        r@ == spec_expand_env(s@, env@),
{
    let mut out: Vec<char> = Vec::new();
    let mut i: usize = 0;
    while i < s.len()
        invariant
            0 <= i <= s@.len(),
            spec_expand_env(s@, env@) == out@ + expand_from(s@, i as int, env@),
        decreases s@.len() - i,
    {
        let c = s[i];
        if c != '$' {
            out.push(c);
            assert(out@ + expand_from(s@, i as int + 1, env@) =~= out@.drop_last() + (seq![s@[i as int]]
                + expand_from(s@, i as int + 1, env@)));
        } else if i + 1 >= s.len() {
            out.push('$');
            assert(out@ =~= out@.drop_last() + seq!['$']);
            assert(expand_from(s@, i as int + 1, env@) == Seq::<char>::empty());
            assert(out@ + expand_from(s@, i as int + 1, env@) =~= out@);
        } else if !is_word_char(s[i + 1]) {
            // a lone `$` is dropped
        } else {
            proof {
                lemma_var_end(s@, i as int + 1);
            }
            let mut j = i + 1;
            while j < s.len() && is_word_char(s[j])
                invariant
                    i + 1 <= j <= s@.len(),
                    var_end(s@, i as int + 1) == var_end(s@, j as int),
                decreases s@.len() - j,
            {
                j = j + 1;
            }
            assert(j as int == var_end(s@, i as int + 1));
            let mut name: Vec<char> = Vec::new();
            let mut p = i + 1;
            while p < j
                invariant
                    i + 1 <= p <= j <= s@.len(),
                    name@ == s@.subrange(i as int + 1, p as int),
                decreases j - p,
            {
                name.push(s[p]);
                assert(name@ =~= s@.subrange(i as int + 1, p as int + 1));
                p = p + 1;
            }
            let name_str = string_from_chars(name.as_slice());
            match env.lookup(name_str.as_str()) {
                Some(value) => {
                    let mut vchars = chars_of(value.as_str());
                    let ghost prev = out@;
                    out.append(&mut vchars);
                    assert(out@ == prev + value@);
                },
                None => {},
            }
            proof {
                assert(spec_expand_env(s@, env@) =~= out@ + expand_from(s@, j as int, env@));
            }
            i = j;
            continue ;
        }
        i = i + 1;
    }
    assert(expand_from(s@, i as int, env@) == Seq::<char>::empty());
    assert(out@ =~= spec_expand_env(s@, env@));
    out
}

/// Expand every `$NAME` reference in `input` against `env`.
pub fn expand_env_string(input: &str, env: &StrTable) -> (r: String)
    ensures
        r@ == spec_expand_env(input@, env@),
{
    let s = chars_of(input);
    let out = expand_env_chars(s.as_slice(), env);
    string_from_chars(out.as_slice())
}

/// `cmd` with its first whitespace-delimited token replaced by that
/// token's alias value, the rest of the line untouched; a line with no
/// token, or whose first token has no alias, is unchanged.
pub open spec fn spec_expand_command(aliases: Seq<(Seq<char>, Seq<char>)>, cmd: Seq<char>) -> Seq<
    char,
> {
    let start = first_non_space(cmd, 0);
    if start < cmd.len() {
        let end = token_end(cmd, start);
        match spec_lookup(aliases, cmd.subrange(start, end)) {
            Some(value) => cmd.subrange(0, start) + value + cmd.skip(end),
            None => cmd,
        }
    } else {
        cmd
    }
}

/// The given strings joined by single `sep` characters.
pub open spec fn join_sep(parts: Seq<Seq<char>>, sep: char) -> Seq<char>
    decreases parts.len(),
{
    if parts.len() == 0 {
        Seq::empty()
    } else if parts.len() == 1 {
        parts[0]
    } else {
        parts[0] + seq![sep] + join_sep(parts.drop_first(), sep)
    }
}

/// The given strings joined by single spaces.
pub open spec fn join_spaces(parts: Seq<Seq<char>>) -> Seq<char> {
    join_sep(parts, ' ')
}

/// A line whose first token has no alias expands to itself.
pub proof fn lemma_expand_command_identity(aliases: Seq<(Seq<char>, Seq<char>)>, cmd: Seq<char>)
    requires
        spec_tokens(cmd).len() == 0 || spec_lookup(aliases, spec_tokens(cmd)[0]) is None,
    ensures
        spec_expand_command(aliases, cmd) == cmd,
{
    let start = first_non_space(cmd, 0);
    lemma_first_non_space_bounds(cmd, 0);
    if start < cmd.len() {
        assert(!is_space(cmd[start]));
        assert(!crate::text::is_blank(cmd));
        lemma_first_token(cmd, 0);
        assert(spec_tokens(cmd)[0] == cmd.subrange(start, token_end(cmd, start)));
    }
}

/// Join the given strings with single spaces.
pub fn join_with_spaces(parts: &Vec<String>) -> (r: String)
    ensures
        r@ == join_spaces(parts.deep_view()),
{
    join_with_sep(parts, ' ')
}

/// Join the given strings with single `sep` characters.
pub fn join_with_sep(parts: &Vec<String>, sep: char) -> (r: String)
    ensures
        r@ == join_sep(parts.deep_view(), sep),
{
    let mut out: Vec<char> = Vec::new();
    let n = parts.len();
    let ghost pv = parts.deep_view();
    proof {
        assert(pv.skip(0) =~= pv);
    }
    let mut i: usize = 0;
    while i < n
        invariant
            0 <= i <= n == pv.len(),
            pv == parts.deep_view(),
            join_sep(pv, sep) == out@ + join_sep(pv.skip(i as int), sep),
            i > 0 && i < n ==> out@.len() > 0 && out@.last() == sep,
            i > 0 && i == n ==> out@ == join_sep(pv, sep),
        decreases n - i,
    {
        proof {
            assert(pv.skip(i as int)[0] == pv[i as int]);
            assert(pv.skip(i as int).drop_first() =~= pv.skip(i as int + 1));
        }
        let mut part = chars_of(parts[i].as_str());
        let ghost prev = out@;
        out.append(&mut part);
        assert(out@ == prev + pv[i as int]);
        if i + 1 < n {
            out.push(sep);
            proof {
                assert(pv.skip(i as int).len() >= 2);
                assert(join_sep(pv.skip(i as int), sep) == pv[i as int] + seq![sep] + join_sep(
                    pv.skip(i as int + 1),
                    sep,
                ));
                assert(out@ + join_sep(pv.skip(i as int + 1), sep) =~= prev + join_sep(
                    pv.skip(i as int),
                    sep,
                ));
            }
        } else {
            proof {
                assert(pv.skip(i as int).len() == 1);
                assert(join_sep(pv.skip(i as int), sep) == pv[i as int]);
                assert(out@ =~= prev + join_sep(pv.skip(i as int), sep));
                assert(pv.skip(i as int + 1) =~= Seq::<Seq<char>>::empty());
            }
        }
        i = i + 1;
    }
    if n == 0 {
        assert(out@ =~= join_sep(pv, sep));
    }
    string_from_chars(out.as_slice())
}

/// Replace the first whitespace-delimited token of `cmd` by its alias
/// value, leaving the rest of the line untouched; a line whose first token
/// has no alias is returned unchanged.
pub fn expand_first_token(aliases: &StrTable, cmd: &str) -> (r: String)
    ensures
        r@ == spec_expand_command(aliases@, cmd@),
{
    let cs = chars_of(cmd);
    let n = cs.len();
    proof {
        lemma_first_non_space_bounds(cs@, 0);
    }
    let mut start: usize = 0;
    while start < n && space(cs[start])
        invariant
            0 <= start <= n == cs@.len(),
            first_non_space(cs@, 0) == first_non_space(cs@, start as int),
        decreases n - start,
    {
        start = start + 1;
    }
    assert(start as int == first_non_space(cs@, 0));
    if start >= n {
        return String::from_str(cmd);
    }
    proof {
        lemma_token_end_bounds(cs@, start as int);
    }
    let mut end: usize = start;
    while end < n && !space(cs[end])
        invariant
            start <= end <= n == cs@.len(),
            token_end(cs@, start as int) == token_end(cs@, end as int),
        decreases n - end,
    {
        end = end + 1;
    }
    assert(end as int == token_end(cs@, start as int));
    let mut first: Vec<char> = Vec::new();
    let mut p = start;
    while p < end
        invariant
            start <= p <= end <= cs@.len(),
            first@ == cs@.subrange(start as int, p as int),
        decreases end - p,
    {
        first.push(cs[p]);
        assert(first@ =~= cs@.subrange(start as int, p as int + 1));
        p = p + 1;
    }
    let first_str = string_from_chars(first.as_slice());
    match aliases.lookup(first_str.as_str()) {
        Some(value) => {
            let mut out: Vec<char> = Vec::new();
            let mut q: usize = 0;
            while q < start
                invariant
                    0 <= q <= start <= cs@.len(),
                    out@ == cs@.subrange(0, q as int),
                decreases start - q,
            {
                out.push(cs[q]);
                assert(out@ =~= cs@.subrange(0, q as int + 1));
                q = q + 1;
            }
            let mut vchars = chars_of(value.as_str());
            let ghost before_value = out@;
            out.append(&mut vchars);
            proof {
                assert(out@ == before_value + value@);
            }
            let ghost before_tail = out@;
            let mut t = end;
            while t < n
                invariant
                    end <= t <= n == cs@.len(),
                    out@ == before_tail + cs@.subrange(end as int, t as int),
                decreases n - t,
            {
                out.push(cs[t]);
                assert(out@ =~= before_tail + cs@.subrange(end as int, t as int + 1));
                t = t + 1;
            }
            proof {
                assert(cs@.subrange(end as int, n as int) =~= cs@.skip(end as int));
                assert(out@ =~= cs@.subrange(0, start as int) + value@ + cs@.skip(end as int));
            }
            string_from_chars(out.as_slice())
        },
        None => String::from_str(cmd),
    }
}

} // verus!
