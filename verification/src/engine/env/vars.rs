//! The environment-variable table. The library holds the variables as plain
//! values; the embedding program mirrors every change into the real process
//! environment and seeds the table from it at startup.

use vstd::prelude::*;
use vstd::string::StringExecFns;
use super::EnvError;
use crate::expand::{join_sep, spec_expand_env};
use crate::table::{spec_lookup, spec_put, StrTable};
use crate::text::{chars_of, replace_all, replace_all_chars, str_eq, string_from_chars};

verus! {

/// Characters that separate entries of a `PATH` value: the usual `:` plus
/// stray quote characters, which are discarded.
pub open spec fn path_sep(c: char) -> bool {
    c == ':' || c == '"' || c == '\''
}

fn is_path_sep(c: char) -> (r: bool)
    ensures
        r == path_sep(c),
{
    c == ':' || c == '"' || c == '\''
}

/// The non-empty pieces of `s` between separator characters, scanning from
/// `i` with the partially accumulated piece `cur`.
pub open spec fn path_parts_acc(s: Seq<char>, i: int, cur: Seq<char>) -> Seq<Seq<char>>
    decreases s.len() - i,
{
    let flushed: Seq<Seq<char>> = if cur.len() > 0 {
        seq![cur]
    } else {
        Seq::empty()
    };
    if i < 0 || i >= s.len() {
        flushed
    } else if path_sep(s[i]) {
        flushed + path_parts_acc(s, i + 1, Seq::empty())
    } else {
        path_parts_acc(s, i + 1, cur.push(s[i]))
    }
}

/// The non-empty pieces of a `PATH` value.
pub open spec fn spec_path_parts(s: Seq<char>) -> Seq<Seq<char>> {
    path_parts_acc(s, 0, Seq::empty())
}

/// `parts` with later repetitions of an already seen entry removed.
pub open spec fn dedup_acc(parts: Seq<Seq<char>>, i: int, seen: Set<Seq<char>>) -> Seq<Seq<char>>
    decreases parts.len() - i,
{
    if i < 0 || i >= parts.len() {
        Seq::empty()
    } else if seen.contains(parts[i]) {
        dedup_acc(parts, i + 1, seen)
    } else {
        seq![parts[i]] + dedup_acc(parts, i + 1, seen.insert(parts[i]))
    }
}

/// `parts` keeping only the first occurrence of each entry.
pub open spec fn spec_dedup(parts: Seq<Seq<char>>) -> Seq<Seq<char>> {
    dedup_acc(parts, 0, Set::empty())
}

/// A `PATH` value split on separators, with empty pieces and repetitions
/// dropped, rejoined by `:`.
pub open spec fn spec_sanitize_path(s: Seq<char>) -> Seq<char> {
    join_sep(spec_dedup(spec_path_parts(s)), ':')
}

/// Split a `PATH` value into its non-empty pieces.
fn split_path_parts(s: &[char]) -> (r: Vec<String>)
    ensures
        r.deep_view() == spec_path_parts(s@),
{
    let mut r: Vec<String> = Vec::new();
    let mut cur: Vec<char> = Vec::new();
    let mut i: usize = 0;
    let ghost mut done: Seq<Seq<char>> = Seq::empty();
    proof {
        assert(r.deep_view() =~~= done);
    }
    while i < s.len()
        invariant
            0 <= i <= s@.len(),
            spec_path_parts(s@) == done + path_parts_acc(s@, i as int, cur@),
            r.deep_view() == done,
        decreases s@.len() - i,
    {
        let c = s[i];
        if is_path_sep(c) {
            if cur.len() > 0 {
                proof {
                    assert(path_parts_acc(s@, i as int, cur@) == seq![cur@] + path_parts_acc(
                        s@,
                        i as int + 1,
                        Seq::empty(),
                    ));
                    vstd::seq_lib::lemma_concat_associative(
                        done,
                        seq![cur@],
                        path_parts_acc(s@, i as int + 1, Seq::empty()),
                    );
                }
                let ghost old_done = done;
                let ghost old_cur = cur@;
                let piece = string_from_chars(cur.as_slice());
                r.push(piece);
                cur = Vec::new();
                proof {
                    done = old_done + seq![old_cur];
                    assert(r.deep_view() =~~= done);
                }
            } else {
                assert(path_parts_acc(s@, i as int, cur@) == path_parts_acc(
                    s@,
                    i as int + 1,
                    Seq::empty(),
                ));
                assert(cur@ =~= Seq::<char>::empty());
            }
        } else {
            cur.push(c);
        }
        i = i + 1;
    }
    if cur.len() > 0 {
        proof {
            assert(path_parts_acc(s@, i as int, cur@) == seq![cur@]);
        }
        let ghost old_done = done;
        let ghost old_cur = cur@;
        let piece = string_from_chars(cur.as_slice());
        r.push(piece);
        proof {
            done = old_done + seq![old_cur];
            assert(r.deep_view() =~~= done);
        }
    } else {
        assert(path_parts_acc(s@, i as int, cur@) =~= Seq::<Seq<char>>::empty());
        assert(spec_path_parts(s@) =~= done);
    }
    assert(r.deep_view() == spec_path_parts(s@));
    r
}

/// Whether `v` holds a string whose characters are `x`.
fn contains_string(v: &Vec<String>, x: &str) -> (r: bool)
    ensures
        r == v.deep_view().contains(x@),
{
    let mut i: usize = 0;
    while i < v.len()
        invariant
            0 <= i <= v@.len(),
            forall|j: int| 0 <= j < i ==> v.deep_view()[j] != x@,
        decreases v@.len() - i,
    {
        if str_eq(v[i].as_str(), x) {
            assert(v.deep_view()[i as int] == x@);
            return true;
        }
        i = i + 1;
    }
    assert(!v.deep_view().contains(x@));
    false
}

/// Keep only the first occurrence of each entry.
fn dedup_strings(parts: &Vec<String>) -> (r: Vec<String>)
    ensures
        r.deep_view() == spec_dedup(parts.deep_view()),
{
    let ghost pv = parts.deep_view();
    let mut out: Vec<String> = Vec::new();
    let mut i: usize = 0;
    let ghost mut seen: Set<Seq<char>> = Set::empty();
    let ghost mut done: Seq<Seq<char>> = Seq::empty();
    proof {
        assert(out.deep_view() =~~= done);
    }
    while i < parts.len()
        invariant
            0 <= i <= pv.len(),
            pv == parts.deep_view(),
            spec_dedup(pv) == done + dedup_acc(pv, i as int, seen),
            out.deep_view() == done,
            forall|x: Seq<char>| seen.contains(x) <==> out.deep_view().contains(x),
        decreases pv.len() - i,
    {
        let present = contains_string(&out, parts[i].as_str());
        assert(parts.deep_view()[i as int] == parts@[i as int]@);
        if present {
            assert(seen.contains(pv[i as int]));
            assert(dedup_acc(pv, i as int, seen) == dedup_acc(pv, i as int + 1, seen));
        } else {
            assert(!seen.contains(pv[i as int]));
            proof {
                assert(dedup_acc(pv, i as int, seen) == seq![pv[i as int]] + dedup_acc(
                    pv,
                    i as int + 1,
                    seen.insert(pv[i as int]),
                ));
                vstd::seq_lib::lemma_concat_associative(
                    done,
                    seq![pv[i as int]],
                    dedup_acc(pv, i as int + 1, seen.insert(pv[i as int])),
                );
            }
            let ghost old_done = done;
            let ghost old_seen = seen;
            let entry = parts[i].clone();
            out.push(entry);
            proof {
                done = old_done + seq![pv[i as int]];
                seen = seen.insert(pv[i as int]);
                assert(out.deep_view() =~~= done);
                assert forall|x: Seq<char>| seen.contains(x) <==> out.deep_view().contains(x) by {
                    let dv = out.deep_view();
                    if x == pv[i as int] {
                        assert(dv[dv.len() - 1] == x);
                        assert(dv.contains(x));
                    } else {
                        if old_seen.contains(x) {
                            let k = choose|k: int| 0 <= k < old_done.len() && old_done[k] == x;
                            assert(dv[k] == x);
                            assert(dv.contains(x));
                        }
                        if dv.contains(x) {
                            let k = choose|k: int| 0 <= k < dv.len() && dv[k] == x;
                            assert(k < old_done.len());
                            assert(old_done[k] == x);
                            assert(old_done.contains(x));
                            assert(old_seen.contains(x));
                        }
                    }
                }
            }
        }
        i = i + 1;
    }
    proof {
        assert(dedup_acc(pv, i as int, seen) =~= Seq::<Seq<char>>::empty());
        assert(out.deep_view() =~~= spec_dedup(pv));
    }
    out
}


/// `value` with `$HOME` substituted, when `HOME` is bound.
pub open spec fn spec_after_home(t: Seq<(Seq<char>, Seq<char>)>, value: Seq<char>) -> Seq<char> {
    if spec_lookup(t, "HOME"@) is Some {
        replace_all(value, "$HOME"@, spec_lookup(t, "HOME"@).unwrap())
    } else {
        value
    }
}

/// `value` with `$HOME` and then `$PATH` substituted, where bound.
pub open spec fn spec_expand_home_path(t: Seq<(Seq<char>, Seq<char>)>, value: Seq<char>) -> Seq<
    char,
> {
    let after_home = spec_after_home(t, value);
    if spec_lookup(t, "PATH"@) is Some {
        replace_all(after_home, "$PATH"@, spec_lookup(t, "PATH"@).unwrap())
    } else {
        after_home
    }
}

/// Split a `PATH` value on `:` and quote characters, drop empty and
/// repeated entries, and rejoin with `:`.
pub fn sanitize_path_string(path: &str) -> (r: String)
    ensures
        r@ == spec_sanitize_path(path@),
{
    let cs = chars_of(path);
    let parts = split_path_parts(cs.as_slice());
    let unique = dedup_strings(&parts);
    crate::expand::join_with_sep(&unique, ':')
}

/// The environment-variable table of the running interpreter.
pub struct EnvVarManager {
    vars: StrTable,
}

impl View for EnvVarManager {
    type V = Seq<(Seq<char>, Seq<char>)>;

    closed spec fn view(&self) -> Seq<(Seq<char>, Seq<char>)> {
        self.vars@
    }
}

impl EnvVarManager {
    /// An empty table. The embedding program seeds it with the real process
    /// environment, which this library cannot read.
    pub fn new() -> (r: Result<EnvVarManager, EnvError>)
        ensures
            r matches Ok(m) && m@ == Seq::<(Seq<char>, Seq<char>)>::empty(),
    {
        Ok(EnvVarManager { vars: StrTable::new() })
    }

    /// The value bound to `name`, if any.
    pub fn lookup(&self, name: &str) -> (r: Option<&String>)
        ensures
            match r {
                Some(v) => spec_lookup(self@, name@) == Some(v@),
                None => spec_lookup(self@, name@) is None,
            },
    {
        self.vars.lookup(name)
    }

    /// The value bound to `name`, or `VarNotFound`.
    pub fn get(&self, name: &str) -> (r: Result<&str, EnvError>)
        ensures
            match r {
                Ok(v) => spec_lookup(self@, name@) == Some(v@),
                Err(e) => spec_lookup(self@, name@) is None && (e matches EnvError::VarNotFound(
                    n,
                ) && n@ == name@),
            },
    {
        match self.vars.lookup(name) {
            Some(v) => Ok(v.as_str()),
            None => Err(EnvError::VarNotFound(String::from_str(name))),
        }
    }

    /// Bind `name` to `value`; a `PATH` value is sanitized first. An empty
    /// name, or an empty `PATH` value, is refused.
    pub fn set(&mut self, name: &str, value: &str) -> (r: Result<(), EnvError>)
        ensures
            match r {
                Ok(()) => {
                    &&& name@.len() > 0
                    &&& final(self)@ == spec_put(
                        old(self)@,
                        name@,
                        if name@ == "PATH"@ {
                            spec_sanitize_path(value@)
                        } else {
                            value@
                        },
                    )
                },
                Err(e) => {
                    &&& final(self)@ == old(self)@
                    &&& e matches EnvError::InvalidValue(_)
                    &&& name@.len() == 0 || (name@ == "PATH"@ && value@.len() == 0)
                },
            },
    {
        if name.is_empty() {
            return Err(EnvError::InvalidValue(String::from_str("Empty variable name")));
        }
        if str_eq(name, "PATH") {
            let clean = match self.sanitize_path(value) {
                Ok(c) => c,
                Err(e) => {
                    return Err(e);
                },
            };
            self.vars.put(name, clean.as_str());
        } else {
            self.vars.put(name, value);
        }
        Ok(())
    }

    /// Split a `PATH` value on `:` and quote characters, drop empty and
    /// repeated entries, and rejoin with `:`. An empty value is refused.
    pub fn sanitize_path(&self, path: &str) -> (r: Result<String, EnvError>)
        ensures
            match r {
                Ok(p) => path@.len() > 0 && p@ == spec_sanitize_path(path@),
                Err(e) => path@.len() == 0 && e matches EnvError::InvalidValue(_),
            },
    {
        if path.is_empty() {
            return Err(EnvError::InvalidValue(String::from_str("Empty PATH value")));
        }
        Ok(sanitize_path_string(path))
    }

    /// Substitute `$HOME` and `$PATH` in `value` by their bound values. A
    /// reference to an unbound one of the two is an error.
    pub fn expand_value(&self, value: &str) -> (r: Result<String, EnvError>)
        ensures
            match r {
                Ok(v) => v@ == spec_expand_home_path(self@, value@),
                Err(e) => {
                    &&& e matches EnvError::HomeDirNotFound
                    &&& (spec_lookup(self@, "HOME"@) is None && crate::text::occurs_somewhere(
                        value@,
                        "$HOME"@,
                    )) || (spec_lookup(self@, "PATH"@) is None && crate::text::occurs_somewhere(
                        spec_after_home(self@, value@),
                        "$PATH"@,
                    ))
                },
            },
    {
        let cs = chars_of(value);
        let home_pat = chars_of("$HOME");
        let path_pat = chars_of("$PATH");
        let after_home: Vec<char> = if crate::text::occurs_in(cs.as_slice(), home_pat.as_slice()) {
            match self.vars.lookup("HOME") {
                Some(h) => {
                    let hv = chars_of(h.as_str());
                    replace_all_chars(cs.as_slice(), home_pat.as_slice(), hv.as_slice())
                },
                None => {
                    return Err(EnvError::HomeDirNotFound);
                },
            }
        } else {
            proof {
                if spec_lookup(self@, "HOME"@) is Some {
                    crate::text::lemma_replace_absent(
                        cs@,
                        "$HOME"@,
                        spec_lookup(self@, "HOME"@).unwrap(),
                    );
                }
            }
            cs
        };
        let result: Vec<char> = if crate::text::occurs_in(
            after_home.as_slice(),
            path_pat.as_slice(),
        ) {
            match self.vars.lookup("PATH") {
                Some(p) => {
                    let pv = chars_of(p.as_str());
                    replace_all_chars(after_home.as_slice(), path_pat.as_slice(), pv.as_slice())
                },
                None => {
                    return Err(EnvError::HomeDirNotFound);
                },
            }
        } else {
            proof {
                if spec_lookup(self@, "PATH"@) is Some {
                    crate::text::lemma_replace_absent(
                        after_home@,
                        "$PATH"@,
                        spec_lookup(self@, "PATH"@).unwrap(),
                    );
                }
            }
            after_home
        };
        Ok(string_from_chars(result.as_slice()))
    }

    /// Substitute every `$NAME` reference in `input` against this table.
    pub fn expand_string(&self, input: &str) -> (r: String)
        ensures
            r@ == spec_expand_env(input@, self@),
    {
        crate::expand::expand_env_string(input, &self.vars)
    }
}

} // verus!
