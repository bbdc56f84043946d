//! The configuration loader's environment-variable table. Unlike the
//! dispatcher's table it never refuses a binding; the embedding program
//! mirrors every change into the real process environment.

use vstd::prelude::*;
use crate::engine::env::vars::{
    sanitize_path_string, spec_expand_home_path, spec_sanitize_path,
};
use crate::table::{spec_lookup, spec_put, StrTable};
use crate::text::{chars_of, replace_all, replace_all_chars, str_eq, string_from_chars};

verus! {

/// The environment variables as the configuration loader sees them.
pub struct EnvVarManager {
    env_vars: StrTable,
}

impl View for EnvVarManager {
    type V = Seq<(Seq<char>, Seq<char>)>;

    closed spec fn view(&self) -> Seq<(Seq<char>, Seq<char>)> {
        self.env_vars@
    }
}

impl EnvVarManager {
    /// An empty table; the embedding program seeds it from the real
    /// process environment.
    pub fn new() -> (r: EnvVarManager)
        ensures
            r@ == Seq::<(Seq<char>, Seq<char>)>::empty(),
    {
        EnvVarManager { env_vars: StrTable::new() }
    }

    /// Bind `name` to `value`; a `PATH` value is sanitized first.
    pub fn set(&mut self, name: &str, value: &str)
        ensures
            final(self)@ == spec_put(
                old(self)@,
                name@,
                if name@ == "PATH"@ {
                    spec_sanitize_path(value@)
                } else {
                    value@
                },
            ),
    {
        if str_eq(name, "PATH") {
            let clean = sanitize_path_string(value);
            self.env_vars.put(name, clean.as_str());
        } else {
            self.env_vars.put(name, value);
        }
    }

    /// The value bound to `name`, if any.
    pub fn lookup(&self, name: &str) -> (r: Option<&String>)
        ensures
            match r {
                Some(v) => spec_lookup(self@, name@) == Some(v@),
                None => spec_lookup(self@, name@) is None,
            },
    {
        self.env_vars.lookup(name)
    }

    /// Substitute `$HOME` and `$PATH` by their bound values, leaving a
    /// reference to an unbound one as it stands.
    pub fn expand_value(&self, value: &str) -> (r: String)
        ensures
            r@ == spec_expand_home_path(self@, value@),
    {
        let cs = chars_of(value);
        let home_pat = chars_of("$HOME");
        let after_home: Vec<char> = match self.env_vars.lookup("HOME") {
            Some(h) => {
                let hv = chars_of(h.as_str());
                replace_all_chars(cs.as_slice(), home_pat.as_slice(), hv.as_slice())
            },
            None => cs,
        };
        let path_pat = chars_of("$PATH");
        let result: Vec<char> = match self.env_vars.lookup("PATH") {
            Some(p) => {
                let pv = chars_of(p.as_str());
                replace_all_chars(after_home.as_slice(), path_pat.as_slice(), pv.as_slice())
            },
            None => after_home,
        };
        string_from_chars(result.as_slice())
    }
}

} // verus!
