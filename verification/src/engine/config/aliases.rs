//! The alias table: user-defined first-token substitutions.

use vstd::multiset::Multiset;
use vstd::prelude::*;
use crate::expand::spec_expand_command;
use crate::table::{spec_lookup, spec_put, StrTable};
use crate::text::{lemma_lex_le_trans, lemma_lex_lt_total, lex_le, lex_less, lex_lt};

verus! {

/// The mathematical shape of a listed binding.
pub open spec fn pairs_view(v: Seq<(String, String)>) -> Seq<(Seq<char>, Seq<char>)> {
    v.map_values(|p: (String, String)| (p.0@, p.1@))
}

/// The names come in ascending lexicographic order.
pub open spec fn name_sorted(t: Seq<(Seq<char>, Seq<char>)>) -> bool {
    forall|i: int, j: int| 0 <= i < j < t.len() ==> lex_le((#[trigger] t[i]).0, (#[trigger] t[j]).0)
}

/// `r` lists exactly the bindings of `t`, sorted ascending by name.
pub open spec fn sorted_listing_of(
    t: Seq<(Seq<char>, Seq<char>)>,
    r: Seq<(Seq<char>, Seq<char>)>,
) -> bool {
    r.to_multiset() == t.to_multiset() && r.len() == t.len() && name_sorted(r)
}

/// A mapping from alias name to replacement text. The table keeps
/// insertion order; listings come sorted ascending by name.
pub struct AliasManager {
    aliases: StrTable,
}

impl View for AliasManager {
    type V = Seq<(Seq<char>, Seq<char>)>;

    closed spec fn view(&self) -> Seq<(Seq<char>, Seq<char>)> {
        self.aliases@
    }
}

impl AliasManager {
    /// An empty alias table.
    pub fn new() -> (r: AliasManager)
        ensures
            r@ == Seq::<(Seq<char>, Seq<char>)>::empty(),
    {
        AliasManager { aliases: StrTable::new() }
    }

    /// Bind `name` to `command`, replacing an earlier binding in place.
    pub fn add(&mut self, name: &str, command: &str)
        ensures
            final(self)@ == spec_put(old(self)@, name@, command@),
    {
        self.aliases.put(name, command);
    }

    /// The replacement text of `cmd`, if it is an alias.
    pub fn get(&self, cmd: &str) -> (r: Option<&String>)
        ensures
            match r {
                Some(v) => spec_lookup(self@, cmd@) == Some(v@),
                None => spec_lookup(self@, cmd@) is None,
            },
    {
        self.aliases.lookup(cmd)
    }

    /// Replace the first whitespace-delimited token of `command` by its
    /// alias value; a line whose first token has no alias is returned
    /// unchanged.
    pub fn expand_command(&self, command: &str) -> (r: String)
        ensures
            r@ == spec_expand_command(self@, command@),
    {
        crate::expand::expand_first_token(&self.aliases, command)
    }

    /// Every binding exactly once, sorted ascending by name.
    pub fn get_all(&self) -> (r: Vec<(String, String)>)
        ensures
            sorted_listing_of(self@, pairs_view(r@)),
            r@.len() == self@.len(),
    {
        let mut rest: Vec<(String, String)> = Vec::new();
        let n = self.aliases.len();
        let mut i: usize = 0;
        while i < n
            invariant
                0 <= i <= n == self@.len(),
                pairs_view(rest@) == self@.subrange(0, i as int),
            decreases n - i,
        {
            let ghost pre = pairs_view(rest@);
            let (k, v) = self.aliases.pair_at(i);
            rest.push((k.clone(), v.clone()));
            proof {
                assert(pairs_view(rest@) =~= pre.push(self@[i as int]));
                assert(pairs_view(rest@) =~= self@.subrange(0, i as int + 1));
            }
            i = i + 1;
        }
        proof {
            assert(pairs_view(rest@) =~= self@);
        }
        let mut out: Vec<(String, String)> = Vec::new();
        proof {
            assert(pairs_view(out@) =~= Seq::<(Seq<char>, Seq<char>)>::empty());
            pairs_view(out@).to_multiset_ensures();
            assert(pairs_view(out@).to_multiset().add(pairs_view(rest@).to_multiset())
                =~= self@.to_multiset());
        }
        while rest.len() > 0
            invariant
                pairs_view(out@).to_multiset().add(pairs_view(rest@).to_multiset())
                    == self@.to_multiset(),
                pairs_view(out@).len() + pairs_view(rest@).len() == self@.len(),
                name_sorted(pairs_view(out@)),
                forall|a: int, k: int|
                    0 <= a < pairs_view(out@).len() && 0 <= k < pairs_view(rest@).len()
                        ==> lex_le(
                        (#[trigger] pairs_view(out@)[a]).0,
                        (#[trigger] pairs_view(rest@)[k]).0,
                    ),
            decreases rest@.len(),
        {
            let mut best: usize = 0;
            let mut m: usize = 1;
            while m < rest.len()
                invariant
                    0 <= best < m <= rest@.len(),
                    forall|mp: int|
                        0 <= mp < m ==> lex_le(
                            pairs_view(rest@)[best as int].0,
                            (#[trigger] pairs_view(rest@)[mp]).0,
                        ),
                decreases rest@.len() - m,
            {
                proof {
                    assert(pairs_view(rest@)[m as int].0 == rest@[m as int].0@);
                    assert(pairs_view(rest@)[best as int].0 == rest@[best as int].0@);
                }
                if lex_less(&rest[m].0, &rest[best].0) {
                    let ghost old_best_name = pairs_view(rest@)[best as int].0;
                    best = m;
                    proof {
                        assert forall|mp: int|
                            0 <= mp < m + 1 implies lex_le(
                            pairs_view(rest@)[best as int].0,
                            (#[trigger] pairs_view(rest@)[mp]).0,
                        ) by {
                            if mp < m {
                                lemma_lex_le_trans(
                                    pairs_view(rest@)[m as int].0,
                                    old_best_name,
                                    pairs_view(rest@)[mp].0,
                                );
                            }
                        }
                    }
                } else {
                    proof {
                        lemma_lex_lt_total(
                            pairs_view(rest@)[best as int].0,
                            pairs_view(rest@)[m as int].0,
                        );
                    }
                }
                m = m + 1;
            }
            let ghost pre_rest = pairs_view(rest@);
            let ghost pre_out = pairs_view(out@);
            let ghost bi = best as int;
            let ghost ev = pre_rest[bi];
            let e = rest.remove(best);
            proof {
                assert((e.0@, e.1@) == ev);
                pre_rest.remove_ensures(bi);
                assert(pairs_view(rest@) =~= pre_rest.remove(bi));
            }
            out.push(e);
            proof {
                assert(pairs_view(out@) =~= pre_out.push(ev));
                pre_rest.to_multiset_ensures();
                pre_out.to_multiset_ensures();
                assert(pre_rest.remove(bi).to_multiset() =~= pre_rest.to_multiset().remove(ev));
                assert(pre_out.push(ev).to_multiset() =~= pre_out.to_multiset().insert(ev));
                assert(pre_rest.contains(ev));
                assert(pre_rest.to_multiset().count(ev) > 0);
                assert(pairs_view(out@).to_multiset().add(pairs_view(rest@).to_multiset())
                    =~= pre_out.to_multiset().add(pre_rest.to_multiset()));
                assert forall|a: int, k: int|
                    0 <= a < pairs_view(out@).len() && 0 <= k < pairs_view(rest@).len()
                        implies lex_le(
                    (#[trigger] pairs_view(out@)[a]).0,
                    (#[trigger] pairs_view(rest@)[k]).0,
                ) by {
                    let o = if k < bi {
                        k
                    } else {
                        k + 1
                    };
                    assert(pairs_view(rest@)[k] == pre_rest[o]);
                    if a < pre_out.len() {
                        assert(pairs_view(out@)[a] == pre_out[a]);
                    } else {
                        assert(pairs_view(out@)[a] == ev);
                    }
                }
                assert forall|a: int, b2: int|
                    0 <= a < b2 < pairs_view(out@).len() implies lex_le(
                    (#[trigger] pairs_view(out@)[a]).0,
                    (#[trigger] pairs_view(out@)[b2]).0,
                ) by {
                    if b2 == pre_out.len() {
                        assert(pairs_view(out@)[a] == pre_out[a]);
                        assert(pairs_view(out@)[b2] == ev);
                    }
                }
            }
        }
        proof {
            assert(pairs_view(rest@) =~= Seq::<(Seq<char>, Seq<char>)>::empty());
            pairs_view(rest@).to_multiset_ensures();
            assert(pairs_view(rest@).to_multiset() =~= Multiset::<(Seq<char>, Seq<char>)>::empty());
            assert(pairs_view(out@).to_multiset().add(Multiset::<(Seq<char>, Seq<char>)>::empty())
                =~= pairs_view(out@).to_multiset());
            pairs_view(out@).to_multiset_ensures();
            self@.to_multiset_ensures();
        }
        out
    }

    /// How many aliases are defined.
    pub fn len(&self) -> (n: usize)
        ensures
            n == self@.len(),
    {
        self.aliases.len()
    }

    /// Direct access to the underlying table, for the expanders.
    pub(crate) fn table(&self) -> (r: &StrTable)
        ensures
            r@ == self@,
    {
        &self.aliases
    }
}

} // verus!
