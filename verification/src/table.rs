//! An association table from names to strings, used for the alias table and
//! the environment-variable table. Keys are unique; insertion order is kept.

use vstd::prelude::*;
use vstd::string::StringExecFns;
use crate::text::str_eq;

verus! {

/// The first value bound to `k` in `t`, if any.
pub open spec fn spec_lookup(t: Seq<(Seq<char>, Seq<char>)>, k: Seq<char>) -> Option<Seq<char>>
    decreases t.len(),
{
    if t.len() == 0 {
        None
    } else if t[0].0 == k {
        Some(t[0].1)
    } else {
        spec_lookup(t.drop_first(), k)
    }
}

/// `t` with `k` bound to `v`: the first binding of `k` is replaced in place,
/// or a new binding is appended.
pub open spec fn spec_put(t: Seq<(Seq<char>, Seq<char>)>, k: Seq<char>, v: Seq<char>) -> Seq<
    (Seq<char>, Seq<char>),
>
    decreases t.len(),
{
    if t.len() == 0 {
        seq![(k, v)]
    } else if t[0].0 == k {
        seq![(k, v)] + t.drop_first()
    } else {
        seq![t[0]] + spec_put(t.drop_first(), k, v)
    }
}

/// After `spec_put`, looking up `k` finds `v` and every other name is bound
/// as before.
pub proof fn lemma_lookup_put(t: Seq<(Seq<char>, Seq<char>)>, k: Seq<char>, v: Seq<char>, n: Seq<
    char,
>)
    ensures
        spec_lookup(spec_put(t, k, v), n) == if n == k {
            Some(v)
        } else {
            spec_lookup(t, n)
        },
    decreases t.len(),
{
    let p = spec_put(t, k, v);
    if t.len() == 0 {
        assert(p == seq![(k, v)]);
        assert(p[0] == (k, v));
        assert(p.drop_first() =~= Seq::<(Seq<char>, Seq<char>)>::empty());
        if n == k {
            assert(spec_lookup(p, n) == Some(v));
        } else {
            assert(spec_lookup(p, n) == spec_lookup(p.drop_first(), n));
            assert(spec_lookup(p, n) is None);
        }
    } else if t[0].0 == k {
        assert(p[0] == (k, v));
        assert(p.drop_first() =~= t.drop_first());
        if n == k {
            assert(spec_lookup(p, n) == Some(v));
        } else {
            assert(spec_lookup(p, n) == spec_lookup(t.drop_first(), n));
            assert(spec_lookup(t, n) == spec_lookup(t.drop_first(), n));
        }
    } else {
        lemma_lookup_put(t.drop_first(), k, v, n);
        assert(p.len() == 1 + spec_put(t.drop_first(), k, v).len());
        assert(p[0] == t[0]);
        assert(p.drop_first() =~= spec_put(t.drop_first(), k, v));
        if n == t[0].0 {
            assert(spec_lookup(p, n) == Some(t[0].1));
            assert(spec_lookup(t, n) == Some(t[0].1));
        } else {
            assert(spec_lookup(p, n) == spec_lookup(spec_put(t.drop_first(), k, v), n));
            assert(spec_lookup(t, n) == spec_lookup(t.drop_first(), n));
        }
    }
}

/// A table from string names to string values with unique keys.
pub struct StrTable {
    entries: Vec<(String, String)>,
}

impl View for StrTable {
    type V = Seq<(Seq<char>, Seq<char>)>;

    closed spec fn view(&self) -> Seq<(Seq<char>, Seq<char>)> {
        self.entries@.map_values(|p: (String, String)| (p.0@, p.1@))
    }
}

impl StrTable {
    pub fn new() -> (r: StrTable)
        ensures
            r@ == Seq::<(Seq<char>, Seq<char>)>::empty(),
    {
        let r = StrTable { entries: Vec::new() };
        proof {
            assert(r@ =~= Seq::<(Seq<char>, Seq<char>)>::empty());
        }
        r
    }

    pub fn len(&self) -> (n: usize)
        ensures
            n == self@.len(),
    {
        self.entries.len()
    }

    /// The name and value of the `i`-th binding.
    pub fn pair_at(&self, i: usize) -> (r: (&String, &String))
        requires
            i < self@.len(),
        ensures
            r.0@ == self@[i as int].0,
            r.1@ == self@[i as int].1,
    {
        (&self.entries[i].0, &self.entries[i].1)
    }

    /// The value bound to `k`, if any.
    pub fn lookup(&self, k: &str) -> (r: Option<&String>)
        ensures
            match r {
                Some(v) => spec_lookup(self@, k@) == Some(v@),
                None => spec_lookup(self@, k@) is None,
            },
    {
        let n = self.entries.len();
        let mut i: usize = 0;
        proof {
            assert(self@.skip(0) =~= self@);
        }
        while i < n
            invariant
                0 <= i <= n == self@.len(),
                spec_lookup(self@, k@) == spec_lookup(self@.skip(i as int), k@),
            decreases n - i,
        {
            proof {
                assert(self@.skip(i as int)[0] == self@[i as int]);
                assert(self@.skip(i as int).drop_first() =~= self@.skip(i as int + 1));
            }
            if str_eq(self.entries[i].0.as_str(), k) {
                return Some(&self.entries[i].1);
            }
            i = i + 1;
        }
        proof {
            assert(self@.skip(n as int) =~= Seq::<(Seq<char>, Seq<char>)>::empty());
        }
        None
    }

    /// Bind `k` to `v`, replacing an existing binding in place.
    pub fn put(&mut self, k: &str, v: &str)
        ensures
            final(self)@ == spec_put(old(self)@, k@, v@),
    {
        let n = self.entries.len();
        let mut i: usize = 0;
        while i < n
            invariant
                0 <= i <= n == self@.len(),
                self@ == old(self)@,
                forall|j: int| 0 <= j < i ==> #[trigger] self@[j].0 != k@,
            decreases n - i,
        {
            if str_eq(self.entries[i].0.as_str(), k) {
                let pair = (String::from_str(k), String::from_str(v));
                self.entries.remove(i);
                self.entries.insert(i, pair);
                proof {
                    assert(self@ =~= old(self)@.update(i as int, (k@, v@)));
                    lemma_put_found(old(self)@, k@, v@, i as int);
                }
                return ;
            }
            i = i + 1;
        }
        let pair = (String::from_str(k), String::from_str(v));
        self.entries.push(pair);
        proof {
            assert(self@ =~= old(self)@.push((k@, v@)));
            lemma_put_missing(old(self)@, k@, v@);
        }
    }
}

/// When `k` first occurs at index `i`, `spec_put` is an update at `i`.
proof fn lemma_put_found(t: Seq<(Seq<char>, Seq<char>)>, k: Seq<char>, v: Seq<char>, i: int)
    requires
        0 <= i < t.len(),
        t[i].0 == k,
        forall|j: int| 0 <= j < i ==> #[trigger] t[j].0 != k,
    ensures
        spec_put(t, k, v) == t.update(i, (k, v)),
    decreases i,
{
    if i == 0 {
        assert(spec_put(t, k, v) =~= t.update(0, (k, v)));
    } else {
        assert(t.drop_first()[i - 1].0 == k);
        lemma_put_found(t.drop_first(), k, v, i - 1);
        assert(spec_put(t, k, v) =~= t.update(i, (k, v)));
    }
}

/// When `k` does not occur in `t`, `spec_put` appends.
proof fn lemma_put_missing(t: Seq<(Seq<char>, Seq<char>)>, k: Seq<char>, v: Seq<char>)
    requires
        forall|j: int| 0 <= j < t.len() ==> #[trigger] t[j].0 != k,
    ensures
        spec_put(t, k, v) == t.push((k, v)),
    decreases t.len(),
{
    if t.len() == 0 {
        assert(spec_put(t, k, v) =~= t.push((k, v)));
    } else {
        lemma_put_missing(t.drop_first(), k, v);
        assert(spec_put(t, k, v) =~= t.push((k, v)));
    }
}

} // verus!
