//! Association tables keyed by integers: the stores behind the reactor's
//! subscription set and its wake table.  A new entry for a key replaces
//! whatever the key held before.

use vstd::prelude::*;

verus! {

/// The value stored at `k`: the first entry with that key, if any.
pub open spec fn lookup<V>(s: Seq<(u64, V)>, k: u64) -> Option<V>
    decreases s.len(),
{
    if s.len() == 0 {
        None
    } else if s[0].0 == k {
        Some(s[0].1)
    } else {
        lookup(s.drop_first(), k)
    }
}

/// The entries that survive deleting key `k`, in order.
pub open spec fn without_key<V>(s: Seq<(u64, V)>, k: u64) -> Seq<(u64, V)>
    decreases s.len(),
{
    if s.len() == 0 {
        Seq::empty()
    } else if s[0].0 == k {
        without_key(s.drop_first(), k)
    } else {
        seq![s[0]] + without_key(s.drop_first(), k)
    }
}

pub open spec fn values_of<V>(s: Seq<(u64, V)>) -> Seq<V> {
    s.map_values(|e: (u64, V)| e.1)
}

pub proof fn lemma_lookup_push<V>(s: Seq<(u64, V)>, e: (u64, V), k: u64)
    ensures
        lookup(s.push(e), k) == match lookup(s, k) {
            Some(v) => Some(v),
            None => if e.0 == k {
                Some(e.1)
            } else {
                None
            },
        },
    decreases s.len(),
{
    reveal_with_fuel(lookup, 3);
    if s.len() == 0 {
        assert(s.push(e).drop_first() =~= Seq::<(u64, V)>::empty());
        assert(s.push(e)[0] == e);
    } else {
        assert(s.push(e).drop_first() =~= s.drop_first().push(e));
        assert(s.push(e)[0] == s[0]);
        lemma_lookup_push(s.drop_first(), e, k);
    }
}

pub proof fn lemma_without_key_push<V>(s: Seq<(u64, V)>, e: (u64, V), k: u64)
    ensures
        without_key(s.push(e), k) == without_key(s, k) + (if e.0 == k {
            Seq::<(u64, V)>::empty()
        } else {
            seq![e]
        }),
    decreases s.len(),
{
    reveal_with_fuel(without_key, 3);
    if s.len() == 0 {
        assert(s.push(e).drop_first() =~= Seq::<(u64, V)>::empty());
        assert(s.push(e)[0] == e);
        assert(without_key(s.push(e), k) =~= without_key(s, k) + (if e.0 == k {
            Seq::<(u64, V)>::empty()
        } else {
            seq![e]
        }));
    } else {
        assert(s.push(e).drop_first() =~= s.drop_first().push(e));
        assert(s.push(e)[0] == s[0]);
        lemma_without_key_push(s.drop_first(), e, k);
        assert(without_key(s.push(e), k) =~= without_key(s, k) + (if e.0 == k {
            Seq::<(u64, V)>::empty()
        } else {
            seq![e]
        }));
    }
}

/// Deleting key `k` empties that key and leaves every other key alone.
pub proof fn lemma_lookup_without_key<V>(s: Seq<(u64, V)>, k: u64, k2: u64)
    ensures
        lookup(without_key(s, k), k2) == if k2 == k {
            None::<V>
        } else {
            lookup(s, k2)
        },
    decreases s.len(),
{
    reveal_with_fuel(lookup, 3);
    reveal_with_fuel(without_key, 3);
    if s.len() == 0 {
    } else {
        lemma_lookup_without_key(s.drop_first(), k, k2);
        if s[0].0 == k {
        } else {
            assert((seq![s[0]] + without_key(s.drop_first(), k)).drop_first() =~= without_key(
                s.drop_first(),
                k,
            ));
            assert((seq![s[0]] + without_key(s.drop_first(), k))[0] == s[0]);
        }
    }
}

/// A table of entries, each key holding at most one value.
pub struct KeyTable<V: Copy> {
    entries: Vec<(u64, V)>,
}

impl<V: Copy> KeyTable<V> {
    /// The entries, in storage order.
    pub closed spec fn rows(&self) -> Seq<(u64, V)> {
        self.entries@
    }

    pub fn new() -> (t: Self)
        ensures
            t.rows() == Seq::<(u64, V)>::empty(),
    {
        KeyTable { entries: Vec::new() }
    }

    pub fn len(&self) -> (n: usize)
        ensures
            n == self.rows().len(),
    {
        self.entries.len()
    }

    /// Stores `v` at `k`, replacing whatever the key held before.
    pub fn insert(&mut self, k: u64, v: V)
        ensures
            final(self).rows() == without_key(old(self).rows(), k).push((k, v)),
            lookup(final(self).rows(), k) == Some(v),
            forall|k2: u64| k2 != k ==> lookup(final(self).rows(), k2) == lookup(
                old(self).rows(),
                k2,
            ),
    {
        let ghost orig = self.entries@;
        let mut kept: Vec<(u64, V)> = Vec::new();
        let mut i: usize = 0;
        while i < self.entries.len()
            invariant
                i <= orig.len(),
                self.entries@ == orig,
                kept@ == without_key(orig.take(i as int), k),
            decreases orig.len() - i,
        {
            let e = self.entries[i];
            proof {
                lemma_without_key_push(orig.take(i as int), e, k);
                assert(orig.take(i as int).push(e) =~= orig.take(i + 1 as int));
            }
            if e.0 != k {
                kept.push(e);
                proof {
                    assert(kept@ =~= without_key(orig.take(i + 1 as int), k));
                }
            } else {
                proof {
                    assert(kept@ =~= without_key(orig.take(i + 1 as int), k));
                }
            }
            i = i + 1;
        }
        proof {
            assert(orig.take(orig.len() as int) =~= orig);
        }
        kept.push((k, v));
        self.entries = kept;
        proof {
            lemma_lookup_push(without_key(orig, k), (k, v), k);
            lemma_lookup_without_key(orig, k, k);
            assert forall|k2: u64| k2 != k implies lookup(final(self).rows(), k2) == lookup(
                orig,
                k2,
            ) by {
                lemma_lookup_push(without_key(orig, k), (k, v), k2);
                lemma_lookup_without_key(orig, k, k2);
            }
        }
    }

    /// Deletes key `k`, handing back the value it held.
    pub fn remove(&mut self, k: u64) -> (r: Option<V>)
        ensures
            r == lookup(old(self).rows(), k),
            final(self).rows() == without_key(old(self).rows(), k),
            lookup(final(self).rows(), k) is None,
            forall|k2: u64| k2 != k ==> lookup(final(self).rows(), k2) == lookup(
                old(self).rows(),
                k2,
            ),
    {
        let ghost orig = self.entries@;
        let mut kept: Vec<(u64, V)> = Vec::new();
        let mut found: Option<V> = None;
        let mut i: usize = 0;
        while i < self.entries.len()
            invariant
                i <= orig.len(),
                self.entries@ == orig,
                kept@ == without_key(orig.take(i as int), k),
                found == lookup(orig.take(i as int), k),
            decreases orig.len() - i,
        {
            let e = self.entries[i];
            proof {
                lemma_without_key_push(orig.take(i as int), e, k);
                lemma_lookup_push(orig.take(i as int), e, k);
                assert(orig.take(i as int).push(e) =~= orig.take(i + 1 as int));
            }
            if e.0 != k {
                kept.push(e);
            } else if found.is_none() {
                found = Some(e.1);
            }
            proof {
                assert(kept@ =~= without_key(orig.take(i + 1 as int), k));
            }
            i = i + 1;
        }
        proof {
            assert(orig.take(orig.len() as int) =~= orig);
            lemma_lookup_without_key(orig, k, k);
            assert forall|k2: u64| k2 != k implies lookup(without_key(orig, k), k2) == lookup(
                orig,
                k2,
            ) by {
                lemma_lookup_without_key(orig, k, k2);
            }
        }
        self.entries = kept;
        found
    }

    /// The value stored at `k`, if any.
    pub fn get(&self, k: u64) -> (r: Option<V>)
        ensures
            r == lookup(self.rows(), k),
    {
        let mut i: usize = 0;
        while i < self.entries.len()
            invariant
                i <= self.rows().len(),
                lookup(self.rows().take(i as int), k) is None,
            decreases self.rows().len() - i,
        {
            let e = self.entries[i];
            proof {
                lemma_lookup_push(self.rows().take(i as int), e, k);
                assert(self.rows().take(i as int).push(e) =~= self.rows().take(i + 1 as int));
            }
            if e.0 == k {
                proof {
                    assert(self.rows().take(i + 1 as int) =~= self.rows().take(i as int).push(e));
                    lemma_lookup_take_extends(self.rows(), k, i + 1 as int);
                }
                return Some(e.1);
            }
            i = i + 1;
        }
        proof {
            assert(self.rows().take(self.rows().len() as int) =~= self.rows());
        }
        None
    }

    /// The stored values, in storage order.
    pub fn values(&self) -> (r: Vec<V>)
        ensures
            r@ == values_of(self.rows()),
    {
        let mut r: Vec<V> = Vec::new();
        let mut i: usize = 0;
        while i < self.entries.len()
            invariant
                i <= self.rows().len(),
                r@ == values_of(self.rows().take(i as int)),
            decreases self.rows().len() - i,
        {
            r.push(self.entries[i].1);
            proof {
                assert(r@ =~= values_of(self.rows().take(i + 1 as int)));
            }
            i = i + 1;
        }
        proof {
            assert(self.rows().take(self.rows().len() as int) =~= self.rows());
        }
        r
    }
}

/// Once a key has been seen in a prefix, longer prefixes agree on it.
pub proof fn lemma_lookup_take_extends<V>(s: Seq<(u64, V)>, k: u64, i: int)
    requires
        0 <= i <= s.len(),
        lookup(s.take(i), k) is Some,
    ensures
        lookup(s, k) == lookup(s.take(i), k),
    decreases s.len() - i,
{
    if i < s.len() {
        lemma_lookup_push(s.take(i), s[i], k);
        assert(s.take(i).push(s[i]) =~= s.take(i + 1));
        lemma_lookup_take_extends(s, k, i + 1);
    } else {
        assert(s.take(i) =~= s);
    }
}

/// A stored value is one of the entries.
pub proof fn lemma_lookup_some_member<V>(s: Seq<(u64, V)>, k: u64)
    requires
        lookup(s, k) is Some,
    ensures
        s.contains((k, lookup(s, k).unwrap())),
    decreases s.len(),
{
    if s.len() > 0 {
        if s[0].0 == k {
            assert(s[0] == (k, lookup(s, k).unwrap()));
        } else {
            lemma_lookup_some_member(s.drop_first(), k);
            let e = (k, lookup(s, k).unwrap());
            let j = choose|j: int| 0 <= j < s.drop_first().len() && s.drop_first()[j] == e;
            assert(s[j + 1] == e);
        }
    }
}

} // verus!
