//! Account-keyed storage shared by the pallets: an association table from
//! account identifier to a plain value, with first-match lookup. Absent
//! identifiers are the caller's concern; both pallets read an absent entry
//! as zero.

use crate::AccountId;
use vstd::prelude::*;

verus! {

/// First-match lookup of the identifier `a` among the pairs of `s`.
pub open spec fn lookup<V>(s: Seq<(AccountId, V)>, a: Seq<char>) -> Option<V>
    decreases s.len(),
{
    if s.len() == 0 {
        None
    } else if s[0].0@ == a {
        Some(s[0].1)
    } else {
        lookup(s.subrange(1, s.len() as int), a)
    }
}

/// An identifier that no pair of `s` carries is not found.
proof fn lemma_lookup_no_match<V>(s: Seq<(AccountId, V)>, a: Seq<char>)
    requires
        forall|j: int| 0 <= j < s.len() ==> (#[trigger] s[j]).0@ != a,
    ensures
        lookup(s, a) is None,
    decreases s.len(),
{
    if s.len() > 0 {
        lemma_lookup_no_match(s.subrange(1, s.len() as int), a);
    }
}

/// Lookup answers with the value at the first position whose identifier
/// matches.
proof fn lemma_lookup_first_match<V>(s: Seq<(AccountId, V)>, i: int, a: Seq<char>)
    requires
        0 <= i < s.len(),
        s[i].0@ == a,
        forall|j: int| 0 <= j < i ==> (#[trigger] s[j]).0@ != a,
    ensures
        lookup(s, a) == Some(s[i].1),
    decreases i,
{
    if i > 0 {
        let tail = s.subrange(1, s.len() as int);
        lemma_lookup_first_match(tail, i - 1, a);
    }
}

/// Replacing the pair at the first position that carries its identifier
/// changes the lookup of that identifier alone.
proof fn lemma_lookup_update<V>(s: Seq<(AccountId, V)>, i: int, p: (AccountId, V))
    requires
        0 <= i < s.len(),
        p.0@ == s[i].0@,
        forall|j: int| 0 <= j < i ==> (#[trigger] s[j]).0@ != p.0@,
    ensures
        lookup(s.update(i, p), p.0@) == Some(p.1),
        forall|b: Seq<char>|
            b != p.0@ ==> #[trigger] lookup(s.update(i, p), b) == lookup(s, b),
    decreases i,
{
    let t = s.update(i, p);
    let s_tail = s.subrange(1, s.len() as int);
    if i == 0 {
        assert(t.subrange(1, t.len() as int) =~= s_tail);
    } else {
        lemma_lookup_update(s_tail, i - 1, p);
        assert(t.subrange(1, t.len() as int) =~= s_tail.update(i - 1, p));
    }
    assert forall|b: Seq<char>| b != p.0@ implies #[trigger] lookup(t, b) == lookup(s, b) by {
        if i == 0 {
            assert(t[0] == p);
            assert(lookup(t, b) == lookup(t.subrange(1, t.len() as int), b));
            assert(lookup(s, b) == lookup(s_tail, b));
        } else {
            assert(t[0] == s[0]);
            if s[0].0@ != b {
                assert(lookup(t, b) == lookup(t.subrange(1, t.len() as int), b));
                assert(lookup(s, b) == lookup(s_tail, b));
                assert(lookup(t.subrange(1, t.len() as int), b) == lookup(
                    s_tail.update(i - 1, p),
                    b,
                ));
            }
        }
    }
}

/// Appending a pair whose identifier is new changes the lookup of that
/// identifier alone.
proof fn lemma_lookup_push<V>(s: Seq<(AccountId, V)>, p: (AccountId, V))
    ensures
        lookup(s, p.0@) is None ==> lookup(s.push(p), p.0@) == Some(p.1),
        forall|b: Seq<char>|
            b != p.0@ ==> #[trigger] lookup(s.push(p), b) == lookup(s, b),
    decreases s.len(),
{
    let t = s.push(p);
    let s_tail = s.subrange(1, s.len() as int);
    if s.len() == 0 {
        assert(t[0] == p);
        assert(t.subrange(1, t.len() as int) =~= Seq::<(AccountId, V)>::empty());
    } else {
        lemma_lookup_push(s_tail, p);
        assert(t.subrange(1, t.len() as int) =~= s_tail.push(p));
    }
    assert forall|b: Seq<char>| b != p.0@ implies #[trigger] lookup(t, b) == lookup(s, b) by {
        if s.len() == 0 {
            assert(lookup(t, b) == lookup(t.subrange(1, t.len() as int), b));
        } else {
            assert(t[0] == s[0]);
            if s[0].0@ != b {
                assert(lookup(t, b) == lookup(t.subrange(1, t.len() as int), b));
                assert(lookup(s, b) == lookup(s_tail, b));
                assert(lookup(t.subrange(1, t.len() as int), b) == lookup(s_tail.push(p), b));
            }
        }
    }
}

/// A table from account identifier to a plain value. An identifier that
/// was never set holds no value; `get` answers `None` for it.
pub struct AccountMap<V> {
    entries: Vec<(AccountId, V)>,
}

impl<V: Copy> AccountMap<V> {
    /// The value stored under the identifier `a`, if any.
    pub closed spec fn spec_get(&self, a: Seq<char>) -> Option<V> {
        lookup(self.entries@, a)
    }

    /// The stored pairs, in the order their identifiers were first set.
    pub closed spec fn spec_entries(&self) -> Seq<(AccountId, V)> {
        self.entries@
    }

    /// An empty table: no identifier holds a value.
    pub fn new() -> (m: Self)
        ensures
            forall|a: Seq<char>| #[trigger] m.spec_get(a) is None,
            m.spec_entries().len() == 0,
    {
        AccountMap { entries: Vec::new() }
    }

    /// How many identifiers hold a value.
    pub fn count(&self) -> (n: usize)
        ensures
            n == self.spec_entries().len(),
    {
        self.entries.len()
    }

    /// The pair stored at position `i` of the table.
    pub fn entry_at(&self, i: usize) -> (e: &(AccountId, V))
        requires
            i < self.spec_entries().len(),
        ensures
            *e == self.spec_entries()[i as int],
    {
        &self.entries[i]
    }

    /// The first position whose identifier equals `key`, if any.
    fn position_of(&self, key: &AccountId) -> (r: Option<usize>)
        ensures
            r matches Some(i) ==> i < self.entries@.len() && self.entries@[i as int].0@
                == key@ && (forall|j: int|
                0 <= j < i ==> (#[trigger] self.entries@[j]).0@ != key@),
            r is None ==> forall|j: int|
                0 <= j < self.entries@.len() ==> (#[trigger] self.entries@[j]).0@ != key@,
    {
        let n: usize = self.entries.len();
        let mut i: usize = 0;
        while i < n
            invariant
                n == self.entries@.len(),
                i <= n,
                forall|j: int| 0 <= j < i ==> (#[trigger] self.entries@[j]).0@ != key@,
            decreases n - i,
        {
            if self.entries[i].0 == *key {
                return Some(i);
            }
            i = i + 1;
        }
        None
    }

    /// The value stored under `key`: `None` when the identifier was never
    /// set.
    pub fn get(&self, key: &AccountId) -> (r: Option<V>)
        ensures
            r == self.spec_get(key@),
    {
        match self.position_of(key) {
            Some(i) => {
                proof {
                    lemma_lookup_first_match(self.entries@, i as int, key@);
                }
                Some(self.entries[i].1)
            },
            None => {
                proof {
                    lemma_lookup_no_match(self.entries@, key@);
                }
                None
            },
        }
    }

    /// Stores `value` under `key`, overwriting any prior value and keeping
    /// every other identifier's value.
    pub fn set(&mut self, key: &AccountId, value: V)
        ensures
            final(self).spec_get(key@) == Some(value),
            forall|a: Seq<char>|
                a != key@ ==> #[trigger] final(self).spec_get(a) == old(self).spec_get(a),
    {
        match self.position_of(key) {
            Some(i) => {
                let p = (key.clone(), value);
                proof {
                    lemma_lookup_update(self.entries@, i as int, p);
                }
                self.entries[i] = p;
            },
            None => {
                let p = (key.clone(), value);
                proof {
                    lemma_lookup_no_match(self.entries@, key@);
                    lemma_lookup_push(self.entries@, p);
                }
                self.entries.push(p);
            },
        }
    }
}

} // verus!
