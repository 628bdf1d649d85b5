//! Identifier-keyed association tables.
//!
//! Method tables, constant tables and instance-variable tables all map an
//! interned identifier to a copyable payload.  Entries keep insertion order,
//! keys are unique, and redefinition overwrites in place.

use vstd::prelude::*;
use crate::ident::IdentId;

verus! {

/// Spec-level lookup in an entry sequence: the first matching key wins.
pub open spec fn entries_get<T>(s: Seq<(IdentId, T)>, id: IdentId) -> Option<T>
    decreases s.len(),
{
    if s.len() == 0 {
        None
    } else if s[0].0 == id {
        Some(s[0].1)
    } else {
        entries_get(s.drop_first(), id)
    }
}

pub proof fn lemma_entries_get_skip<T>(s: Seq<(IdentId, T)>, n: int, id: IdentId)
    requires
        0 <= n <= s.len(),
        forall|j: int| 0 <= j < n ==> s[j].0 != id,
    ensures
        entries_get(s, id) == entries_get(s.skip(n), id),
    decreases n,
{
    if n > 0 {
        assert(s.drop_first().skip(n - 1) =~= s.skip(n));
        lemma_entries_get_skip(s.drop_first(), n - 1, id);
    } else {
        assert(s.skip(0) =~= s);
    }
}

pub proof fn lemma_entries_get_found<T>(s: Seq<(IdentId, T)>, n: int, id: IdentId)
    requires
        0 <= n < s.len(),
        forall|j: int| 0 <= j < n ==> s[j].0 != id,
        s[n].0 == id,
    ensures
        entries_get(s, id) == Some(s[n].1),
{
    lemma_entries_get_skip(s, n, id);
    assert(s.skip(n)[0] == s[n]);
}

pub proof fn lemma_entries_get_none<T>(s: Seq<(IdentId, T)>, id: IdentId)
    requires
        forall|j: int| 0 <= j < s.len() ==> s[j].0 != id,
    ensures
        entries_get(s, id) is None,
{
    lemma_entries_get_skip(s, s.len() as int, id);
    assert(s.skip(s.len() as int) =~= Seq::<(IdentId, T)>::empty());
}

pub proof fn lemma_entries_get_update_other<T>(s: Seq<(IdentId, T)>, n: int, p: (IdentId, T), k: IdentId)
    requires
        0 <= n < s.len(),
        s[n].0 == p.0,
        k != p.0,
    ensures
        entries_get(s.update(n, p), k) == entries_get(s, k),
    decreases s.len(),
{
    if n == 0 {
        assert(s.update(0, p).drop_first() =~= s.drop_first());
    } else {
        assert(s.update(n, p).drop_first() =~= s.drop_first().update(n - 1, p));
        lemma_entries_get_update_other(s.drop_first(), n - 1, p, k);
    }
}

pub proof fn lemma_entries_get_push_other<T>(s: Seq<(IdentId, T)>, p: (IdentId, T), k: IdentId)
    requires
        k != p.0,
    ensures
        entries_get(s.push(p), k) == entries_get(s, k),
    decreases s.len(),
{
    reveal_with_fuel(entries_get, 2);
    assert(s.push(p)[0] == if s.len() == 0 { p } else { s[0] });
    if s.len() == 0 {
        assert(s.push(p).drop_first() =~= Seq::<(IdentId, T)>::empty());
    } else {
        assert(s.push(p).drop_first() =~= s.drop_first().push(p));
        lemma_entries_get_push_other(s.drop_first(), p, k);
    }
}

/// An insertion-ordered table from identifiers to copyable payloads.
#[derive(Debug, Clone, PartialEq)]
#[verifier::ext_equal]
pub struct IdMap<T: Copy> {
    pub entries: Vec<(IdentId, T)>,
}

impl<T: Copy> IdMap<T> {
    /// Keys are unique, so the first match is the only match.
    pub open spec fn wf(self) -> bool {
        forall|i: int, j: int|
            0 <= i < j < self.entries.len() ==> self.entries[i].0 != self.entries[j].0
    }

    pub open spec fn spec_get(self, id: IdentId) -> Option<T> {
        entries_get(self.entries@, id)
    }

    pub open spec fn spec_contains(self, id: IdentId) -> bool {
        entries_get(self.entries@, id) is Some
    }

    /// The keys, in insertion order.
    pub open spec fn spec_keys(self) -> Seq<IdentId> {
        self.entries@.map(|i: int, e: (IdentId, T)| e.0)
    }

    pub fn new() -> (r: IdMap<T>)
        ensures
            r.wf(),
            r.entries@.len() == 0,
            forall|id: IdentId| r.spec_get(id) is None,
    {
        IdMap { entries: Vec::new() }
    }

    pub fn len(&self) -> (r: usize)
        ensures
            r == self.entries@.len(),
    {
        self.entries.len()
    }

    pub fn get(&self, id: IdentId) -> (r: Option<T>)
        requires
            self.wf(),
        ensures
            r == self.spec_get(id),
    {
        let n = self.entries.len();
        let mut i: usize = 0;
        while i < n
            invariant
                n == self.entries.len(),
                forall|j: int| 0 <= j < i ==> self.entries[j].0 != id,
            decreases n - i,
        {
            if self.entries[i].0 == id {
                proof {
                    lemma_entries_get_found(self.entries@, i as int, id);
                }
                return Some(self.entries[i].1);
            }
            i += 1;
        }
        proof {
            lemma_entries_get_none(self.entries@, id);
        }
        None
    }

    /// Inserts or overwrites; existing entries keep their position, a new
    /// key is appended.
    pub fn insert(&mut self, id: IdentId, val: T)
        requires
            old(self).wf(),
        ensures
            final(self).wf(),
            final(self).spec_get(id) == Some(val),
            forall|k: IdentId| k != id ==> final(self).spec_get(k) == old(self).spec_get(k),
            old(self).spec_contains(id) ==> final(self).spec_keys() == old(self).spec_keys()
                && final(self).entries@.len() == old(self).entries@.len(),
            !old(self).spec_contains(id) ==> final(self).spec_keys() == old(
                self,
            ).spec_keys().push(id) && final(self).entries@ == old(self).entries@.push((id, val)),
            forall|j: int|
                0 <= j < final(self).entries@.len() ==> (#[trigger] final(self).entries@[j]) == old(
                    self,
                ).entries@[j] || final(self).entries@[j] == (id, val),
    {
        match self.find_idx(id) {
            Some(i) => {
                proof {
                    lemma_entries_get_found(self.entries@, i as int, id);
                    lemma_entries_get_found(self.entries@.update(i as int, (id, val)), i as int, id);
                    assert forall|k: IdentId| k != id implies entries_get(
                        self.entries@.update(i as int, (id, val)),
                        k,
                    ) == entries_get(self.entries@, k) by {
                        lemma_entries_get_update_other(self.entries@, i as int, (id, val), k);
                    }
                }
                self.entries[i] = (id, val);
                proof {
                    assert forall|j: int|
                        0 <= j < self.entries@.len() implies self.entries@[j].0 == old(
                        self,
                    ).entries@[j].0 by {}
                    assert(self.spec_keys() =~= old(self).spec_keys());
                }
            },
            None => {
                proof {
                    lemma_entries_get_none(self.entries@, id);
                    lemma_entries_get_found(
                        self.entries@.push((id, val)),
                        self.entries@.len() as int,
                        id,
                    );
                    assert forall|k: IdentId| k != id implies entries_get(
                        self.entries@.push((id, val)),
                        k,
                    ) == entries_get(self.entries@, k) by {
                        lemma_entries_get_push_other(self.entries@, (id, val), k);
                    }
                }
                self.entries.push((id, val));
                proof {
                    assert(self.spec_keys() =~= old(self).spec_keys().push(id));
                }
            },
        }
    }

    /// The index of the entry holding `id`, if any.
    fn find_idx(&self, id: IdentId) -> (r: Option<usize>)
        ensures
            match r {
                Some(i) => i < self.entries@.len() && self.entries@[i as int].0 == id && forall|
                    j: int,
                |
                    0 <= j < i ==> self.entries@[j].0 != id,
                None => forall|j: int| 0 <= j < self.entries@.len() ==> self.entries@[j].0 != id,
            },
    {
        let n = self.entries.len();
        let mut i: usize = 0;
        while i < n
            invariant
                n == self.entries.len(),
                i <= n,
                forall|j: int| 0 <= j < i ==> self.entries[j].0 != id,
            decreases n - i,
        {
            if self.entries[i].0 == id {
                return Some(i);
            }
            i += 1;
        }
        None
    }

    /// The keys in insertion order, as a fresh vector.
    pub fn keys(&self) -> (r: Vec<IdentId>)
        ensures
            r@ == self.spec_keys(),
    {
        let n = self.entries.len();
        let mut out: Vec<IdentId> = Vec::new();
        let mut i: usize = 0;
        while i < n
            invariant
                n == self.entries.len(),
                i <= n,
                out@ == self.entries@.take(i as int).map(|j: int, e: (IdentId, T)| e.0),
            decreases n - i,
        {
            out.push(self.entries[i].0);
            proof {
                assert(self.entries@.take(i as int + 1).map(|j: int, e: (IdentId, T)| e.0)
                    =~= self.entries@.take(i as int).map(|j: int, e: (IdentId, T)| e.0).push(
                    self.entries[i as int].0,
                ));
            }
            i += 1;
        }
        proof {
            assert(self.entries@.take(n as int) =~= self.entries@);
        }
        out
    }
}

} // verus!
