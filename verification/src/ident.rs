//! Interned identifiers.
//!
//! Every name-keyed table in the runtime is keyed by a small integer id
//! issued by this table; the runtime never stores raw text in a table key.

use vstd::prelude::*;

verus! {

/// An interned identifier: an index into the identifier table.
#[derive(Clone, Copy, Debug, PartialEq, Eq, Hash, Structural)]
pub struct IdentId(pub u32);

impl IdentId {
    /// Builds an identifier from its raw index.
    pub fn from(id: u32) -> (r: IdentId)
        ensures
            r == (IdentId(id)),
    {
        IdentId(id)
    }

    pub fn to_u32(self) -> (r: u32)
        ensures
            r == self.0,
    {
        self.0
    }
}

/// Bidirectional intern table: a name resolves to the index of its first
/// occurrence, and an index resolves back to the name.
#[derive(Debug, Clone)]
pub struct IdentTable {
    pub names: Vec<String>,
}

impl IdentTable {
    /// The table never holds the same name twice, and ids fit in `u32`.
    pub open spec fn wf(self) -> bool {
        &&& forall|i: int, j: int|
            0 <= i < j < self.names.len() ==> self.names[i]@ != self.names[j]@
        &&& self.names.len() <= 0x8000_0000
    }

    pub open spec fn spec_name(self, id: IdentId) -> Seq<char> {
        self.names[id.0 as int]@
    }

    pub open spec fn valid_id(self, id: IdentId) -> bool {
        id.0 < self.names.len()
    }

    pub fn new() -> (r: IdentTable)
        ensures
            r.wf(),
            r.names@.len() == 0,
    {
        IdentTable { names: Vec::new() }
    }

    /// Interns `name`: returns the id of its first occurrence, extending the
    /// table only when the name is new.
    pub fn get_ident_id(&mut self, name: &str) -> (r: IdentId)
        requires
            old(self).wf(),
            old(self).names.len() < 0x8000_0000,
        ensures
            final(self).wf(),
            final(self).valid_id(r),
            final(self).spec_name(r) == name@,
            forall|j: int| 0 <= j < r.0 ==> final(self).names[j]@ != name@,
            old(self).contains_name(name@) ==> final(self).names@ == old(self).names@,
            !old(self).contains_name(name@) ==> final(self).names@.len() == old(
                self,
            ).names@.len() + 1 && forall|j: int|
                0 <= j < old(self).names@.len() ==> final(self).names[j]@ == old(self).names[j]@,
    {
        let owned: String = name.to_owned();
        match self.find_name(&owned) {
            Some(i) => {
                proof {
                    assert(old(self).contains_name(name@)) by {
                        assert(old(self).names[i as int]@ == name@);
                    }
                }
                IdentId(i as u32)
            },
            None => {
                let n = self.names.len();
                self.names.push(owned);
                IdentId(n as u32)
            },
        }
    }

    /// The index of the first occurrence of `name`, if interned.
    fn find_name(&self, name: &String) -> (r: Option<usize>)
        ensures
            match r {
                Some(i) => i < self.names.len() && self.names[i as int]@ == name@ && forall|j: int|
                    0 <= j < i ==> self.names[j]@ != name@,
                None => forall|j: int| 0 <= j < self.names.len() ==> self.names[j]@ != name@,
            },
    {
        let n = self.names.len();
        let mut i: usize = 0;
        while i < n
            invariant
                n == self.names.len(),
                i <= n,
                forall|j: int| 0 <= j < i ==> self.names[j]@ != name@,
            decreases n - i,
        {
            if self.names[i] == *name {
                return Some(i);
            }
            i += 1;
        }
        None
    }

    pub open spec fn contains_name(self, s: Seq<char>) -> bool {
        exists|j: int| 0 <= j < self.names.len() && self.names[j]@ == s
    }

    /// Resolves an id back to the interned name.
    pub fn get_ident_name(&self, id: IdentId) -> (r: &String)
        requires
            self.valid_id(id),
        ensures
            r@ == self.spec_name(id),
    {
        &self.names[id.0 as usize]
    }
}

} // verus!
