//! An in-memory model of the credential store's contract: set, get and
//! delete of a secret by key, with absence a recoverable condition. The
//! vault's key scheme is stated and exercised against this model; the
//! platform store itself is reached through the vault's trusted wrappers.

use vstd::prelude::*;
use vstd::string::StringExecFns;
use crate::pairs::lemma_mapping_at;
use crate::pairs::lemma_mapping_contains;
use crate::pairs::lemma_mapping_push;
use crate::pairs::lemma_mapping_remove;
use crate::pairs::lemma_mapping_update;
use crate::pairs::mapping_of_pairs;
use crate::pairs::unique_names;
use crate::text::str_eq_chars;

verus! {

/// A credential store with known contents: a mapping from entry key to
/// stored secret.
#[derive(Debug)]
pub struct StoreModel {
    entries: Vec<(String, String)>,
}

impl StoreModel {
    /// The key/secret pairs, as character sequences.
    pub closed spec fn pair_seq(self) -> Seq<(Seq<char>, Seq<char>)> {
        self.entries@.map_values(|p: (String, String)| (p.0@, p.1@))
    }

    /// Each key occurs at most once.
    pub open spec fn wf(self) -> bool {
        unique_names(self.pair_seq())
    }

    /// The mapping the store holds.
    pub open spec fn as_mapping(self) -> Map<Seq<char>, Seq<char>> {
        mapping_of_pairs(self.pair_seq())
    }

    /// An empty store.
    pub fn new() -> (r: StoreModel)
        ensures
            r.wf(),
            r.as_mapping() == Map::<Seq<char>, Seq<char>>::empty(),
    {
        let r = StoreModel { entries: Vec::new() };
        proof {
            assert(r.pair_seq() =~= Seq::<(Seq<char>, Seq<char>)>::empty());
        }
        r
    }

    /// The index of the entry under `key`, if one exists.
    fn position_of(&self, key: &str) -> (r: Option<usize>)
        ensures
            match r {
                Some(i) => 0 <= i < self.pair_seq().len() && self.pair_seq()[i as int].0 == key@
                    && forall|j: int| 0 <= j < i ==> self.pair_seq()[j].0 != key@,
                None => forall|j: int|
                    0 <= j < self.pair_seq().len() ==> self.pair_seq()[j].0 != key@,
            },
    {
        let n: usize = self.entries.len();
        let mut i: usize = 0;
        while i < n
            invariant
                n == self.entries.len(),
                0 <= i <= n,
                forall|j: int| 0 <= j < i ==> self.pair_seq()[j].0 != key@,
            decreases n - i,
        {
            if str_eq_chars(self.entries[i].0.as_str(), key) {
                return Some(i);
            }
            i = i + 1;
        }
        None
    }

    /// Store `value` under `key`, replacing any earlier secret there.
    pub fn set(&mut self, key: String, value: String)
        requires
            old(self).wf(),
        ensures
            final(self).wf(),
            final(self).as_mapping() == old(self).as_mapping().insert(key@, value@),
    {
        let ghost kv = key@;
        let ghost vv = value@;
        let ghost ps0 = self.pair_seq();
        match self.position_of(key.as_str()) {
            Some(i) => {
                self.entries.remove(i);
                self.entries.insert(i, (key, value));
                proof {
                    assert(self.pair_seq() =~= ps0.update(i as int, (kv, vv)));
                    lemma_mapping_update(ps0, i as int, vv);
                    assert forall|a: int, b: int|
                        0 <= a < b < self.pair_seq().len() implies self.pair_seq()[a].0
                        != self.pair_seq()[b].0 by {
                        assert(self.pair_seq()[a].0 == ps0[a].0);
                        assert(self.pair_seq()[b].0 == ps0[b].0);
                    }
                }
            },
            None => {
                self.entries.push((key, value));
                proof {
                    assert(self.pair_seq() =~= ps0.push((kv, vv)));
                    lemma_mapping_push(ps0, (kv, vv));
                    assert forall|a: int, b: int|
                        0 <= a < b < self.pair_seq().len() implies self.pair_seq()[a].0
                        != self.pair_seq()[b].0 by {
                        if b < ps0.len() {
                            assert(self.pair_seq()[a].0 == ps0[a].0);
                            assert(self.pair_seq()[b].0 == ps0[b].0);
                        } else {
                            assert(self.pair_seq()[a].0 == ps0[a].0);
                            assert(self.pair_seq()[b] == (kv, vv));
                        }
                    }
                }
            },
        }
    }

    /// The secret under `key`, if one is stored; absence is an answer, not
    /// a failure.
    pub fn get<'a>(&'a self, key: &str) -> (r: Option<&'a String>)
        requires
            self.wf(),
        ensures
            match r {
                Some(v) => self.as_mapping().dom().contains(key@) && v@ == self.as_mapping()[key@],
                None => !self.as_mapping().dom().contains(key@),
            },
    {
        match self.position_of(key) {
            Some(i) => {
                proof {
                    lemma_mapping_at(self.pair_seq(), i as int);
                }
                Some(&self.entries[i].1)
            },
            None => {
                proof {
                    lemma_mapping_contains(self.pair_seq(), key@);
                }
                None
            },
        }
    }

    /// Remove the entry under `key`; removing an absent key changes
    /// nothing and is no failure.
    pub fn remove(&mut self, key: &str)
        requires
            old(self).wf(),
        ensures
            final(self).wf(),
            final(self).as_mapping() == old(self).as_mapping().remove(key@),
    {
        let ghost ps0 = self.pair_seq();
        match self.position_of(key) {
            Some(i) => {
                self.entries.remove(i);
                proof {
                    assert(self.pair_seq() =~= ps0.remove(i as int));
                    lemma_mapping_remove(ps0, i as int);
                    assert forall|a: int, b: int|
                        0 <= a < b < self.pair_seq().len() implies self.pair_seq()[a].0
                        != self.pair_seq()[b].0 by {
                        let pa: int = if a < i { a } else { a + 1 };
                        let pb: int = if b < i { b } else { b + 1 };
                        assert(self.pair_seq()[a].0 == ps0[pa].0);
                        assert(self.pair_seq()[b].0 == ps0[pb].0);
                    }
                }
            },
            None => {
                proof {
                    lemma_mapping_contains(ps0, key@);
                    assert(mapping_of_pairs(ps0).remove(key@) =~= mapping_of_pairs(ps0));
                }
            },
        }
    }
}

} // verus!
