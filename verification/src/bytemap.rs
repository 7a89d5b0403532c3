//! A key/value store over byte-string keys, modelled as a map from key
//! bytes to value bytes. Keys are unique; lookups scan the entry list.

use vstd::prelude::*;

verus! {

/// A map from byte strings to byte strings, stored as a list of entries
/// with pairwise distinct keys.
#[derive(Debug, PartialEq, Eq)]
pub struct ByteMap {
    pub entries: Vec<(Vec<u8>, Vec<u8>)>,
}

impl View for ByteMap {
    type V = Map<Seq<u8>, Seq<u8>>;

    open spec fn view(&self) -> Map<Seq<u8>, Seq<u8>> {
        Map::new(
            |k: Seq<u8>|
                exists|i: int|
                    0 <= i < self.entries@.len() && self.entries@[i].0@ == k,
            |k: Seq<u8>|
                {
                    let i = choose|i: int|
                        0 <= i < self.entries@.len() && self.entries@[i].0@ == k;
                    self.entries@[i].1@
                },
        )
    }
}

impl ByteMap {
    /// Keys are pairwise distinct.
    pub open spec fn wf(&self) -> bool {
        forall|i: int, j: int|
            0 <= i < j < self.entries@.len() ==> self.entries@[i].0@ != self.entries@[j].0@
    }

    /// The entry at `i` is the map's value for its key.
    proof fn lemma_entry_is_value(&self, i: int)
        requires
            self.wf(),
            0 <= i < self.entries@.len(),
        ensures
            self@.contains_key(self.entries@[i].0@),
            self@[self.entries@[i].0@] == self.entries@[i].1@,
    {
        let k = self.entries@[i].0@;
        let w = choose|j: int| 0 <= j < self.entries@.len() && self.entries@[j].0@ == k;
        assert(0 <= w < self.entries@.len() && self.entries@[w].0@ == k);
        if w != i {
            if w < i {
                assert(self.entries@[w].0@ != self.entries@[i].0@);
            } else {
                assert(self.entries@[i].0@ != self.entries@[w].0@);
            }
        }
    }

    /// An empty map.
    pub fn new() -> (r: ByteMap)
        ensures
            r.wf(),
            r@ == Map::<Seq<u8>, Seq<u8>>::empty(),
            r.entries@.len() == 0,
    {
        let r = ByteMap { entries: Vec::new() };
        proof {
            assert(r@ =~= Map::<Seq<u8>, Seq<u8>>::empty());
        }
        r
    }

    /// The number of stored entries.
    pub fn len(&self) -> (r: usize)
        ensures
            r == self.entries@.len(),
    {
        self.entries.len()
    }

    /// Whether the map holds no entry.
    pub fn is_empty(&self) -> (r: bool)
        ensures
            r == (self@ =~= Map::<Seq<u8>, Seq<u8>>::empty()),
    {
        let r = self.entries.len() == 0;
        proof {
            if self.entries@.len() == 0 {
                assert(self@ =~= Map::<Seq<u8>, Seq<u8>>::empty());
            } else {
                assert(self@.contains_key(self.entries@[0].0@));
            }
        }
        r
    }

    /// Looks a key up.
    pub fn get(&self, key: &[u8]) -> (r: Option<&Vec<u8>>)
        requires
            self.wf(),
        ensures
            r is Some <==> self@.contains_key(key@),
            r is Some ==> r->0@ == self@[key@],
    {
        let n = self.entries.len();
        let mut i: usize = 0;
        while i < n
            invariant
                0 <= i <= n == self.entries@.len(),
                self.wf(),
                forall|j: int| 0 <= j < i ==> self.entries@[j].0@ != key@,
            decreases n - i,
        {
            if crate::codec::bytes_eq(self.entries[i].0.as_slice(), key) {
                proof {
                    self.lemma_entry_is_value(i as int);
                }
                return Some(&self.entries[i].1);
            }
            i = i + 1;
        }
        proof {
            if self@.contains_key(key@) {
                let w = choose|j: int|
                    0 <= j < self.entries@.len() && self.entries@[j].0@ == key@;
                assert(self.entries@[w].0@ != key@);
            }
        }
        None
    }

    /// Inserts or replaces the value for a key.
    pub fn insert(&mut self, key: Vec<u8>, value: Vec<u8>)
        requires
            old(self).wf(),
        ensures
            final(self).wf(),
            final(self)@ == old(self)@.insert(key@, value@),
            final(self).entries@.len() <= old(self).entries@.len() + 1,
    {
        let n = self.entries.len();
        let mut i: usize = 0;
        while i < n
            invariant
                0 <= i <= n == self.entries@.len(),
                *self == *old(self),
                self.wf(),
                forall|j: int| 0 <= j < i ==> self.entries@[j].0@ != key@,
            decreases n - i,
        {
            if crate::codec::bytes_eq(self.entries[i].0.as_slice(), key.as_slice()) {
                let ghost olds = *self;
                let entry = &mut self.entries[i];
                *entry = (key, value);
                proof {
                    assert(self.entries@ =~= olds.entries@.update(
                        i as int,
                        (key, value),
                    ));
                    assert(self.wf()) by {
                        assert(forall|a: int| 0 <= a < self.entries@.len() && a != i
                            ==> self.entries@[a].0@ == olds.entries@[a].0@);
                        assert(self.entries@[i as int].0@ == olds.entries@[i as int].0@);
                    }
                    assert(self@ =~= olds@.insert(key@, value@)) by {
                        assert forall|k2: Seq<u8>| #[trigger] self@.contains_key(k2) implies
                            olds@.insert(key@, value@).contains_key(k2) && self@[k2]
                                == olds@.insert(key@, value@)[k2] by {
                            let w = choose|j: int|
                                0 <= j < self.entries@.len() && self.entries@[j].0@ == k2;
                            self.lemma_entry_is_value(w);
                            if k2 == key@ {
                                if w != i {
                                    assert(olds.entries@[w].0@ == key@);
                                    assert(olds.entries@[i as int].0@ == key@);
                                }
                            } else {
                                olds.lemma_entry_is_value(w);
                            }
                        }
                        assert forall|k2: Seq<u8>|
                            #[trigger] olds@.insert(key@, value@).contains_key(k2) implies
                            self@.contains_key(k2) by {
                            if k2 == key@ {
                                assert(self.entries@[i as int].0@ == k2);
                            } else {
                                let w = choose|j: int|
                                    0 <= j < olds.entries@.len() && olds.entries@[j].0@ == k2;
                                assert(self.entries@[w].0@ == k2);
                            }
                        }
                    }
                }
                return ;
            }
            i = i + 1;
        }
        let ghost olds = *self;
        self.entries.push((key, value));
        proof {
            assert(forall|j: int| 0 <= j < olds.entries@.len() ==> self.entries@[j]
                == olds.entries@[j]);
            assert(self.wf());
            assert(self@ =~= olds@.insert(key@, value@)) by {
                assert forall|k2: Seq<u8>| #[trigger] self@.contains_key(k2) implies
                    olds@.insert(key@, value@).contains_key(k2) && self@[k2] == olds@.insert(
                    key@,
                    value@,
                )[k2] by {
                    let w = choose|j: int|
                        0 <= j < self.entries@.len() && self.entries@[j].0@ == k2;
                    self.lemma_entry_is_value(w);
                    if k2 == key@ {
                    } else {
                        assert(w < olds.entries@.len());
                        olds.lemma_entry_is_value(w);
                    }
                }
                assert forall|k2: Seq<u8>|
                    #[trigger] olds@.insert(key@, value@).contains_key(k2) implies
                    self@.contains_key(k2) by {
                    if k2 == key@ {
                        assert(self.entries@[olds.entries@.len() as int].0@ == k2);
                    } else {
                        let w = choose|j: int|
                            0 <= j < olds.entries@.len() && olds.entries@[j].0@ == k2;
                        assert(self.entries@[w].0@ == k2);
                    }
                }
            }
        }
    }

    /// A deep copy holding the same entries.
    pub fn duplicate(&self) -> (r: ByteMap)
        requires
            self.wf(),
        ensures
            r.wf(),
            r@ == self@,
            r.entries@.len() == self.entries@.len(),
    {
        let n = self.entries.len();
        let mut entries: Vec<(Vec<u8>, Vec<u8>)> = Vec::new();
        let mut i: usize = 0;
        while i < n
            invariant
                0 <= i <= n == self.entries@.len(),
                entries@.len() == i,
                forall|j: int| 0 <= j < i ==> entries@[j].0@ == self.entries@[j].0@
                    && entries@[j].1@ == self.entries@[j].1@,
            decreases n - i,
        {
            let k = crate::codec::slice_range_to_vec(
                self.entries[i].0.as_slice(),
                0,
                self.entries[i].0.len(),
            );
            let v = crate::codec::slice_range_to_vec(
                self.entries[i].1.as_slice(),
                0,
                self.entries[i].1.len(),
            );
            proof {
                assert(k@ =~= self.entries@[i as int].0@);
                assert(v@ =~= self.entries@[i as int].1@);
            }
            entries.push((k, v));
            i = i + 1;
        }
        let r = ByteMap { entries };
        proof {
            assert(r.wf());
            assert(r@ =~= self@) by {
                assert forall|k2: Seq<u8>| #[trigger] r@.contains_key(k2) implies
                    self@.contains_key(k2) && r@[k2] == self@[k2] by {
                    let w = choose|j: int|
                        0 <= j < r.entries@.len() && r.entries@[j].0@ == k2;
                    r.lemma_entry_is_value(w);
                    assert(self.entries@[w].0@ == k2);
                    self.lemma_entry_is_value(w);
                }
                assert forall|k2: Seq<u8>| #[trigger] self@.contains_key(k2) implies
                    r@.contains_key(k2) by {
                    let w = choose|j: int|
                        0 <= j < self.entries@.len() && self.entries@[j].0@ == k2;
                    assert(r.entries@[w].0@ == k2);
                }
            }
        }
        r
    }
}

} // verus!
