//! The bootstrap cache: a bounded address book of reachable peers with
//! last-success timestamps, sampled uniformly when a peer asks for
//! addresses. Entries are unique by address; inserting into a full cache
//! evicts the entry with the oldest success.

use vstd::prelude::*;

use rand::seq::IteratorRandom;

verus! {

/// A peer's socket address: a version-four address and a port.
#[derive(Clone, Copy, Debug, PartialEq, Eq, Structural)]
pub struct PeerAddr {
    pub ip: u32,
    pub port: u16,
}

/// The index of the entry for `addr`, if present.
pub open spec fn spec_find_addr(entries: Seq<(PeerAddr, u64)>, addr: PeerAddr) -> Option<int>
    decreases entries.len(),
{
    if entries.len() == 0 {
        None
    } else if entries[0].0 == addr {
        Some(0)
    } else {
        match spec_find_addr(entries.subrange(1, entries.len() as int), addr) {
            Some(i) => Some(i + 1),
            None => None,
        }
    }
}

/// A found entry index is in range and names the address.
pub proof fn lemma_find_addr_some(entries: Seq<(PeerAddr, u64)>, addr: PeerAddr)
    requires
        spec_find_addr(entries, addr) is Some,
    ensures
        0 <= spec_find_addr(entries, addr)->0 < entries.len(),
        entries[spec_find_addr(entries, addr)->0].0 == addr,
    decreases entries.len(),
{
    if entries.len() > 0 && entries[0].0 != addr {
        lemma_find_addr_some(entries.subrange(1, entries.len() as int), addr);
    }
}

/// An address present at some index is found.
pub proof fn lemma_find_addr_present(entries: Seq<(PeerAddr, u64)>, addr: PeerAddr, i: int)
    requires
        0 <= i < entries.len(),
        entries[i].0 == addr,
    ensures
        spec_find_addr(entries, addr) is Some,
    decreases entries.len(),
{
    if entries.len() > 0 && entries[0].0 != addr {
        let rest = entries.subrange(1, entries.len() as int);
        lemma_find_addr_present(rest, addr, i - 1);
    }
}

/// An absent address is absent at every index.
pub proof fn lemma_find_addr_none(entries: Seq<(PeerAddr, u64)>, addr: PeerAddr)
    requires
        spec_find_addr(entries, addr) is None,
    ensures
        forall|i: int| 0 <= i < entries.len() ==> (#[trigger] entries[i]).0 != addr,
    decreases entries.len(),
{
    if entries.len() > 0 {
        let rest = entries.subrange(1, entries.len() as int);
        lemma_find_addr_none(rest, addr);
        assert(forall|i: int| 1 <= i < entries.len() ==> entries[i] == rest[i - 1]);
    }
}

/// Relies on rand's `IteratorRandom::choose_multiple` over `0..n`: it
/// collects up to `k` iterator items, and since the iterator yields each
/// position once, the result holds `min(n, k)` distinct values below `n`.
/// Which values come back depends on the thread's generator.
#[verifier::external_body]
fn sample_indices(n: usize, k: usize) -> (r: Vec<usize>)
    ensures
        r@.len() == if n < k {
            n as int
        } else {
            k as int
        },
        forall|i: int| 0 <= i < r@.len() ==> #[trigger] r@[i] < n,
        forall|i: int, j: int| 0 <= i < j < r@.len() ==> r@[i] != r@[j],
{
    (0..n).choose_multiple(&mut rand::thread_rng(), k)
}

/// The bootstrap cache: unique peer addresses with the timestamp of the
/// last successful contact, bounded by a capacity.
#[derive(Debug)]
pub struct BootstrapCache {
    pub entries: Vec<(PeerAddr, u64)>,
    pub capacity: usize,
}

impl BootstrapCache {
    /// Well-formed: addresses are unique and the bound is kept.
    pub open spec fn wf(&self) -> bool {
        &&& forall|i: int, j: int|
            0 <= i < j < self.entries@.len() ==> (#[trigger] self.entries@[i]).0 != (
            #[trigger] self.entries@[j]).0
        &&& self.entries@.len() <= self.capacity
    }

    /// An empty cache.
    pub fn new(capacity: usize) -> (r: BootstrapCache)
        ensures
            r.wf(),
            r.entries@.len() == 0,
            r.capacity == capacity,
    {
        BootstrapCache { entries: Vec::new(), capacity }
    }

    /// The number of stored addresses.
    pub fn len(&self) -> (r: usize)
        ensures
            r == self.entries@.len(),
    {
        self.entries.len()
    }

    /// The stored entries.
    pub fn entries(&self) -> (r: &Vec<(PeerAddr, u64)>)
        ensures
            r == &self.entries,
    {
        &self.entries
    }

    fn find(&self, addr: PeerAddr) -> (r: Option<usize>)
        ensures
            r is Some <==> spec_find_addr(self.entries@, addr) is Some,
            r is Some ==> spec_find_addr(self.entries@, addr) == Some(r->0 as int) && 0 <= r->0
                < self.entries@.len() && self.entries@[r->0 as int].0 == addr,
    {
        let n = self.entries.len();
        proof {
            assert(self.entries@.subrange(0, n as int) =~= self.entries@);
            if spec_find_addr(self.entries@, addr) is Some {
                lemma_find_addr_some(self.entries@, addr);
            }
        }
        let mut i: usize = 0;
        while i < n
            invariant
                0 <= i <= n == self.entries@.len(),
                spec_find_addr(self.entries@, addr) == match spec_find_addr(
                    self.entries@.subrange(i as int, n as int),
                    addr,
                ) {
                    Some(k) => Some(k + i),
                    None => None::<int>,
                },
            decreases n - i,
        {
            proof {
                let rest = self.entries@.subrange(i as int, n as int);
                assert(rest[0] == self.entries@[i as int]);
                assert(rest.subrange(1, rest.len() as int) =~= self.entries@.subrange(
                    i + 1,
                    n as int,
                ));
            }
            if self.entries[i].0.ip == addr.ip && self.entries[i].0.port == addr.port {
                return Some(i);
            }
            i = i + 1;
        }
        proof {
            assert(self.entries@.subrange(n as int, n as int) =~= Seq::<(PeerAddr, u64)>::empty());
        }
        None
    }

    /// Whether the cache holds the address.
    pub fn contains(&self, addr: PeerAddr) -> (r: bool)
        ensures
            r == (spec_find_addr(self.entries@, addr) is Some),
    {
        match self.find(addr) {
            Some(_) => true,
            None => false,
        }
    }

    /// Inserts an address with its last-success timestamp. An address
    /// already stored is refused; a full cache first evicts the entry with
    /// the oldest success.
    pub fn insert(&mut self, addr: PeerAddr, last_success: u64) -> (r: Result<(), ()>)
        requires
            old(self).wf(),
            old(self).capacity > 0,
        ensures
            final(self).wf(),
            final(self).capacity == old(self).capacity,
            r is Err <==> spec_find_addr(old(self).entries@, addr) is Some,
            r is Err ==> final(self).entries@ == old(self).entries@,
            r is Ok ==> final(self).entries@.len() <= old(self).entries@.len() + 1
                && final(self).entries@.last() == (addr, last_success),
    {
        if self.find(addr).is_some() {
            return Err(());
        }
        proof {
            lemma_find_addr_none(self.entries@, addr);
        }
        if self.entries.len() >= self.capacity {
            // Evict the entry with the oldest success.
            let mut oldest: usize = 0;
            let mut i: usize = 1;
            let n = self.entries.len();
            while i < n
                invariant
                    0 <= oldest < i <= n == self.entries@.len(),
                    *self == *old(self),
                decreases n - i,
            {
                if self.entries[i].1 < self.entries[oldest].1 {
                    oldest = i;
                }
                i = i + 1;
            }
            let ghost pre = self.entries@;
            self.entries.remove(oldest);
            proof {
                assert(forall|a: int|
                    0 <= a < self.entries@.len() ==> #[trigger] self.entries@[a] == (if a
                        < oldest {
                        pre[a]
                    } else {
                        pre[a + 1]
                    }));
                assert forall|a: int, b: int| 0 <= a < b < self.entries@.len() implies (
                #[trigger] self.entries@[a]).0 != (#[trigger] self.entries@[b]).0 by {
                    let a2 = if a < oldest {
                        a
                    } else {
                        a + 1
                    };
                    let b2 = if b < oldest {
                        b
                    } else {
                        b + 1
                    };
                    assert(pre[a2] == self.entries@[a] && pre[b2] == self.entries@[b]);
                }
                assert forall|i2: int| 0 <= i2 < self.entries@.len() implies (
                #[trigger] self.entries@[i2]).0 != addr by {
                    let i3 = if i2 < oldest {
                        i2
                    } else {
                        i2 + 1
                    };
                    assert(pre[i3] == self.entries@[i2]);
                }
            }
        }
        let ghost pre = self.entries@;
        self.entries.push((addr, last_success));
        proof {
            assert(forall|j: int| 0 <= j < pre.len() ==> self.entries@[j] == pre[j]);
        }
        Ok(())
    }

    /// Removes the entry for an address, if present.
    pub fn remove(&mut self, addr: PeerAddr)
        requires
            old(self).wf(),
        ensures
            final(self).wf(),
            final(self).capacity == old(self).capacity,
            spec_find_addr(final(self).entries@, addr) is None,
            final(self).entries@.len() >= old(self).entries@.len() - 1,
    {
        let i = match self.find(addr) {
            Some(i) => i,
            None => {
                return ;
            },
        };
        let ghost pre = self.entries@;
        self.entries.remove(i);
        proof {
            assert(forall|a: int|
                0 <= a < self.entries@.len() ==> #[trigger] self.entries@[a] == (if a < i {
                    pre[a]
                } else {
                    pre[a + 1]
                }));
            assert forall|a: int, b: int| 0 <= a < b < self.entries@.len() implies (
            #[trigger] self.entries@[a]).0 != (#[trigger] self.entries@[b]).0 by {
                let a2 = if a < i {
                    a
                } else {
                    a + 1
                };
                let b2 = if b < i {
                    b
                } else {
                    b + 1
                };
                assert(pre[a2] == self.entries@[a] && pre[b2] == self.entries@[b]);
            }
            if spec_find_addr(self.entries@, addr) is Some {
                lemma_find_addr_some(self.entries@, addr);
                let w = spec_find_addr(self.entries@, addr)->0;
                let w2 = if w < i {
                    w
                } else {
                    w + 1
                };
                assert(pre[w2] == self.entries@[w]);
                if w2 < i {
                    assert(pre[w2].0 != pre[i as int].0);
                } else if w2 > i {
                    assert(pre[i as int].0 != pre[w2].0);
                }
            }
        }
    }

    /// Up to `n` addresses chosen uniformly without replacement. The
    /// sample's addresses all come from the cache and are pairwise
    /// distinct; which come back depends on the generator.
    pub fn sample(&self, n: usize) -> (r: Vec<PeerAddr>)
        requires
            self.wf(),
        ensures
            r@.len() == if self.entries@.len() < n {
                self.entries@.len() as int
            } else {
                n as int
            },
            forall|k: int|
                0 <= k < r@.len() ==> spec_find_addr(self.entries@, #[trigger] r@[k]) is Some,
            forall|a: int, b: int| 0 <= a < b < r@.len() ==> r@[a] != r@[b],
    {
        let indices = sample_indices(self.entries.len(), n);
        let mut r: Vec<PeerAddr> = Vec::new();
        let mut k: usize = 0;
        while k < indices.len()
            invariant
                0 <= k <= indices@.len(),
                r@.len() == k,
                self.wf(),
                forall|i: int| 0 <= i < indices@.len() ==> #[trigger] indices@[i]
                    < self.entries@.len(),
                forall|a: int, b: int| 0 <= a < b < indices@.len() ==> indices@[a] != indices@[b],
                forall|a: int|
                    0 <= a < k ==> #[trigger] r@[a] == self.entries@[indices@[a] as int].0,
            decreases indices@.len() - k,
        {
            r.push(self.entries[indices[k]].0);
            k = k + 1;
        }
        proof {
            assert forall|k: int| 0 <= k < r@.len() implies spec_find_addr(
                self.entries@,
                #[trigger] r@[k],
            ) is Some by {
                let w = indices@[k] as int;
                assert(0 <= w < self.entries@.len() && r@[k] == self.entries@[w].0);
                lemma_find_addr_present(self.entries@, r@[k], w);
            }
            assert forall|a: int, b: int| 0 <= a < b < r@.len() implies r@[a] != r@[b] by {
                assert(r@[a] == self.entries@[indices@[a] as int].0);
                assert(r@[b] == self.entries@[indices@[b] as int].0);
                if indices@[a] < indices@[b] {
                    assert(self.entries@[indices@[a] as int].0 != self.entries@[indices@[b] as int].0);
                } else {
                    assert(self.entries@[indices@[b] as int].0 != self.entries@[indices@[a] as int].0);
                }
            }
        }
        r
    }
}

} // verus!
