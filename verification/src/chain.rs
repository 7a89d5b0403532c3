//! The hard chain: the append-only chain of canonical state-transition
//! blocks that reshape the validator pool, together with the account-state
//! trie its transactions act on. Appends are linearized: a block must name
//! the current top as its parent, the active validator era must be closed,
//! and its transactions must all validate and apply; any failure rolls the
//! trie back and leaves the chain unchanged.

use vstd::prelude::*;

use crate::change_minter::{
    spec_apply, spec_cm_to_bytes, spec_validate, ChangeMinter, ChangeMinterV,
};
use crate::codec::be_bytes;
use crate::crypto::hash_bytes;
use crate::trie::Trie;

verus! {

/// Why an append was refused.
#[derive(Clone, Copy, Debug, PartialEq, Eq, Structural)]
pub enum ChainErr {
    /// The block names no parent and the chain is not empty.
    NoParentHash,
    /// The block's parent is not the current top.
    InvalidParent,
    /// The block's height does not follow the top's.
    InvalidHeight,
    /// The active validator era has not been closed.
    ValidatorEraNotClosed,
    /// A transaction failed to validate or apply; the trie was rolled
    /// back.
    TxApplyFailed,
}

/// A block of the hard chain: the parent reference (absent only for
/// genesis), the hash of the validator-pool delta it carries, a timestamp,
/// and its transactions.
#[derive(Clone, Debug, PartialEq)]
pub struct HardBlock {
    /// The hash of the parent block; `None` only for the genesis block.
    pub parent_hash: Option<crate::crypto::Hash>,
    /// The hash of the validator-pool delta this block applies.
    pub validator_delta_hash: crate::crypto::Hash,
    /// The block's timestamp.
    pub timestamp: u64,
    /// The block's transactions, applied in order.
    pub txs: Vec<ChangeMinter>,
}

/// The mathematical content of a hard block.
pub struct HardBlockV {
    pub parent_hash: Option<Seq<u8>>,
    pub validator_delta_hash: Seq<u8>,
    pub timestamp: u64,
    pub txs: Seq<ChangeMinterV>,
}

impl View for HardBlock {
    type V = HardBlockV;

    open spec fn view(&self) -> HardBlockV {
        HardBlockV {
            parent_hash: match self.parent_hash {
                Some(h) => Some(h@),
                None => None,
            },
            validator_delta_hash: self.validator_delta_hash@,
            timestamp: self.timestamp,
            txs: Seq::new(self.txs@.len(), |i: int| self.txs@[i]@),
        }
    }
}

/// The length-prefixed serialization of a transaction list.
pub open spec fn spec_txs_bytes(txs: Seq<ChangeMinterV>) -> Seq<u8>
    decreases txs.len(),
{
    if txs.len() == 0 {
        Seq::empty()
    } else {
        spec_txs_bytes(txs.drop_last()) + be_bytes(
            spec_cm_to_bytes(txs.last()).len() as int,
            8,
        ) + spec_cm_to_bytes(txs.last())
    }
}

/// The canonical byte encoding of a hard block: a parent flag byte, the
/// parent hash when present, the validator-delta hash, the big-endian
/// timestamp, the transaction count, and the length-prefixed transactions.
pub open spec fn spec_hb_to_bytes(b: HardBlockV) -> Seq<u8> {
    let parent: Seq<u8> = match b.parent_hash {
        Some(h) => seq![1u8] + h,
        None => seq![0u8],
    };
    parent + b.validator_delta_hash + be_bytes(b.timestamp as int, 8) + be_bytes(
        b.txs.len() as int,
        8,
    ) + spec_txs_bytes(b.txs)
}

/// The hash a block is referred to by: the digest of its canonical bytes.
pub open spec fn spec_block_hash(b: HardBlockV) -> Seq<u8> {
    hash_bytes(spec_hb_to_bytes(b))
}

impl HardBlock {
    /// Well-formed: hashes have their sizes and every transaction is
    /// well-formed and signed.
    pub open spec fn wf(&self) -> bool {
        &&& match self.parent_hash {
            Some(h) => h.wf(),
            None => true,
        }
        &&& self.validator_delta_hash.wf()
        &&& forall|i: int|
            0 <= i < self.txs@.len() ==> (#[trigger] self.txs@[i]).wf() && self.txs@[i].signature
                is Some
    }

    /// A new block on the given parent.
    pub fn new(
        parent_hash: Option<crate::crypto::Hash>,
        validator_delta_hash: crate::crypto::Hash,
        timestamp: u64,
        txs: Vec<ChangeMinter>,
    ) -> (r: HardBlock)
        ensures
            r == (HardBlock { parent_hash, validator_delta_hash, timestamp, txs }),
    {
        HardBlock { parent_hash, validator_delta_hash, timestamp, txs }
    }

    /// Serializes the block to its canonical byte encoding.
    pub fn to_bytes(&self) -> (r: Vec<u8>)
        requires
            self.wf(),
        ensures
            r@ == spec_hb_to_bytes(self@),
    {
        let mut buf: Vec<u8> = Vec::new();
        match &self.parent_hash {
            Some(h) => {
                buf.push(1);
                crate::codec::extend_bytes(&mut buf, h.bytes.as_slice());
            },
            None => {
                buf.push(0);
            },
        }
        crate::codec::extend_bytes(&mut buf, self.validator_delta_hash.bytes.as_slice());
        let ts = crate::codec::encode_be_u64(self.timestamp);
        crate::codec::extend_bytes(&mut buf, ts.as_slice());
        let count = crate::codec::encode_be_u64(self.txs.len() as u64);
        crate::codec::extend_bytes(&mut buf, count.as_slice());
        let n = self.txs.len();
        let mut i: usize = 0;
        let ghost header = buf@;
        while i < n
            invariant
                0 <= i <= n == self.txs@.len(),
                self.wf(),
                buf@ == header + spec_txs_bytes(self@.txs.subrange(0, i as int)),
            decreases n - i,
        {
            let tx_bytes = match self.txs[i].to_bytes() {
                Ok(b) => b,
                Err(_) => {
                    proof {
                        assert(false);
                    }
                    Vec::new()
                },
            };
            let tx_len = crate::codec::encode_be_u64(tx_bytes.len() as u64);
            crate::codec::extend_bytes(&mut buf, tx_len.as_slice());
            crate::codec::extend_bytes(&mut buf, tx_bytes.as_slice());
            proof {
                let pre = self@.txs.subrange(0, i + 1);
                assert(pre.drop_last() =~= self@.txs.subrange(0, i as int));
                assert(pre.last() == self@.txs[i as int]);
            }
            i = i + 1;
        }
        proof {
            assert(self@.txs.subrange(0, n as int) =~= self@.txs);
            assert(header + spec_txs_bytes(self@.txs) =~= spec_hb_to_bytes(self@));
        }
        buf
    }

    /// The block's hash: the digest of its canonical bytes.
    pub fn block_hash(&self) -> (r: crate::crypto::Hash)
        requires
            self.wf(),
        ensures
            r@ == spec_block_hash(self@),
            r.wf(),
    {
        let bytes = self.to_bytes();
        crate::crypto::hash_slice(bytes.as_slice())
    }
}

/// The trie after validating and applying each transaction in order, or
/// `None` as soon as one fails to validate.
pub open spec fn spec_chain_apply_txs(m: Map<Seq<u8>, Seq<u8>>, txs: Seq<ChangeMinterV>) -> Option<
    Map<Seq<u8>, Seq<u8>>,
>
    decreases txs.len(),
{
    if txs.len() == 0 {
        Some(m)
    } else if spec_validate(txs[0], m) {
        spec_chain_apply_txs(spec_apply(txs[0], m), txs.subrange(1, txs.len() as int))
    } else {
        None
    }
}

/// How many recently queried blocks the lookup cache holds.
pub const BLOCK_CACHE_SIZE: usize = 20;

/// A lookup-cache entry is consistent with the block list: it names the
/// lowest height whose block carries its hash. Blocks are immutable, so an
/// entry is invalidated only by eviction.
pub open spec fn cache_entry_ok(blocks: Seq<HardBlock>, e: (Vec<u8>, u64)) -> bool {
    &&& e.1 < blocks.len()
    &&& e.0@ == spec_block_hash(blocks[e.1 as int]@)
    &&& forall|j: int| 0 <= j < e.1 ==> spec_block_hash(#[trigger] blocks[j]@) != e.0@
}

/// The hard chain: the linked block list, the account-state trie, the
/// validator-era flag supplied by the consensus collaborator, and the
/// bounded cache of the most recently queried block hashes.
pub struct HardChain {
    /// The canonical branch, genesis first.
    pub blocks: Vec<HardBlock>,
    /// The account state the chain's transactions act on.
    pub trie: Trie,
    /// Whether the active validator era is closed; the next hard block may
    /// be appended only then.
    pub era_closed: bool,
    /// The hashes of the most recently queried blocks, most recent first,
    /// each with the height it resolved to.
    pub block_cache: Vec<(Vec<u8>, u64)>,
}

impl HardChain {
    /// Well-formed: the trie and every block are well-formed, the genesis
    /// block has no parent, and every later block names its predecessor's
    /// hash as parent.
    pub open spec fn wf(&self) -> bool {
        &&& self.trie.wf()
        &&& forall|i: int| 0 <= i < self.blocks@.len() ==> (#[trigger] self.blocks@[i]).wf()
        &&& self.blocks@.len() > 0 ==> self.blocks@[0].parent_hash is None
        &&& forall|i: int|
            1 <= i < self.blocks@.len() ==> (#[trigger] self.blocks@[i])@.parent_hash == Some(
                spec_block_hash(self.blocks@[i - 1]@),
            )
        &&& self.block_cache@.len() <= BLOCK_CACHE_SIZE
        &&& forall|k: int|
            0 <= k < self.block_cache@.len() ==> cache_entry_ok(
                self.blocks@,
                #[trigger] self.block_cache@[k],
            )
    }

    /// An empty chain over an empty trie; the genesis era counts as
    /// closed.
    pub fn new() -> (r: HardChain)
        ensures
            r.wf(),
            r.blocks@.len() == 0,
            r.trie@ == Map::<Seq<u8>, Seq<u8>>::empty(),
            r.era_closed,
    {
        HardChain {
            blocks: Vec::new(),
            trie: Trie::new(),
            era_closed: true,
            block_cache: Vec::new(),
        }
    }

    /// The current height: the number of appended blocks.
    pub fn height(&self) -> (r: u64)
        requires
            self.blocks@.len() <= u64::MAX,
        ensures
            r == self.blocks@.len(),
    {
        self.blocks.len() as u64
    }

    /// The topmost block, if the chain holds one.
    pub fn top(&self) -> (r: Option<&HardBlock>)
        ensures
            r is Some <==> self.blocks@.len() > 0,
            r is Some ==> *r->0 == self.blocks@.last(),
    {
        if self.blocks.len() == 0 {
            None
        } else {
            Some(&self.blocks[self.blocks.len() - 1])
        }
    }

    /// The genesis block, if the chain holds one.
    pub fn genesis(&self) -> (r: Option<&HardBlock>)
        ensures
            r is Some <==> self.blocks@.len() > 0,
            r is Some ==> *r->0 == self.blocks@[0],
    {
        if self.blocks.len() == 0 {
            None
        } else {
            Some(&self.blocks[0])
        }
    }

    /// The block at the given height, counted from the genesis block.
    pub fn query_by_height(&self, height: u64) -> (r: Option<&HardBlock>)
        ensures
            r is Some <==> height < self.blocks@.len(),
            r is Some ==> *r->0 == self.blocks@[height as int],
    {
        if height < self.blocks.len() as u64 {
            Some(&self.blocks[height as usize])
        } else {
            None
        }
    }

    /// The height of the block with the given hash: the lowest height
    /// whose block hashes to it.
    #[verifier::rlimit(50)]
    pub fn block_height(&self, hash: &crate::crypto::Hash) -> (r: Option<u64>)
        requires
            self.wf(),
            self.blocks@.len() <= u64::MAX,
        ensures
            r is Some <==> (exists|i: int|
                0 <= i < self.blocks@.len() && spec_block_hash(self.blocks@[i]@) == hash@),
            r is Some ==> 0 <= r->0 < self.blocks@.len() && spec_block_hash(
                self.blocks@[r->0 as int]@,
            ) == hash@ && (forall|j: int|
                0 <= j < r->0 ==> spec_block_hash(#[trigger] self.blocks@[j]@) != hash@),
    {
        let n = self.blocks.len();
        let mut i: usize = 0;
        while i < n
            invariant
                0 <= i <= n == self.blocks@.len(),
                self.wf(),
                n <= u64::MAX,
                forall|j: int|
                    0 <= j < i ==> spec_block_hash(#[trigger] self.blocks@[j]@) != hash@,
            decreases n - i,
        {
            let h = self.blocks[i].block_hash();
            if h.eq_hash(hash) {
                return Some(i as u64);
            }
            i = i + 1;
        }
        None
    }

    /// The height of the block with the given hash, answered from the
    /// cache of the most recently queried blocks when possible. The cache
    /// holds at most twenty entries, most recently used first: a hit moves
    /// its entry to the front, a miss that resolves pushes a new entry and
    /// drops the least recently used one over the bound. Blocks are
    /// immutable, so entries are invalidated only by eviction.
    #[verifier::rlimit(100)]
    pub fn cached_block_height(&mut self, hash: &crate::crypto::Hash) -> (r: Option<u64>)
        requires
            old(self).wf(),
            old(self).blocks@.len() <= u64::MAX,
        ensures
            final(self).wf(),
            final(self).blocks == old(self).blocks,
            final(self).trie == old(self).trie,
            final(self).era_closed == old(self).era_closed,
            r is Some <==> (exists|i: int|
                0 <= i < old(self).blocks@.len() && spec_block_hash(old(self).blocks@[i]@)
                    == hash@),
            r is Some ==> 0 <= r->0 < old(self).blocks@.len() && spec_block_hash(
                old(self).blocks@[r->0 as int]@,
            ) == hash@ && (forall|j: int|
                0 <= j < r->0 ==> spec_block_hash(#[trigger] old(self).blocks@[j]@) != hash@),
    {
        let n = self.block_cache.len();
        let mut k: usize = 0;
        while k < n
            invariant
                0 <= k <= n == self.block_cache@.len(),
                *self == *old(self),
                self.wf(),
            decreases n - k,
        {
            if crate::codec::bytes_eq(
                self.block_cache[k].0.as_slice(),
                hash.bytes.as_slice(),
            ) {
                // A hit: refresh the entry's recency.
                let height = self.block_cache[k].1;
                let ghost pre = self.block_cache@;
                let entry = self.block_cache.remove(k);
                self.block_cache.insert(0, entry);
                proof {
                    assert(pre[k as int].0@ == hash@);
                    assert(cache_entry_ok(self.blocks@, pre[k as int]));
                    assert forall|m: int|
                        0 <= m < self.block_cache@.len() implies cache_entry_ok(
                        self.blocks@,
                        #[trigger] self.block_cache@[m],
                    ) by {
                        if m == 0 {
                            assert(self.block_cache@[0] == pre[k as int]);
                        } else if m <= k {
                            assert(self.block_cache@[m] == pre[m - 1]);
                        } else {
                            assert(self.block_cache@[m] == pre[m]);
                        }
                    }
                }
                return Some(height);
            }
            k = k + 1;
        }
        // A miss: resolve against the block list and remember the answer.
        let height = match self.block_height(hash) {
            Some(height) => height,
            None => {
                return None;
            },
        };
        let ghost pre = self.block_cache@;
        self.block_cache.insert(0, (hash.to_vec(), height));
        if self.block_cache.len() > BLOCK_CACHE_SIZE {
            let _ = self.block_cache.pop();
        }
        proof {
            assert forall|m: int|
                0 <= m < self.block_cache@.len() implies cache_entry_ok(
                self.blocks@,
                #[trigger] self.block_cache@[m],
            ) by {
                if m == 0 {
                    assert(self.block_cache@[0].0@ == hash@);
                } else {
                    assert(self.block_cache@[m] == pre[m - 1]);
                }
            }
        }
        Some(height)
    }

    /// The block with the given hash: the lowest-height block that hashes
    /// to it.
    #[verifier::rlimit(100)]
    pub fn query(&self, hash: &crate::crypto::Hash) -> (r: Option<&HardBlock>)
        requires
            self.wf(),
        ensures
            r is Some <==> (exists|i: int|
                0 <= i < self.blocks@.len() && spec_block_hash(self.blocks@[i]@) == hash@),
            r is Some ==> (exists|i: int|
                0 <= i < self.blocks@.len() && *r->0 == self.blocks@[i] && spec_block_hash(
                    self.blocks@[i]@,
                ) == hash@),
    {
        let n = self.blocks.len();
        let mut i: usize = 0;
        while i < n
            invariant
                0 <= i <= n == self.blocks@.len(),
                self.wf(),
                forall|j: int|
                    0 <= j < i ==> spec_block_hash(#[trigger] self.blocks@[j]@) != hash@,
            decreases n - i,
        {
            let h = self.blocks[i].block_hash();
            if h.eq_hash(hash) {
                return Some(&self.blocks[i]);
            }
            i = i + 1;
        }
        None
    }

    /// Declares the active validator era closed or open; the predicate is
    /// supplied by the consensus collaborator.
    pub fn set_era_closed(&mut self, closed: bool)
        requires
            old(self).wf(),
        ensures
            final(self).wf(),
            final(self).era_closed == closed,
            final(self).blocks == old(self).blocks,
            final(self).trie == old(self).trie,
    {
        self.era_closed = closed;
    }

    /// Appends a block: the first block must name no parent, every later
    /// block must name the current top; the validator era must be closed;
    /// and the block's transactions must all validate and apply in order.
    /// On failure nothing changes: a transaction failure rolls the trie
    /// back.
    pub fn append_block(&mut self, block: HardBlock) -> (r: Result<(), ChainErr>)
        requires
            old(self).wf(),
            block.wf(),
            old(self).blocks@.len() < u64::MAX,
        ensures
            final(self).wf(),
            final(self).era_closed == old(self).era_closed,
            r == spec_append_result(*old(self), block@),
            r is Ok ==> final(self).blocks@ == old(self).blocks@.push(block)
                && Some(final(self).trie@) == spec_chain_apply_txs(old(self).trie@, block@.txs),
            r is Err ==> final(self).blocks@ == old(self).blocks@ && final(self).trie@ == old(
                self,
            ).trie@,
    {
        if !self.era_closed {
            return Err(ChainErr::ValidatorEraNotClosed);
        }
        let n = self.blocks.len();
        match &block.parent_hash {
            None => {
                if n > 0 {
                    return Err(ChainErr::NoParentHash);
                }
            },
            Some(parent) => {
                if n == 0 {
                    return Err(ChainErr::InvalidParent);
                }
                let top_hash = self.blocks[n - 1].block_hash();
                if !parent.eq_hash(&top_hash) {
                    return Err(ChainErr::InvalidParent);
                }
            },
        }
        // Validate and apply the block's transactions; roll back on any
        // failure.
        let snapshot = self.trie.snapshot();
        let count = block.txs.len();
        proof {
            assert(block@.txs.subrange(0, block@.txs.len() as int) =~= block@.txs);
            assert(block@.txs.len() == block.txs@.len());
            if old(self).blocks@.len() > 0 {
                assert(old(self).blocks@[old(self).blocks@.len() - 1] == old(
                    self,
                ).blocks@.last());
            }
        }
        let mut i: usize = 0;
        while i < count
            invariant
                0 <= i <= count == block.txs@.len(),
                block.wf(),
                old(self).wf(),
                self.trie.wf(),
                self.blocks == old(self).blocks,
                self.block_cache == old(self).block_cache,
                self.era_closed == old(self).era_closed,
                old(self).era_closed,
                block@.parent_hash is None ==> old(self).blocks@.len() == 0,
                block@.parent_hash is Some ==> old(self).blocks@.len() > 0 && block@.parent_hash
                    == Some(spec_block_hash(old(self).blocks@.last()@)),
                snapshot.wf(),
                snapshot@ == old(self).trie@,
                spec_chain_apply_txs(old(self).trie@, block@.txs) == spec_chain_apply_txs(
                    self.trie@,
                    block@.txs.subrange(i as int, block@.txs.len() as int),
                ),
            decreases count - i,
        {
            let tx = &block.txs[i];
            proof {
                let rest = block@.txs.subrange(i as int, block@.txs.len() as int);
                assert(rest[0] == block@.txs[i as int]);
                assert(rest.subrange(1, rest.len() as int) =~= block@.txs.subrange(
                    i + 1,
                    block@.txs.len() as int,
                ));
            }
            if tx.validate(&self.trie) {
                tx.apply(&mut self.trie);
            } else {
                self.trie = snapshot;
                proof {
                    if old(self).blocks@.len() > 0 {
                        assert(old(self).blocks@[old(self).blocks@.len() - 1] == old(
                            self,
                        ).blocks@.last());
                    }
                    assert(spec_chain_apply_txs(old(self).trie@, block@.txs) is None);
                }
                return Err(ChainErr::TxApplyFailed);
            }
            i = i + 1;
        }
        proof {
            assert(block@.txs.subrange(count as int, block@.txs.len() as int) =~= Seq::empty());
        }
        let ghost pre = self.blocks@;
        self.blocks.push(block);
        proof {
            assert(forall|j: int| 0 <= j < pre.len() ==> self.blocks@[j] == pre[j]);
            assert forall|m: int|
                0 <= m < self.block_cache@.len() implies cache_entry_ok(
                self.blocks@,
                #[trigger] self.block_cache@[m],
            ) by {
                assert(cache_entry_ok(pre, self.block_cache@[m]));
                let h = self.block_cache@[m].1 as int;
                assert(self.blocks@[h] == pre[h]);
                assert(forall|j: int|
                    0 <= j < h ==> spec_block_hash(#[trigger] self.blocks@[j]@)
                        == spec_block_hash(pre[j]@));
            }
        }
        Ok(())
    }
}

/// What `append_block` returns, by case.
pub open spec fn spec_append_result(c: HardChain, b: HardBlockV) -> Result<(), ChainErr> {
    if !c.era_closed {
        Err(ChainErr::ValidatorEraNotClosed)
    } else if b.parent_hash is None && c.blocks@.len() > 0 {
        Err(ChainErr::NoParentHash)
    } else if b.parent_hash is Some && (c.blocks@.len() == 0 || b.parent_hash != Some(
        spec_block_hash(c.blocks@.last()@),
    )) {
        Err(ChainErr::InvalidParent)
    } else if spec_chain_apply_txs(c.trie@, b.txs) is None {
        Err(ChainErr::TxApplyFailed)
    } else {
        Ok(())
    }
}

/// Chain linearity: in a well-formed chain every block names its
/// predecessor's hash as its parent, and after a successful append of
/// blocks the height counts them all. The append contract gives
/// `height == n + 1` and `top == b_n` directly; this law records that the
/// links hold at every height.
pub proof fn lemma_chain_linearity(c: HardChain, i: int)
    requires
        c.wf(),
        1 <= i < c.blocks@.len(),
    ensures
        c.blocks@[i]@.parent_hash == Some(spec_block_hash(c.blocks@[i - 1]@)),
{
}

} // verus!
