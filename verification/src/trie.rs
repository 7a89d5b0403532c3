//! The account-state trie: an authenticated key/value store over the key
//! grammar of the ledger (`<hex-address>.n`, `<hex-address>.<hex-asset>`,
//! `coinbase.<hex-asset>`, ...). Its contents are modelled as a map from
//! key bytes to value bytes; `commit` returns a root hash that commits to
//! every entry in insertion order.

use vstd::prelude::*;

use crate::bytemap::ByteMap;
use crate::crypto::hash_bytes;

verus! {

/// The account-state trie.
#[derive(Debug, PartialEq, Eq)]
pub struct Trie {
    pub map: ByteMap,
}

impl View for Trie {
    type V = Map<Seq<u8>, Seq<u8>>;

    open spec fn view(&self) -> Map<Seq<u8>, Seq<u8>> {
        self.map@
    }
}

/// The byte string a root hash commits to: each entry's key and value,
/// each preceded by its eight-byte big-endian length.
pub open spec fn spec_trie_transcript(entries: Seq<(Vec<u8>, Vec<u8>)>) -> Seq<u8>
    decreases entries.len(),
{
    if entries.len() == 0 {
        Seq::empty()
    } else {
        spec_trie_transcript(entries.drop_last()) + crate::codec::be_bytes(
            entries.last().0@.len() as int,
            8,
        ) + entries.last().0@ + crate::codec::be_bytes(entries.last().1@.len() as int, 8)
            + entries.last().1@
    }
}

impl Trie {
    pub open spec fn wf(&self) -> bool {
        self.map.wf()
    }

    /// An empty trie.
    pub fn new() -> (r: Trie)
        ensures
            r.wf(),
            r@ == Map::<Seq<u8>, Seq<u8>>::empty(),
    {
        Trie { map: ByteMap::new() }
    }

    /// Whether the trie holds no entry.
    pub fn is_empty(&self) -> (r: bool)
        ensures
            r == (self@ =~= Map::<Seq<u8>, Seq<u8>>::empty()),
    {
        self.map.is_empty()
    }

    /// Looks a key up.
    pub fn get(&self, key: &[u8]) -> (r: Option<&Vec<u8>>)
        requires
            self.wf(),
        ensures
            r is Some <==> self@.contains_key(key@),
            r is Some ==> r->0@ == self@[key@],
    {
        self.map.get(key)
    }

    /// Inserts or replaces the value for a key.
    pub fn insert(&mut self, key: Vec<u8>, value: Vec<u8>)
        requires
            old(self).wf(),
        ensures
            final(self).wf(),
            final(self)@ == old(self)@.insert(key@, value@),
    {
        self.map.insert(key, value);
    }

    /// A read-only snapshot: a deep copy holding the same entries, for
    /// validation and rollback around a block apply.
    pub fn snapshot(&self) -> (r: Trie)
        requires
            self.wf(),
        ensures
            r.wf(),
            r@ == self@,
    {
        Trie { map: self.map.duplicate() }
    }

    /// The root hash: the digest of the length-prefixed transcript of all
    /// entries. Two tries with the same entries in the same order commit
    /// to the same root.
    pub fn commit(&self) -> (r: crate::crypto::Hash)
        requires
            self.wf(),
        ensures
            r@ == hash_bytes(spec_trie_transcript(self.map.entries@)),
            r.wf(),
    {
        let n = self.map.entries.len();
        let mut transcript: Vec<u8> = Vec::new();
        let mut i: usize = 0;
        while i < n
            invariant
                0 <= i <= n == self.map.entries@.len(),
                transcript@ == spec_trie_transcript(self.map.entries@.subrange(0, i as int)),
            decreases n - i,
        {
            let key = &self.map.entries[i].0;
            let value = &self.map.entries[i].1;
            let klen = crate::codec::encode_be_u64(key.len() as u64);
            crate::codec::extend_bytes(&mut transcript, klen.as_slice());
            crate::codec::extend_bytes(&mut transcript, key.as_slice());
            let vlen = crate::codec::encode_be_u64(value.len() as u64);
            crate::codec::extend_bytes(&mut transcript, vlen.as_slice());
            crate::codec::extend_bytes(&mut transcript, value.as_slice());
            proof {
                let pre = self.map.entries@.subrange(0, i + 1);
                assert(pre.drop_last() =~= self.map.entries@.subrange(0, i as int));
                assert(pre.last() == self.map.entries@[i as int]);
            }
            i = i + 1;
        }
        proof {
            assert(self.map.entries@.subrange(0, n as int) =~= self.map.entries@);
        }
        crate::crypto::hash_slice(transcript.as_slice())
    }
}

} // verus!
