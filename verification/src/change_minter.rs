//! The minter-change transaction: transfers the right to mint an asset
//! from the current minter to a new address. Carries the current minter's
//! normal address, the new minter's address, the asset and fee-currency
//! hashes, the fee, a nonce, and optionally its hash and signature.

use vstd::prelude::*;

use crate::address::{Address, NormalAddress};
use crate::balance::{spec_balance_from_bytes, spec_balance_sub, spec_balance_to_bytes, Balance};
use crate::codec::{be_bytes, spec_be_u64};
use crate::crypto::{hash_bytes, pk_of_seed, sign_bytes, verify_ok};
use crate::keys::{
    spec_currency_key, spec_mapping_key, spec_minter_key, spec_nonce_key,
};
use crate::trie::Trie;

verus! {

/// The wire tag of a minter-change transaction.
pub const CHANGE_MINTER_TX_TYPE: u8 = 8;

/// A minter-change transaction.
#[derive(Clone, Debug, PartialEq)]
pub struct ChangeMinter {
    /// The current minter.
    pub minter: NormalAddress,
    /// The address of the new minter.
    pub new_minter: Address,
    /// The global identifier of the mintable asset.
    pub asset_hash: crate::crypto::Hash,
    /// The global identifier of the asset the fee is paid in.
    pub fee_hash: crate::crypto::Hash,
    /// The transaction's fee.
    pub fee: Balance,
    /// The transaction's nonce.
    pub nonce: u64,
    /// The transaction's hash, once computed.
    pub hash: Option<crate::crypto::Hash>,
    /// The signature over the assembled message, once signed.
    pub signature: Option<crate::crypto::Signature>,
}

/// The mathematical content of a minter-change transaction: every field as
/// plain bytes or values.
pub struct ChangeMinterV {
    pub minter: Seq<u8>,
    pub new_minter: Seq<u8>,
    pub asset_hash: Seq<u8>,
    pub fee_hash: Seq<u8>,
    pub fee: Balance,
    pub nonce: u64,
    pub hash: Option<Seq<u8>>,
    pub signature: Option<Seq<u8>>,
}

impl View for ChangeMinter {
    type V = ChangeMinterV;

    open spec fn view(&self) -> ChangeMinterV {
        ChangeMinterV {
            minter: self.minter@,
            new_minter: self.new_minter@,
            asset_hash: self.asset_hash@,
            fee_hash: self.fee_hash@,
            fee: self.fee,
            nonce: self.nonce,
            hash: match self.hash {
                Some(h) => Some(h@),
                None => None,
            },
            signature: match self.signature {
                Some(s) => Some(s@),
                None => None,
            },
        }
    }
}

impl ChangeMinterV {
    /// Field sizes of a well-formed transaction.
    pub open spec fn wf(&self) -> bool {
        &&& self.minter.len() == 33
        &&& self.minter[0] == crate::address::NORMAL_ADDRESS_TAG
        &&& self.new_minter.len() == 33
        &&& (self.new_minter[0] == crate::address::NORMAL_ADDRESS_TAG || self.new_minter[0]
            == crate::address::MULTI_SIG_ADDRESS_TAG || self.new_minter[0]
            == crate::address::SHAREHOLDERS_ADDRESS_TAG)
        &&& self.asset_hash.len() == 32
        &&& self.fee_hash.len() == 32
        &&& self.fee.wf()
        &&& match self.hash {
            Some(h) => h.len() == 32,
            None => true,
        }
        &&& match self.signature {
            Some(s) => s.len() == 64,
            None => true,
        }
    }
}

impl ChangeMinter {
    pub open spec fn wf(&self) -> bool {
        &&& self.minter.wf()
        &&& self.new_minter.wf()
        &&& self.asset_hash.wf()
        &&& self.fee_hash.wf()
        &&& self.fee.wf()
        &&& match self.hash {
            Some(h) => h.wf(),
            None => true,
        }
        &&& match self.signature {
            Some(s) => s.wf(),
            None => true,
        }
    }
}

/// The assembled message of a minter-change transaction: the body fields in
/// canonical order, excluding hash and signature.
pub open spec fn spec_assemble_message(v: ChangeMinterV) -> Seq<u8> {
    v.minter + v.new_minter + v.asset_hash + v.fee_hash + spec_balance_to_bytes(v.fee)
}

/// The transaction with its hash computed over the assembled message.
pub open spec fn spec_with_hash(v: ChangeMinterV) -> ChangeMinterV {
    ChangeMinterV { hash: Some(hash_bytes(spec_assemble_message(v))), ..v }
}

/// The transaction signed over the assembled message with a signing seed.
pub open spec fn spec_with_signature(v: ChangeMinterV, sk: Seq<u8>) -> ChangeMinterV {
    ChangeMinterV { signature: Some(sign_bytes(spec_assemble_message(v), sk)), ..v }
}

/// The stored hash matches the assembled message.
pub open spec fn spec_verify_hash(v: ChangeMinterV) -> bool {
    match v.hash {
        Some(h) => h == hash_bytes(spec_assemble_message(v)),
        None => false,
    }
}

/// The stored signature verifies over the assembled message under the
/// public key the minter address exposes.
pub open spec fn spec_verify_sig(v: ChangeMinterV) -> bool {
    match v.signature {
        Some(s) => verify_ok(spec_assemble_message(v), s, v.minter.subrange(1, 33)),
        None => false,
    }
}

/// Hash idempotence: the hash field does not enter the assembled message,
/// so computing the hash any number of times gives the same transaction,
/// and the hash always verifies afterwards.
pub proof fn lemma_hash_idempotence(v: ChangeMinterV)
    ensures
        spec_assemble_message(spec_with_hash(v)) == spec_assemble_message(v),
        spec_with_hash(spec_with_hash(v)) == spec_with_hash(v),
        spec_verify_hash(spec_with_hash(v)),
{
}

/// Signing does not change the assembled message, so a transaction whose
/// minter address exposes the key derived from the signing seed verifies
/// after signing.
pub proof fn lemma_sign_then_verify(v: ChangeMinterV, sk: Seq<u8>)
    requires
        v.minter.subrange(1, 33) == pk_of_seed(sk),
        verify_ok(spec_assemble_message(v), sign_bytes(spec_assemble_message(v), sk), pk_of_seed(
            sk,
        )),
    ensures
        spec_verify_sig(spec_with_signature(v, sk)),
{
    assert(spec_assemble_message(spec_with_signature(v, sk)) == spec_assemble_message(v));
}

/// Computes the message that the transaction's hash and signature are
/// computed over: the body fields in canonical order, excluding hash and
/// signature.
pub fn assemble_message(obj: &ChangeMinter) -> (r: Vec<u8>)
    requires
        obj.wf(),
    ensures
        r@ == spec_assemble_message(obj@),
{
    let mut buf: Vec<u8> = Vec::new();
    let minter = obj.minter.to_bytes();
    crate::codec::extend_bytes(&mut buf, minter.as_slice());
    let new_minter = obj.new_minter.to_bytes();
    crate::codec::extend_bytes(&mut buf, new_minter.as_slice());
    crate::codec::extend_bytes(&mut buf, obj.asset_hash.bytes.as_slice());
    crate::codec::extend_bytes(&mut buf, obj.fee_hash.bytes.as_slice());
    let fee = obj.fee.to_bytes();
    crate::codec::extend_bytes(&mut buf, fee.as_slice());
    proof {
        assert(buf@ =~= spec_assemble_message(obj@));
    }
    buf
}

impl ChangeMinter {
    /// Computes and stores the transaction's hash over the assembled
    /// message. Every other field is unchanged, so repeating the call
    /// changes nothing further and `verify_hash` holds afterwards.
    pub fn compute_hash(&mut self)
        requires
            old(self).wf(),
        ensures
            final(self).wf(),
            final(self)@ == spec_with_hash(old(self)@),
            spec_verify_hash(final(self)@),
    {
        let message = assemble_message(self);
        let hash = crate::crypto::hash_slice(message.as_slice());
        self.hash = Some(hash);
    }

    /// The message that the transaction's hash is computed over.
    pub fn compute_hash_message(&self) -> (r: Vec<u8>)
        requires
            self.wf(),
        ensures
            r@ == spec_assemble_message(self@),
    {
        assemble_message(self)
    }

    /// Recomputes the hash of the assembled message and compares it with
    /// the stored hash. The hash field must have been set.
    pub fn verify_hash(&self) -> (r: bool)
        requires
            self.wf(),
            self.hash is Some,
        ensures
            r == spec_verify_hash(self@),
    {
        let message = assemble_message(self);
        let oracle = crate::crypto::hash_slice(message.as_slice());
        match &self.hash {
            Some(h) => h.eq_hash(&oracle),
            None => false,
        }
    }

    /// Signs the transaction: stores the signature over the assembled
    /// message under the given secret key. When the minter address exposes
    /// the key derived from that seed, the signature verifies.
    pub fn sign(&mut self, skey: crate::crypto::SecretKey)
        requires
            old(self).wf(),
            skey.wf(),
        ensures
            final(self).wf(),
            final(self)@ == spec_with_signature(old(self)@, skey@),
            old(self)@.minter.subrange(1, 33) == pk_of_seed(skey@) ==> spec_verify_sig(
                final(self)@,
            ),
    {
        let message = assemble_message(self);
        let signature = crate::crypto::sign_message(message.as_slice(), &skey);
        self.signature = Some(signature);
        proof {
            assert(spec_assemble_message(self@) == spec_assemble_message(old(self)@));
        }
    }

    /// Verifies the stored signature over the assembled message under the
    /// public key the minter address exposes. Returns false when the
    /// signature field is missing.
    pub fn verify_sig(&self) -> (r: bool)
        requires
            self.wf(),
        ensures
            r == spec_verify_sig(self@),
    {
        let message = assemble_message(self);
        match &self.signature {
            Some(sig) => {
                let pk = self.minter.pkey();
                crate::crypto::verify_message(message.as_slice(), sig, &pk)
            },
            None => false,
        }
    }
}

/// What `validate` checks against the ledger state: the signature
/// verifies; the minter account has a nonce entry of eight bytes whose
/// successor is the transaction nonce; the sender is the asset's current
/// minter and the new minter differs; the fee is non-negative; and the
/// minter's stored fee-currency balance parses, is non-negative, and
/// covers the fee.
pub open spec fn spec_validate(v: ChangeMinterV, m: Map<Seq<u8>, Seq<u8>>) -> bool {
    let nk = spec_nonce_key(v.minter);
    let mk = spec_minter_key(v.asset_hash);
    let fk = spec_currency_key(v.minter, v.fee_hash);
    &&& spec_verify_sig(v)
    &&& m.contains_key(nk)
    &&& m[nk].len() == 8
    &&& spec_be_u64(m[nk]) + 1 == v.nonce
    &&& m.contains_key(mk)
    &&& m[mk] == v.minter
    &&& v.new_minter != v.minter
    &&& v.fee.as_int() >= 0
    &&& m.contains_key(fk)
    &&& spec_balance_from_bytes(m[fk]) is Some
    &&& spec_balance_from_bytes(m[fk])->0.as_int() >= v.fee.as_int()
}

/// What `apply` does to the ledger state: creates the new minter's account
/// when absent (a zero nonce and an address-mapping entry), increments the
/// sender's nonce, records the new minter for the asset, and debits the
/// fee from the sender's fee-currency balance.
pub open spec fn spec_apply(v: ChangeMinterV, m: Map<Seq<u8>, Seq<u8>>) -> Map<Seq<u8>, Seq<u8>> {
    let nk = spec_nonce_key(v.minter);
    let mk = spec_minter_key(v.asset_hash);
    let fk = spec_currency_key(v.minter, v.fee_hash);
    let stored = spec_be_u64(m[nk]);
    let newbal = spec_balance_sub(spec_balance_from_bytes(m[fk])->0, v.fee);
    let base = if m.contains_key(spec_nonce_key(v.new_minter)) {
        m
    } else {
        m.insert(spec_nonce_key(v.new_minter), be_bytes(0, 8)).insert(
            spec_mapping_key(v.new_minter),
            v.new_minter,
        )
    };
    base.insert(nk, be_bytes(stored + 1, 8)).insert(mk, v.new_minter).insert(
        fk,
        spec_balance_to_bytes(newbal),
    )
}

impl ChangeMinter {
    /// Validates the transaction against the provided state, without side
    /// effects.
    pub fn validate(&self, trie: &Trie) -> (r: bool)
        requires
            self.wf(),
            trie.wf(),
        ensures
            r == spec_validate(self@, trie@),
    {
        if !self.verify_sig() {
            return false;
        }
        let bin_minter = self.minter.to_bytes();

        // The key of an account's nonce: `<account-address>.n`.
        let minter_nonce_key = crate::keys::nonce_key(bin_minter.as_slice());
        let stored_nonce = match trie.get(minter_nonce_key.as_slice()) {
            Some(bin_nonce) => {
                if bin_nonce.len() != 8 {
                    return false;
                }
                crate::codec::decode_be_u64(bin_nonce.as_slice())
            },
            None => {
                return false;
            },
        };
        if stored_nonce == u64::MAX || stored_nonce + 1 != self.nonce {
            return false;
        }

        // The sender must be the asset's registered minter, and the new
        // minter must differ.
        let asset_minter_key = crate::keys::minter_key(self.asset_hash.bytes.as_slice());
        match trie.get(asset_minter_key.as_slice()) {
            Some(registered) => {
                if !crate::codec::bytes_eq(registered.as_slice(), bin_minter.as_slice()) {
                    return false;
                }
            },
            None => {
                return false;
            },
        }
        let bin_new_minter = self.new_minter.to_bytes();
        if crate::codec::bytes_eq(bin_new_minter.as_slice(), bin_minter.as_slice()) {
            return false;
        }
        if self.fee.is_negative() {
            return false;
        }

        // The stored fee-currency balance must cover the fee.
        let fee_key = crate::keys::currency_key(
            bin_minter.as_slice(),
            self.fee_hash.bytes.as_slice(),
        );
        match trie.get(fee_key.as_slice()) {
            Some(bin_balance) => {
                match Balance::from_bytes(bin_balance.as_slice()) {
                    Some(balance) => balance.ge(&self.fee),
                    None => false,
                }
            },
            None => false,
        }
    }

    /// Applies the transaction to the provided state. Assumes `validate`
    /// succeeded on the same state. Increments the sender's nonce by
    /// exactly one and debits the sender's fee-currency balance by exactly
    /// the fee; creates the new minter's account when absent; no other
    /// entry changes.
    pub fn apply(&self, trie: &mut Trie)
        requires
            self.wf(),
            old(trie).wf(),
            spec_validate(self@, old(trie)@),
        ensures
            final(trie).wf(),
            final(trie)@ == spec_apply(self@, old(trie)@),
            spec_be_u64(final(trie)@[spec_nonce_key(self@.minter)]) == spec_be_u64(
                old(trie)@[spec_nonce_key(self@.minter)],
            ) + 1,
            spec_balance_from_bytes(
                final(trie)@[spec_currency_key(self@.minter, self@.fee_hash)],
            ) is Some,
            spec_balance_from_bytes(
                final(trie)@[spec_currency_key(self@.minter, self@.fee_hash)],
            )->0.as_int() == spec_balance_from_bytes(
                old(trie)@[spec_currency_key(self@.minter, self@.fee_hash)],
            )->0.as_int() - self@.fee.as_int(),
    {
        let bin_minter = self.minter.to_bytes();
        let bin_new_minter = self.new_minter.to_bytes();

        let minter_nonce_key = crate::keys::nonce_key(bin_minter.as_slice());
        let new_minter_nonce_key = crate::keys::nonce_key(bin_new_minter.as_slice());
        let asset_minter_key = crate::keys::minter_key(self.asset_hash.bytes.as_slice());
        let fee_key = crate::keys::currency_key(
            bin_minter.as_slice(),
            self.fee_hash.bytes.as_slice(),
        );

        // Read and increment the sender's nonce.
        let stored_nonce = match trie.get(minter_nonce_key.as_slice()) {
            Some(bin_nonce) => crate::codec::decode_be_u64(bin_nonce.as_slice()),
            None => {
                proof {
                    assert(false);
                }
                0
            },
        };
        let nonce_buf = crate::codec::encode_be_u64(stored_nonce + 1);

        // Read the sender's fee-currency balance and debit the fee.
        let new_balance = match trie.get(fee_key.as_slice()) {
            Some(bin_balance) => {
                match Balance::from_bytes(bin_balance.as_slice()) {
                    Some(balance) => {
                        proof {
                            crate::balance::lemma_pow10_values();
                            crate::balance::lemma_pow10_pos((9 - balance.scale) as nat);
                            vstd::arithmetic::mul::lemma_mul_nonnegative(
                                balance.mantissa as int,
                                crate::balance::pow10((9 - balance.scale) as nat),
                            );
                            crate::balance::lemma_pow10_pos((9 - self.fee.scale) as nat);
                            vstd::arithmetic::mul::lemma_mul_nonnegative(
                                self.fee.mantissa as int,
                                crate::balance::pow10((9 - self.fee.scale) as nat),
                            );
                        }
                        balance.sub(&self.fee)
                    },
                    None => {
                        proof {
                            assert(false);
                        }
                        Balance::zero()
                    },
                }
            },
            None => {
                proof {
                    assert(false);
                }
                Balance::zero()
            },
        };
        let balance_buf = new_balance.to_bytes();

        // Create the new minter's account when it does not exist yet.
        let new_minter_known = match trie.get(new_minter_nonce_key.as_slice()) {
            Some(_) => true,
            None => false,
        };
        if !new_minter_known {
            let zeros = crate::codec::encode_be_u64(0);
            trie.insert(new_minter_nonce_key, zeros);
            let map_key = crate::keys::mapping_key(bin_new_minter.as_slice());
            let bin_new_minter_again = self.new_minter.to_bytes();
            trie.insert(map_key, bin_new_minter_again);
        }

        // Update the ledger.
        trie.insert(minter_nonce_key, nonce_buf);
        trie.insert(asset_minter_key, bin_new_minter);
        trie.insert(fee_key, balance_buf);

        proof {
            let v = self@;
            let m = old(trie)@;
            let nk = spec_nonce_key(v.minter);
            let mk = spec_minter_key(v.asset_hash);
            let fk = spec_currency_key(v.minter, v.fee_hash);
            assert(trie@ =~= spec_apply(v, m));
            crate::keys::lemma_key_lengths(v.minter, v.asset_hash);
            crate::keys::lemma_key_lengths(v.minter, v.fee_hash);
            assert(mk != nk && fk != nk && fk != mk) by {
                assert(nk.len() == 68 && mk.len() == 66 && fk.len() == 131);
            }
            assert(trie@[nk] == be_bytes(spec_be_u64(m[nk]) + 1, 8));
            crate::codec::lemma_pow256_values();
            crate::codec::lemma_be_bytes_value(spec_be_u64(m[nk]) + 1, 8);
            assert(trie@[fk] == spec_balance_to_bytes(new_balance));
            crate::balance::lemma_balance_round_trip(new_balance);
        }
    }
}

/// Fee conservation for other accounts: applying the transaction changes
/// no other account's balance entry in the fee currency.
pub proof fn lemma_fee_conservation_others(
    v: ChangeMinterV,
    m: Map<Seq<u8>, Seq<u8>>,
    other: Seq<u8>,
)
    requires
        v.wf(),
        spec_validate(v, m),
        other.len() == 33,
        other != v.minter,
    ensures
        spec_apply(v, m).contains_key(spec_currency_key(other, v.fee_hash))
            == m.contains_key(spec_currency_key(other, v.fee_hash)),
        m.contains_key(spec_currency_key(other, v.fee_hash)) ==> spec_apply(v, m)[
            spec_currency_key(other, v.fee_hash)
        ] == m[spec_currency_key(other, v.fee_hash)],
{
    let ok = spec_currency_key(other, v.fee_hash);
    crate::keys::lemma_key_lengths(other, v.fee_hash);
    crate::keys::lemma_key_lengths(v.minter, v.asset_hash);
    crate::keys::lemma_key_lengths(v.minter, v.fee_hash);
    crate::crypto::lemma_hex_of_len(v.new_minter);
    assert(spec_nonce_key(v.new_minter).len() == 68);
    assert(spec_mapping_key(v.new_minter).len() == 69);
    assert(ok != spec_currency_key(v.minter, v.fee_hash)) by {
        if ok == spec_currency_key(v.minter, v.fee_hash) {
            crate::keys::lemma_currency_key_injective(other, v.fee_hash, v.minter, v.fee_hash);
        }
    }
}

/// Nonce monotonicity: in any state that validates the transaction,
/// applying it leaves the sender's nonce entry at exactly the stored nonce
/// plus one.
pub proof fn lemma_nonce_monotonicity(v: ChangeMinterV, m: Map<Seq<u8>, Seq<u8>>)
    requires
        v.wf(),
        spec_validate(v, m),
    ensures
        spec_apply(v, m).contains_key(spec_nonce_key(v.minter)),
        spec_be_u64(spec_apply(v, m)[spec_nonce_key(v.minter)]) == spec_be_u64(
            m[spec_nonce_key(v.minter)],
        ) + 1,
{
    let nk = spec_nonce_key(v.minter);
    crate::keys::lemma_key_lengths(v.minter, v.asset_hash);
    crate::keys::lemma_key_lengths(v.minter, v.fee_hash);
    assert(spec_apply(v, m)[nk] == be_bytes(spec_be_u64(m[nk]) + 1, 8)) by {
        assert(spec_minter_key(v.asset_hash).len() == 66);
        assert(spec_currency_key(v.minter, v.fee_hash).len() == 131);
    }
    crate::codec::lemma_pow256_values();
    crate::codec::lemma_be_bytes_value(spec_be_u64(m[nk]) + 1, 8);
}

/// The canonical byte encoding of a signed minter-change transaction:
/// the type tag, the fee length, the big-endian nonce, the minter, the new
/// minter, the asset hash, the fee hash, the signature, and the fee bytes.
pub open spec fn spec_cm_to_bytes(v: ChangeMinterV) -> Seq<u8> {
    let fee_bytes = spec_balance_to_bytes(v.fee);
    seq![CHANGE_MINTER_TX_TYPE, fee_bytes.len() as u8] + be_bytes(v.nonce as int, 8) + v.minter
        + v.new_minter + v.asset_hash + v.fee_hash + v.signature->0 + fee_bytes
}

/// What `from_bytes` accepts and returns. The buffer must carry the type
/// tag, a fee length that accounts for the whole buffer, a decodable
/// minter, new minter and fee; the hash is recomputed over the assembled
/// message.
pub open spec fn spec_cm_from_bytes(s: Seq<u8>) -> Option<ChangeMinterV> {
    if s.len() < 2 {
        None
    } else if s[0] != CHANGE_MINTER_TX_TYPE || s.len() != 204 + s[1] {
        None
    } else {
        let minter = s.subrange(10, 43);
        let new_minter = s.subrange(43, 76);
        let fee_bytes = s.subrange(204, s.len() as int);
        if minter[0] == crate::address::NORMAL_ADDRESS_TAG && Address::spec_parses(new_minter)
            && spec_balance_from_bytes(fee_bytes) is Some {
            let v = ChangeMinterV {
                minter,
                new_minter,
                asset_hash: s.subrange(76, 108),
                fee_hash: s.subrange(108, 140),
                fee: spec_balance_from_bytes(fee_bytes)->0,
                nonce: spec_be_u64(s.subrange(2, 10)) as u64,
                hash: None,
                signature: Some(s.subrange(140, 204)),
            };
            Some(spec_with_hash(v))
        } else {
            None
        }
    }
}

impl ChangeMinter {
    /// Serializes the transaction to its canonical byte encoding. Fails
    /// when the signature field is missing.
    pub fn to_bytes(&self) -> (r: Result<Vec<u8>, &'static str>)
        requires
            self.wf(),
        ensures
            r is Ok <==> self.signature is Some,
            r is Ok ==> r->Ok_0@ == spec_cm_to_bytes(self@),
    {
        let signature = match &self.signature {
            Some(signature) => signature.to_bytes(),
            None => {
                return Err("Signature field is missing");
            },
        };
        let fee = self.fee.to_bytes();
        proof {
            crate::balance::lemma_balance_bytes_len(self.fee);
        }
        let mut buf: Vec<u8> = Vec::new();
        buf.push(CHANGE_MINTER_TX_TYPE);
        buf.push(fee.len() as u8);
        let nonce = crate::codec::encode_be_u64(self.nonce);
        crate::codec::extend_bytes(&mut buf, nonce.as_slice());
        let minter = self.minter.to_bytes();
        crate::codec::extend_bytes(&mut buf, minter.as_slice());
        let new_minter = self.new_minter.to_bytes();
        crate::codec::extend_bytes(&mut buf, new_minter.as_slice());
        crate::codec::extend_bytes(&mut buf, self.asset_hash.bytes.as_slice());
        crate::codec::extend_bytes(&mut buf, self.fee_hash.bytes.as_slice());
        crate::codec::extend_bytes(&mut buf, signature.as_slice());
        crate::codec::extend_bytes(&mut buf, fee.as_slice());
        proof {
            assert(buf@ =~= spec_cm_to_bytes(self@));
        }
        Ok(buf)
    }

    /// Parses a transaction from its canonical byte encoding, recomputing
    /// its hash. Rejects a wrong type tag, length fields that do not
    /// account for the buffer, and fields that do not decode.
    pub fn from_bytes(bytes: &[u8]) -> (r: Result<ChangeMinter, &'static str>)
        ensures
            r is Ok <==> spec_cm_from_bytes(bytes@) is Some,
            r is Ok ==> r->Ok_0@ == spec_cm_from_bytes(bytes@)->0,
            r is Ok ==> r->Ok_0.wf(),
    {
        if bytes.len() < 2 {
            return Err("Bad transaction type");
        }
        if bytes[0] != CHANGE_MINTER_TX_TYPE {
            return Err("Bad transaction type");
        }
        let fee_len = bytes[1];
        if bytes.len() < 204 || bytes.len() - 204 != fee_len as usize {
            return Err("Incorrect packet structure");
        }
        let nonce_bytes = crate::codec::slice_range_to_vec(bytes, 2, 10);
        let nonce = crate::codec::decode_be_u64(nonce_bytes.as_slice());
        let minter_vec = crate::codec::slice_range_to_vec(bytes, 10, 43);
        let minter = match NormalAddress::from_bytes(minter_vec.as_slice()) {
            Some(addr) => addr,
            None => {
                return Err("Bad address");
            },
        };
        let new_minter_vec = crate::codec::slice_range_to_vec(bytes, 43, 76);
        let new_minter = match Address::from_bytes(new_minter_vec.as_slice()) {
            Some(addr) => addr,
            None => {
                return Err("Bad address");
            },
        };
        let asset_hash = crate::crypto::Hash::from_vec(
            crate::codec::slice_range_to_vec(bytes, 76, 108),
        );
        let fee_hash = crate::crypto::Hash::from_vec(
            crate::codec::slice_range_to_vec(bytes, 108, 140),
        );
        let sig_vec = crate::codec::slice_range_to_vec(bytes, 140, 204);
        let signature = match crate::crypto::Signature::from_bytes(sig_vec.as_slice()) {
            Some(sig) => sig,
            None => {
                return Err("Bad signature");
            },
        };
        let fee_vec = crate::codec::slice_range_to_vec(bytes, 204, bytes.len());
        let fee = match Balance::from_bytes(fee_vec.as_slice()) {
            Some(fee) => fee,
            None => {
                return Err("Bad gas price");
            },
        };
        let mut tx = ChangeMinter {
            minter,
            new_minter,
            asset_hash,
            fee_hash,
            fee,
            nonce,
            hash: None,
            signature: Some(signature),
        };
        tx.compute_hash();
        proof {
            assert(spec_cm_from_bytes(bytes@) is Some);
            assert(tx@ == spec_cm_from_bytes(bytes@)->0);
        }
        Ok(tx)
    }
}

/// Round-trip encoding: a well-formed, signed transaction whose hash is
/// computed serializes to bytes that parse back to the same transaction.
pub proof fn lemma_cm_round_trip(v: ChangeMinterV)
    requires
        v.wf(),
        v.signature is Some,
        v.hash == Some(hash_bytes(spec_assemble_message(v))),
    ensures
        spec_cm_from_bytes(spec_cm_to_bytes(v)) == Some(v),
{
    let fee_bytes = spec_balance_to_bytes(v.fee);
    crate::balance::lemma_balance_bytes_len(v.fee);
    let s = spec_cm_to_bytes(v);
    let head = seq![CHANGE_MINTER_TX_TYPE, fee_bytes.len() as u8];
    let nb = be_bytes(v.nonce as int, 8);
    crate::codec::lemma_be_bytes_len(v.nonce as int, 8);
    let sig = v.signature->0;
    assert(s == head + nb + v.minter + v.new_minter + v.asset_hash + v.fee_hash + sig
        + fee_bytes);
    assert(s.len() == 204 + fee_bytes.len());
    assert(s[0] == CHANGE_MINTER_TX_TYPE && s[1] == fee_bytes.len() as u8);
    assert(s.subrange(2, 10) =~= nb);
    assert(s.subrange(10, 43) =~= v.minter);
    assert(s.subrange(43, 76) =~= v.new_minter);
    assert(s.subrange(76, 108) =~= v.asset_hash);
    assert(s.subrange(108, 140) =~= v.fee_hash);
    assert(s.subrange(140, 204) =~= sig);
    assert(s.subrange(204, s.len() as int) =~= fee_bytes);
    crate::codec::lemma_pow256_values();
    crate::codec::lemma_be_bytes_value(v.nonce as int, 8);
    crate::balance::lemma_balance_round_trip(v.fee);
    let parsed = spec_cm_from_bytes(s)->0;
    assert(spec_assemble_message(ChangeMinterV { hash: None, ..v }) == spec_assemble_message(v));
    assert(parsed == v);
}

} // verus!
