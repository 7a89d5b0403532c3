//! The mint transaction: issues an amount of a mintable asset. Carries the
//! minter's address, the amount, the asset and fee-currency hashes, the
//! fee, and optionally its hash and signature.

use vstd::prelude::*;

use crate::address::Address;
use crate::balance::{spec_balance_from_bytes, spec_balance_to_bytes, Balance};
use crate::codec::{be_bytes, spec_be_u64};

verus! {

/// The wire tag of a mint transaction.
pub const MINT_TX_TYPE: u8 = 10;

/// A mint transaction.
#[derive(Clone, Debug, PartialEq)]
pub struct Mint {
    /// The asset's minter, who signs the transaction.
    pub minter: Address,
    /// The amount to issue.
    pub amount: Balance,
    /// The global identifier of the minted asset.
    pub currency_hash: crate::crypto::Hash,
    /// The global identifier of the asset the fee is paid in.
    pub fee_hash: crate::crypto::Hash,
    /// The transaction's fee.
    pub fee: Balance,
    /// The transaction's hash, once computed.
    pub hash: Option<crate::crypto::Hash>,
    /// The signature, once signed.
    pub signature: Option<crate::crypto::Signature>,
}

/// The mathematical content of a mint transaction.
pub struct MintV {
    pub minter: Seq<u8>,
    pub amount: Balance,
    pub currency_hash: Seq<u8>,
    pub fee_hash: Seq<u8>,
    pub fee: Balance,
    pub hash: Option<Seq<u8>>,
    pub signature: Option<Seq<u8>>,
}

impl View for Mint {
    type V = MintV;

    open spec fn view(&self) -> MintV {
        MintV {
            minter: self.minter@,
            amount: self.amount,
            currency_hash: self.currency_hash@,
            fee_hash: self.fee_hash@,
            fee: self.fee,
            hash: match self.hash {
                Some(h) => Some(h@),
                None => None,
            },
            signature: match self.signature {
                Some(s) => Some(s@),
                None => None,
            },
        }
    }
}

impl MintV {
    /// Field sizes of a well-formed transaction.
    pub open spec fn wf(&self) -> bool {
        &&& self.minter.len() == 33
        &&& (self.minter[0] == crate::address::NORMAL_ADDRESS_TAG || self.minter[0]
            == crate::address::MULTI_SIG_ADDRESS_TAG || self.minter[0]
            == crate::address::SHAREHOLDERS_ADDRESS_TAG)
        &&& self.amount.wf()
        &&& self.currency_hash.len() == 32
        &&& self.fee_hash.len() == 32
        &&& self.fee.wf()
        &&& match self.hash {
            Some(h) => h.len() == 32,
            None => true,
        }
        &&& match self.signature {
            Some(s) => s.len() == 64,
            None => true,
        }
    }
}

impl Mint {
    pub open spec fn wf(&self) -> bool {
        &&& self.minter.wf()
        &&& self.amount.wf()
        &&& self.currency_hash.wf()
        &&& self.fee_hash.wf()
        &&& self.fee.wf()
        &&& match self.hash {
            Some(h) => h.wf(),
            None => true,
        }
        &&& match self.signature {
            Some(s) => s.wf(),
            None => true,
        }
    }
}

/// The canonical byte encoding of a mint transaction with hash and
/// signature present: the type tag, the fee and amount lengths, the
/// two-byte signature length, the minter, the currency and fee hashes, the
/// transaction hash, then the amount, fee and signature bytes.
pub open spec fn spec_mint_to_bytes(v: MintV) -> Seq<u8> {
    let fee_bytes = spec_balance_to_bytes(v.fee);
    let amount_bytes = spec_balance_to_bytes(v.amount);
    seq![MINT_TX_TYPE, fee_bytes.len() as u8, amount_bytes.len() as u8] + be_bytes(
        v.signature->0.len() as int,
        2,
    ) + v.minter + v.currency_hash + v.fee_hash + v.hash->0 + amount_bytes + fee_bytes
        + v.signature->0
}

/// What `from_bytes` accepts and returns: the three length fields must
/// account for the whole buffer, the minter must decode as an address, the
/// amount and fee as balances, and the signature must be 64 bytes.
pub open spec fn spec_mint_from_bytes(s: Seq<u8>) -> Option<MintV> {
    if s.len() < 5 {
        None
    } else if s[0] != MINT_TX_TYPE {
        None
    } else {
        let fee_len = s[1] as int;
        let amount_len = s[2] as int;
        let sig_len = spec_be_u64(s.subrange(3, 5));
        if s.len() != 134 + amount_len + fee_len + sig_len || sig_len != 64 {
            None
        } else {
            let minter = s.subrange(5, 38);
            let amount_bytes = s.subrange(134, 134 + amount_len);
            let fee_bytes = s.subrange(134 + amount_len, 134 + amount_len + fee_len);
            if Address::spec_parses(minter) && spec_balance_from_bytes(amount_bytes) is Some
                && spec_balance_from_bytes(fee_bytes) is Some {
                Some(
                    MintV {
                        minter,
                        amount: spec_balance_from_bytes(amount_bytes)->0,
                        currency_hash: s.subrange(38, 70),
                        fee_hash: s.subrange(70, 102),
                        fee: spec_balance_from_bytes(fee_bytes)->0,
                        hash: Some(s.subrange(102, 134)),
                        signature: Some(
                            s.subrange(134 + amount_len + fee_len, s.len() as int),
                        ),
                    },
                )
            } else {
                None
            }
        }
    }
}

impl Mint {
    /// Serializes the transaction to its canonical byte encoding. Fails
    /// when the hash or the signature field is missing.
    pub fn to_bytes(&self) -> (r: Result<Vec<u8>, &'static str>)
        requires
            self.wf(),
        ensures
            r is Ok <==> (self.hash is Some && self.signature is Some),
            r is Ok ==> r->Ok_0@ == spec_mint_to_bytes(self@),
    {
        let hash = match &self.hash {
            Some(hash) => hash,
            None => {
                return Err("Hash field is missing");
            },
        };
        let signature = match &self.signature {
            Some(signature) => signature.to_bytes(),
            None => {
                return Err("Signature field is missing");
            },
        };
        let amount = self.amount.to_bytes();
        let fee = self.fee.to_bytes();
        proof {
            crate::balance::lemma_balance_bytes_len(self.amount);
            crate::balance::lemma_balance_bytes_len(self.fee);
        }
        let mut buf: Vec<u8> = Vec::new();
        buf.push(MINT_TX_TYPE);
        buf.push(fee.len() as u8);
        buf.push(amount.len() as u8);
        let sig_len = crate::codec::encode_be_u16(signature.len() as u16);
        crate::codec::extend_bytes(&mut buf, sig_len.as_slice());
        let minter = self.minter.to_bytes();
        crate::codec::extend_bytes(&mut buf, minter.as_slice());
        crate::codec::extend_bytes(&mut buf, self.currency_hash.bytes.as_slice());
        crate::codec::extend_bytes(&mut buf, self.fee_hash.bytes.as_slice());
        crate::codec::extend_bytes(&mut buf, hash.bytes.as_slice());
        crate::codec::extend_bytes(&mut buf, amount.as_slice());
        crate::codec::extend_bytes(&mut buf, fee.as_slice());
        crate::codec::extend_bytes(&mut buf, signature.as_slice());
        proof {
            assert(buf@ =~= spec_mint_to_bytes(self@));
        }
        Ok(buf)
    }

    /// Parses a transaction from its canonical byte encoding. Rejects a
    /// wrong type tag, length fields that do not account for the buffer,
    /// and fields that do not decode.
    pub fn from_bytes(bytes: &[u8]) -> (r: Result<Mint, &'static str>)
        ensures
            r is Ok <==> spec_mint_from_bytes(bytes@) is Some,
            r is Ok ==> r->Ok_0@ == spec_mint_from_bytes(bytes@)->0,
            r is Ok ==> r->Ok_0.wf(),
    {
        if bytes.len() < 5 {
            return Err("Bad transaction type");
        }
        if bytes[0] != MINT_TX_TYPE {
            return Err("Bad transaction type");
        }
        let fee_len = bytes[1] as usize;
        let amount_len = bytes[2] as usize;
        let sig_len_bytes = crate::codec::slice_range_to_vec(bytes, 3, 5);
        let sig_len = crate::codec::decode_be_u16(sig_len_bytes.as_slice()) as usize;
        if bytes.len() < 134 || bytes.len() - 134 != amount_len + fee_len + sig_len {
            return Err("Incorrect packet structure");
        }
        if sig_len != 64 {
            return Err("Bad signature");
        }
        let minter_vec = crate::codec::slice_range_to_vec(bytes, 5, 38);
        let minter = match Address::from_bytes(minter_vec.as_slice()) {
            Some(addr) => addr,
            None => {
                return Err("Bad address");
            },
        };
        let currency_hash = crate::crypto::Hash::from_vec(
            crate::codec::slice_range_to_vec(bytes, 38, 70),
        );
        let fee_hash = crate::crypto::Hash::from_vec(
            crate::codec::slice_range_to_vec(bytes, 70, 102),
        );
        let hash = crate::crypto::Hash::from_vec(
            crate::codec::slice_range_to_vec(bytes, 102, 134),
        );
        let amount_vec = crate::codec::slice_range_to_vec(bytes, 134, 134 + amount_len);
        let amount = match Balance::from_bytes(amount_vec.as_slice()) {
            Some(amount) => amount,
            None => {
                return Err("Bad amount");
            },
        };
        let fee_vec = crate::codec::slice_range_to_vec(
            bytes,
            134 + amount_len,
            134 + amount_len + fee_len,
        );
        let fee = match Balance::from_bytes(fee_vec.as_slice()) {
            Some(fee) => fee,
            None => {
                return Err("Bad fee");
            },
        };
        let sig_vec = crate::codec::slice_range_to_vec(
            bytes,
            134 + amount_len + fee_len,
            bytes.len(),
        );
        let signature = match crate::crypto::Signature::from_bytes(sig_vec.as_slice()) {
            Some(sig) => sig,
            None => {
                return Err("Bad signature");
            },
        };
        let mint = Mint {
            minter,
            currency_hash,
            fee_hash,
            fee,
            amount,
            hash: Some(hash),
            signature: Some(signature),
        };
        proof {
            assert(spec_mint_from_bytes(bytes@) is Some);
            assert(mint@ == spec_mint_from_bytes(bytes@)->0);
        }
        Ok(mint)
    }
}

/// Round-trip encoding: a well-formed mint transaction with hash and
/// signature present serializes to bytes that parse back to the same
/// transaction.
pub proof fn lemma_mint_round_trip(v: MintV)
    requires
        v.wf(),
        v.hash is Some,
        v.signature is Some,
    ensures
        spec_mint_from_bytes(spec_mint_to_bytes(v)) == Some(v),
{
    let fee_bytes = spec_balance_to_bytes(v.fee);
    let amount_bytes = spec_balance_to_bytes(v.amount);
    crate::balance::lemma_balance_bytes_len(v.fee);
    crate::balance::lemma_balance_bytes_len(v.amount);
    let s = spec_mint_to_bytes(v);
    let head = seq![MINT_TX_TYPE, fee_bytes.len() as u8, amount_bytes.len() as u8];
    let sl = be_bytes(64, 2);
    crate::codec::lemma_be_bytes_len(64, 2);
    let sig = v.signature->0;
    let hash = v.hash->0;
    assert(s == head + sl + v.minter + v.currency_hash + v.fee_hash + hash + amount_bytes
        + fee_bytes + sig);
    let alen = amount_bytes.len() as int;
    let flen = fee_bytes.len() as int;
    assert(s.len() == 134 + alen + flen + 64);
    crate::codec::lemma_pow256_values();
    crate::codec::lemma_be_bytes_value(64, 2);
    assert(s.subrange(3, 5) =~= sl);
    assert(s.subrange(5, 38) =~= v.minter);
    assert(s.subrange(38, 70) =~= v.currency_hash);
    assert(s.subrange(70, 102) =~= v.fee_hash);
    assert(s.subrange(102, 134) =~= hash);
    assert(s.subrange(134, 134 + alen) =~= amount_bytes);
    assert(s.subrange(134 + alen, 134 + alen + flen) =~= fee_bytes);
    assert(s.subrange(134 + alen + flen, s.len() as int) =~= sig);
    crate::balance::lemma_balance_round_trip(v.fee);
    crate::balance::lemma_balance_round_trip(v.amount);
    let parsed = spec_mint_from_bytes(s)->0;
    assert(parsed == v);
}

} // verus!
