//! The trie key grammar. Every ledger key is ASCII, formed by
//! concatenation with a `.` separator:
//! `<hex-address>.n` holds an account's eight-byte big-endian nonce,
//! `<hex-address>.<hex-asset-hash>` its balance bytes for an asset,
//! `<hex-address>.am` its address-mapping entry,
//! `<hex-asset-hash>.m` the asset's current minter address, and
//! `coinbase.<hex-asset-hash>` the asset's unissued supply.

use vstd::prelude::*;

use crate::crypto::{hex_of, to_hex};

verus! {

/// The ASCII dot separator.
pub const KEY_DOT: u8 = 0x2e;

/// The ASCII letter `n`.
pub const KEY_N: u8 = 0x6e;

/// The ASCII letter `m`.
pub const KEY_M: u8 = 0x6d;

/// The ASCII letter `a`.
pub const KEY_A: u8 = 0x61;

/// The nonce key of an account: `<hex-address>.n`.
pub open spec fn spec_nonce_key(addr: Seq<u8>) -> Seq<u8> {
    hex_of(addr) + seq![KEY_DOT, KEY_N]
}

/// The balance key of an account for an asset:
/// `<hex-address>.<hex-asset-hash>`.
pub open spec fn spec_currency_key(addr: Seq<u8>, asset: Seq<u8>) -> Seq<u8> {
    hex_of(addr) + seq![KEY_DOT] + hex_of(asset)
}

/// The minter key of an asset: `<hex-asset-hash>.m`.
pub open spec fn spec_minter_key(asset: Seq<u8>) -> Seq<u8> {
    hex_of(asset) + seq![KEY_DOT, KEY_M]
}

/// The address-mapping key of an account: `<hex-address>.am`.
pub open spec fn spec_mapping_key(addr: Seq<u8>) -> Seq<u8> {
    hex_of(addr) + seq![KEY_DOT, KEY_A, KEY_M]
}

/// The ASCII bytes of `coinbase.`.
pub open spec fn spec_coinbase_prefix() -> Seq<u8> {
    seq![0x63u8, 0x6fu8, 0x69u8, 0x6eu8, 0x62u8, 0x61u8, 0x73u8, 0x65u8, KEY_DOT]
}

/// The coinbase key of an asset: `coinbase.<hex-asset-hash>`.
pub open spec fn spec_coinbase_key(asset: Seq<u8>) -> Seq<u8> {
    spec_coinbase_prefix() + hex_of(asset)
}

/// Builds `<hex-address>.n`.
pub fn nonce_key(addr: &[u8]) -> (r: Vec<u8>)
    ensures
        r@ == spec_nonce_key(addr@),
{
    let mut r = to_hex(addr);
    r.push(KEY_DOT);
    r.push(KEY_N);
    proof {
        assert(r@ =~= spec_nonce_key(addr@));
    }
    r
}

/// Builds `<hex-address>.<hex-asset-hash>`.
pub fn currency_key(addr: &[u8], asset: &[u8]) -> (r: Vec<u8>)
    ensures
        r@ == spec_currency_key(addr@, asset@),
{
    let mut r = to_hex(addr);
    r.push(KEY_DOT);
    let h = to_hex(asset);
    crate::codec::extend_bytes(&mut r, h.as_slice());
    proof {
        assert(r@ =~= spec_currency_key(addr@, asset@));
    }
    r
}

/// Builds `<hex-asset-hash>.m`.
pub fn minter_key(asset: &[u8]) -> (r: Vec<u8>)
    ensures
        r@ == spec_minter_key(asset@),
{
    let mut r = to_hex(asset);
    r.push(KEY_DOT);
    r.push(KEY_M);
    proof {
        assert(r@ =~= spec_minter_key(asset@));
    }
    r
}

/// Builds `<hex-address>.am`.
pub fn mapping_key(addr: &[u8]) -> (r: Vec<u8>)
    ensures
        r@ == spec_mapping_key(addr@),
{
    let mut r = to_hex(addr);
    r.push(KEY_DOT);
    r.push(KEY_A);
    r.push(KEY_M);
    proof {
        assert(r@ =~= spec_mapping_key(addr@));
    }
    r
}

/// Builds `coinbase.<hex-asset-hash>`.
pub fn coinbase_key(asset: &[u8]) -> (r: Vec<u8>)
    ensures
        r@ == spec_coinbase_key(asset@),
{
    let mut r: Vec<u8> = Vec::new();
    r.push(0x63);
    r.push(0x6f);
    r.push(0x69);
    r.push(0x6e);
    r.push(0x62);
    r.push(0x61);
    r.push(0x73);
    r.push(0x65);
    r.push(KEY_DOT);
    let h = to_hex(asset);
    crate::codec::extend_bytes(&mut r, h.as_slice());
    proof {
        assert(r@ =~= spec_coinbase_key(asset@));
    }
    r
}

/// Hex encoding is injective: equal encodings come from equal bytes.
pub proof fn lemma_hex_of_injective(a: Seq<u8>, b: Seq<u8>)
    requires
        hex_of(a) == hex_of(b),
    ensures
        a == b,
    decreases a.len(),
{
    crate::crypto::lemma_hex_of_len(a);
    crate::crypto::lemma_hex_of_len(b);
    if a.len() == 0 {
        assert(a =~= b);
    } else {
        let ha = hex_of(a);
        let hb = hex_of(b);
        let pa = hex_of(a.drop_last());
        let pb = hex_of(b.drop_last());
        let sa = seq![crate::crypto::hex_digit(a.last() / 16), crate::crypto::hex_digit(
            a.last() % 16,
        )];
        let sb = seq![crate::crypto::hex_digit(b.last() / 16), crate::crypto::hex_digit(
            b.last() % 16,
        )];
        assert(ha == pa + sa);
        assert(hb == pb + sb);
        crate::crypto::lemma_hex_of_len(a.drop_last());
        crate::crypto::lemma_hex_of_len(b.drop_last());
        assert(pa =~= pb) by {
            assert forall|i: int| 0 <= i < pa.len() implies pa[i] == pb[i] by {
                assert(pa[i] == (pa + sa)[i]);
                assert(pb[i] == (pb + sb)[i]);
            }
        }
        lemma_hex_of_injective(a.drop_last(), b.drop_last());
        let la = a.last();
        let lb = b.last();
        assert((pa + sa)[ha.len() - 2] == sa[0] && (pa + sa)[ha.len() - 1] == sa[1]);
        assert((pb + sb)[hb.len() - 2] == sb[0] && (pb + sb)[hb.len() - 1] == sb[1]);
        assert(crate::crypto::hex_digit(la / 16) == crate::crypto::hex_digit(lb / 16));
        assert(crate::crypto::hex_digit(la % 16) == crate::crypto::hex_digit(lb % 16));
        assert(la == lb) by {
            assert(la / 16 == lb / 16 && la % 16 == lb % 16);
        }
        assert(a =~= b) by {
            assert(forall|i: int| 0 <= i < a.len() - 1 ==> a[i] == a.drop_last()[i]
                && b[i] == b.drop_last()[i]);
        }
    }
}

/// The five key shapes for 33-byte addresses and 32-byte asset hashes have
/// pairwise different lengths except among currency keys, so two keys of
/// different shapes never collide, and two keys of the same shape collide
/// only on equal arguments.
pub proof fn lemma_key_lengths(addr: Seq<u8>, asset: Seq<u8>)
    requires
        addr.len() == 33,
        asset.len() == 32,
    ensures
        spec_nonce_key(addr).len() == 68,
        spec_currency_key(addr, asset).len() == 131,
        spec_minter_key(asset).len() == 66,
        spec_mapping_key(addr).len() == 69,
        spec_coinbase_key(asset).len() == 73,
{
    crate::crypto::lemma_hex_of_len(addr);
    crate::crypto::lemma_hex_of_len(asset);
}

/// Two nonce keys collide only on the same address.
pub proof fn lemma_nonce_key_injective(a: Seq<u8>, b: Seq<u8>)
    requires
        spec_nonce_key(a) == spec_nonce_key(b),
    ensures
        a == b,
{
    crate::crypto::lemma_hex_of_len(a);
    crate::crypto::lemma_hex_of_len(b);
    let ka = spec_nonce_key(a);
    let kb = spec_nonce_key(b);
    assert(ka.len() == hex_of(a).len() + 2);
    assert(kb.len() == hex_of(b).len() + 2);
    assert(hex_of(a) =~= hex_of(b)) by {
        assert forall|i: int| 0 <= i < hex_of(a).len() implies hex_of(a)[i] == hex_of(b)[i] by {
            assert((hex_of(a) + seq![KEY_DOT, KEY_N])[i] == hex_of(a)[i]);
            assert((hex_of(b) + seq![KEY_DOT, KEY_N])[i] == hex_of(b)[i]);
        }
    }
    lemma_hex_of_injective(a, b);
}

/// Two currency keys for arguments of the standard sizes collide only on
/// the same address and asset.
pub proof fn lemma_currency_key_injective(a1: Seq<u8>, c1: Seq<u8>, a2: Seq<u8>, c2: Seq<u8>)
    requires
        a1.len() == 33,
        a2.len() == 33,
        spec_currency_key(a1, c1) == spec_currency_key(a2, c2),
    ensures
        a1 == a2,
        c1 == c2,
{
    crate::crypto::lemma_hex_of_len(a1);
    crate::crypto::lemma_hex_of_len(a2);
    crate::crypto::lemma_hex_of_len(c1);
    crate::crypto::lemma_hex_of_len(c2);
    let k1 = spec_currency_key(a1, c1);
    let k2 = spec_currency_key(a2, c2);
    assert(k1.len() == 67 + hex_of(c1).len());
    assert(k2.len() == 67 + hex_of(c2).len());
    assert(hex_of(a1) =~= hex_of(a2)) by {
        assert forall|i: int| 0 <= i < 66 implies hex_of(a1)[i] == hex_of(a2)[i] by {
            assert(k1[i] == hex_of(a1)[i]);
            assert(k2[i] == hex_of(a2)[i]);
        }
    }
    lemma_hex_of_injective(a1, a2);
    assert(hex_of(c1) =~= hex_of(c2)) by {
        assert forall|i: int| 0 <= i < hex_of(c1).len() implies hex_of(c1)[i] == hex_of(c2)[i]
            by {
            assert(k1[67 + i] == hex_of(c1)[i]);
            assert(k2[67 + i] == hex_of(c2)[i]);
        }
    }
    lemma_hex_of_injective(c1, c2);
}

} // verus!
