//! Big-endian integer encoding and small byte-vector helpers shared by the
//! transaction codecs and the chain store.

use vstd::prelude::*;

verus! {

/// 256 to the `n`th power.
pub open spec fn pow256(n: nat) -> int
    decreases n,
{
    if n == 0 {
        1
    } else {
        256 * pow256((n - 1) as nat)
    }
}

pub proof fn lemma_pow256_pos(n: nat)
    ensures
        pow256(n) >= 1,
    decreases n,
{
    if n > 0 {
        lemma_pow256_pos((n - 1) as nat);
    }
}

pub proof fn lemma_pow256_mono(a: nat, b: nat)
    requires
        a <= b,
    ensures
        pow256(a) <= pow256(b),
    decreases b,
{
    if a < b {
        lemma_pow256_mono(a, (b - 1) as nat);
        lemma_pow256_pos(a);
    }
}

/// The concrete values of the powers of 256 that the proofs lean on.
pub proof fn lemma_pow256_values()
    ensures
        pow256(2) == 0x10000,
        pow256(7) == 0x100000000000000,
        pow256(8) == 0x10000000000000000,
{
    reveal_with_fuel(pow256, 9);
}

/// The value of a big-endian byte string, most significant byte first.
pub open spec fn spec_be_u64(s: Seq<u8>) -> int
    decreases s.len(),
{
    if s.len() == 0 {
        0
    } else {
        spec_be_u64(s.drop_last()) * 256 + s.last()
    }
}

/// The `len`-byte big-endian encoding of `n mod 256^len`.
pub open spec fn be_bytes(n: int, len: nat) -> Seq<u8>
    decreases len,
{
    if len == 0 {
        Seq::empty()
    } else {
        be_bytes(n / 256, (len - 1) as nat).push((n % 256) as u8)
    }
}

pub proof fn lemma_be_bytes_len(n: int, len: nat)
    ensures
        be_bytes(n, len).len() == len,
    decreases len,
{
    if len > 0 {
        lemma_be_bytes_len(n / 256, (len - 1) as nat);
    }
}

/// Decoding inverts encoding: the value of the `len`-byte big-endian
/// encoding of a non-negative `n < 256^len` is `n` itself.
pub proof fn lemma_be_bytes_value(n: int, len: nat)
    requires
        0 <= n < pow256(len),
    ensures
        spec_be_u64(be_bytes(n, len)) == n,
    decreases len,
{
    if len > 0 {
        let s = be_bytes(n, len);
        let pre = be_bytes(n / 256, (len - 1) as nat);
        lemma_be_bytes_len(n / 256, (len - 1) as nat);
        assert(s.drop_last() =~= pre);
        assert(n / 256 < pow256((len - 1) as nat)) by {
            lemma_pow256_pos((len - 1) as nat);
            assert(pow256(len) == 256 * pow256((len - 1) as nat));
        }
        lemma_be_bytes_value(n / 256, (len - 1) as nat);
        assert(n == (n / 256) * 256 + n % 256) by (nonlinear_arith)
            requires n >= 0;
    }
}

fn encode_be_rec(n: u64, len: u8) -> (r: Vec<u8>)
    ensures
        r@ == be_bytes(n as int, len as nat),
        r@.len() == len,
    decreases len,
{
    if len == 0 {
        let v: Vec<u8> = Vec::new();
        proof {
            assert(v@ =~= be_bytes(n as int, 0));
        }
        v
    } else {
        let mut v = encode_be_rec(n / 256, len - 1);
        v.push((n % 256) as u8);
        v
    }
}

/// Encodes `n` as eight big-endian bytes.
pub fn encode_be_u64(n: u64) -> (r: Vec<u8>)
    ensures
        r@ == be_bytes(n as int, 8),
        r@.len() == 8,
        spec_be_u64(r@) == n,
{
    proof {
        lemma_pow256_mono(8, 8);
        assert(pow256(8) > u64::MAX as int) by {
            reveal_with_fuel(pow256, 9);
        }
        lemma_be_bytes_value(n as int, 8);
    }
    encode_be_rec(n, 8)
}

/// Reads a big-endian `u64` from exactly eight bytes.
pub fn decode_be_u64(bytes: &[u8]) -> (r: u64)
    requires
        bytes@.len() == 8,
    ensures
        r == spec_be_u64(bytes@),
{
    let mut acc: u64 = 0;
    let mut i: usize = 0;
    while i < 8
        invariant
            0 <= i <= 8,
            bytes@.len() == 8,
            acc == spec_be_u64(bytes@.subrange(0, i as int)),
            acc < pow256(i as nat),
        decreases 8 - i,
    {
        proof {
            lemma_be_u64_step(bytes@, i as int);
            lemma_pow256_mono(i as nat, 7);
            reveal_with_fuel(pow256, 8);
            assert(pow256(7) == 0x100000000000000);
        }
        acc = acc * 256 + (bytes[i] as u64);
        i = i + 1;
    }
    proof {
        assert(bytes@.subrange(0, 8) =~= bytes@);
    }
    acc
}

proof fn lemma_be_u64_step(s: Seq<u8>, i: int)
    requires
        0 <= i < s.len(),
    ensures
        spec_be_u64(s.subrange(0, i + 1)) == spec_be_u64(s.subrange(0, i)) * 256 + s[i],
{
    let pre = s.subrange(0, i + 1);
    assert(pre.drop_last() =~= s.subrange(0, i));
    assert(pre.last() == s[i]);
}

/// Encodes `n` as two big-endian bytes.
pub fn encode_be_u16(n: u16) -> (r: Vec<u8>)
    ensures
        r@ == be_bytes(n as int, 2),
        r@.len() == 2,
        spec_be_u64(r@) == n,
{
    proof {
        assert(pow256(2) == 0x10000) by {
            reveal_with_fuel(pow256, 3);
        }
        lemma_be_bytes_value(n as int, 2);
    }
    encode_be_rec(n as u64, 2)
}

/// Reads a big-endian `u16` from exactly two bytes.
pub fn decode_be_u16(bytes: &[u8]) -> (r: u16)
    requires
        bytes@.len() == 2,
    ensures
        r == spec_be_u64(bytes@),
{
    let b0 = bytes[0];
    let b1 = bytes[1];
    proof {
        reveal_with_fuel(spec_be_u64, 3);
        assert(bytes@.drop_last() =~= seq![bytes@[0]]);
        assert(seq![bytes@[0]].drop_last() =~= Seq::<u8>::empty());
        assert(seq![bytes@[0]].last() == bytes@[0]);
    }
    (b0 as u16) * 256 + (b1 as u16)
}

/// Appends a copy of every byte of `src` to `dst`.
pub fn extend_bytes(dst: &mut Vec<u8>, src: &[u8])
    ensures
        final(dst)@ == old(dst)@ + src@,
{
    let mut i: usize = 0;
    while i < src.len()
        invariant
            0 <= i <= src@.len(),
            dst@ == old(dst)@ + src@.subrange(0, i as int),
        decreases src@.len() - i,
    {
        dst.push(src[i]);
        proof {
            assert(old(dst)@ + src@.subrange(0, i as int) + seq![src@[i as int]] =~= old(dst)@
                + src@.subrange(0, i + 1));
        }
        i = i + 1;
    }
    proof {
        assert(src@.subrange(0, src@.len() as int) =~= src@);
    }
}

/// Compares two byte slices for equality.
pub fn bytes_eq(a: &[u8], b: &[u8]) -> (r: bool)
    ensures
        r == (a@ == b@),
{
    if a.len() != b.len() {
        proof {
            assert(a@ != b@) by {
                assert(a@.len() != b@.len());
            }
        }
        return false;
    }
    let mut i: usize = 0;
    while i < a.len()
        invariant
            0 <= i <= a@.len(),
            a@.len() == b@.len(),
            forall|j: int| 0 <= j < i ==> a@[j] == b@[j],
        decreases a@.len() - i,
    {
        if a[i] != b[i] {
            return false;
        }
        i = i + 1;
    }
    proof {
        assert(a@ =~= b@);
    }
    true
}

/// Copies the bytes of `src` between `from` and `to` into a fresh vector.
pub fn slice_range_to_vec(src: &[u8], from: usize, to: usize) -> (r: Vec<u8>)
    requires
        0 <= from <= to <= src@.len(),
    ensures
        r@ == src@.subrange(from as int, to as int),
{
    let mut v: Vec<u8> = Vec::new();
    let mut i: usize = from;
    while i < to
        invariant
            from <= i <= to <= src@.len(),
            v@ == src@.subrange(from as int, i as int),
        decreases to - i,
    {
        v.push(src[i]);
        proof {
            assert(src@.subrange(from as int, i as int) + seq![src@[i as int]] =~= src@.subrange(
                from as int, i + 1));
        }
        i = i + 1;
    }
    v
}

} // verus!
