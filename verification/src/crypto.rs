//! Cryptographic primitives facade: hashes, detached signatures, key
//! derivation and hex encoding. The concrete primitives are outside
//! collaborators; each is reached through one trusted wrapper whose contract
//! states what the library relies on.

use vstd::prelude::*;

use blake2::Digest;
use ed25519_dalek::Signer;
use ed25519_dalek::Verifier;

verus! {

/// A 32-byte opaque identifier; equality is byte-wise.
#[derive(Clone, Debug, PartialEq, Eq)]
pub struct Hash {
    pub bytes: Vec<u8>,
}

impl View for Hash {
    type V = Seq<u8>;

    open spec fn view(&self) -> Seq<u8> {
        self.bytes@
    }
}

impl Hash {
    pub open spec fn wf(&self) -> bool {
        self@.len() == 32
    }

    /// The all-zero hash.
    pub fn null() -> (r: Hash)
        ensures
            r.wf(),
            forall|i: int| 0 <= i < 32 ==> r@[i] == 0u8,
    {
        let mut bytes: Vec<u8> = Vec::new();
        let mut i: usize = 0;
        while i < 32
            invariant
                0 <= i <= 32,
                bytes@.len() == i,
                forall|j: int| 0 <= j < i ==> bytes@[j] == 0u8,
            decreases 32 - i,
        {
            bytes.push(0u8);
            i = i + 1;
        }
        Hash { bytes }
    }

    /// Builds a hash from exactly 32 bytes.
    pub fn from_vec(bytes: Vec<u8>) -> (r: Hash)
        requires
            bytes@.len() == 32,
        ensures
            r@ == bytes@,
            r.wf(),
    {
        Hash { bytes }
    }

    /// Copies the hash bytes into a fresh vector.
    pub fn to_vec(&self) -> (r: Vec<u8>)
        ensures
            r@ == self@,
    {
        crate::codec::slice_range_to_vec(self.bytes.as_slice(), 0, self.bytes.len())
    }

    /// Byte-wise equality.
    pub fn eq_hash(&self, other: &Hash) -> (r: bool)
        ensures
            r == (self@ == other@),
    {
        crate::codec::bytes_eq(self.bytes.as_slice(), other.bytes.as_slice())
    }
}

/// A 32-byte node identifier derived from a public key.
#[derive(Clone, Debug, PartialEq, Eq)]
pub struct NodeId {
    pub bytes: Vec<u8>,
}

impl View for NodeId {
    type V = Seq<u8>;

    open spec fn view(&self) -> Seq<u8> {
        self.bytes@
    }
}

impl NodeId {
    pub open spec fn wf(&self) -> bool {
        self@.len() == 32
    }
}

/// A 32-byte signing seed.
#[derive(Clone, Debug, PartialEq, Eq)]
pub struct SecretKey {
    pub bytes: Vec<u8>,
}

impl View for SecretKey {
    type V = Seq<u8>;

    open spec fn view(&self) -> Seq<u8> {
        self.bytes@
    }
}

impl SecretKey {
    pub open spec fn wf(&self) -> bool {
        self@.len() == 32
    }

    pub fn from_vec(bytes: Vec<u8>) -> (r: SecretKey)
        requires
            bytes@.len() == 32,
        ensures
            r@ == bytes@,
            r.wf(),
    {
        SecretKey { bytes }
    }
}

/// A 32-byte verifying key.
#[derive(Clone, Debug, PartialEq, Eq)]
pub struct PublicKey {
    pub bytes: Vec<u8>,
}

impl View for PublicKey {
    type V = Seq<u8>;

    open spec fn view(&self) -> Seq<u8> {
        self.bytes@
    }
}

impl PublicKey {
    pub open spec fn wf(&self) -> bool {
        self@.len() == 32
    }
}

/// A 64-byte detached signature.
#[derive(Clone, Debug, PartialEq, Eq)]
pub struct Signature {
    pub bytes: Vec<u8>,
}

impl View for Signature {
    type V = Seq<u8>;

    open spec fn view(&self) -> Seq<u8> {
        self.bytes@
    }
}

impl Signature {
    pub open spec fn wf(&self) -> bool {
        self@.len() == 64
    }

    /// Builds a signature from exactly 64 bytes.
    pub fn from_bytes(bytes: &[u8]) -> (r: Option<Signature>)
        ensures
            r is Some <==> bytes@.len() == 64,
            r is Some ==> r->0@ == bytes@ && r->0.wf(),
    {
        if bytes.len() == 64 {
            Some(Signature { bytes: crate::codec::slice_range_to_vec(bytes, 0, 64) })
        } else {
            None
        }
    }

    /// Copies the signature bytes into a fresh vector.
    pub fn to_bytes(&self) -> (r: Vec<u8>)
        ensures
            r@ == self@,
    {
        crate::codec::slice_range_to_vec(self.bytes.as_slice(), 0, self.bytes.len())
    }
}

/// The digest of a byte string. The digest function is an outside
/// collaborator; its result depends on the input bytes alone.
pub uninterp spec fn hash_bytes(m: Seq<u8>) -> Seq<u8>;

/// Relies on blake2's `Blake2s256::digest`: a 32-byte digest that depends
/// on the input bytes alone.
#[verifier::external_body]
pub fn hash_slice(m: &[u8]) -> (r: Hash)
    ensures
        r@ == hash_bytes(m@),
        r@.len() == 32,
{
    Hash { bytes: blake2::Blake2s256::digest(m).to_vec() }
}

/// The signature that the signing scheme produces for a message and seed;
/// Ed25519 signing is deterministic, so it depends on the two alone.
pub uninterp spec fn sign_bytes(m: Seq<u8>, sk: Seq<u8>) -> Seq<u8>;

/// The verifying key derived from a 32-byte signing seed.
pub uninterp spec fn pk_of_seed(sk: Seq<u8>) -> Seq<u8>;

/// Whether the signature scheme accepts `sig` for message `m` under the
/// verifying key `pk`; verification is deterministic in the three.
pub uninterp spec fn verify_ok(m: Seq<u8>, sig: Seq<u8>, pk: Seq<u8>) -> bool;

/// Relies on ed25519-dalek's `SigningKey::from_bytes` and `verifying_key`:
/// key derivation is a function of the 32-byte seed alone and yields a
/// 32-byte verifying key.
#[verifier::external_body]
pub fn derive_pkey(sk: &SecretKey) -> (r: PublicKey)
    requires
        sk.wf(),
    ensures
        r@ == pk_of_seed(sk@),
        r@.len() == 32,
{
    let seed: [u8; 32] = sk.bytes.as_slice().try_into().unwrap();
    let signing = ed25519_dalek::SigningKey::from_bytes(&seed);
    PublicKey { bytes: signing.verifying_key().to_bytes().to_vec() }
}

/// Relies on ed25519-dalek's `SigningKey::sign` (RFC 8032 deterministic
/// signing): the 64-byte signature is a function of message and seed, and
/// `VerifyingKey::verify` accepts it under the derived verifying key.
#[verifier::external_body]
pub fn sign_message(m: &[u8], sk: &SecretKey) -> (r: Signature)
    requires
        sk.wf(),
    ensures
        r@ == sign_bytes(m@, sk@),
        r@.len() == 64,
        verify_ok(m@, r@, pk_of_seed(sk@)),
{
    let seed: [u8; 32] = sk.bytes.as_slice().try_into().unwrap();
    let signing = ed25519_dalek::SigningKey::from_bytes(&seed);
    Signature { bytes: signing.sign(m).to_bytes().to_vec() }
}

/// Relies on ed25519-dalek's `VerifyingKey::from_bytes` and `verify`:
/// deterministic in message, signature and key bytes; a key that does not
/// decode accepts nothing.
#[verifier::external_body]
pub fn verify_message(m: &[u8], sig: &Signature, pk: &PublicKey) -> (r: bool)
    requires
        sig.wf(),
        pk.wf(),
    ensures
        r == verify_ok(m@, sig@, pk@),
{
    let pk_arr: [u8; 32] = pk.bytes.as_slice().try_into().unwrap();
    let sig_arr: [u8; 64] = sig.bytes.as_slice().try_into().unwrap();
    match ed25519_dalek::VerifyingKey::from_bytes(&pk_arr) {
        Ok(vk) => vk.verify(m, &ed25519_dalek::Signature::from_bytes(&sig_arr)).is_ok(),
        Err(_) => false,
    }
}

/// The lowercase hex digit for a value below sixteen, as an ASCII byte.
pub open spec fn hex_digit(n: u8) -> u8 {
    if n < 10 {
        (0x30 + n) as u8
    } else {
        (0x57 + n) as u8
    }
}

/// The lowercase hex encoding of a byte string: two digits per byte.
pub open spec fn hex_of(s: Seq<u8>) -> Seq<u8>
    decreases s.len(),
{
    if s.len() == 0 {
        Seq::empty()
    } else {
        hex_of(s.drop_last()) + seq![hex_digit(s.last() / 16), hex_digit(s.last() % 16)]
    }
}

pub proof fn lemma_hex_of_len(s: Seq<u8>)
    ensures
        hex_of(s).len() == 2 * s.len(),
    decreases s.len(),
{
    if s.len() > 0 {
        lemma_hex_of_len(s.drop_last());
    }
}

/// Relies on hex's `encode`: two lowercase digits for each input byte, most
/// significant digit first.
#[verifier::external_body]
pub fn to_hex(b: &[u8]) -> (r: Vec<u8>)
    ensures
        r@ == hex_of(b@),
{
    hex::encode(b).into_bytes()
}

} // verus!
