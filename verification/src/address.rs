//! Account addresses: a 33-byte representation whose first byte tags the
//! kind. A normal address carries its public key verbatim; multi-signature
//! and shareholders addresses identify a policy respectively a share map.

use vstd::prelude::*;

use crate::crypto::PublicKey;

verus! {

/// Tag byte of a normal address.
pub const NORMAL_ADDRESS_TAG: u8 = 1;

/// Tag byte of a multi-signature address.
pub const MULTI_SIG_ADDRESS_TAG: u8 = 2;

/// Tag byte of a shareholders address.
pub const SHAREHOLDERS_ADDRESS_TAG: u8 = 3;

/// A 33-byte address derived from a public key: the tag byte followed by
/// the 32 key bytes.
#[derive(Clone, Debug, PartialEq, Eq)]
pub struct NormalAddress {
    pub bytes: Vec<u8>,
}

impl View for NormalAddress {
    type V = Seq<u8>;

    open spec fn view(&self) -> Seq<u8> {
        self.bytes@
    }
}

impl NormalAddress {
    pub open spec fn wf(&self) -> bool {
        self@.len() == 33 && self@[0] == NORMAL_ADDRESS_TAG
    }

    /// Builds the address of a public key: the tag byte followed by the
    /// key bytes.
    pub fn from_pkey(pkey: &PublicKey) -> (r: NormalAddress)
        requires
            pkey.wf(),
        ensures
            r.wf(),
            r@ == seq![NORMAL_ADDRESS_TAG] + pkey@,
    {
        let mut bytes: Vec<u8> = Vec::new();
        bytes.push(NORMAL_ADDRESS_TAG);
        crate::codec::extend_bytes(&mut bytes, pkey.bytes.as_slice());
        proof {
            assert(bytes@ =~= seq![NORMAL_ADDRESS_TAG] + pkey@);
        }
        NormalAddress { bytes }
    }

    /// The public key the address exposes verbatim.
    pub fn pkey(&self) -> (r: PublicKey)
        requires
            self.wf(),
        ensures
            r@ == self@.subrange(1, 33),
            r.wf(),
    {
        PublicKey { bytes: crate::codec::slice_range_to_vec(self.bytes.as_slice(), 1, 33) }
    }

    /// Copies the 33 address bytes into a fresh vector.
    pub fn to_bytes(&self) -> (r: Vec<u8>)
        ensures
            r@ == self@,
    {
        crate::codec::slice_range_to_vec(self.bytes.as_slice(), 0, self.bytes.len())
    }

    /// Parses a normal address: exactly 33 bytes carrying the normal tag.
    pub fn from_bytes(s: &[u8]) -> (r: Option<NormalAddress>)
        ensures
            r is Some <==> s@.len() == 33 && s@[0] == NORMAL_ADDRESS_TAG,
            r is Some ==> r->0@ == s@ && r->0.wf(),
    {
        if s.len() == 33 && s[0] == NORMAL_ADDRESS_TAG {
            let bytes = crate::codec::slice_range_to_vec(s, 0, 33);
            proof {
                assert(bytes@ =~= s@);
            }
            Some(NormalAddress { bytes })
        } else {
            None
        }
    }

    /// Byte-wise equality.
    pub fn eq_addr(&self, other: &NormalAddress) -> (r: bool)
        ensures
            r == (self@ == other@),
    {
        crate::codec::bytes_eq(self.bytes.as_slice(), other.bytes.as_slice())
    }
}

/// An address of any kind: normal, multi-signature or shareholders. All
/// kinds share the 33-byte representation; the tag byte selects the kind.
#[derive(Clone, Debug, PartialEq, Eq)]
pub enum Address {
    Normal(NormalAddress),
    MultiSig { bytes: Vec<u8> },
    Shareholders { bytes: Vec<u8> },
}

impl View for Address {
    type V = Seq<u8>;

    open spec fn view(&self) -> Seq<u8> {
        match self {
            Address::Normal(a) => a@,
            Address::MultiSig { bytes } => bytes@,
            Address::Shareholders { bytes } => bytes@,
        }
    }
}

impl Address {
    pub open spec fn wf(&self) -> bool {
        match self {
            Address::Normal(a) => a.wf(),
            Address::MultiSig { bytes } => bytes@.len() == 33 && bytes@[0]
                == MULTI_SIG_ADDRESS_TAG,
            Address::Shareholders { bytes } => bytes@.len() == 33 && bytes@[0]
                == SHAREHOLDERS_ADDRESS_TAG,
        }
    }

    /// The normal address of a public key, as an `Address`.
    pub fn normal_from_pkey(pkey: &PublicKey) -> (r: Address)
        requires
            pkey.wf(),
        ensures
            r.wf(),
            r@ == seq![NORMAL_ADDRESS_TAG] + pkey@,
            r is Normal,
    {
        Address::Normal(NormalAddress::from_pkey(pkey))
    }

    /// Copies the 33 address bytes into a fresh vector.
    pub fn to_bytes(&self) -> (r: Vec<u8>)
        ensures
            r@ == self@,
    {
        match self {
            Address::Normal(a) => a.to_bytes(),
            Address::MultiSig { bytes } => crate::codec::slice_range_to_vec(
                bytes.as_slice(),
                0,
                bytes.len(),
            ),
            Address::Shareholders { bytes } => crate::codec::slice_range_to_vec(
                bytes.as_slice(),
                0,
                bytes.len(),
            ),
        }
    }

    /// Whether 33 tagged bytes decode to an address.
    pub open spec fn spec_parses(s: Seq<u8>) -> bool {
        s.len() == 33 && (s[0] == NORMAL_ADDRESS_TAG || s[0] == MULTI_SIG_ADDRESS_TAG || s[0]
            == SHAREHOLDERS_ADDRESS_TAG)
    }

    /// Parses an address of any kind: exactly 33 bytes whose first byte is
    /// one of the three tags.
    pub fn from_bytes(s: &[u8]) -> (r: Option<Address>)
        ensures
            r is Some <==> Self::spec_parses(s@),
            r is Some ==> r->0@ == s@ && r->0.wf(),
    {
        if s.len() != 33 {
            return None;
        }
        let tag = s[0];
        let bytes = crate::codec::slice_range_to_vec(s, 0, 33);
        proof {
            assert(bytes@ =~= s@);
        }
        if tag == NORMAL_ADDRESS_TAG {
            Some(Address::Normal(NormalAddress { bytes }))
        } else if tag == MULTI_SIG_ADDRESS_TAG {
            Some(Address::MultiSig { bytes })
        } else if tag == SHAREHOLDERS_ADDRESS_TAG {
            Some(Address::Shareholders { bytes })
        } else {
            None
        }
    }

    /// Byte-wise equality.
    pub fn eq_addr(&self, other: &Address) -> (r: bool)
        requires
            self.wf(),
            other.wf(),
        ensures
            r == (self@ == other@),
    {
        let a = self.to_bytes();
        let b = other.to_bytes();
        crate::codec::bytes_eq(a.as_slice(), b.as_slice())
    }
}

} // verus!
