use purple_core::address::{Address, NormalAddress};
use purple_core::balance::Balance;
use purple_core::crypto::{derive_pkey, hash_slice, SecretKey, Signature};
use purple_core::mint::Mint;

fn mint() -> Mint {
    let sk = SecretKey::from_vec(vec![1; 32]);
    let minter = Address::Normal(NormalAddress::from_pkey(&derive_pkey(&sk)));
    Mint {
        minter,
        amount: Balance::from_bytes(b"250.5").unwrap(),
        currency_hash: hash_slice(b"currency"),
        fee_hash: hash_slice(b"fee"),
        fee: Balance::from_bytes(b"0.25").unwrap(),
        hash: Some(hash_slice(b"tx")),
        signature: Some(Signature::from_bytes(&[7; 64]).unwrap()),
    }
}

#[test]
fn mint_serialize_deserialize() {
    let tx = mint();
    let bytes = tx.to_bytes().unwrap();
    let parsed = Mint::from_bytes(&bytes).unwrap();
    assert_eq!(parsed, tx);
}

#[test]
fn to_bytes_needs_hash_and_signature() {
    let mut tx = mint();
    tx.hash = None;
    assert!(tx.to_bytes().is_err());
    let mut tx = mint();
    tx.signature = None;
    assert!(tx.to_bytes().is_err());
}

#[test]
fn from_bytes_rejects_malformed_buffers() {
    let tx = mint();
    let bytes = tx.to_bytes().unwrap();

    let mut wrong_tag = bytes.clone();
    wrong_tag[0] = 8;
    assert!(Mint::from_bytes(&wrong_tag).is_err());

    // A truncated buffer no longer matches its length fields.
    assert!(Mint::from_bytes(&bytes[..bytes.len() - 1]).is_err());
    assert!(Mint::from_bytes(&[]).is_err());

    // A fee that does not parse as a decimal.
    let mut bad_fee = bytes.clone();
    let fee_len = bytes[1] as usize;
    let amount_len = bytes[2] as usize;
    let fee_start = 134 + amount_len;
    for i in 0..fee_len {
        bad_fee[fee_start + i] = b'x';
    }
    assert!(Mint::from_bytes(&bad_fee).is_err());
}
