use purple_core::codec::{decode_be_u16, decode_be_u64, encode_be_u16, encode_be_u64};
use purple_core::crypto::{derive_pkey, hash_slice, sign_message, to_hex, verify_message,
    SecretKey};
use purple_core::genesis::Genesis;
use purple_core::keys;
use purple_core::trie::Trie;
use purple_core::address::{Address, NormalAddress};

#[test]
fn big_endian_round_trips() {
    let bytes = encode_be_u64(0x0102030405060708);
    assert_eq!(bytes, vec![1, 2, 3, 4, 5, 6, 7, 8]);
    assert_eq!(decode_be_u64(&bytes), 0x0102030405060708);
    let bytes = encode_be_u16(0x1234);
    assert_eq!(bytes, vec![0x12, 0x34]);
    assert_eq!(decode_be_u16(&bytes), 0x1234);
}

#[test]
fn hex_encodes_two_digits_per_byte() {
    assert_eq!(to_hex(&[1, 2, 3, 0x0f, 0x10]), b"0102030f10".to_vec());
    assert_eq!(to_hex(&[]), b"".to_vec());
    assert_eq!(to_hex(&[0xff]), b"ff".to_vec());
}

#[test]
fn digest_is_thirty_two_bytes_and_keyed_by_input() {
    let a = hash_slice(b"purple");
    let b = hash_slice(b"purple");
    let c = hash_slice(b"purplf");
    assert_eq!(a.to_vec().len(), 32);
    assert_eq!(a, b);
    assert_ne!(a, c);
}

#[test]
fn signatures_verify_and_tampering_invalidates() {
    let sk = SecretKey::from_vec(vec![3; 32]);
    let pk = derive_pkey(&sk);
    let msg = b"state transition".to_vec();
    let sig = sign_message(&msg, &sk);
    assert!(verify_message(&msg, &sig, &pk));

    // Any changed message byte invalidates the signature.
    for i in 0..msg.len() {
        let mut tampered = msg.clone();
        tampered[i] ^= 1;
        assert!(!verify_message(&tampered, &sig, &pk));
    }

    // A different key does not verify it either.
    let other = derive_pkey(&SecretKey::from_vec(vec![4; 32]));
    assert!(!verify_message(&msg, &sig, &other));
}

#[test]
fn trie_stores_and_snapshots() {
    let mut trie = Trie::new();
    assert!(trie.is_empty());
    trie.insert(b"a.n".to_vec(), vec![1]);
    trie.insert(b"b.n".to_vec(), vec![2]);
    trie.insert(b"a.n".to_vec(), vec![3]);
    assert_eq!(trie.get(b"a.n").unwrap().clone(), vec![3]);
    assert_eq!(trie.get(b"b.n").unwrap().clone(), vec![2]);
    assert!(trie.get(b"c.n").is_none());

    let snapshot = trie.snapshot();
    trie.insert(b"a.n".to_vec(), vec![4]);
    assert_eq!(snapshot.get(b"a.n").unwrap().clone(), vec![3]);
    assert_eq!(trie.get(b"a.n").unwrap().clone(), vec![4]);

    // The root hash commits to the entries.
    assert_ne!(trie.commit(), snapshot.commit());
}

#[test]
fn genesis_writes_the_coinbase() {
    let genesis = Genesis::default();
    let asset = genesis.asset_hash.clone();
    assert_eq!(asset, hash_slice(b"purple"));

    let mut trie = Trie::new();
    genesis.apply(&mut trie);
    let coinbase = trie.get(&keys::coinbase_key(&asset.to_vec())).unwrap();
    assert_eq!(coinbase.clone(), b"500000000.0".to_vec());
}

#[test]
fn genesis_funds_listed_accounts() {
    let sk = SecretKey::from_vec(vec![9; 32]);
    let account = NormalAddress::from_pkey(&derive_pkey(&sk));
    let genesis = Genesis {
        accounts: vec![(account.clone(), 1000)],
        ..Genesis::default()
    };
    let mut trie = Trie::new();
    genesis.apply(&mut trie);

    let bin = account.to_bytes();
    let asset = genesis.asset_hash.to_vec();
    assert_eq!(
        trie.get(&keys::nonce_key(&bin)).unwrap().clone(),
        vec![0, 0, 0, 0, 0, 0, 0, 0]
    );
    assert_eq!(
        trie.get(&keys::currency_key(&bin, &asset)).unwrap().clone(),
        b"1000.0".to_vec()
    );
    assert_eq!(trie.get(&keys::mapping_key(&bin)).unwrap().clone(), bin);
    assert_eq!(
        trie.get(&keys::coinbase_key(&asset)).unwrap().clone(),
        b"499999000.0".to_vec()
    );
}

#[test]
fn addresses_round_trip() {
    let sk = SecretKey::from_vec(vec![2; 32]);
    let pk = derive_pkey(&sk);
    let normal = NormalAddress::from_pkey(&pk);
    assert_eq!(normal.pkey(), pk);

    let bytes = normal.to_bytes();
    assert_eq!(bytes.len(), 33);
    assert_eq!(NormalAddress::from_bytes(&bytes).unwrap(), normal);

    let addr = Address::from_bytes(&bytes).unwrap();
    assert_eq!(addr.to_bytes(), bytes);

    // A wrong tag or length does not decode.
    assert!(Address::from_bytes(&[9; 33]).is_none());
    assert!(Address::from_bytes(&bytes[..32]).is_none());
    assert!(NormalAddress::from_bytes(&[2; 33]).is_none());
}
