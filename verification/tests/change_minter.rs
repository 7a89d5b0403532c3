use purple_core::address::{Address, NormalAddress};
use purple_core::balance::Balance;
use purple_core::change_minter::ChangeMinter;
use purple_core::crypto::{derive_pkey, hash_slice, SecretKey};
use purple_core::keys;
use purple_core::trie::Trie;

fn keypair(seed: u8) -> (SecretKey, NormalAddress) {
    let sk = SecretKey::from_vec(vec![seed; 32]);
    let pk = derive_pkey(&sk);
    let addr = NormalAddress::from_pkey(&pk);
    (sk, addr)
}

/// Writes an account's zero nonce, balance and address mapping, like the
/// ledger does when an account is created.
fn init_balance(trie: &mut Trie, addr: &NormalAddress, fee_hash: &purple_core::crypto::Hash,
    balance: &[u8]) {
    let bin = addr.to_bytes();
    trie.insert(keys::nonce_key(&bin), vec![0, 0, 0, 0, 0, 0, 0, 0]);
    trie.insert(keys::currency_key(&bin, &fee_hash.to_vec()), balance.to_vec());
    trie.insert(keys::mapping_key(&bin), bin.clone());
}

#[test]
fn validate() {
    let (sk, minter_norm_address) = keypair(1);
    let (_sk2, new_minter_norm) = keypair(2);
    let new_minter_addr = Address::Normal(new_minter_norm);

    let mut trie = Trie::new();

    let asset_hash = hash_slice(b"Test currency 1");
    let fee_hash = hash_slice(b"Test currency 2");

    // Manually initialize the minter balance, and register the minter for
    // the asset.
    init_balance(&mut trie, &minter_norm_address, &fee_hash, b"100.0");
    trie.insert(
        keys::minter_key(&asset_hash.to_vec()),
        minter_norm_address.to_bytes(),
    );

    let fee = Balance::from_bytes(b"10.0").unwrap();

    let mut tx = ChangeMinter {
        minter: minter_norm_address.clone(),
        new_minter: new_minter_addr.clone(),
        asset_hash,
        fee_hash,
        fee,
        nonce: 1,
        signature: None,
        hash: None,
    };

    tx.sign(sk);
    tx.compute_hash();

    assert!(tx.validate(&trie));
}

#[test]
fn validate_cannot_pay_fee() {
    let (sk, minter_norm_address) = keypair(1);
    let (_sk2, new_minter_norm) = keypair(2);
    let new_minter_addr = Address::Normal(new_minter_norm);

    let mut trie = Trie::new();

    let asset_hash = hash_slice(b"Test currency 1");
    let fee_hash = hash_slice(b"Test currency 2");

    init_balance(&mut trie, &minter_norm_address, &fee_hash, b"100.0");
    trie.insert(
        keys::minter_key(&asset_hash.to_vec()),
        minter_norm_address.to_bytes(),
    );

    let fee = Balance::from_bytes(b"1000.0").unwrap();

    let mut tx = ChangeMinter {
        minter: minter_norm_address.clone(),
        new_minter: new_minter_addr.clone(),
        asset_hash,
        fee_hash,
        fee,
        nonce: 1,
        signature: None,
        hash: None,
    };

    tx.sign(sk);
    tx.compute_hash();

    assert!(!tx.validate(&trie));
}

#[test]
fn validate_no_minter() {
    let (sk, minter_norm_address) = keypair(1);
    let (_sk2, new_minter_norm) = keypair(2);
    let new_minter_addr = Address::Normal(new_minter_norm);

    let trie = Trie::new();

    let asset_hash = hash_slice(b"Test currency 1");
    let fee_hash = hash_slice(b"Test currency 2");

    let fee = Balance::from_bytes(b"10.0").unwrap();

    let mut tx = ChangeMinter {
        minter: minter_norm_address.clone(),
        new_minter: new_minter_addr.clone(),
        asset_hash,
        fee_hash,
        fee,
        nonce: 1,
        signature: None,
        hash: None,
    };

    tx.sign(sk);
    tx.compute_hash();

    assert!(!tx.validate(&trie));
}

#[test]
fn apply_it_changes_minter() {
    let (sk, creator_norm_address) = keypair(1);
    let (_sk2, minter_norm) = keypair(2);
    let minter_addr = Address::Normal(minter_norm);
    let asset_hash = hash_slice(b"Test currency 1");
    let fee_hash = hash_slice(b"Test currency 2");

    let mut trie = Trie::new();

    // Manually initialize the creator balance and register `minter_addr`
    // as the asset's minter, the state a mintable-asset creation leaves
    // behind.
    init_balance(&mut trie, &creator_norm_address, &fee_hash, b"100.0");
    trie.insert(
        keys::minter_key(&asset_hash.to_vec()),
        minter_addr.to_bytes(),
    );

    let asset_hash_minter_key = keys::minter_key(&asset_hash.to_vec());

    // Check the minter address.
    assert_eq!(
        trie.get(&asset_hash_minter_key).unwrap().clone(),
        minter_addr.to_bytes()
    );

    let (_sk3, new_minter_norm) = keypair(3);
    let new_minter_addr = Address::Normal(new_minter_norm);

    assert_ne!(
        trie.get(&asset_hash_minter_key).unwrap().clone(),
        new_minter_addr.to_bytes()
    );

    // Hand the minter role to the creator so the change-minter transaction
    // validates, then apply it.
    trie.insert(
        keys::minter_key(&asset_hash.to_vec()),
        creator_norm_address.to_bytes(),
    );

    let fee = Balance::from_bytes(b"10.0").unwrap();

    let mut tx = ChangeMinter {
        minter: creator_norm_address.clone(),
        new_minter: new_minter_addr.clone(),
        asset_hash,
        fee_hash,
        fee,
        nonce: 1,
        signature: None,
        hash: None,
    };

    tx.sign(sk);
    tx.compute_hash();

    assert!(tx.validate(&trie));
    tx.apply(&mut trie);

    // Check the minter address.
    assert_ne!(
        trie.get(&asset_hash_minter_key).unwrap().clone(),
        minter_addr.to_bytes()
    );
    assert_eq!(
        trie.get(&asset_hash_minter_key).unwrap().clone(),
        new_minter_addr.to_bytes()
    );
}

#[test]
fn apply_debits_fee_and_bumps_nonce() {
    let (sk, minter) = keypair(7);
    let (_sk2, new_minter_norm) = keypair(8);
    let new_minter = Address::Normal(new_minter_norm);
    let asset_hash = hash_slice(b"Test currency 1");
    let fee_hash = hash_slice(b"Test currency 2");

    let mut trie = Trie::new();
    init_balance(&mut trie, &minter, &fee_hash, b"100.0");
    trie.insert(keys::minter_key(&asset_hash.to_vec()), minter.to_bytes());

    let mut tx = ChangeMinter {
        minter: minter.clone(),
        new_minter: new_minter.clone(),
        asset_hash,
        fee_hash: fee_hash.clone(),
        fee: Balance::from_bytes(b"10.0").unwrap(),
        nonce: 1,
        signature: None,
        hash: None,
    };
    tx.sign(sk);
    tx.compute_hash();

    assert!(tx.validate(&trie));
    tx.apply(&mut trie);

    let bin = minter.to_bytes();
    // The sender's balance dropped by exactly the fee, and its nonce rose
    // by exactly one.
    assert_eq!(
        trie.get(&keys::currency_key(&bin, &fee_hash.to_vec())).unwrap().clone(),
        b"90.0".to_vec()
    );
    assert_eq!(
        trie.get(&keys::nonce_key(&bin)).unwrap().clone(),
        vec![0, 0, 0, 0, 0, 0, 0, 1]
    );
    // The new minter's account was created with a zero nonce.
    let new_bin = new_minter.to_bytes();
    assert_eq!(
        trie.get(&keys::nonce_key(&new_bin)).unwrap().clone(),
        vec![0, 0, 0, 0, 0, 0, 0, 0]
    );
}

#[test]
fn serialize_deserialize() {
    let (sk, minter) = keypair(4);
    let (_sk2, new_minter_norm) = keypair(5);
    let mut tx = ChangeMinter {
        minter,
        new_minter: Address::Normal(new_minter_norm),
        asset_hash: hash_slice(b"asset"),
        fee_hash: hash_slice(b"fee"),
        fee: Balance::from_bytes(b"12.75").unwrap(),
        nonce: 42,
        signature: None,
        hash: None,
    };
    tx.sign(sk);
    tx.compute_hash();
    let bytes = tx.to_bytes().unwrap();
    let parsed = ChangeMinter::from_bytes(&bytes).unwrap();
    assert_eq!(parsed, tx);
}

#[test]
fn verify_hash() {
    let (sk, minter) = keypair(4);
    let (_sk2, new_minter_norm) = keypair(5);
    let mut tx = ChangeMinter {
        minter,
        new_minter: Address::Normal(new_minter_norm),
        asset_hash: hash_slice(b"asset"),
        fee_hash: hash_slice(b"fee"),
        fee: Balance::from_bytes(b"1.0").unwrap(),
        nonce: 9,
        signature: None,
        hash: None,
    };
    tx.sign(sk);
    for _ in 0..3 {
        tx.compute_hash();
    }
    assert!(tx.verify_hash());
}

#[test]
fn verify_signature() {
    let (sk, minter) = keypair(6);
    let (_sk2, new_minter_norm) = keypair(7);
    let mut tx = ChangeMinter {
        minter,
        new_minter: Address::Normal(new_minter_norm),
        asset_hash: hash_slice(b"asset"),
        fee_hash: hash_slice(b"fee"),
        fee: Balance::from_bytes(b"3.5").unwrap(),
        nonce: 1,
        signature: None,
        hash: None,
    };
    tx.sign(sk);
    assert!(tx.verify_sig());
}

#[test]
fn tampered_message_invalidates_signature() {
    let (sk, minter) = keypair(6);
    let (_sk2, new_minter_norm) = keypair(7);
    let mut tx = ChangeMinter {
        minter,
        new_minter: Address::Normal(new_minter_norm),
        asset_hash: hash_slice(b"asset"),
        fee_hash: hash_slice(b"fee"),
        fee: Balance::from_bytes(b"3.5").unwrap(),
        nonce: 1,
        signature: None,
        hash: None,
    };
    tx.sign(sk);
    assert!(tx.verify_sig());
    // Change a byte of the assembled message: the signature no longer
    // verifies.
    tx.nonce = 2;
    assert!(tx.verify_sig());
    // The nonce is not part of the assembled message; changing the fee is.
    tx.fee = Balance::from_bytes(b"3.6").unwrap();
    assert!(!tx.verify_sig());
}

#[test]
fn missing_signature_fails() {
    let (_sk, minter) = keypair(6);
    let (_sk2, new_minter_norm) = keypair(7);
    let tx = ChangeMinter {
        minter,
        new_minter: Address::Normal(new_minter_norm),
        asset_hash: hash_slice(b"asset"),
        fee_hash: hash_slice(b"fee"),
        fee: Balance::from_bytes(b"3.5").unwrap(),
        nonce: 1,
        signature: None,
        hash: None,
    };
    assert!(!tx.verify_sig());
    assert!(tx.to_bytes().is_err());
}

#[test]
fn from_bytes_rejects_wrong_type_tag() {
    let (sk, minter) = keypair(4);
    let (_sk2, new_minter_norm) = keypair(5);
    let mut tx = ChangeMinter {
        minter,
        new_minter: Address::Normal(new_minter_norm),
        asset_hash: hash_slice(b"asset"),
        fee_hash: hash_slice(b"fee"),
        fee: Balance::from_bytes(b"1.0").unwrap(),
        nonce: 1,
        signature: None,
        hash: None,
    };
    tx.sign(sk);
    tx.compute_hash();
    let mut bytes = tx.to_bytes().unwrap();
    bytes[0] = 9;
    assert!(ChangeMinter::from_bytes(&bytes).is_err());
    assert!(ChangeMinter::from_bytes(&bytes[..20]).is_err());
}
