use purple_core::chain::{ChainErr, HardBlock, HardChain};
use purple_core::crypto::hash_slice;
use purple_core::address::{Address, NormalAddress};
use purple_core::balance::Balance;
use purple_core::change_minter::ChangeMinter;
use purple_core::crypto::{derive_pkey, SecretKey};

fn block(parent: Option<purple_core::crypto::Hash>, tag: &[u8], ts: u64) -> HardBlock {
    HardBlock::new(parent, hash_slice(tag), ts, vec![])
}

#[test]
fn append_happy_path() {
    // Start with an empty chain; append a genesis block with no parent,
    // then a block naming it: height two, top is the second block.
    let mut chain = HardChain::new();
    let b0 = block(None, b"delta 0", 1);
    assert_eq!(chain.append_block(b0.clone()), Ok(()));
    assert_eq!(chain.height(), 1);

    let b0_hash = chain.top().unwrap().block_hash();
    let b1 = block(Some(b0_hash.clone()), b"delta 1", 2);
    assert_eq!(chain.append_block(b1.clone()), Ok(()));
    assert_eq!(chain.height(), 2);
    assert_eq!(chain.top().unwrap(), &b1);
}

#[test]
fn append_wrong_parent() {
    let mut chain = HardChain::new();
    let b0 = block(None, b"delta 0", 1);
    chain.append_block(b0.clone()).unwrap();
    let b0_hash = chain.top().unwrap().block_hash();
    let b1 = block(Some(b0_hash.clone()), b"delta 1", 2);
    chain.append_block(b1).unwrap();

    // A block naming the genesis block instead of the top is refused and
    // the chain is unchanged.
    let b2 = block(Some(b0_hash), b"delta 2", 3);
    assert_eq!(chain.append_block(b2), Err(ChainErr::InvalidParent));
    assert_eq!(chain.height(), 2);
}

#[test]
fn append_requires_parent_once_started() {
    let mut chain = HardChain::new();
    chain.append_block(block(None, b"delta 0", 1)).unwrap();
    assert_eq!(
        chain.append_block(block(None, b"delta 1", 2)),
        Err(ChainErr::NoParentHash)
    );
}

#[test]
fn append_requires_closed_era() {
    let mut chain = HardChain::new();
    chain.set_era_closed(false);
    assert_eq!(
        chain.append_block(block(None, b"delta 0", 1)),
        Err(ChainErr::ValidatorEraNotClosed)
    );
    chain.set_era_closed(true);
    assert_eq!(chain.append_block(block(None, b"delta 0", 1)), Ok(()));
}

#[test]
fn parents_link_the_whole_chain() {
    let mut chain = HardChain::new();
    chain.append_block(block(None, b"delta 0", 1)).unwrap();
    for i in 1..5u64 {
        let top_hash = chain.top().unwrap().block_hash();
        chain
            .append_block(block(Some(top_hash), b"delta", i + 1))
            .unwrap();
    }
    assert_eq!(chain.height(), 5);
    for i in 1..5u64 {
        let prev_hash = chain.query_by_height(i - 1).unwrap().block_hash();
        let parent = chain.query_by_height(i).unwrap().parent_hash.clone().unwrap();
        assert_eq!(parent, prev_hash);
        // Querying by a block's hash finds the block at its height.
        assert_eq!(chain.block_height(&prev_hash), Some(i - 1));
    }
    let top_hash = chain.top().unwrap().block_hash();
    assert_eq!(chain.query(&top_hash).unwrap(), chain.top().unwrap());
    assert_eq!(chain.genesis().unwrap(), chain.query_by_height(0).unwrap());
}

#[test]
fn tx_failure_rolls_back() {
    let sk = SecretKey::from_vec(vec![1; 32]);
    let minter = NormalAddress::from_pkey(&derive_pkey(&sk));
    let sk2 = SecretKey::from_vec(vec![2; 32]);
    let new_minter = Address::Normal(NormalAddress::from_pkey(&derive_pkey(&sk2)));

    let mut chain = HardChain::new();
    chain.append_block(block(None, b"delta 0", 1)).unwrap();

    // The transaction does not validate against an empty trie: the append
    // fails and the chain stays at height one.
    let mut tx = ChangeMinter {
        minter,
        new_minter,
        asset_hash: hash_slice(b"asset"),
        fee_hash: hash_slice(b"fee"),
        fee: Balance::from_bytes(b"1.0").unwrap(),
        nonce: 1,
        signature: None,
        hash: None,
    };
    tx.sign(sk);
    tx.compute_hash();

    let top_hash = chain.top().unwrap().block_hash();
    let bad = HardBlock::new(Some(top_hash), hash_slice(b"delta 1"), 2, vec![tx]);
    assert_eq!(chain.append_block(bad), Err(ChainErr::TxApplyFailed));
    assert_eq!(chain.height(), 1);
}

#[test]
fn cached_lookups_agree_with_the_chain() {
    let mut chain = HardChain::new();
    chain.append_block(block(None, b"delta 0", 1)).unwrap();
    let mut hashes = vec![chain.top().unwrap().block_hash()];
    for i in 1..30u64 {
        let top_hash = chain.top().unwrap().block_hash();
        chain
            .append_block(block(Some(top_hash), b"delta", i + 1))
            .unwrap();
        hashes.push(chain.top().unwrap().block_hash());
    }

    // First pass fills the cache past its bound; the second answers the
    // most recent queries from it. Both agree with the block list.
    for round in 0..2 {
        let _ = round;
        for (i, h) in hashes.iter().enumerate() {
            assert_eq!(chain.cached_block_height(h), Some(i as u64));
        }
    }
    assert!(chain.block_cache.len() <= 20);
    let absent = hash_slice(b"absent");
    assert_eq!(chain.cached_block_height(&absent), None);
}
