use purple_core::bootstrap::{BootstrapCache, PeerAddr};
use purple_core::network_err::NetworkErr;
use purple_core::protocol_flow::{
    PingPongReceiver, PingPongSender, Pong, RequestBlocksReceiver, RequestBlocksPacket,
    RequestPeers, RequestPeersReceiver, RequestPeersSender, SendPeers,
};
use purple_core::address::{Address, NormalAddress};
use purple_core::balance::Balance;
use purple_core::chain::{HardBlock, HardChain};
use purple_core::change_minter::ChangeMinter;
use purple_core::crypto::{derive_pkey, hash_slice, SecretKey};
use purple_core::keys;
use purple_core::protocol_flow::{GossipAction, TransactionPropagation};
use purple_core::trie::Trie;

fn addr(n: u8) -> PeerAddr {
    PeerAddr { ip: n as u32, port: 9000 }
}

#[test]
fn ping_pong_round() {
    let mut sender = PingPongSender::new();
    let receiver = PingPongReceiver::new();

    let ping = sender.send(7).unwrap();
    // A second ping while one is outstanding is refused.
    assert_eq!(sender.send(8), Err(NetworkErr::SenderStateErr));

    let pong = receiver.receive(&ping);
    assert_eq!(pong.nonce, 7);
    assert_eq!(sender.receive(&pong), Ok(()));
    // Back to ready: a new ping goes out.
    assert!(sender.send(8).is_ok());
}

#[test]
fn pong_with_wrong_nonce_is_an_error() {
    let mut sender = PingPongSender::new();
    sender.send(7).unwrap();
    // A pong with a nonce other than the outstanding one never succeeds,
    // and the ping stays outstanding.
    assert_eq!(sender.receive(&Pong { nonce: 8 }), Err(NetworkErr::AckErr));
    assert_eq!(sender.send(9), Err(NetworkErr::SenderStateErr));
    // An unsolicited pong is an error too.
    sender.reset();
    assert_eq!(sender.receive(&Pong { nonce: 7 }), Err(NetworkErr::SenderStateErr));
}

#[test]
fn request_peers_serves_samples() {
    let mut cache = BootstrapCache::new(8);
    for i in 0..5 {
        cache.insert(addr(i), i as u64).unwrap();
    }
    let mut receiver = RequestPeersReceiver::new(cache);
    assert!(receiver.can_receive());

    // Five stored entries, three requested: exactly three distinct ones.
    let reply = receiver.receive(&RequestPeers { nonce: 7, requested_peers: 3 }).unwrap();
    assert_eq!(reply.nonce, 7);
    assert_eq!(reply.peers.len(), 3);
    for i in 0..3 {
        for j in (i + 1)..3 {
            assert_ne!(reply.peers[i], reply.peers[j]);
        }
    }

    // Ten requested: all five come back.
    let reply = receiver.receive(&RequestPeers { nonce: 8, requested_peers: 10 }).unwrap();
    assert_eq!(reply.nonce, 8);
    assert_eq!(reply.peers.len(), 5);
}

#[test]
fn request_peers_sender_checks_replies() {
    let mut sender = RequestPeersSender::new();
    let request = sender.send(7, 3).unwrap();
    assert_eq!(request.nonce, 7);
    assert_eq!(request.requested_peers, 3);

    // A wrong nonce was never asked for.
    let reply = SendPeers { peers: vec![addr(1)], nonce: 9 };
    assert_eq!(sender.receive(reply), Err(NetworkErr::DidntAskForPeers));

    // More addresses than asked for.
    let reply = SendPeers { peers: vec![addr(1), addr(2), addr(3), addr(4)], nonce: 7 };
    assert_eq!(sender.receive(reply), Err(NetworkErr::TooManyPeers));

    // A fitting reply hands the addresses out and frees the sender.
    let reply = SendPeers { peers: vec![addr(1), addr(2)], nonce: 7 };
    assert_eq!(sender.receive(reply), Ok(vec![addr(1), addr(2)]));
    let unsolicited = SendPeers { peers: vec![], nonce: 7 };
    assert_eq!(sender.receive(unsolicited), Err(NetworkErr::DidntAskForPeers));
}

#[test]
fn bootstrap_cache_rules() {
    let mut cache = BootstrapCache::new(3);
    assert_eq!(cache.insert(addr(1), 10), Ok(()));
    // An address already stored is refused.
    assert!(cache.insert(addr(1), 11).is_err());
    assert_eq!(cache.insert(addr(2), 5), Ok(()));
    assert_eq!(cache.insert(addr(3), 20), Ok(()));
    assert_eq!(cache.len(), 3);

    // A full cache evicts the entry with the oldest success.
    assert_eq!(cache.insert(addr(4), 30), Ok(()));
    assert_eq!(cache.len(), 3);
    assert!(!cache.contains(addr(2)));
    assert!(cache.contains(addr(1)));
    assert!(cache.contains(addr(4)));

    cache.remove(addr(1));
    assert!(!cache.contains(addr(1)));
    assert_eq!(cache.len(), 2);
}

#[test]
fn request_blocks_flow() {
    let mut chain = HardChain::new();
    chain
        .append_block(HardBlock::new(None, hash_slice(b"delta 0"), 1, vec![]))
        .unwrap();
    for i in 1..4u64 {
        let top = chain.top().unwrap().block_hash();
        chain
            .append_block(HardBlock::new(Some(top), hash_slice(b"delta"), i + 1, vec![]))
            .unwrap();
    }

    let receiver = RequestBlocksReceiver::new();
    // A range over the configured maximum is refused.
    let over = RequestBlocksPacket { nonce: 1, from_height: 0, count: 1000 };
    assert!(receiver.receive(&chain, &over).is_err());

    // The chain has four blocks; asking for three starting at one serves
    // heights one to three.
    let packet = RequestBlocksPacket { nonce: 1, from_height: 1, count: 3 };
    let blocks = receiver.receive(&chain, &packet).unwrap();
    assert_eq!(blocks.len(), 3);
    assert_eq!(blocks[0], chain.query_by_height(1).unwrap());

    // Asking past the top truncates to what is stored.
    let packet = RequestBlocksPacket { nonce: 2, from_height: 2, count: 10 };
    let blocks = receiver.receive(&chain, &packet).unwrap();
    assert_eq!(blocks.len(), 2);

    // The sender tracks the outstanding range in order.
    let mut sender = purple_core::protocol_flow::RequestBlocksSender::new();
    let request = sender.send(5, 1, 2).unwrap();
    assert_eq!(request.count, 2);
    assert_eq!(sender.receive(5, 2), Err(NetworkErr::AckErr));
    assert_eq!(sender.receive(5, 1), Ok(()));
    assert_eq!(sender.receive(5, 2), Ok(()));
    // The range is complete: the sender is ready again.
    assert!(sender.send(6, 0, 1).is_ok());
}

#[test]
fn gossip_pools_and_rebroadcasts() {
    let sk = SecretKey::from_vec(vec![1; 32]);
    let minter = NormalAddress::from_pkey(&derive_pkey(&sk));
    let sk2 = SecretKey::from_vec(vec![2; 32]);
    let new_minter = Address::Normal(NormalAddress::from_pkey(&derive_pkey(&sk2)));
    let asset_hash = hash_slice(b"asset");
    let fee_hash = hash_slice(b"fee");

    let mut trie = Trie::new();
    let bin = minter.to_bytes();
    trie.insert(keys::nonce_key(&bin), vec![0, 0, 0, 0, 0, 0, 0, 0]);
    trie.insert(keys::currency_key(&bin, &fee_hash.to_vec()), b"100.0".to_vec());
    trie.insert(keys::minter_key(&asset_hash.to_vec()), bin.clone());

    let mut tx = ChangeMinter {
        minter,
        new_minter,
        asset_hash,
        fee_hash,
        fee: Balance::from_bytes(b"10.0").unwrap(),
        nonce: 1,
        signature: None,
        hash: None,
    };
    tx.sign(sk);
    tx.compute_hash();

    let mut gossip = TransactionPropagation::new();
    // A valid, new transaction is pooled and re-broadcast; the same
    // transaction again is dropped.
    assert_eq!(gossip.receive_gossip(&trie, tx.clone()), GossipAction::Rebroadcast);
    assert_eq!(gossip.receive_gossip(&trie, tx.clone()), GossipAction::Drop);

    // An invalid transaction is dropped and not pooled.
    let mut bad = tx.clone();
    bad.nonce = 9;
    let mut gossip = TransactionPropagation::new();
    assert_eq!(gossip.receive_gossip(&trie, bad), GossipAction::Drop);
}
