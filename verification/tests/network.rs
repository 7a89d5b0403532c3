use purple_core::bootstrap::{BootstrapCache, PeerAddr};
use purple_core::crypto::{NodeId, SecretKey};
use purple_core::downloader::Downloader;
use purple_core::network::Network;
use purple_core::network_err::NetworkErr;
use purple_core::peer::{NetworkPriority, Peer, ReceiveState, PING_INTERVAL, TIMER_INTERVAL};

fn addr(n: u8) -> PeerAddr {
    PeerAddr { ip: n as u32, port: 44034 }
}

fn network(max_peers: usize) -> Network {
    Network::new(
        NodeId { bytes: vec![7; 32] },
        44034,
        "purple".to_string(),
        SecretKey::from_vec(vec![1; 32]),
        max_peers,
        BootstrapCache::new(8),
        Downloader::new(8),
        true,
    )
}

fn established_peer(n: u8) -> Peer {
    let mut peer = Peer::new(addr(n), 4, BootstrapCache::new(8));
    peer.out_key = Some(vec![9; 32]);
    peer.receive_state = ReceiveState::Established;
    peer
}

#[test]
fn peer_bookkeeping() {
    let mut net = network(2);
    assert_eq!(net.peer_count(), 0);
    net.add_peer(established_peer(1)).unwrap();
    net.add_peer(established_peer(2)).unwrap();
    assert_eq!(net.peer_count(), 2);
    assert_eq!(
        net.add_peer(established_peer(3)),
        Err(NetworkErr::MaximumPeersReached)
    );

    assert!(net.has_peer(addr(1)));
    assert!(net.is_connected_to(addr(2)));
    assert!(!net.has_peer(addr(3)));

    assert!(net.is_none_id(addr(1)));
    net.set_node_id(addr(1), NodeId { bytes: vec![5; 32] });
    assert!(!net.is_none_id(addr(1)));

    net.remove_peer_with_addr(addr(1));
    assert!(!net.has_peer(addr(1)));
    assert_eq!(net.peer_count(), 1);

    assert_eq!(net.port(), 44034);
    assert_eq!(net.network_name(), "purple");
    assert_eq!(net.our_node_id().bytes, vec![7; 32]);
    assert_eq!(net.skey().bytes, vec![1; 32]);
    assert_eq!(net.bootstrap_cache().len(), 0);
    assert_eq!(net.downloader().max_pieces, 8);
}

#[test]
fn send_packet_rules() {
    let mut peer = Peer::new(addr(1), 2, BootstrapCache::new(8));
    // No session key yet: still handshaking.
    assert_eq!(
        peer.send_packet(vec![1], NetworkPriority::Low),
        Err(NetworkErr::NoKeys)
    );
    peer.out_key = Some(vec![9; 32]);
    assert_eq!(peer.send_packet(vec![1], NetworkPriority::Low), Ok(()));
    assert_eq!(peer.send_packet(vec![2], NetworkPriority::Low), Ok(()));
    // The queue holds two packets: it is full.
    assert_eq!(
        peer.send_packet(vec![3], NetworkPriority::Low),
        Err(NetworkErr::CouldNotSend)
    );
    // A closing session accepts nothing.
    peer.receive_state = ReceiveState::Closing;
    assert_eq!(
        peer.send_packet(vec![4], NetworkPriority::High),
        Err(NetworkErr::SessionExpired)
    );
}

#[test]
fn priorities_drain_in_order() {
    let mut peer = established_peer(1);
    peer.send_packet(vec![1], NetworkPriority::Low).unwrap();
    peer.send_packet(vec![2], NetworkPriority::High).unwrap();
    peer.send_packet(vec![3], NetworkPriority::Medium).unwrap();
    peer.send_packet(vec![4], NetworkPriority::High).unwrap();

    // High preempts medium preempts low; within one priority, enqueue
    // order.
    assert_eq!(peer.next_packet(), Some(vec![2]));
    assert_eq!(peer.next_packet(), Some(vec![4]));
    assert_eq!(peer.next_packet(), Some(vec![3]));
    assert_eq!(peer.next_packet(), Some(vec![1]));
    assert_eq!(peer.next_packet(), None);
}

#[test]
fn send_to_peer_and_broadcast() {
    let mut net = network(4);
    assert_eq!(
        net.send_to_all(&[1, 2], NetworkPriority::Low),
        Err(NetworkErr::NoPeers)
    );

    net.add_peer(established_peer(1)).unwrap();
    let mut handshaking = Peer::new(addr(2), 4, BootstrapCache::new(8));
    handshaking.receive_state = ReceiveState::Handshaking;
    net.add_peer(handshaking).unwrap();

    assert_eq!(
        net.send_to_peer(addr(9), vec![5], NetworkPriority::Low),
        Err(NetworkErr::PeerNotFound)
    );
    assert_eq!(net.send_to_peer(addr(1), vec![5], NetworkPriority::Low), Ok(()));
    assert_eq!(
        net.send_to_peer(addr(2), vec![5], NetworkPriority::Low),
        Err(NetworkErr::NoKeys)
    );

    // Broadcast is best effort: the established peer gets the packet, the
    // handshaking one is skipped.
    assert_eq!(net.send_to_all(&[7, 7], NetworkPriority::High), Ok(()));
    assert_eq!(net.peers[0].queue_high.len(), 1);
    assert_eq!(net.peers[1].queue_high.len(), 0);

    // Except-broadcast skips the named address.
    net.add_peer(established_peer(3)).unwrap();
    assert_eq!(
        net.send_to_all_except(addr(1), &[8], NetworkPriority::High),
        Ok(())
    );
    assert_eq!(net.peers[0].queue_high.len(), 1);
    assert_eq!(net.peers[2].queue_high.len(), 1);
}

#[test]
fn timer_escalates_to_ping() {
    let mut peer = established_peer(1);
    let mut pinged = false;
    for _ in 0..(PING_INTERVAL / TIMER_INTERVAL + 1) {
        pinged = peer.timer_tick();
    }
    assert!(pinged);
    assert!(peer.last_ping > PING_INTERVAL);
    peer.mark_pinged();
    assert_eq!(peer.last_ping, 0);
    assert!(!peer.timer_tick());
}
