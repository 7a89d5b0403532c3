//! The network: the map from socket addresses to connected peers, the
//! node's identity and keys, the shared downloader and bootstrap cache,
//! and the send paths that enqueue packets on peers' priority queues.

use vstd::prelude::*;

use crate::bootstrap::{BootstrapCache, PeerAddr};
use crate::downloader::Downloader;
use crate::network_err::NetworkErr;
use crate::peer::{NetworkPriority, Peer};

verus! {

/// The index of the peer entry for `addr`, if connected.
pub open spec fn spec_find_peer(peers: Seq<Peer>, addr: PeerAddr) -> Option<int>
    decreases peers.len(),
{
    if peers.len() == 0 {
        None
    } else if peers[0].addr == addr {
        Some(0)
    } else {
        match spec_find_peer(peers.subrange(1, peers.len() as int), addr) {
            Some(i) => Some(i + 1),
            None => None,
        }
    }
}

/// A found peer index is in range and names the address.
pub proof fn lemma_find_peer_some(peers: Seq<Peer>, addr: PeerAddr)
    requires
        spec_find_peer(peers, addr) is Some,
    ensures
        0 <= spec_find_peer(peers, addr)->0 < peers.len(),
        peers[spec_find_peer(peers, addr)->0].addr == addr,
    decreases peers.len(),
{
    if peers.len() > 0 && peers[0].addr != addr {
        lemma_find_peer_some(peers.subrange(1, peers.len() as int), addr);
    }
}

/// An absent address is absent at every index.
pub proof fn lemma_find_peer_none(peers: Seq<Peer>, addr: PeerAddr)
    requires
        spec_find_peer(peers, addr) is None,
    ensures
        forall|i: int| 0 <= i < peers.len() ==> (#[trigger] peers[i]).addr != addr,
    decreases peers.len(),
{
    if peers.len() > 0 {
        let rest = peers.subrange(1, peers.len() as int);
        lemma_find_peer_none(rest, addr);
        assert(forall|i: int| 1 <= i < peers.len() ==> peers[i] == rest[i - 1]);
    }
}

/// The networking core of one node.
#[derive(Debug)]
pub struct Network {
    /// The connected peers, unique by socket address.
    pub peers: Vec<Peer>,
    /// Our node id.
    pub node_id: crate::crypto::NodeId,
    /// Our secret key.
    pub secret_key: crate::crypto::SecretKey,
    /// The port we accept connections on.
    pub port: u16,
    /// The name of the network we are on.
    pub network_name: String,
    /// The most peers we connect to.
    pub max_peers: usize,
    /// The bootstrap cache.
    pub bootstrap_cache: BootstrapCache,
    /// The shared downloader.
    pub downloader: Downloader,
    /// Whether new connections are accepted.
    pub accept_connections: bool,
}

impl Network {
    pub open spec fn wf(&self) -> bool {
        &&& forall|i: int, j: int|
            0 <= i < j < self.peers@.len() ==> (#[trigger] self.peers@[i]).addr != (
            #[trigger] self.peers@[j]).addr
        &&& forall|i: int| 0 <= i < self.peers@.len() ==> (#[trigger] self.peers@[i]).wf()
        &&& self.peers@.len() <= self.max_peers
        &&& self.bootstrap_cache.wf()
        &&& self.downloader.wf()
    }

    /// A network with no connected peers.
    pub fn new(
        node_id: crate::crypto::NodeId,
        port: u16,
        network_name: String,
        secret_key: crate::crypto::SecretKey,
        max_peers: usize,
        bootstrap_cache: BootstrapCache,
        downloader: Downloader,
        accept_connections: bool,
    ) -> (r: Network)
        requires
            bootstrap_cache.wf(),
            downloader.wf(),
        ensures
            r.wf(),
            r.peers@.len() == 0,
            r.node_id == node_id,
            r.port == port,
            r.max_peers == max_peers,
            r.accept_connections == accept_connections,
    {
        Network {
            peers: Vec::new(),
            node_id,
            secret_key,
            port,
            network_name,
            max_peers,
            bootstrap_cache,
            downloader,
            accept_connections,
        }
    }

    fn find_peer(&self, addr: PeerAddr) -> (r: Option<usize>)
        ensures
            r is Some <==> spec_find_peer(self.peers@, addr) is Some,
            r is Some ==> spec_find_peer(self.peers@, addr) == Some(r->0 as int) && 0 <= r->0
                < self.peers@.len() && self.peers@[r->0 as int].addr == addr,
    {
        let n = self.peers.len();
        proof {
            assert(self.peers@.subrange(0, n as int) =~= self.peers@);
            if spec_find_peer(self.peers@, addr) is Some {
                lemma_find_peer_some(self.peers@, addr);
            }
        }
        let mut i: usize = 0;
        while i < n
            invariant
                0 <= i <= n == self.peers@.len(),
                spec_find_peer(self.peers@, addr) == match spec_find_peer(
                    self.peers@.subrange(i as int, n as int),
                    addr,
                ) {
                    Some(k) => Some(k + i),
                    None => None::<int>,
                },
            decreases n - i,
        {
            proof {
                let rest = self.peers@.subrange(i as int, n as int);
                assert(rest[0] == self.peers@[i as int]);
                assert(rest.subrange(1, rest.len() as int) =~= self.peers@.subrange(
                    i + 1,
                    n as int,
                ));
            }
            if self.peers[i].addr.ip == addr.ip && self.peers[i].addr.port == addr.port {
                return Some(i);
            }
            i = i + 1;
        }
        proof {
            assert(self.peers@.subrange(n as int, n as int) =~= Seq::<Peer>::empty());
        }
        None
    }

    /// Lists a newly connected peer. Fails with `MaximumPeersReached` at
    /// the limit; an entry for the same address must not exist yet.
    pub fn add_peer(&mut self, peer: Peer) -> (r: Result<(), NetworkErr>)
        requires
            old(self).wf(),
            peer.wf(),
            spec_find_peer(old(self).peers@, peer.addr) is None,
        ensures
            final(self).wf(),
            old(self).peers@.len() < old(self).max_peers ==> r is Ok && final(self).peers@ == old(
                self,
            ).peers@.push(peer),
            old(self).peers@.len() >= old(self).max_peers ==> r == Err::<(), NetworkErr>(
                NetworkErr::MaximumPeersReached,
            ) && final(self).peers@ == old(self).peers@,
    {
        if self.peers.len() < self.max_peers {
            proof {
                lemma_find_peer_none(self.peers@, peer.addr);
            }
            let ghost pre = self.peers@;
            self.peers.push(peer);
            proof {
                assert(forall|j: int| 0 <= j < pre.len() ==> self.peers@[j] == pre[j]);
            }
            Ok(())
        } else {
            Err(NetworkErr::MaximumPeersReached)
        }
    }

    /// The number of listed peers.
    pub fn peer_count(&self) -> (r: usize)
        ensures
            r == self.peers@.len(),
    {
        self.peers.len()
    }

    /// A reference to the stored secret key.
    pub fn skey(&self) -> (r: &crate::crypto::SecretKey)
        ensures
            r == &self.secret_key,
    {
        &self.secret_key
    }

    /// Sets the node id of the peer with the given address, which must be
    /// listed.
    pub fn set_node_id(&mut self, addr: PeerAddr, node_id: crate::crypto::NodeId)
        requires
            old(self).wf(),
            spec_find_peer(old(self).peers@, addr) is Some,
        ensures
            final(self).wf(),
            final(self).peers@.len() == old(self).peers@.len(),
            final(self).peers@[spec_find_peer(old(self).peers@, addr)->0].id == Some(node_id),
            forall|i: int|
                0 <= i < old(self).peers@.len() && i != spec_find_peer(old(self).peers@, addr)->0
                    ==> final(self).peers@[i] == old(self).peers@[i],
    {
        let i = match self.find_peer(addr) {
            Some(i) => i,
            None => {
                proof {
                    assert(false);
                }
                0
            },
        };
        let ghost pre = self.peers@;
        let peer = &mut self.peers[i];
        peer.set_id(node_id);
        proof {
            assert(forall|j: int| 0 <= j < pre.len() && j != i ==> self.peers@[j] == pre[j]);
            assert(self.peers@[i as int].addr == pre[i as int].addr);
            assert forall|a: int, b: int| 0 <= a < b < self.peers@.len() implies (
            #[trigger] self.peers@[a]).addr != (#[trigger] self.peers@[b]).addr by {
                assert(self.peers@[a].addr == pre[a].addr && self.peers@[b].addr == pre[b].addr);
            }
        }
    }

    /// Whether the peer with the given address has no node id yet; the
    /// peer must be listed.
    pub fn is_none_id(&self, addr: PeerAddr) -> (r: bool)
        requires
            self.wf(),
            spec_find_peer(self.peers@, addr) is Some,
        ensures
            r == (self.peers@[spec_find_peer(self.peers@, addr)->0].id is None),
    {
        match self.find_peer(addr) {
            Some(i) => self.peers[i].id.is_none(),
            None => {
                proof {
                    assert(false);
                }
                false
            },
        }
    }

    /// Removes the peer entry with the given address, if listed.
    pub fn remove_peer_with_addr(&mut self, addr: PeerAddr)
        requires
            old(self).wf(),
        ensures
            final(self).wf(),
            spec_find_peer(final(self).peers@, addr) is None,
            final(self).peers@.len() >= old(self).peers@.len() - 1,
    {
        let i = match self.find_peer(addr) {
            Some(i) => i,
            None => {
                return ;
            },
        };
        let ghost pre = self.peers@;
        self.peers.remove(i);
        proof {
            assert(forall|a: int|
                0 <= a < self.peers@.len() ==> #[trigger] self.peers@[a] == (if a < i {
                    pre[a]
                } else {
                    pre[a + 1]
                }));
            assert forall|a: int, b: int| 0 <= a < b < self.peers@.len() implies (
            #[trigger] self.peers@[a]).addr != (#[trigger] self.peers@[b]).addr by {
                let a2 = if a < i {
                    a
                } else {
                    a + 1
                };
                let b2 = if b < i {
                    b
                } else {
                    b + 1
                };
                assert(pre[a2] == self.peers@[a] && pre[b2] == self.peers@[b]);
            }
            if spec_find_peer(self.peers@, addr) is Some {
                lemma_find_peer_some(self.peers@, addr);
                let w = spec_find_peer(self.peers@, addr)->0;
                let w2 = if w < i {
                    w
                } else {
                    w + 1
                };
                assert(pre[w2] == self.peers@[w]);
                if w2 < i {
                    assert(pre[w2].addr != pre[i as int].addr);
                } else if w2 > i {
                    assert(pre[i as int].addr != pre[w2].addr);
                }
            }
        }
    }

    /// Whether we are connected to the given address.
    pub fn is_connected_to(&self, addr: PeerAddr) -> (r: bool)
        ensures
            r == (spec_find_peer(self.peers@, addr) is Some),
    {
        match self.find_peer(addr) {
            Some(_) => true,
            None => false,
        }
    }

    /// Whether we are connected to the given address.
    pub fn has_peer(&self, addr: PeerAddr) -> (r: bool)
        ensures
            r == (spec_find_peer(self.peers@, addr) is Some),
    {
        self.is_connected_to(addr)
    }

    /// The port we accept connections on.
    pub fn port(&self) -> (r: u16)
        ensures
            r == self.port,
    {
        self.port
    }

    /// The name of the network we are on.
    pub fn network_name(&self) -> (r: &String)
        ensures
            r == &self.network_name,
    {
        &self.network_name
    }

    /// A reference to our node id.
    pub fn our_node_id(&self) -> (r: &crate::crypto::NodeId)
        ensures
            r == &self.node_id,
    {
        &self.node_id
    }

    /// A reference to the shared downloader.
    pub fn downloader(&self) -> (r: &Downloader)
        ensures
            r == &self.downloader,
    {
        &self.downloader
    }

    /// A reference to the bootstrap cache.
    pub fn bootstrap_cache(&self) -> (r: &BootstrapCache)
        ensures
            r == &self.bootstrap_cache,
    {
        &self.bootstrap_cache
    }

    /// Enqueues a packet on the listed peer with the given address, at the
    /// given priority. `PeerNotFound` when no such peer is listed;
    /// otherwise the peer's own send rules decide.
    pub fn send_to_peer(&mut self, addr: PeerAddr, packet: Vec<u8>, priority: NetworkPriority)
        -> (r: Result<(), NetworkErr>)
        requires
            old(self).wf(),
        ensures
            final(self).wf(),
            final(self).peers@.len() == old(self).peers@.len(),
            spec_find_peer(old(self).peers@, addr) is None ==> r == Err::<(), NetworkErr>(
                NetworkErr::PeerNotFound,
            ) && final(self).peers@ == old(self).peers@,
            spec_find_peer(old(self).peers@, addr) is Some ==> {
                let i = spec_find_peer(old(self).peers@, addr)->0;
                &&& r == old(self).peers@[i].spec_send_packet_result(priority)
                &&& (r is Ok ==> final(self).peers@[i].spec_queue(priority) == old(
                    self,
                ).peers@[i].spec_queue(priority).push(packet))
                &&& forall|j: int|
                    0 <= j < old(self).peers@.len() && j != i ==> final(self).peers@[j] == old(
                        self,
                    ).peers@[j]
            },
    {
        let i = match self.find_peer(addr) {
            Some(i) => i,
            None => {
                return Err(NetworkErr::PeerNotFound);
            },
        };
        let ghost pre = self.peers@;
        let peer = &mut self.peers[i];
        let r = peer.send_packet(packet, priority);
        proof {
            assert(forall|j: int| 0 <= j < pre.len() && j != i ==> self.peers@[j] == pre[j]);
            assert(self.peers@[i as int].addr == pre[i as int].addr);
            assert forall|a: int, b: int| 0 <= a < b < self.peers@.len() implies (
            #[trigger] self.peers@[a]).addr != (#[trigger] self.peers@[b]).addr by {
                assert(self.peers@[a].addr == pre[a].addr && self.peers@[b].addr == pre[b].addr);
            }
        }
        r
    }
}

/// The peer as it stands after a best-effort send: the packet bytes joined
/// the selected queue when the peer's send rules allowed it, and nothing
/// changed otherwise.
pub open spec fn spec_peer_after_broadcast(
    p: Peer,
    packet: Seq<u8>,
    priority: NetworkPriority,
    q: Peer,
) -> bool {
    if p.spec_send_packet_result(priority) is Ok {
        &&& q.spec_queue(priority).len() == p.spec_queue(priority).len() + 1
        &&& q.spec_queue(priority).last()@ == packet
        &&& forall|k: int|
            0 <= k < p.spec_queue(priority).len() ==> q.spec_queue(priority)[k] == p.spec_queue(
                priority,
            )[k]
        &&& forall|pr: NetworkPriority| pr != priority ==> q.spec_queue(pr) == p.spec_queue(pr)
        &&& q.addr == p.addr && q.id == p.id && q.receive_state == p.receive_state && q.validator
            == p.validator
    } else {
        q == p
    }
}

impl Network {
    /// Enqueues a copy of the packet on every listed peer, best effort:
    /// peers whose send rules refuse it are skipped. Fails only when no
    /// peer is listed.
    pub fn send_to_all(&mut self, packet: &[u8], priority: NetworkPriority) -> (r: Result<
        (),
        NetworkErr,
    >)
        requires
            old(self).wf(),
        ensures
            final(self).wf(),
            old(self).peers@.len() == 0 ==> r == Err::<(), NetworkErr>(NetworkErr::NoPeers)
                && final(self).peers@ == old(self).peers@,
            old(self).peers@.len() > 0 ==> r is Ok,
            final(self).peers@.len() == old(self).peers@.len(),
            forall|i: int|
                0 <= i < old(self).peers@.len() ==> spec_peer_after_broadcast(
                    old(self).peers@[i],
                    packet@,
                    priority,
                    #[trigger] final(self).peers@[i],
                ),
    {
        self.broadcast_except(packet, priority, None)
    }

    /// Enqueues a copy of the packet on every listed peer except the one
    /// with the given address, best effort. Fails only when no peer is
    /// listed.
    pub fn send_to_all_except(
        &mut self,
        exception: PeerAddr,
        packet: &[u8],
        priority: NetworkPriority,
    ) -> (r: Result<(), NetworkErr>)
        requires
            old(self).wf(),
        ensures
            final(self).wf(),
            old(self).peers@.len() == 0 ==> r == Err::<(), NetworkErr>(NetworkErr::NoPeers)
                && final(self).peers@ == old(self).peers@,
            old(self).peers@.len() > 0 ==> r is Ok,
            final(self).peers@.len() == old(self).peers@.len(),
            forall|i: int|
                0 <= i < old(self).peers@.len() && (#[trigger] old(self).peers@[i]).addr
                    != exception ==> spec_peer_after_broadcast(
                    old(self).peers@[i],
                    packet@,
                    priority,
                    final(self).peers@[i],
                ),
            forall|i: int|
                0 <= i < old(self).peers@.len() && (#[trigger] old(self).peers@[i]).addr
                    == exception ==> final(self).peers@[i] == old(self).peers@[i],
    {
        self.broadcast_except(packet, priority, Some(exception))
    }

    /// The shared body of the two broadcast paths.
    fn broadcast_except(
        &mut self,
        packet: &[u8],
        priority: NetworkPriority,
        exception: Option<PeerAddr>,
    ) -> (r: Result<(), NetworkErr>)
        requires
            old(self).wf(),
        ensures
            final(self).wf(),
            old(self).peers@.len() == 0 ==> r == Err::<(), NetworkErr>(NetworkErr::NoPeers)
                && final(self).peers@ == old(self).peers@,
            old(self).peers@.len() > 0 ==> r is Ok,
            final(self).peers@.len() == old(self).peers@.len(),
            forall|i: int|
                0 <= i < old(self).peers@.len() && Some((#[trigger] old(self).peers@[i]).addr)
                    != exception ==> spec_peer_after_broadcast(
                    old(self).peers@[i],
                    packet@,
                    priority,
                    final(self).peers@[i],
                ),
            forall|i: int|
                0 <= i < old(self).peers@.len() && Some((#[trigger] old(self).peers@[i]).addr)
                    == exception ==> final(self).peers@[i] == old(self).peers@[i],
    {
        let n = self.peers.len();
        if n == 0 {
            return Err(NetworkErr::NoPeers);
        }
        let mut i: usize = 0;
        while i < n
            invariant
                0 <= i <= n == old(self).peers@.len(),
                self.peers@.len() == n,
                self.wf(),
                self.node_id == old(self).node_id,
                self.secret_key == old(self).secret_key,
                self.port == old(self).port,
                self.network_name == old(self).network_name,
                self.max_peers == old(self).max_peers,
                self.bootstrap_cache == old(self).bootstrap_cache,
                self.downloader == old(self).downloader,
                self.accept_connections == old(self).accept_connections,
                forall|j: int| i <= j < n ==> #[trigger] self.peers@[j] == old(self).peers@[j],
                forall|j: int|
                    0 <= j < i && Some((#[trigger] old(self).peers@[j]).addr) != exception
                        ==> spec_peer_after_broadcast(
                        old(self).peers@[j],
                        packet@,
                        priority,
                        self.peers@[j],
                    ),
                forall|j: int|
                    0 <= j < i && Some((#[trigger] old(self).peers@[j]).addr) == exception
                        ==> self.peers@[j] == old(self).peers@[j],
            decreases n - i,
        {
            let skip = match exception {
                Some(e) => self.peers[i].addr.ip == e.ip && self.peers[i].addr.port == e.port,
                None => false,
            };
            if !skip {
                let copy = crate::codec::slice_range_to_vec(packet, 0, packet.len());
                proof {
                    assert(copy@ =~= packet@);
                }
                let ghost pre = self.peers@;
                let peer = &mut self.peers[i];
                let ghost before = *peer;
                let _ = peer.send_packet(copy, priority);
                proof {
                    assert(forall|j: int|
                        0 <= j < pre.len() && j != i ==> self.peers@[j] == pre[j]);
                    assert(self.peers@[i as int].addr == pre[i as int].addr);
                    assert(spec_peer_after_broadcast(
                        before,
                        packet@,
                        priority,
                        self.peers@[i as int],
                    ));
                    assert forall|a: int, b: int| 0 <= a < b < self.peers@.len() implies (
                    #[trigger] self.peers@[a]).addr != (#[trigger] self.peers@[b]).addr by {
                        assert(self.peers@[a].addr == pre[a].addr && self.peers@[b].addr
                            == pre[b].addr);
                    }
                }
            }
            i = i + 1;
        }
        Ok(())
    }
}

} // verus!
