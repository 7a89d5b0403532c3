//! The per-peer protocol flows: matched sender/receiver half state
//! machines for ping/pong, peer exchange, block requests and transaction
//! propagation. Each receive returns the packet to send back, or an error,
//! and advances its state only on success.

use vstd::prelude::*;

use crate::bootstrap::{BootstrapCache, PeerAddr};
use crate::chain::HardChain;
use crate::change_minter::ChangeMinter;
use crate::network_err::NetworkErr;
use crate::trie::Trie;

verus! {

/// A ping carrying a nonce that the matching pong must echo.
#[derive(Clone, Copy, Debug, PartialEq, Eq, Structural)]
pub struct Ping {
    pub nonce: u64,
}

/// The reply to a ping, echoing its nonce.
#[derive(Clone, Copy, Debug, PartialEq, Eq, Structural)]
pub struct Pong {
    pub nonce: u64,
}

/// A request for up to `requested_peers` addresses.
#[derive(Clone, Copy, Debug, PartialEq, Eq, Structural)]
pub struct RequestPeers {
    pub nonce: u64,
    pub requested_peers: u8,
}

/// The reply to a peer request: sampled addresses under the same nonce.
#[derive(Clone, Debug, PartialEq, Eq)]
pub struct SendPeers {
    pub peers: Vec<PeerAddr>,
    pub nonce: u64,
}

/// A request for a contiguous range of blocks by height.
#[derive(Clone, Copy, Debug, PartialEq, Eq, Structural)]
pub struct RequestBlocksPacket {
    pub nonce: u64,
    pub from_height: u64,
    pub count: u64,
}

/// The state of a ping/pong sender: idle, or waiting for the pong that
/// echoes the outstanding nonce.
#[derive(Clone, Copy, Debug, PartialEq, Eq, Structural)]
pub enum PingPongSenderState {
    Ready,
    Waiting { nonce: u64 },
}

/// The sending half of the ping/pong flow.
#[derive(Clone, Copy, Debug, PartialEq, Eq, Structural)]
pub struct PingPongSender {
    pub state: PingPongSenderState,
}

impl PingPongSender {
    /// A sender with no outstanding ping.
    pub fn new() -> (r: PingPongSender)
        ensures
            r.state is Ready,
    {
        PingPongSender { state: PingPongSenderState::Ready }
    }

    /// Emits a ping with the caller's nonce. Fails while a ping is
    /// outstanding.
    pub fn send(&mut self, nonce: u64) -> (r: Result<Ping, NetworkErr>)
        ensures
            old(self).state is Waiting ==> r == Err::<Ping, NetworkErr>(
                NetworkErr::SenderStateErr,
            ) && final(self).state == old(self).state,
            old(self).state is Ready ==> r == Ok::<Ping, NetworkErr>(Ping { nonce }) && final(self).state == (PingPongSenderState::Waiting { nonce }),
    {
        match self.state {
            PingPongSenderState::Waiting { .. } => Err(NetworkErr::SenderStateErr),
            PingPongSenderState::Ready => {
                self.state = PingPongSenderState::Waiting { nonce };
                Ok(Ping { nonce })
            },
        }
    }

    /// Accepts a pong. Only a pong whose nonce equals the outstanding
    /// ping's nonce returns the sender to ready; a wrong nonce or an
    /// unsolicited pong is an error and leaves the state unchanged, never
    /// a success.
    pub fn receive(&mut self, pong: &Pong) -> (r: Result<(), NetworkErr>)
        ensures
            old(self).state is Ready ==> r == Err::<(), NetworkErr>(NetworkErr::SenderStateErr)
                && final(self).state == old(self).state,
            (old(self).state matches PingPongSenderState::Waiting { nonce } && pong.nonce == nonce)
                ==> r is Ok && final(self).state is Ready,
            (old(self).state matches PingPongSenderState::Waiting { nonce } && pong.nonce != nonce)
                ==> r == Err::<(), NetworkErr>(NetworkErr::AckErr) && final(self).state == old(self).state,
    {
        match self.state {
            PingPongSenderState::Ready => Err(NetworkErr::SenderStateErr),
            PingPongSenderState::Waiting { nonce } => {
                if pong.nonce == nonce {
                    self.state = PingPongSenderState::Ready;
                    Ok(())
                } else {
                    Err(NetworkErr::AckErr)
                }
            },
        }
    }

    /// Abandons any outstanding ping.
    pub fn reset(&mut self)
        ensures
            final(self).state is Ready,
    {
        self.state = PingPongSenderState::Ready;
    }
}

/// The receiving half of the ping/pong flow: stateless.
#[derive(Clone, Copy, Debug, PartialEq, Eq, Structural)]
pub struct PingPongReceiver {
    pub dummy: bool,
}

impl PingPongReceiver {
    pub fn new() -> (r: PingPongReceiver) {
        PingPongReceiver { dummy: false }
    }

    /// Replies to a ping with the pong echoing its nonce.
    pub fn receive(&self, ping: &Ping) -> (r: Pong)
        ensures
            r.nonce == ping.nonce,
    {
        Pong { nonce: ping.nonce }
    }

    /// Nothing to clear.
    pub fn reset(&mut self) {
    }
}

/// The ping/pong flow of one peer.
#[derive(Clone, Copy, Debug, PartialEq, Eq, Structural)]
pub struct PingPong {
    pub sender: PingPongSender,
    pub receiver: PingPongReceiver,
}

impl PingPong {
    pub fn new() -> (r: PingPong)
        ensures
            r.sender.state is Ready,
    {
        PingPong { sender: PingPongSender::new(), receiver: PingPongReceiver::new() }
    }
}

/// The state of a peer-exchange sender: idle, or waiting for at most
/// `asked` addresses under the outstanding nonce.
#[derive(Clone, Copy, Debug, PartialEq, Eq, Structural)]
pub enum RequestPeersSenderState {
    Ready,
    Waiting { nonce: u64, asked: u8 },
}

/// The sending half of the peer-exchange flow.
#[derive(Clone, Copy, Debug, PartialEq, Eq, Structural)]
pub struct RequestPeersSender {
    pub state: RequestPeersSenderState,
}

impl RequestPeersSender {
    pub fn new() -> (r: RequestPeersSender)
        ensures
            r.state is Ready,
    {
        RequestPeersSender { state: RequestPeersSenderState::Ready }
    }

    /// Emits a request for up to `requested_peers` addresses under the
    /// caller's nonce. Fails while a request is outstanding.
    pub fn send(&mut self, nonce: u64, requested_peers: u8) -> (r: Result<
        RequestPeers,
        NetworkErr,
    >)
        ensures
            old(self).state is Waiting ==> r == Err::<RequestPeers, NetworkErr>(
                NetworkErr::SenderStateErr,
            ) && final(self).state == old(self).state,
            old(self).state is Ready ==> r == Ok::<RequestPeers, NetworkErr>(
                RequestPeers { nonce, requested_peers },
            ) && final(self).state == (RequestPeersSenderState::Waiting {
                nonce,
                asked: requested_peers,
            }),
    {
        match self.state {
            RequestPeersSenderState::Waiting { .. } => Err(NetworkErr::SenderStateErr),
            RequestPeersSenderState::Ready => {
                self.state = RequestPeersSenderState::Waiting { nonce, asked: requested_peers };
                Ok(RequestPeers { nonce, requested_peers })
            },
        }
    }

    /// Accepts the reply. A reply that was never asked for, or whose nonce
    /// is not the outstanding one, is `DidntAskForPeers`; one carrying more
    /// addresses than asked for is `TooManyPeers`. On success the sender
    /// returns to ready and hands the addresses out.
    pub fn receive(&mut self, packet: SendPeers) -> (r: Result<Vec<PeerAddr>, NetworkErr>)
        ensures
            old(self).state is Ready ==> r == Err::<Vec<PeerAddr>, NetworkErr>(
                NetworkErr::DidntAskForPeers,
            ) && final(self).state == old(self).state,
            old(self).state is Waiting ==> {
                let nonce = old(self).state->Waiting_nonce;
                let asked = old(self).state->Waiting_asked;
                if packet.nonce != nonce {
                    r == Err::<Vec<PeerAddr>, NetworkErr>(NetworkErr::DidntAskForPeers) && final(self).state == old(self).state
                } else if packet.peers@.len() > asked {
                    r == Err::<Vec<PeerAddr>, NetworkErr>(NetworkErr::TooManyPeers) && final(self).state == old(self).state
                } else {
                    r is Ok && r->Ok_0 == packet.peers && final(self).state is Ready
                }
            },
    {
        match self.state {
            RequestPeersSenderState::Ready => Err(NetworkErr::DidntAskForPeers),
            RequestPeersSenderState::Waiting { nonce, asked } => {
                if packet.nonce != nonce {
                    Err(NetworkErr::DidntAskForPeers)
                } else if packet.peers.len() > asked as usize {
                    Err(NetworkErr::TooManyPeers)
                } else {
                    self.state = RequestPeersSenderState::Ready;
                    Ok(packet.peers)
                }
            },
        }
    }

    /// Abandons any outstanding request.
    pub fn reset(&mut self)
        ensures
            final(self).state is Ready,
    {
        self.state = RequestPeersSenderState::Ready;
    }
}

/// The state of a peer-exchange receiver.
#[derive(Clone, Copy, Debug, PartialEq, Eq, Structural)]
pub enum RequestPeersReceiverState {
    Ready,
}

/// The receiving half of the peer-exchange flow: serves addresses sampled
/// from the bootstrap cache.
#[derive(Debug)]
pub struct RequestPeersReceiver {
    pub state: RequestPeersReceiverState,
    pub bootstrap_cache: BootstrapCache,
}

impl RequestPeersReceiver {
    pub open spec fn wf(&self) -> bool {
        self.bootstrap_cache.wf()
    }

    /// A receiver serving from the given bootstrap cache.
    pub fn new(bootstrap_cache: BootstrapCache) -> (r: RequestPeersReceiver)
        ensures
            r.state is Ready,
            r.bootstrap_cache == bootstrap_cache,
    {
        RequestPeersReceiver { state: RequestPeersReceiverState::Ready, bootstrap_cache }
    }

    /// Replies to a peer request: up to the requested number of addresses
    /// sampled uniformly from the bootstrap cache, under the request's
    /// nonce. With fewer stored addresses than requested, all of them come
    /// back.
    pub fn receive(&mut self, packet: &RequestPeers) -> (r: Result<SendPeers, NetworkErr>)
        requires
            old(self).wf(),
        ensures
            *final(self) == *old(self),
            r is Ok,
            r->Ok_0.nonce == packet.nonce,
            r->Ok_0.peers@.len() == if old(self).bootstrap_cache.entries@.len()
                < packet.requested_peers {
                old(self).bootstrap_cache.entries@.len() as int
            } else {
                packet.requested_peers as int
            },
            forall|k: int|
                0 <= k < r->Ok_0.peers@.len() ==> crate::bootstrap::spec_find_addr(
                    old(self).bootstrap_cache.entries@,
                    #[trigger] r->Ok_0.peers@[k],
                ) is Some,
    {
        let peers = self.bootstrap_cache.sample(packet.requested_peers as usize);
        Ok(SendPeers { peers, nonce: packet.nonce })
    }

    /// Returns true: the receiver is always able to receive.
    pub fn can_receive(&self) -> (r: bool)
        ensures
            r,
    {
        true
    }

    /// Returns the receiver to its ready state.
    pub fn reset(&mut self)
        ensures
            final(self).state is Ready,
            final(self).bootstrap_cache == old(self).bootstrap_cache,
    {
        self.state = RequestPeersReceiverState::Ready;
    }
}

/// The peer-exchange flow of one peer.
#[derive(Debug)]
pub struct RequestPeersFlow {
    pub sender: RequestPeersSender,
    pub receiver: RequestPeersReceiver,
}

impl RequestPeersFlow {
    pub fn new(bootstrap_cache: BootstrapCache) -> (r: RequestPeersFlow)
        ensures
            r.sender.state is Ready,
            r.receiver.state is Ready,
            r.receiver.bootstrap_cache == bootstrap_cache,
    {
        RequestPeersFlow {
            sender: RequestPeersSender::new(),
            receiver: RequestPeersReceiver::new(bootstrap_cache),
        }
    }
}

/// The most blocks one request may ask for.
pub const MAX_BLOCKS_PER_REQUEST: u64 = 64;

/// The state of a block-request sender: idle, or waiting for `remaining`
/// blocks from `next_height` up, under the outstanding nonce.
#[derive(Clone, Copy, Debug, PartialEq, Eq, Structural)]
pub enum RequestBlocksSenderState {
    Ready,
    Waiting { nonce: u64, next_height: u64, remaining: u64 },
}

/// The sending half of the block-request flow: issues a request for a
/// contiguous range of heights and matches arriving blocks against it.
#[derive(Clone, Copy, Debug, PartialEq, Eq, Structural)]
pub struct RequestBlocksSender {
    pub state: RequestBlocksSenderState,
}

impl RequestBlocksSender {
    pub fn new() -> (r: RequestBlocksSender)
        ensures
            r.state is Ready,
    {
        RequestBlocksSender { state: RequestBlocksSenderState::Ready }
    }

    /// Emits a request for `count` blocks starting at `from_height`. Fails
    /// while a request is outstanding, on an empty range, and on a range
    /// over the configured maximum.
    pub fn send(&mut self, nonce: u64, from_height: u64, count: u64) -> (r: Result<
        RequestBlocksPacket,
        NetworkErr,
    >)
        ensures
            old(self).state is Waiting ==> r == Err::<RequestBlocksPacket, NetworkErr>(
                NetworkErr::SenderStateErr,
            ) && final(self).state == old(self).state,
            old(self).state is Ready && (count == 0 || count > MAX_BLOCKS_PER_REQUEST) ==> r
                == Err::<RequestBlocksPacket, NetworkErr>(NetworkErr::BadFormat) && final(self).state == old(self).state,
            old(self).state is Ready && 0 < count <= MAX_BLOCKS_PER_REQUEST ==> r == Ok::<
                RequestBlocksPacket,
                NetworkErr,
            >(RequestBlocksPacket { nonce, from_height, count }) && final(self).state == (
            RequestBlocksSenderState::Waiting { nonce, next_height: from_height, remaining: count
            }),
    {
        match self.state {
            RequestBlocksSenderState::Waiting { .. } => Err(NetworkErr::SenderStateErr),
            RequestBlocksSenderState::Ready => {
                if count == 0 || count > MAX_BLOCKS_PER_REQUEST {
                    return Err(NetworkErr::BadFormat);
                }
                self.state = RequestBlocksSenderState::Waiting {
                    nonce,
                    next_height: from_height,
                    remaining: count,
                };
                Ok(RequestBlocksPacket { nonce, from_height, count })
            },
        }
    }

    /// Accepts one block of the outstanding range, identified by its
    /// height. Blocks must arrive in height order; the state advances one
    /// height on success and returns to ready when the range is complete.
    pub fn receive(&mut self, nonce: u64, height: u64) -> (r: Result<(), NetworkErr>)
        ensures
            old(self).state is Ready ==> r == Err::<(), NetworkErr>(NetworkErr::SenderStateErr)
                && final(self).state == old(self).state,
            old(self).state is Waiting ==> {
                let expected_nonce = old(self).state->Waiting_nonce;
                let next = old(self).state->Waiting_next_height;
                let remaining = old(self).state->Waiting_remaining;
                if nonce != expected_nonce || height != next {
                    r == Err::<(), NetworkErr>(NetworkErr::AckErr) && final(self).state == old(self).state
                } else if remaining <= 1 || next == u64::MAX {
                    r is Ok && final(self).state is Ready
                } else {
                    r is Ok && final(self).state == (RequestBlocksSenderState::Waiting {
                        nonce: expected_nonce,
                        next_height: (next + 1) as u64,
                        remaining: (remaining - 1) as u64,
                    })
                }
            },
    {
        match self.state {
            RequestBlocksSenderState::Ready => Err(NetworkErr::SenderStateErr),
            RequestBlocksSenderState::Waiting { nonce: expected, next_height, remaining } => {
                if nonce != expected || height != next_height {
                    return Err(NetworkErr::AckErr);
                }
                if remaining <= 1 || next_height == u64::MAX {
                    self.state = RequestBlocksSenderState::Ready;
                } else {
                    self.state = RequestBlocksSenderState::Waiting {
                        nonce: expected,
                        next_height: next_height + 1,
                        remaining: remaining - 1,
                    };
                }
                Ok(())
            },
        }
    }

    /// Abandons any outstanding request.
    pub fn reset(&mut self)
        ensures
            final(self).state is Ready,
    {
        self.state = RequestBlocksSenderState::Ready;
    }
}

/// The receiving half of the block-request flow: serves blocks from local
/// chain storage and rejects ranges over the configured maximum.
#[derive(Clone, Copy, Debug, PartialEq, Eq, Structural)]
pub struct RequestBlocksReceiver {
    pub dummy: bool,
}

impl RequestBlocksReceiver {
    pub fn new() -> (r: RequestBlocksReceiver) {
        RequestBlocksReceiver { dummy: false }
    }

    /// Serves the requested range from the chain: the blocks at heights
    /// `from_height` up to the chain's height, at most `count` of them. A
    /// range over the maximum is refused.
    pub fn receive<'a>(&self, chain: &'a HardChain, packet: &RequestBlocksPacket) -> (r: Result<
        Vec<&'a crate::chain::HardBlock>,
        NetworkErr,
    >)
        requires
            chain.wf(),
            packet.from_height + packet.count <= u64::MAX,
        ensures
            packet.count > MAX_BLOCKS_PER_REQUEST ==> r == Err::<
                Vec<&'a crate::chain::HardBlock>,
                NetworkErr,
            >(NetworkErr::BadFormat),
            packet.count <= MAX_BLOCKS_PER_REQUEST ==> r is Ok && {
                let blocks = r->Ok_0;
                &&& blocks@.len() == if packet.from_height + packet.count
                    <= chain.blocks@.len() {
                    packet.count as int
                } else if packet.from_height <= chain.blocks@.len() {
                    chain.blocks@.len() - packet.from_height
                } else {
                    0int
                }
                &&& forall|k: int|
                    0 <= k < blocks@.len() ==> *(#[trigger] blocks@[k]) == chain.blocks@[
                        packet.from_height + k
                    ]
            },
    {
        if packet.count > MAX_BLOCKS_PER_REQUEST {
            return Err(NetworkErr::BadFormat);
        }
        let mut blocks: Vec<&'a crate::chain::HardBlock> = Vec::new();
        let mut h = packet.from_height;
        let stop = if packet.from_height + packet.count <= chain.blocks.len() as u64 {
            packet.from_height + packet.count
        } else if packet.from_height <= chain.blocks.len() as u64 {
            chain.blocks.len() as u64
        } else {
            packet.from_height
        };
        while h < stop
            invariant
                packet.from_height <= h <= stop,
                stop <= chain.blocks@.len() || stop == packet.from_height,
                stop <= usize::MAX || stop == packet.from_height,
                stop >= packet.from_height,
                blocks@.len() == h - packet.from_height,
                forall|k: int|
                    0 <= k < blocks@.len() ==> *(#[trigger] blocks@[k]) == chain.blocks@[
                        packet.from_height + k
                    ],
            decreases stop - h,
        {
            let ghost pre = blocks@;
            proof {
                assert(stop <= chain.blocks@.len());
                assert(h < usize::MAX);
                assert(h as usize as int == h as int);
            }
            let element = vstd::std_specs::vec::vec_index(&chain.blocks, h as usize);
            blocks.push(element);
            proof {
                assert(forall|k: int| 0 <= k < pre.len() ==> blocks@[k] == pre[k]);
                assert(*blocks@[pre.len() as int] == chain.blocks@[h as int]);
            }
            h = h + 1;
        }
        Ok(blocks)
    }

    /// Nothing to clear.
    pub fn reset(&mut self) {
    }
}

/// The block-request flow of one peer.
#[derive(Clone, Copy, Debug, PartialEq, Eq, Structural)]
pub struct RequestBlocksFlow {
    pub sender: RequestBlocksSender,
    pub receiver: RequestBlocksReceiver,
}

impl RequestBlocksFlow {
    pub fn new() -> (r: RequestBlocksFlow)
        ensures
            r.sender.state is Ready,
    {
        RequestBlocksFlow {
            sender: RequestBlocksSender::new(),
            receiver: RequestBlocksReceiver::new(),
        }
    }
}

/// What the gossip handler decides for a received transaction.
#[derive(Clone, Copy, Debug, PartialEq, Eq, Structural)]
pub enum GossipAction {
    /// The transaction validated and entered the mempool: re-broadcast it
    /// to every peer but the sender.
    Rebroadcast,
    /// The transaction was dropped: it failed validation or was already
    /// pooled.
    Drop,
}

/// The transaction-propagation flow: received transactions are validated
/// against the current trie snapshot and pooled, then re-broadcast.
#[derive(Debug)]
pub struct TransactionPropagation {
    /// The pooled transactions, unique by their computed hash.
    pub pool: Vec<ChangeMinter>,
}

impl TransactionPropagation {
    /// Every pooled transaction carries a hash and hashes are unique.
    pub open spec fn wf(&self) -> bool {
        &&& forall|i: int|
            0 <= i < self.pool@.len() ==> (#[trigger] self.pool@[i]).hash is Some
                && self.pool@[i].wf()
        &&& forall|i: int, j: int|
            0 <= i < j < self.pool@.len() ==> (#[trigger] self.pool@[i]).hash->0@ != (
            #[trigger] self.pool@[j]).hash->0@
    }

    pub fn new() -> (r: TransactionPropagation)
        ensures
            r.wf(),
            r.pool@.len() == 0,
    {
        TransactionPropagation { pool: Vec::new() }
    }

    /// Whether a transaction with this hash is pooled.
    fn has_hash(&self, hash: &crate::crypto::Hash) -> (r: bool)
        requires
            self.wf(),
        ensures
            r == exists|i: int|
                0 <= i < self.pool@.len() && (#[trigger] self.pool@[i]).hash->0@ == hash@,
    {
        let n = self.pool.len();
        let mut i: usize = 0;
        while i < n
            invariant
                0 <= i <= n == self.pool@.len(),
                self.wf(),
                forall|j: int| 0 <= j < i ==> (#[trigger] self.pool@[j]).hash->0@ != hash@,
            decreases n - i,
        {
            let pooled = match &self.pool[i].hash {
                Some(h) => h.eq_hash(hash),
                None => {
                    proof {
                        assert(false);
                    }
                    false
                },
            };
            if pooled {
                return true;
            }
            i = i + 1;
        }
        false
    }

    /// Handles a gossiped transaction: recomputes its hash, validates it
    /// against the trie snapshot, pools it when new and valid, and says
    /// whether to re-broadcast it to every peer except the sender. An
    /// invalid or known transaction is dropped.
    pub fn receive_gossip(&mut self, trie: &Trie, tx: ChangeMinter) -> (r: GossipAction)
        requires
            old(self).wf(),
            tx.wf(),
            trie.wf(),
        ensures
            final(self).wf(),
            r is Rebroadcast <==> crate::change_minter::spec_validate(
                crate::change_minter::spec_with_hash(tx@),
                trie@,
            ) && !(exists|i: int|
                0 <= i < old(self).pool@.len() && (#[trigger] old(self).pool@[i]).hash->0@
                    == crate::crypto::hash_bytes(
                    crate::change_minter::spec_assemble_message(tx@),
                )),
            r is Rebroadcast ==> final(self).pool@.len() == old(self).pool@.len() + 1,
            r is Drop ==> final(self).pool@ == old(self).pool@,
    {
        let mut tx = tx;
        tx.compute_hash();
        let known = match &tx.hash {
            Some(h) => self.has_hash(h),
            None => {
                proof {
                    assert(false);
                }
                true
            },
        };
        if known {
            return GossipAction::Drop;
        }
        if !tx.validate(trie) {
            return GossipAction::Drop;
        }
        let ghost pre = self.pool@;
        self.pool.push(tx);
        proof {
            assert(forall|j: int| 0 <= j < pre.len() ==> self.pool@[j] == pre[j]);
        }
        GossipAction::Rebroadcast
    }

    /// Drops every pooled transaction.
    pub fn reset(&mut self)
        ensures
            final(self).wf(),
            final(self).pool@.len() == 0,
    {
        self.pool = Vec::new();
    }
}

/// All protocol flows of one connected peer.
#[derive(Debug)]
pub struct ProtocolValidator {
    /// The ping/pong protocol flow.
    pub ping_pong: PingPong,
    /// The block-request protocol flow.
    pub request_blocks: RequestBlocksFlow,
    /// The peer-exchange protocol flow.
    pub request_peers: RequestPeersFlow,
    /// The transaction-propagation protocol flow.
    pub transaction_propagation: TransactionPropagation,
}

impl ProtocolValidator {
    pub open spec fn wf(&self) -> bool {
        &&& self.request_peers.receiver.wf()
        &&& self.transaction_propagation.wf()
    }

    /// Fresh flows for a newly connected peer, serving peer requests from
    /// the given bootstrap cache.
    pub fn new(bootstrap_cache: BootstrapCache) -> (r: ProtocolValidator)
        requires
            bootstrap_cache.wf(),
        ensures
            r.wf(),
            r.ping_pong.sender.state is Ready,
            r.request_blocks.sender.state is Ready,
            r.request_peers.sender.state is Ready,
            r.transaction_propagation.pool@.len() == 0,
    {
        ProtocolValidator {
            ping_pong: PingPong::new(),
            request_blocks: RequestBlocksFlow::new(),
            request_peers: RequestPeersFlow::new(bootstrap_cache),
            transaction_propagation: TransactionPropagation::new(),
        }
    }
}

} // verus!
