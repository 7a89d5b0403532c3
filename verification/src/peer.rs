//! Per-connection peer state: session keys, liveness counters, the three
//! outbound priority queues drained by the writer task, the bundled
//! protocol flows, and the receive state.

use vstd::prelude::*;

use crate::bootstrap::{BootstrapCache, PeerAddr};
use crate::network_err::NetworkErr;
use crate::protocol_flow::ProtocolValidator;

verus! {

/// The milliseconds between two ticks of a peer's periodic task.
pub const TIMER_INTERVAL: u64 = 1000;

/// The milliseconds of quiet after which a ping is sent.
pub const PING_INTERVAL: u64 = 10000;

/// The priority of an outbound packet: higher priorities are drained
/// first; within a priority, packets leave in enqueue order.
#[derive(Clone, Copy, Debug, PartialEq, Eq, Structural)]
pub enum NetworkPriority {
    Low,
    Medium,
    High,
}

/// Where a connection stands.
#[derive(Clone, Copy, Debug, PartialEq, Eq, Structural)]
pub enum ReceiveState {
    Handshaking,
    Established,
    Closing,
}

/// A connected peer.
#[derive(Debug)]
pub struct Peer {
    /// The remote socket address.
    pub addr: PeerAddr,
    /// The remote node id, once learned.
    pub id: Option<crate::crypto::NodeId>,
    /// The inbound session key, once the handshake finished.
    pub in_key: Option<Vec<u8>>,
    /// The outbound session key, once the handshake finished.
    pub out_key: Option<Vec<u8>>,
    /// Monotonic milliseconds since the peer was last seen.
    pub last_seen: u64,
    /// Monotonic milliseconds since the last ping was enqueued.
    pub last_ping: u64,
    /// The low-priority outbound queue.
    pub queue_low: Vec<Vec<u8>>,
    /// The medium-priority outbound queue.
    pub queue_medium: Vec<Vec<u8>>,
    /// The high-priority outbound queue.
    pub queue_high: Vec<Vec<u8>>,
    /// How many packets one queue may hold.
    pub queue_capacity: usize,
    /// The bundled protocol flows.
    pub validator: ProtocolValidator,
    /// Where the connection stands.
    pub receive_state: ReceiveState,
}

impl Peer {
    pub open spec fn wf(&self) -> bool {
        &&& self.validator.wf()
        &&& self.queue_low@.len() <= self.queue_capacity
        &&& self.queue_medium@.len() <= self.queue_capacity
        &&& self.queue_high@.len() <= self.queue_capacity
    }

    /// A freshly accepted connection: no keys, empty queues, handshaking.
    pub fn new(addr: PeerAddr, queue_capacity: usize, bootstrap_cache: BootstrapCache) -> (r:
        Peer)
        requires
            bootstrap_cache.wf(),
        ensures
            r.wf(),
            r.addr == addr,
            r.id is None,
            r.in_key is None,
            r.out_key is None,
            r.last_seen == 0,
            r.last_ping == 0,
            r.queue_low@.len() == 0,
            r.queue_medium@.len() == 0,
            r.queue_high@.len() == 0,
            r.queue_capacity == queue_capacity,
            r.receive_state is Handshaking,
    {
        Peer {
            addr,
            id: None,
            in_key: None,
            out_key: None,
            last_seen: 0,
            last_ping: 0,
            queue_low: Vec::new(),
            queue_medium: Vec::new(),
            queue_high: Vec::new(),
            queue_capacity,
            validator: ProtocolValidator::new(bootstrap_cache),
            receive_state: ReceiveState::Handshaking,
        }
    }

    /// Records the peer's node id.
    pub fn set_id(&mut self, id: crate::crypto::NodeId)
        requires
            old(self).wf(),
        ensures
            final(self).wf(),
            final(self).id == Some(id),
            final(self).addr == old(self).addr,
            final(self).queue_low == old(self).queue_low,
            final(self).queue_medium == old(self).queue_medium,
            final(self).queue_high == old(self).queue_high,
            final(self).receive_state == old(self).receive_state,
    {
        self.id = Some(id);
    }

    /// The queue a priority selects.
    pub open spec fn spec_queue(&self, priority: NetworkPriority) -> Seq<Vec<u8>> {
        match priority {
            NetworkPriority::Low => self.queue_low@,
            NetworkPriority::Medium => self.queue_medium@,
            NetworkPriority::High => self.queue_high@,
        }
    }

    /// What `send_packet` returns, by case: the session must not be
    /// closing, the outbound key must be present, and the selected queue
    /// must have room.
    pub open spec fn spec_send_packet_result(&self, priority: NetworkPriority) -> Result<
        (),
        NetworkErr,
    > {
        if self.receive_state is Closing {
            Err(NetworkErr::SessionExpired)
        } else if self.out_key is None {
            Err(NetworkErr::NoKeys)
        } else if self.spec_queue(priority).len() >= self.queue_capacity {
            Err(NetworkErr::CouldNotSend)
        } else {
            Ok(())
        }
    }

    /// Enqueues an outbound packet at the given priority. Fails with
    /// `SessionExpired` when the connection is closing, `NoKeys` while the
    /// handshake has not produced an outbound key, and `CouldNotSend` when
    /// the queue is full. On success the packet joins the back of the
    /// selected queue; nothing else changes.
    pub fn send_packet(&mut self, packet: Vec<u8>, priority: NetworkPriority) -> (r: Result<
        (),
        NetworkErr,
    >)
        requires
            old(self).wf(),
        ensures
            final(self).wf(),
            r == old(self).spec_send_packet_result(priority),
            r is Ok ==> final(self).spec_queue(priority) == old(self).spec_queue(priority).push(
                packet,
            ),
            r is Err ==> *final(self) == *old(self),
            forall|p: NetworkPriority|
                p != priority ==> final(self).spec_queue(p) == old(self).spec_queue(p),
            final(self).addr == old(self).addr,
            final(self).id == old(self).id,
            final(self).receive_state == old(self).receive_state,
            final(self).in_key == old(self).in_key,
            final(self).out_key == old(self).out_key,
            final(self).queue_capacity == old(self).queue_capacity,
            final(self).validator == old(self).validator,
            final(self).last_seen == old(self).last_seen,
            final(self).last_ping == old(self).last_ping,
    {
        match self.receive_state {
            ReceiveState::Closing => {
                return Err(NetworkErr::SessionExpired);
            },
            _ => {},
        }
        if self.out_key.is_none() {
            return Err(NetworkErr::NoKeys);
        }
        match priority {
            NetworkPriority::Low => {
                if self.queue_low.len() >= self.queue_capacity {
                    return Err(NetworkErr::CouldNotSend);
                }
                self.queue_low.push(packet);
            },
            NetworkPriority::Medium => {
                if self.queue_medium.len() >= self.queue_capacity {
                    return Err(NetworkErr::CouldNotSend);
                }
                self.queue_medium.push(packet);
            },
            NetworkPriority::High => {
                if self.queue_high.len() >= self.queue_capacity {
                    return Err(NetworkErr::CouldNotSend);
                }
                self.queue_high.push(packet);
            },
        }
        Ok(())
    }

    /// Takes the next outbound packet: the front of the highest non-empty
    /// queue, high before medium before low.
    pub fn next_packet(&mut self) -> (r: Option<Vec<u8>>)
        requires
            old(self).wf(),
        ensures
            final(self).wf(),
            old(self).queue_high@.len() > 0 ==> r == Some(old(self).queue_high@[0]) && final(self).queue_high@ == old(self).queue_high@.subrange(
                1,
                old(self).queue_high@.len() as int,
            ) && final(self).queue_medium == old(self).queue_medium && final(self).queue_low
                == old(self).queue_low,
            old(self).queue_high@.len() == 0 && old(self).queue_medium@.len() > 0 ==> r == Some(
                old(self).queue_medium@[0],
            ) && final(self).queue_medium@ == old(self).queue_medium@.subrange(
                1,
                old(self).queue_medium@.len() as int,
            ) && final(self).queue_high == old(self).queue_high && final(self).queue_low == old(self).queue_low,
            old(self).queue_high@.len() == 0 && old(self).queue_medium@.len() == 0 && old(self).queue_low@.len() > 0 ==> r == Some(old(self).queue_low@[0]) && final(self).queue_low@ == old(self).queue_low@.subrange(1, old(self).queue_low@.len() as int)
                && final(self).queue_high == old(self).queue_high && final(self).queue_medium
                == old(self).queue_medium,
            old(self).queue_high@.len() == 0 && old(self).queue_medium@.len() == 0 && old(self).queue_low@.len() == 0 ==> r is None && *final(self) == *old(self),
    {
        if self.queue_high.len() > 0 {
            let packet = self.queue_high.remove(0);
            return Some(packet);
        }
        if self.queue_medium.len() > 0 {
            let packet = self.queue_medium.remove(0);
            return Some(packet);
        }
        if self.queue_low.len() > 0 {
            let packet = self.queue_low.remove(0);
            return Some(packet);
        }
        None
    }

    /// One tick of the peer's periodic task: advances the liveness
    /// counters by the timer interval (saturating) and says whether quiet
    /// has lasted long enough that a ping is due.
    pub fn timer_tick(&mut self) -> (r: bool)
        requires
            old(self).wf(),
        ensures
            final(self).wf(),
            final(self).last_seen == if old(self).last_seen + TIMER_INTERVAL <= u64::MAX {
                old(self).last_seen + TIMER_INTERVAL
            } else {
                u64::MAX as int
            },
            final(self).last_ping == if old(self).last_ping + TIMER_INTERVAL <= u64::MAX {
                old(self).last_ping + TIMER_INTERVAL
            } else {
                u64::MAX as int
            },
            r == (final(self).last_ping > PING_INTERVAL),
            final(self).queue_low == old(self).queue_low,
            final(self).queue_medium == old(self).queue_medium,
            final(self).queue_high == old(self).queue_high,
            final(self).validator == old(self).validator,
            final(self).receive_state == old(self).receive_state,
    {
        if self.last_seen <= u64::MAX - TIMER_INTERVAL {
            self.last_seen = self.last_seen + TIMER_INTERVAL;
        } else {
            self.last_seen = u64::MAX;
        }
        if self.last_ping <= u64::MAX - TIMER_INTERVAL {
            self.last_ping = self.last_ping + TIMER_INTERVAL;
        } else {
            self.last_ping = u64::MAX;
        }
        self.last_ping > PING_INTERVAL
    }

    /// Records that a ping was enqueued: the quiet counter restarts.
    pub fn mark_pinged(&mut self)
        requires
            old(self).wf(),
        ensures
            final(self).wf(),
            final(self).last_ping == 0,
            final(self).last_seen == old(self).last_seen,
            final(self).queue_low == old(self).queue_low,
            final(self).queue_medium == old(self).queue_medium,
            final(self).queue_high == old(self).queue_high,
            final(self).validator == old(self).validator,
            final(self).receive_state == old(self).receive_state,
    {
        self.last_ping = 0;
    }
}

} // verus!
