//! Multiplexed datagram adapter: presents a pool of length-framed byte
//! streams as one connectionless packet socket.
//!
//! Inbound, every stream's reader decodes frames and feeds one shared
//! bounded queue that `recv_from` drains in arrival order; a full queue
//! blocks the producing reader, never drops.  Outbound, `send_to`
//! frames the payload for the target's live connection, and silently
//! succeeds without transmitting when the target has none, as a real
//! datagram socket would.  The connection-oriented operations are
//! unsupported by design.

use vstd::prelude::*;

use crate::codec::MAX_PAYLOAD_LEN;
use crate::codec::spec_frame;
use crate::registry::ConnRegistry;
use crate::registry::PeerAddr;

verus! {

/// How many inbound packets the shared queue holds before producers
/// block.
pub const QUEUE_CAPACITY: usize = 1000;

/// One inbound datagram: its payload and the peer it arrived from.
pub struct Packet {
    pub payload: Vec<u8>,
    pub from: PeerAddr,
}

/// Why the adapter refused an operation.
#[derive(Clone, Copy, Debug, PartialEq, Eq, Structural)]
pub enum AdapterError {
    /// The connection-oriented operations are not offered: the adapter
    /// is datagram-only by design.
    NotSupported,
}

/// What `recv_from` observed.
pub enum RecvOutcome {
    /// The queue is empty; the caller suspends until a packet arrives.
    Empty,
    /// The next packet is longer than the caller's buffer; it is
    /// consumed and lost.
    BufferShort,
    /// The next packet, in arrival order.
    Packet { payload: Vec<u8>, from: PeerAddr },
}

/// What `send_to` decided.
pub enum SendPlan {
    /// Write this frame on the write path behind `conn`, as one
    /// uninterrupted sequence.
    Transmit { conn: u64, frame: Vec<u8> },
    /// The target has no live connection: succeed without transmitting.
    Skip,
    /// The payload does not fit in one frame.
    TooLarge,
}

/// The adapter's state: the live connections, the shared inbound
/// queue (front first), and the local address it answers with.
pub struct Adapter {
    pub registry: ConnRegistry,
    pub queue: Vec<Packet>,
    pub local: PeerAddr,
}

/// The mathematical value of the inbound queue.
pub open spec fn queue_view(q: Seq<Packet>) -> Seq<(Seq<u8>, PeerAddr)> {
    q.map_values(|p: Packet| (p.payload@, p.from))
}

impl Adapter {
    /// Well-formedness: connections are uniquely keyed and the queue
    /// respects its bound.
    pub open spec fn wf(self) -> bool {
        self.registry.wf() && self.queue@.len() <= QUEUE_CAPACITY
    }

    /// A fresh adapter: no connections, an empty queue.
    pub fn new(local: PeerAddr) -> (r: Adapter)
        ensures
            r.wf(),
            r.registry.entries@.len() == 0,
            r.queue@.len() == 0,
            r.local == local,
    {
        Adapter { registry: ConnRegistry::new(), queue: Vec::new(), local }
    }

    /// Takes up a newly submitted stream: its connection becomes the
    /// address's live one, superseding any earlier entry.
    pub fn register_stream(&mut self, addr: PeerAddr, conn: u64)
        requires
            old(self).wf(),
        ensures
            final(self).wf(),
            final(self).registry.has_conn(addr),
            final(self).registry.conn_of(addr) == conn,
            forall|a2: PeerAddr|
                a2 != addr ==> #[trigger] final(self).registry.has_conn(a2) == old(self).registry.has_conn(a2),
            forall|a2: PeerAddr|
                a2 != addr && old(self).registry.has_conn(a2) ==> #[trigger] final(self).registry.conn_of(a2) == old(self).registry.conn_of(a2),
            final(self).queue == old(self).queue,
            final(self).local == old(self).local,
    {
        self.registry.register(addr, conn);
    }

    /// A connection's reader decoded one frame: the payload joins the
    /// shared queue unless the queue is full, in which case the reader
    /// blocks and offers it again after a drain.
    pub fn on_frame(&mut self, addr: PeerAddr, payload: Vec<u8>) -> (accepted: bool)
        requires
            old(self).wf(),
            payload@.len() <= MAX_PAYLOAD_LEN,
        ensures
            final(self).wf(),
            accepted <==> old(self).queue@.len() < QUEUE_CAPACITY,
            accepted ==> queue_view(final(self).queue@) == queue_view(old(self).queue@).push(
                (payload@, addr),
            ),
            !accepted ==> *final(self) == *old(self),
            final(self).registry == old(self).registry,
            final(self).local == old(self).local,
    {
        if self.queue.len() < QUEUE_CAPACITY {
            self.queue.push(Packet { payload, from: addr });
            proof {
                assert(queue_view(self.queue@) =~= queue_view(old(self).queue@).push(
                    (payload@, addr),
                ));
            }
            true
        } else {
            false
        }
    }

    /// A connection's reader hit a read timeout, an end of stream, or a
    /// decode failure: the connection is deregistered and its reader
    /// exits; packets already queued stay deliverable.
    pub fn on_conn_failure(&mut self, addr: PeerAddr) -> (was: bool)
        requires
            old(self).wf(),
        ensures
            final(self).wf(),
            was <==> old(self).registry.has_conn(addr),
            !final(self).registry.has_conn(addr),
            forall|a2: PeerAddr|
                a2 != addr ==> #[trigger] final(self).registry.has_conn(a2) == old(self).registry.has_conn(a2),
            forall|a2: PeerAddr|
                a2 != addr && old(self).registry.has_conn(a2) ==> #[trigger] final(self).registry.conn_of(a2) == old(self).registry.conn_of(a2),
            final(self).queue == old(self).queue,
            final(self).local == old(self).local,
    {
        self.registry.deregister(addr)
    }

    /// Pulls the next inbound datagram for a caller whose buffer holds
    /// `buf_len` bytes.  An empty queue suspends the caller; a packet
    /// longer than the buffer is consumed and reported short, as the
    /// packet-socket contract has it.
    pub fn recv_from(&mut self, buf_len: usize) -> (r: RecvOutcome)
        requires
            old(self).wf(),
        ensures
            final(self).wf(),
            final(self).registry == old(self).registry,
            final(self).local == old(self).local,
            old(self).queue@.len() == 0 ==> r is Empty && *final(self) == *old(self),
            old(self).queue@.len() > 0 ==> {
                &&& queue_view(final(self).queue@) == queue_view(old(self).queue@).drop_first()
                &&& (old(self).queue@[0].payload@.len() > buf_len <==> r is BufferShort)
                &&& (r matches RecvOutcome::Packet { payload, from } ==> payload@ == old(self).queue@[0].payload@ && from == old(self).queue@[0].from)
                &&& !(r is Empty)
            },
    {
        if self.queue.len() == 0 {
            return RecvOutcome::Empty;
        }
        let p = self.queue.remove(0);
        proof {
            assert(queue_view(self.queue@) =~= queue_view(old(self).queue@).drop_first());
        }
        if p.payload.len() > buf_len {
            RecvOutcome::BufferShort
        } else {
            RecvOutcome::Packet { payload: p.payload, from: p.from }
        }
    }

    /// Plans the transmission of one datagram.  A live target gets the
    /// payload as one frame, written uninterrupted on its connection; a
    /// target with no live connection is a silent success, mirroring a
    /// datagram socket whose peer went away; an oversized payload is a
    /// caller error, rejected rather than truncated.
    pub fn send_to(&self, addr: PeerAddr, payload: &Vec<u8>) -> (r: SendPlan)
        requires
            self.wf(),
        ensures
            payload@.len() > MAX_PAYLOAD_LEN <==> r is TooLarge,
            payload@.len() <= MAX_PAYLOAD_LEN && self.registry.has_conn(addr) ==> (r matches
                SendPlan::Transmit { conn, frame } && conn == self.registry.conn_of(addr)
                && frame@ == spec_frame(payload@)),
            payload@.len() <= MAX_PAYLOAD_LEN && !self.registry.has_conn(addr) ==> r is Skip,
    {
        match self.registry.lookup(addr) {
            Option::Some(conn) => {
                match crate::codec::encode_frame(payload) {
                    Result::Ok(frame) => SendPlan::Transmit { conn, frame },
                    Result::Err(_) => SendPlan::TooLarge,
                }
            },
            Option::None => {
                if payload.len() > MAX_PAYLOAD_LEN {
                    SendPlan::TooLarge
                } else {
                    SendPlan::Skip
                }
            },
        }
    }

    /// The connection-oriented trio is unsupported: this transport is
    /// datagram-only.
    pub fn connect(&self, addr: PeerAddr) -> (r: Result<(), AdapterError>)
        ensures
            r == Result::<(), AdapterError>::Err(AdapterError::NotSupported),
    {
        let _ = addr;
        Result::Err(AdapterError::NotSupported)
    }

    /// See `connect`: unsupported.
    pub fn recv(&self) -> (r: Result<usize, AdapterError>)
        ensures
            r == Result::<usize, AdapterError>::Err(AdapterError::NotSupported),
    {
        Result::Err(AdapterError::NotSupported)
    }

    /// See `connect`: unsupported.
    pub fn send(&self, payload: &Vec<u8>) -> (r: Result<usize, AdapterError>)
        ensures
            r == Result::<usize, AdapterError>::Err(AdapterError::NotSupported),
    {
        let _ = payload;
        Result::Err(AdapterError::NotSupported)
    }

    /// The address this adapter answers with.
    pub fn local_addr(&self) -> (a: PeerAddr)
        ensures
            a == self.local,
    {
        self.local
    }

    /// A connectionless transport has no single remote peer.
    pub fn remote_addr(&self) -> (r: Option<PeerAddr>)
        ensures
            r is None,
    {
        Option::None
    }
}

} // verus!
