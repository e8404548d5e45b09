//! Per-message transport metadata: socket addresses, the optional ECN
//! codepoint, and the monotonic timestamp attached to every envelope.

use vstd::prelude::*;

verus! {

/// A socket address as plain values: the IP held as one 128-bit integer
/// (IPv4 addresses sit in the low 32 bits) and the port.
#[derive(Clone, Copy, PartialEq, Eq, Structural, Debug)]
pub struct SockAddr {
    pub ip: u128,
    pub port: u16,
}

/// The 2-bit IP ECN codepoint carried by a datagram.
#[derive(Clone, Copy, PartialEq, Eq, Structural, Debug)]
pub enum Ecn {
    NotEct,
    Ect1,
    Ect0,
    Ce,
}

/// Metadata attached to every message crossing the pipeline: this endpoint's
/// address, the remote address when one is known (always for connected TCP,
/// per datagram for a UDP server), the ECN codepoint when the socket reports
/// one, and a monotonic timestamp in nanoseconds taken on arrival or set by
/// the sender on departure.
#[derive(Clone, Copy, PartialEq, Eq, Structural, Debug)]
pub struct TransportContext {
    pub local_addr: SockAddr,
    pub peer_addr: Option<SockAddr>,
    pub ecn: Option<Ecn>,
    pub now: u64,
}

impl TransportContext {
    /// A context carrying only the local address: no peer, no ECN, time zero.
    pub fn new(local_addr: SockAddr) -> (r: TransportContext)
        ensures
            r == (TransportContext { local_addr, peer_addr: None, ecn: None, now: 0u64 }),
    {
        TransportContext { local_addr, peer_addr: None, ecn: None, now: 0u64 }
    }
}

/// The envelope fed into a pipeline's head and written out at its tail: a
/// transport context paired with an owned, mutable byte buffer. The framing
/// stage may split one such buffer into several framed buffers, each keeping
/// the original context.
#[derive(Clone, PartialEq, Eq, Debug)]
pub struct TaggedBytesMut {
    pub transport: TransportContext,
    pub message: Vec<u8>,
}

impl TaggedBytesMut {
    pub fn new(transport: TransportContext, message: Vec<u8>) -> (r: TaggedBytesMut)
        ensures
            r.transport == transport,
            r.message@ == message@,
    {
        TaggedBytesMut { transport, message }
    }
}

} // verus!
