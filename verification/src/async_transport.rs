//! The built-in transport stages: first inbound and last outbound stage of
//! every standard pipeline. Inbound they pass byte envelopes through
//! unchanged; outbound they enqueue finished envelopes onto the outbound
//! channel, and `close` drops the channel so nothing more can be sent.

use vstd::prelude::*;
use crate::message::MsgV;
use crate::outbound::OutboundTx;
use crate::transport::TaggedBytesMut;

verus! {

/// What enqueuing `m` does to a channel view: append when the channel is
/// still open, nothing after `close`.
pub open spec fn enqueue_spec(chan: Option<Seq<MsgV>>, m: MsgV) -> Option<Seq<MsgV>> {
    match chan {
        Some(q) => Some(q.push(m)),
        None => None,
    }
}

/// The inbound half of the TCP transport stage: a pass-through.
pub struct AsyncTransportTcpDecoder;

/// The outbound half of the TCP transport stage: it owns the producing end
/// of the outbound channel while the connection is up.
pub struct AsyncTransportTcpEncoder {
    pub writer: Option<OutboundTx>,
}

impl View for AsyncTransportTcpEncoder {
    type V = Option<Seq<MsgV>>;

    open spec fn view(&self) -> Option<Seq<MsgV>> {
        match self.writer {
            Some(w) => Some(w@),
            None => None,
        }
    }
}

impl AsyncTransportTcpEncoder {
    /// Enqueues the envelope. The peer address on the envelope is ignored:
    /// the connection already fixes the destination.
    pub fn write(&mut self, tb: TaggedBytesMut)
        ensures
            final(self)@ == enqueue_spec(
                old(self)@,
                MsgV::Bytes { transport: tb.transport, data: tb.message@ },
            ),
    {
        match &mut self.writer {
            Some(w) => w.send(tb),
            None => {},
        }
    }

    /// Drops the channel: later writes go nowhere.
    pub fn close(&mut self)
        ensures
            final(self)@ is None,
    {
        self.writer = None;
    }
}

/// The TCP transport stage, split on insertion into its two halves.
pub struct AsyncTransportTcp {
    pub decoder: AsyncTransportTcpDecoder,
    pub encoder: AsyncTransportTcpEncoder,
}

impl AsyncTransportTcp {
    /// A TCP transport stage holding the given outbound channel.
    pub fn new(writer: OutboundTx) -> (r: AsyncTransportTcp)
        ensures
            r.encoder@ == Some(writer@),
    {
        AsyncTransportTcp {
            decoder: AsyncTransportTcpDecoder,
            encoder: AsyncTransportTcpEncoder { writer: Some(writer) },
        }
    }

    /// The two erased halves of the stage.
    pub fn split(self) -> (r: (AsyncTransportTcpDecoder, AsyncTransportTcpEncoder))
        ensures
            r.1@ == self.encoder@,
    {
        (self.decoder, self.encoder)
    }
}

/// The inbound half of the UDP transport stage: a pass-through.
pub struct AsyncTransportUdpDecoder;

/// The outbound half of the UDP transport stage.
pub struct AsyncTransportUdpEncoder {
    pub writer: Option<OutboundTx>,
    pub is_server: bool,
}

/// The view of the UDP outbound half: the channel contents while open, and
/// whether the stage serves many peers.
pub struct UdpEncoderV {
    pub chan: Option<Seq<MsgV>>,
    pub is_server: bool,
}

impl View for AsyncTransportUdpEncoder {
    type V = UdpEncoderV;

    open spec fn view(&self) -> UdpEncoderV {
        UdpEncoderV {
            chan: match self.writer {
                Some(w) => Some(w@),
                None => None,
            },
            is_server: self.is_server,
        }
    }
}

/// What the UDP outbound half does with `m`: a server datagram without a
/// peer address has no destination and is dropped; anything else is
/// enqueued while the channel is open.
pub open spec fn udp_write_spec(pre: UdpEncoderV, m: MsgV) -> UdpEncoderV {
    if pre.is_server && m.transport().peer_addr is None {
        pre
    } else {
        UdpEncoderV { chan: enqueue_spec(pre.chan, m), ..pre }
    }
}

impl AsyncTransportUdpEncoder {
    /// Enqueues the envelope; on a server, the envelope's peer address is
    /// the datagram destination, and without one the write is dropped.
    pub fn write(&mut self, tb: TaggedBytesMut)
        ensures
            final(self)@ == udp_write_spec(
                old(self)@,
                MsgV::Bytes { transport: tb.transport, data: tb.message@ },
            ),
    {
        if self.is_server && tb.transport.peer_addr.is_none() {
            return ;
        }
        match &mut self.writer {
            Some(w) => w.send(tb),
            None => {},
        }
    }

    /// Drops the channel: later writes go nowhere.
    pub fn close(&mut self)
        ensures
            final(self)@.chan is None,
            final(self)@.is_server == old(self)@.is_server,
    {
        self.writer = None;
    }
}

/// The UDP transport stage, split on insertion into its two halves.
pub struct AsyncTransportUdp {
    pub decoder: AsyncTransportUdpDecoder,
    pub encoder: AsyncTransportUdpEncoder,
}

impl AsyncTransportUdp {
    /// A UDP transport stage holding the given outbound channel; a server
    /// stage routes each datagram by the envelope's peer address.
    pub fn new(writer: OutboundTx, is_server: bool) -> (r: AsyncTransportUdp)
        ensures
            r.encoder@.chan == Some(writer@),
            r.encoder@.is_server == is_server,
    {
        AsyncTransportUdp {
            decoder: AsyncTransportUdpDecoder,
            encoder: AsyncTransportUdpEncoder { writer: Some(writer), is_server },
        }
    }

    /// The two erased halves of the stage.
    pub fn split(self) -> (r: (AsyncTransportUdpDecoder, AsyncTransportUdpEncoder))
        ensures
            r.1@ == self.encoder@,
    {
        (self.decoder, self.encoder)
    }
}

} // verus!
