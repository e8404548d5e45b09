//! The per-connection event loop's decisions. The loop itself lives with
//! the socket: it selects one event at a time — a close request, a timer
//! expiry, an outbound frame ready to send, bytes read from the socket —
//! and hands it here. This module decides, against the pipeline, what the
//! loop does next, and computes the sleep the timer arm needs.

use vstd::prelude::*;
use crate::handler::{InStageV, InboundStage};
use crate::handler_internal::InboundHandlerInternal;
use crate::message::{Msg, MsgKind, MsgV, PipelineError};
use crate::pipeline::{chain_min, run_inbound, Lifecycle, Pipeline};
use crate::transport::{SockAddr, TaggedBytesMut, TransportContext};

verus! {

/// The cap on how far ahead the loop arms its sleep, in seconds.
pub const MAX_DURATION_IN_SECS: u64 = 86400;

/// One event the loop selected.
pub enum LoopEvent {
    /// The owner asked the loop to stop.
    CloseSignal,
    /// The armed sleep expired at `now`.
    TimerExpired { now: u64 },
    /// The outbound channel produced a frame, or ended.
    OutboundFrame { frame: Option<TaggedBytesMut> },
    /// The socket read `data` from `peer` at `now`; empty data is end of
    /// input.
    SocketRead { peer: Option<SockAddr>, now: u64, data: Vec<u8> },
    /// The socket failed.
    SocketError,
}

/// What the loop does after one event: go on selecting, send an envelope
/// to the socket first, or leave the loop and tear the connection down.
pub enum LoopAction {
    Continue,
    Send { frame: TaggedBytesMut },
    Break,
}

/// The local address and the event's data as one inbound envelope.
pub open spec fn envelope_of(
    local_addr: SockAddr,
    peer: Option<SockAddr>,
    now: u64,
    data: Seq<u8>,
) -> MsgV {
    MsgV::Bytes {
        transport: TransportContext { local_addr, peer_addr: peer, ecn: None, now },
        data,
    }
}

/// Decides one loop iteration: a close request or a failed or finished
/// input breaks the loop, a timer expiry fires the wakeups, an outbound
/// frame goes to the socket, and read bytes enter the pipeline. A socket
/// failure is surfaced to the handlers before the loop terminates.
pub fn loop_step(p: &mut Pipeline, local_addr: SockAddr, ev: LoopEvent) -> (act: LoopAction)
    requires
        old(p).wf(),
        old(p).lifecycle() == Lifecycle::Active,
        old(p).in_kind() == MsgKind::Bytes,
    ensures
        final(p).wf(),
        final(p).lifecycle() == Lifecycle::Active,
        final(p).in_kind() == old(p).in_kind(),
        final(p).out_kind() == old(p).out_kind(),
        final(p).outb() == old(p).outb(),
        final(p).outflow() == old(p).outflow(),
        match ev {
            LoopEvent::CloseSignal => act is Break && final(p).inb() == old(p).inb(),
            LoopEvent::TimerExpired { now } => act is Continue && final(p).inb() == old(
                p,
            ).inb().map(
                |j: int, v: InStageV| <InboundStage as InboundHandlerInternal>::timeout_spec(
                    v,
                    now,
                ),
            ),
            LoopEvent::OutboundFrame { frame } => final(p).inb() == old(p).inb() && (match frame {
                Some(tb) => act == (LoopAction::Send { frame: tb }),
                None => act is Break,
            }),
            LoopEvent::SocketRead { peer, now, data } => {
                if data@.len() == 0 {
                    act is Break && final(p).inb() == old(p).inb().map(
                        |j: int, v: InStageV|
                            <InboundStage as InboundHandlerInternal>::eof_spec(v),
                    )
                } else {
                    act is Continue && final(p).inb() == run_inbound(
                        old(p).inb(),
                        0,
                        seq![envelope_of(local_addr, peer, now, data@)],
                    ).0
                }
            },
            LoopEvent::SocketError => act is Break && final(p).inb() == old(p).inb().map(
                |j: int, v: InStageV| <InboundStage as InboundHandlerInternal>::exception_spec(
                    v,
                    PipelineError::Io,
                ),
            ),
        },
{
    match ev {
        LoopEvent::CloseSignal => LoopAction::Break,
        LoopEvent::TimerExpired { now } => {
            p.handle_timeout(now);
            LoopAction::Continue
        },
        LoopEvent::OutboundFrame { frame } => match frame {
            Some(tb) => LoopAction::Send { frame: tb },
            None => LoopAction::Break,
        },
        LoopEvent::SocketRead { peer, now, data } => {
            if data.len() == 0 {
                p.read_eof();
                LoopAction::Break
            } else {
                let transport = TransportContext { local_addr, peer_addr: peer, ecn: None, now };
                let (_delivered, _errors) = p.read(
                    Msg::Bytes(TaggedBytesMut { transport, message: data }),
                );
                LoopAction::Continue
            }
        },
        LoopEvent::SocketError => {
            p.read_exception(PipelineError::Io);
            LoopAction::Break
        },
    }
}

/// Adds without going past the largest value.
pub fn saturating_add_u64(a: u64, b: u64) -> (r: u64)
    ensures
        a + b <= u64::MAX ==> r == a + b,
        a + b > u64::MAX ==> r == u64::MAX,
{
    if a > u64::MAX - b {
        u64::MAX
    } else {
        a + b
    }
}

/// How long the loop sleeps before firing wakeups: it offers the pipeline
/// a deadline far in the future, lets every stage narrow it, and sleeps
/// for whatever of the narrowed deadline is still ahead of `now`.
pub fn next_delay(p: &mut Pipeline, now: u64, horizon: u64) -> (delay: u64)
    requires
        old(p).wf(),
        old(p).lifecycle() == Lifecycle::Active,
    ensures
        final(p).wf(),
        final(p).inb() == old(p).inb(),
        final(p).outb() == old(p).outb(),
        final(p).lifecycle() == old(p).lifecycle(),
        final(p).in_kind() == old(p).in_kind(),
        final(p).out_kind() == old(p).out_kind(),
        final(p).outflow() == old(p).outflow(),
        ({
            let eto = chain_min(old(p).inb(), if now + horizon <= u64::MAX {
                (now + horizon) as u64
            } else {
                u64::MAX
            });
            delay == if eto >= now {
                eto - now
            } else {
                0
            }
        }),
{
    let mut eto = saturating_add_u64(now, horizon);
    p.poll_timeout(&mut eto);
    if eto >= now {
        eto - now
    } else {
        0
    }
}

} // verus!
