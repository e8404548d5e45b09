//! The type-erased message that travels the pipeline backbone, its
//! mathematical view, and the tag that stands for a handler's accepted and
//! emitted message types.
//!
//! Stages with differing message types share one chain by exchanging `Msg`
//! values; each stage declares the tags it accepts and emits, and the chain
//! check at construction makes a mismatched delivery unreachable.

use vstd::prelude::*;
use crate::string_codec::TaggedString;
use crate::transport::{TaggedBytesMut, TransportContext};

verus! {

/// The tag naming a message type at a stage boundary.
#[derive(Clone, Copy, PartialEq, Eq, Structural, Debug)]
pub enum MsgKind {
    Bytes,
    Text,
}

/// A message crossing the pipeline backbone: a tagged byte buffer or a tagged
/// string, each carrying its transport context.
#[derive(Clone, PartialEq, Eq, Debug)]
pub enum Msg {
    Bytes(TaggedBytesMut),
    Text(TaggedString),
}

/// The view of a `Msg`: the same alternatives over mathematical sequences.
pub enum MsgV {
    Bytes { transport: TransportContext, data: Seq<u8> },
    Text { transport: TransportContext, data: Seq<char> },
}

impl View for Msg {
    type V = MsgV;

    open spec fn view(&self) -> MsgV {
        match self {
            Msg::Bytes(tb) => MsgV::Bytes { transport: tb.transport, data: tb.message@ },
            Msg::Text(ts) => MsgV::Text { transport: ts.transport, data: ts.message@ },
        }
    }
}

impl MsgV {
    /// The tag of a message view.
    pub open spec fn kind(self) -> MsgKind {
        match self {
            MsgV::Bytes { .. } => MsgKind::Bytes,
            MsgV::Text { .. } => MsgKind::Text,
        }
    }

    /// The transport context a message view carries.
    pub open spec fn transport(self) -> TransportContext {
        match self {
            MsgV::Bytes { transport, .. } => transport,
            MsgV::Text { transport, .. } => transport,
        }
    }
}

impl Msg {
    /// A copy of the message with the same view.
    pub fn duplicate(&self) -> (r: Msg)
        ensures
            r@ == self@,
    {
        match self {
            Msg::Bytes(tb) => Msg::Bytes(
                TaggedBytesMut {
                    transport: tb.transport,
                    message: vstd::slice::slice_to_vec(tb.message.as_slice()),
                },
            ),
            Msg::Text(ts) => Msg::Text(
                TaggedString { transport: ts.transport, message: ts.message.clone() },
            ),
        }
    }

    /// The tag of a message, available to executable dispatch.
    pub fn kind(&self) -> (k: MsgKind)
        ensures
            k == self@.kind(),
    {
        match self {
            Msg::Bytes(_) => MsgKind::Bytes,
            Msg::Text(_) => MsgKind::Text,
        }
    }
}

/// The views of a sequence of messages, in order.
pub open spec fn views_of(s: Seq<Msg>) -> Seq<MsgV> {
    s.map(|i: int, m: Msg| m@)
}

/// Every message of `s` carries the tag `k`.
pub open spec fn all_of_kind(s: Seq<MsgV>, k: MsgKind) -> bool {
    forall|i: int| 0 <= i < s.len() ==> (#[trigger] s[i]).kind() == k
}

/// What a pipeline stage can report instead of, or besides, its output: a
/// frame that overran the configured cap, carrying the length of the offending
/// line; a buffer that is not valid UTF-8; at construction time, a handler
/// whose tags do not continue the chain; or a socket failure the loop
/// surfaces before it terminates.
#[derive(Clone, Copy, PartialEq, Eq, Structural, Debug)]
pub enum PipelineError {
    TooLongFrame { length: usize },
    InvalidUtf8,
    TypeChainMismatch,
    Io,
}

} // verus!
