//! The erased interfaces of the pipeline backbone. A stage is stored as an
//! inbound half and an outbound half; each half answers the uniform event
//! set below, speaks `Msg` at its boundary, and declares by tag which
//! message type it accepts and which it emits. The chain check at
//! construction compares those tags, so a delivery never reaches a half
//! whose accepted tag differs from the message's.

use vstd::prelude::*;
use crate::message::{Msg, MsgKind, MsgV, PipelineError, all_of_kind, views_of};

verus! {

/// The least of a deadline already chosen and a handler's own wish.
pub open spec fn narrow_deadline(eto: u64, d: Option<u64>) -> u64 {
    match d {
        Some(x) => if x < eto {
            x
        } else {
            eto
        },
        None => eto,
    }
}

/// The inbound half of a stage, as the backbone drives it.
///
/// Every event answers with the half's next state, given by the spec
/// functions; `read` also answers the messages it emits toward the tail and
/// the errors it reports. A half accepts reads of its `rin` tag and emits
/// messages of its `rout` tag only, and no event moves those tags.
pub trait InboundHandlerInternal: View + Sized {
    /// The tag this half accepts on read.
    spec fn rin(v: Self::V) -> MsgKind;

    /// The tag this half emits on read.
    spec fn rout(v: Self::V) -> MsgKind;

    /// The earliest wakeup this half asks for, if any.
    spec fn deadline(v: Self::V) -> Option<u64>;

    /// What reading `m` does: the state after, the messages emitted in
    /// order, and the errors reported in order.
    spec fn read_spec(pre: Self::V, m: MsgV) -> (Self::V, Seq<MsgV>, Seq<PipelineError>);

    /// The state after the transport comes up.
    spec fn active_spec(pre: Self::V) -> Self::V;

    /// The state after the transport goes down.
    spec fn inactive_spec(pre: Self::V) -> Self::V;

    /// The state after end of input.
    spec fn eof_spec(pre: Self::V) -> Self::V;

    /// The state after a timeout fires at `now`.
    spec fn timeout_spec(pre: Self::V, now: u64) -> Self::V;

    /// The state after an error is delivered.
    spec fn exception_spec(pre: Self::V, e: PipelineError) -> Self::V;

    /// Reading a message of the accepted tag emits messages of the emitted
    /// tag only and moves neither tag nor the deadline's owner tags.
    proof fn read_spec_wf(pre: Self::V, m: MsgV)
        requires
            m.kind() == Self::rin(pre),
        ensures
            all_of_kind(Self::read_spec(pre, m).1, Self::rout(pre)),
            Self::rin(Self::read_spec(pre, m).0) == Self::rin(pre),
            Self::rout(Self::read_spec(pre, m).0) == Self::rout(pre),
    ;

    /// No control event moves the tags.
    proof fn events_preserve_tags(pre: Self::V, now: u64, e: PipelineError)
        ensures
            Self::rin(Self::active_spec(pre)) == Self::rin(pre),
            Self::rout(Self::active_spec(pre)) == Self::rout(pre),
            Self::rin(Self::inactive_spec(pre)) == Self::rin(pre),
            Self::rout(Self::inactive_spec(pre)) == Self::rout(pre),
            Self::rin(Self::eof_spec(pre)) == Self::rin(pre),
            Self::rout(Self::eof_spec(pre)) == Self::rout(pre),
            Self::rin(Self::timeout_spec(pre, now)) == Self::rin(pre),
            Self::rout(Self::timeout_spec(pre, now)) == Self::rout(pre),
            Self::rin(Self::exception_spec(pre, e)) == Self::rin(pre),
            Self::rout(Self::exception_spec(pre, e)) == Self::rout(pre),
    ;

    /// The accepted tag, for the construction-time chain check.
    fn rin_exec(&self) -> (k: MsgKind)
        ensures
            k == Self::rin(self@),
    ;

    /// The emitted tag, for the construction-time chain check.
    fn rout_exec(&self) -> (k: MsgKind)
        ensures
            k == Self::rout(self@),
    ;

    fn transport_active_internal(&mut self)
        ensures
            final(self)@ == Self::active_spec(old(self)@),
    ;

    fn transport_inactive_internal(&mut self)
        ensures
            final(self)@ == Self::inactive_spec(old(self)@),
    ;

    fn read_internal(&mut self, msg: Msg) -> (r: (Vec<Msg>, Vec<PipelineError>))
        requires
            msg@.kind() == Self::rin(old(self)@),
        ensures
            final(self)@ == Self::read_spec(old(self)@, msg@).0,
            views_of(r.0@) == Self::read_spec(old(self)@, msg@).1,
            r.1@ == Self::read_spec(old(self)@, msg@).2,
    ;

    fn read_exception_internal(&mut self, err: PipelineError)
        ensures
            final(self)@ == Self::exception_spec(old(self)@, err),
    ;

    fn read_eof_internal(&mut self)
        ensures
            final(self)@ == Self::eof_spec(old(self)@),
    ;

    fn handle_timeout_internal(&mut self, now: u64)
        ensures
            final(self)@ == Self::timeout_spec(old(self)@, now),
    ;

    fn poll_timeout_internal(&mut self, eto: &mut u64)
        ensures
            final(self)@ == old(self)@,
            *final(eto) == narrow_deadline(*old(eto), Self::deadline(old(self)@)),
    ;
}

/// The outbound half of a stage, as the backbone drives it.
pub trait OutboundHandlerInternal: View + Sized {
    /// The tag this half accepts on write.
    spec fn win(v: Self::V) -> MsgKind;

    /// The tag this half emits on write.
    spec fn wout(v: Self::V) -> MsgKind;

    /// What writing `m` does: the state after, the messages emitted in
    /// order toward the transport, and the errors reported in order.
    spec fn write_spec(pre: Self::V, m: MsgV) -> (Self::V, Seq<MsgV>, Seq<PipelineError>);

    /// The state after `close`.
    spec fn close_spec(pre: Self::V) -> Self::V;

    /// The state after an error is delivered.
    spec fn exception_spec(pre: Self::V, e: PipelineError) -> Self::V;

    /// Writing a message of the accepted tag emits messages of the emitted
    /// tag only and moves neither tag.
    proof fn write_spec_wf(pre: Self::V, m: MsgV)
        requires
            m.kind() == Self::win(pre),
        ensures
            all_of_kind(Self::write_spec(pre, m).1, Self::wout(pre)),
            Self::win(Self::write_spec(pre, m).0) == Self::win(pre),
            Self::wout(Self::write_spec(pre, m).0) == Self::wout(pre),
    ;

    /// No control event moves the tags.
    proof fn events_preserve_tags(pre: Self::V, e: PipelineError)
        ensures
            Self::win(Self::close_spec(pre)) == Self::win(pre),
            Self::wout(Self::close_spec(pre)) == Self::wout(pre),
            Self::win(Self::exception_spec(pre, e)) == Self::win(pre),
            Self::wout(Self::exception_spec(pre, e)) == Self::wout(pre),
    ;

    /// The accepted tag, for the construction-time chain check.
    fn win_exec(&self) -> (k: MsgKind)
        ensures
            k == Self::win(self@),
    ;

    /// The emitted tag, for the construction-time chain check.
    fn wout_exec(&self) -> (k: MsgKind)
        ensures
            k == Self::wout(self@),
    ;

    fn write_internal(&mut self, msg: Msg) -> (r: (Vec<Msg>, Vec<PipelineError>))
        requires
            msg@.kind() == Self::win(old(self)@),
        ensures
            final(self)@ == Self::write_spec(old(self)@, msg@).0,
            views_of(r.0@) == Self::write_spec(old(self)@, msg@).1,
            r.1@ == Self::write_spec(old(self)@, msg@).2,
    ;

    fn write_exception_internal(&mut self, err: PipelineError)
        ensures
            final(self)@ == Self::exception_spec(old(self)@, err),
    ;

    fn close_internal(&mut self)
        ensures
            final(self)@ == Self::close_spec(old(self)@),
    ;
}

} // verus!
