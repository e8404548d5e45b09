//! The stages a pipeline can hold, and the erased halves the backbone
//! dispatches to. A handler value is split on insertion into an inbound
//! half and an outbound half; the halves answer the uniform interfaces of
//! `handler_internal`.

use vstd::prelude::*;
use crate::async_transport::{
    enqueue_spec, udp_write_spec, AsyncTransportTcp, AsyncTransportTcpDecoder,
    AsyncTransportTcpEncoder, AsyncTransportUdp, AsyncTransportUdpDecoder,
    AsyncTransportUdpEncoder, UdpEncoderV,
};
use crate::frame::{byte_codec_read_spec, LineDecoderV, TaggedByteToMessageCodec};
use crate::handler_internal::{InboundHandlerInternal, OutboundHandlerInternal};
use crate::message::{all_of_kind, views_of, Msg, MsgKind, MsgV, PipelineError};
use crate::outbound::tbs_views;
use crate::transport::TaggedBytesMut;
use crate::string_codec::{
    string_decode_spec, string_encode_spec, TaggedStringCodec, TaggedStringDecoder,
    TaggedStringEncoder,
};

verus! {

/// The inbound half of a user tap stage: an identity stage that records
/// every event it sees and passes each message on unchanged. It stands for
/// the application's own handler at the tail of a pipeline, and its
/// optional deadline exercises timer aggregation.
pub struct TapInbound {
    pub kind: MsgKind,
    pub deadline: Option<u64>,
    pub reads: Vec<Msg>,
    pub timeouts: Vec<u64>,
    pub active: bool,
    pub inactive: bool,
    pub saw_eof: bool,
    pub exceptions: Vec<PipelineError>,
}

/// The view of a tap's inbound half.
pub struct TapInV {
    pub kind: MsgKind,
    pub deadline: Option<u64>,
    pub reads: Seq<MsgV>,
    pub timeouts: Seq<u64>,
    pub active: bool,
    pub inactive: bool,
    pub saw_eof: bool,
    pub exceptions: Seq<PipelineError>,
}

impl View for TapInbound {
    type V = TapInV;

    open spec fn view(&self) -> TapInV {
        TapInV {
            kind: self.kind,
            deadline: self.deadline,
            reads: views_of(self.reads@),
            timeouts: self.timeouts@,
            active: self.active,
            inactive: self.inactive,
            saw_eof: self.saw_eof,
            exceptions: self.exceptions@,
        }
    }
}

/// The outbound half of a user tap stage: it records every write and close
/// and passes each message on unchanged.
pub struct TapOutbound {
    pub kind: MsgKind,
    pub writes: Vec<Msg>,
    pub closed: bool,
    pub exceptions: Vec<PipelineError>,
}

/// The view of a tap's outbound half.
pub struct TapOutV {
    pub kind: MsgKind,
    pub writes: Seq<MsgV>,
    pub closed: bool,
    pub exceptions: Seq<PipelineError>,
}

impl View for TapOutbound {
    type V = TapOutV;

    open spec fn view(&self) -> TapOutV {
        TapOutV {
            kind: self.kind,
            writes: views_of(self.writes@),
            closed: self.closed,
            exceptions: self.exceptions@,
        }
    }
}

/// A user tap stage of one message tag, with no deadline and nothing seen.
pub struct TapHandler {
    pub inbound: TapInbound,
    pub outbound: TapOutbound,
}

impl TapHandler {
    /// A fresh tap accepting and emitting `kind` in both directions.
    pub fn new(kind: MsgKind) -> (r: TapHandler)
        ensures
            r.inbound@ == (TapInV {
                kind,
                deadline: None,
                reads: Seq::<MsgV>::empty(),
                timeouts: Seq::<u64>::empty(),
                active: false,
                inactive: false,
                saw_eof: false,
                exceptions: Seq::<PipelineError>::empty(),
            }),
            r.outbound@ == (TapOutV {
                kind,
                writes: Seq::<MsgV>::empty(),
                closed: false,
                exceptions: Seq::<PipelineError>::empty(),
            }),
    {
        let r = TapHandler {
            inbound: TapInbound {
                kind,
                deadline: None,
                reads: Vec::new(),
                timeouts: Vec::new(),
                active: false,
                inactive: false,
                saw_eof: false,
                exceptions: Vec::new(),
            },
            outbound: TapOutbound {
                kind,
                writes: Vec::new(),
                closed: false,
                exceptions: Vec::new(),
            },
        };
        proof {
            assert(views_of(r.inbound.reads@) =~= Seq::<MsgV>::empty());
            assert(views_of(r.outbound.writes@) =~= Seq::<MsgV>::empty());
        }
        r
    }

    /// The same tap asking to be woken no later than `deadline`.
    pub fn with_deadline(self, deadline: u64) -> (r: TapHandler)
        ensures
            r.inbound@ == (TapInV { deadline: Some(deadline), ..self.inbound@ }),
            r.outbound@ == self.outbound@,
    {
        TapHandler {
            inbound: TapInbound { deadline: Some(deadline), ..self.inbound },
            outbound: self.outbound,
        }
    }
}

/// The inbound half of any stage the pipeline can hold.
pub enum InboundStage {
    TransportTcp(AsyncTransportTcpDecoder),
    TransportUdp(AsyncTransportUdpDecoder),
    ByteCodec(TaggedByteToMessageCodec),
    StringCodec(TaggedStringDecoder),
    Tap(TapInbound),
}

/// The view of an inbound half: the state of the stateful ones.
pub enum InStageV {
    TransportTcp,
    TransportUdp,
    ByteCodec(LineDecoderV),
    StringCodec,
    Tap(TapInV),
}

impl View for InboundStage {
    type V = InStageV;

    open spec fn view(&self) -> InStageV {
        match self {
            InboundStage::TransportTcp(_) => InStageV::TransportTcp,
            InboundStage::TransportUdp(_) => InStageV::TransportUdp,
            InboundStage::ByteCodec(c) => InStageV::ByteCodec(c.decoder@),
            InboundStage::StringCodec(_) => InStageV::StringCodec,
            InboundStage::Tap(t) => InStageV::Tap(t@),
        }
    }
}

impl InboundHandlerInternal for InboundStage {
    open spec fn rin(v: InStageV) -> MsgKind {
        match v {
            InStageV::TransportTcp => MsgKind::Bytes,
            InStageV::TransportUdp => MsgKind::Bytes,
            InStageV::ByteCodec(_) => MsgKind::Bytes,
            InStageV::StringCodec => MsgKind::Bytes,
            InStageV::Tap(t) => t.kind,
        }
    }

    open spec fn rout(v: InStageV) -> MsgKind {
        match v {
            InStageV::TransportTcp => MsgKind::Bytes,
            InStageV::TransportUdp => MsgKind::Bytes,
            InStageV::ByteCodec(_) => MsgKind::Bytes,
            InStageV::StringCodec => MsgKind::Text,
            InStageV::Tap(t) => t.kind,
        }
    }

    open spec fn deadline(v: InStageV) -> Option<u64> {
        match v {
            InStageV::Tap(t) => t.deadline,
            _ => None,
        }
    }

    open spec fn read_spec(pre: InStageV, m: MsgV) -> (InStageV, Seq<MsgV>, Seq<PipelineError>) {
        match pre {
            InStageV::TransportTcp => (pre, seq![m], seq![]),
            InStageV::TransportUdp => (pre, seq![m], seq![]),
            InStageV::ByteCodec(d) => match m {
                MsgV::Bytes { transport, data } => {
                    let (d2, outs, errs) = byte_codec_read_spec(d, transport, data);
                    (InStageV::ByteCodec(d2), outs, errs)
                },
                _ => (pre, seq![], seq![]),
            },
            InStageV::StringCodec => match m {
                MsgV::Bytes { transport, data } => {
                    let (outs, errs) = string_decode_spec(transport, data);
                    (pre, outs, errs)
                },
                _ => (pre, seq![], seq![]),
            },
            InStageV::Tap(t) => (
                InStageV::Tap(TapInV { reads: t.reads.push(m), ..t }),
                seq![m],
                seq![],
            ),
        }
    }

    open spec fn active_spec(pre: InStageV) -> InStageV {
        match pre {
            InStageV::Tap(t) => InStageV::Tap(TapInV { active: true, ..t }),
            _ => pre,
        }
    }

    open spec fn inactive_spec(pre: InStageV) -> InStageV {
        match pre {
            InStageV::Tap(t) => InStageV::Tap(TapInV { inactive: true, ..t }),
            _ => pre,
        }
    }

    open spec fn eof_spec(pre: InStageV) -> InStageV {
        match pre {
            InStageV::Tap(t) => InStageV::Tap(TapInV { saw_eof: true, ..t }),
            _ => pre,
        }
    }

    open spec fn timeout_spec(pre: InStageV, now: u64) -> InStageV {
        match pre {
            InStageV::Tap(t) => InStageV::Tap(TapInV { timeouts: t.timeouts.push(now), ..t }),
            _ => pre,
        }
    }

    open spec fn exception_spec(pre: InStageV, e: PipelineError) -> InStageV {
        match pre {
            InStageV::Tap(t) => InStageV::Tap(TapInV { exceptions: t.exceptions.push(e), ..t }),
            _ => pre,
        }
    }

    proof fn read_spec_wf(pre: InStageV, m: MsgV) {
        match pre {
            InStageV::ByteCodec(d) => match m {
                MsgV::Bytes { transport, data } => {
                    let outs = byte_codec_read_spec(d, transport, data).1;
                    assert forall|i: int| 0 <= i < outs.len() implies (#[trigger] outs[i]).kind()
                        == MsgKind::Bytes by {}
                },
                _ => {},
            },
            _ => {},
        }
    }

    proof fn events_preserve_tags(pre: InStageV, now: u64, e: PipelineError) {
    }

    fn rin_exec(&self) -> (k: MsgKind) {
        match self {
            InboundStage::TransportTcp(_) => MsgKind::Bytes,
            InboundStage::TransportUdp(_) => MsgKind::Bytes,
            InboundStage::ByteCodec(_) => MsgKind::Bytes,
            InboundStage::StringCodec(_) => MsgKind::Bytes,
            InboundStage::Tap(t) => t.kind,
        }
    }

    fn rout_exec(&self) -> (k: MsgKind) {
        match self {
            InboundStage::TransportTcp(_) => MsgKind::Bytes,
            InboundStage::TransportUdp(_) => MsgKind::Bytes,
            InboundStage::ByteCodec(_) => MsgKind::Bytes,
            InboundStage::StringCodec(_) => MsgKind::Text,
            InboundStage::Tap(t) => t.kind,
        }
    }

    fn transport_active_internal(&mut self) {
        match self {
            InboundStage::Tap(t) => {
                t.active = true;
            },
            _ => {},
        }
    }

    fn transport_inactive_internal(&mut self) {
        match self {
            InboundStage::Tap(t) => {
                t.inactive = true;
            },
            _ => {},
        }
    }

    fn read_internal(&mut self, msg: Msg) -> (r: (Vec<Msg>, Vec<PipelineError>)) {
        match self {
            InboundStage::TransportTcp(_) | InboundStage::TransportUdp(_) => {
                let mut outs: Vec<Msg> = Vec::new();
                outs.push(msg);
                proof {
                    assert(views_of(outs@) =~= seq![outs@[0]@]);
                }
                (outs, Vec::new())
            },
            InboundStage::ByteCodec(c) => match msg {
                Msg::Bytes(tb) => c.read(tb),
                _ => vstd::pervasive::unreached(),
            },
            InboundStage::StringCodec(d) => match msg {
                Msg::Bytes(tb) => d.read(tb),
                _ => vstd::pervasive::unreached(),
            },
            InboundStage::Tap(t) => {
                let copy = msg.duplicate();
                let ghost pre_reads = t.reads@;
                t.reads.push(copy);
                proof {
                    assert(views_of(t.reads@) =~= views_of(pre_reads).push(msg@));
                }
                let mut outs: Vec<Msg> = Vec::new();
                outs.push(msg);
                proof {
                    assert(views_of(outs@) =~= seq![outs@[0]@]);
                }
                (outs, Vec::new())
            },
        }
    }

    fn read_exception_internal(&mut self, err: PipelineError) {
        match self {
            InboundStage::Tap(t) => {
                t.exceptions.push(err);
            },
            _ => {},
        }
    }

    fn read_eof_internal(&mut self) {
        match self {
            InboundStage::Tap(t) => {
                t.saw_eof = true;
            },
            _ => {},
        }
    }

    fn handle_timeout_internal(&mut self, now: u64) {
        match self {
            InboundStage::Tap(t) => {
                t.timeouts.push(now);
            },
            _ => {},
        }
    }

    fn poll_timeout_internal(&mut self, eto: &mut u64) {
        match self {
            InboundStage::Tap(t) => match t.deadline {
                Some(d) => {
                    if d < *eto {
                        *eto = d;
                    }
                },
                None => {},
            },
            _ => {},
        }
    }
}

/// The outbound half of any stage the pipeline can hold.
pub enum OutboundStage {
    TransportTcp(AsyncTransportTcpEncoder),
    TransportUdp(AsyncTransportUdpEncoder),
    ByteCodec,
    StringCodec(TaggedStringEncoder),
    Tap(TapOutbound),
}

/// The view of an outbound half: the state of the stateful ones.
pub enum OutStageV {
    TransportTcp(Option<Seq<MsgV>>),
    TransportUdp(UdpEncoderV),
    ByteCodec,
    StringCodec,
    Tap(TapOutV),
}

impl View for OutboundStage {
    type V = OutStageV;

    open spec fn view(&self) -> OutStageV {
        match self {
            OutboundStage::TransportTcp(e) => OutStageV::TransportTcp(e@),
            OutboundStage::TransportUdp(e) => OutStageV::TransportUdp(e@),
            OutboundStage::ByteCodec => OutStageV::ByteCodec,
            OutboundStage::StringCodec(_) => OutStageV::StringCodec,
            OutboundStage::Tap(t) => OutStageV::Tap(t@),
        }
    }
}

impl OutStageV {
    /// The outbound channel this half holds: the transport halves own one
    /// while the connection is up, the others none.
    pub open spec fn chan(self) -> Option<Seq<MsgV>> {
        match self {
            OutStageV::TransportTcp(c) => c,
            OutStageV::TransportUdp(u) => u.chan,
            _ => None,
        }
    }

    /// The same half with its channel contents replaced.
    pub open spec fn with_chan(self, c: Option<Seq<MsgV>>) -> OutStageV {
        match self {
            OutStageV::TransportTcp(_) => OutStageV::TransportTcp(c),
            OutStageV::TransportUdp(u) => OutStageV::TransportUdp(UdpEncoderV { chan: c, ..u }),
            _ => self,
        }
    }
}

impl OutboundStage {
    /// Pops the envelope that has waited longest on this half's channel,
    /// if the half holds an open, non-empty channel.
    pub fn poll_chan(&mut self) -> (r: Option<TaggedBytesMut>)
        ensures
            (old(self)@.chan() is None || old(self)@.chan().unwrap().len() == 0) ==> r is None
                && final(self)@ == old(self)@,
            (old(self)@.chan() is Some && old(self)@.chan().unwrap().len() > 0) ==> ({
                let q = old(self)@.chan().unwrap();
                &&& r is Some
                &&& (MsgV::Bytes {
                    transport: r.unwrap().transport,
                    data: r.unwrap().message@,
                }) == q[0]
                &&& final(self)@ == old(self)@.with_chan(Some(q.drop_first()))
            }),
    {
        match self {
            OutboundStage::TransportTcp(e) => match &mut e.writer {
                Some(w) => w.recv(),
                None => None,
            },
            OutboundStage::TransportUdp(e) => match &mut e.writer {
                Some(w) => w.recv(),
                None => None,
            },
            _ => None,
        }
    }

    /// Empties this half's channel, handing every waiting envelope out in
    /// send order.
    pub fn drain_chan(&mut self) -> (r: Vec<TaggedBytesMut>)
        ensures
            old(self)@.chan() is None ==> r@.len() == 0 && final(self)@ == old(self)@,
            old(self)@.chan() is Some ==> ({
                &&& tbs_views(r@) == old(self)@.chan().unwrap()
                &&& final(self)@ == old(self)@.with_chan(Some(Seq::<MsgV>::empty()))
            }),
    {
        match self {
            OutboundStage::TransportTcp(e) => match &mut e.writer {
                Some(w) => w.drain(),
                None => {
                    let r: Vec<TaggedBytesMut> = Vec::new();
                    r
                },
            },
            OutboundStage::TransportUdp(e) => match &mut e.writer {
                Some(w) => w.drain(),
                None => {
                    let r: Vec<TaggedBytesMut> = Vec::new();
                    r
                },
            },
            _ => {
                let r: Vec<TaggedBytesMut> = Vec::new();
                r
            },
        }
    }
}

impl OutboundHandlerInternal for OutboundStage {
    open spec fn win(v: OutStageV) -> MsgKind {
        match v {
            OutStageV::TransportTcp(_) => MsgKind::Bytes,
            OutStageV::TransportUdp(_) => MsgKind::Bytes,
            OutStageV::ByteCodec => MsgKind::Bytes,
            OutStageV::StringCodec => MsgKind::Text,
            OutStageV::Tap(t) => t.kind,
        }
    }

    open spec fn wout(v: OutStageV) -> MsgKind {
        match v {
            OutStageV::TransportTcp(_) => MsgKind::Bytes,
            OutStageV::TransportUdp(_) => MsgKind::Bytes,
            OutStageV::ByteCodec => MsgKind::Bytes,
            OutStageV::StringCodec => MsgKind::Bytes,
            OutStageV::Tap(t) => t.kind,
        }
    }

    open spec fn write_spec(pre: OutStageV, m: MsgV) -> (OutStageV, Seq<MsgV>, Seq<
        PipelineError,
    >) {
        match pre {
            OutStageV::TransportTcp(chan) => (
                OutStageV::TransportTcp(enqueue_spec(chan, m)),
                seq![],
                seq![],
            ),
            OutStageV::TransportUdp(v) => (
                OutStageV::TransportUdp(udp_write_spec(v, m)),
                seq![],
                seq![],
            ),
            OutStageV::ByteCodec => (pre, seq![m], seq![]),
            OutStageV::StringCodec => match m {
                MsgV::Text { transport, data } => (
                    pre,
                    seq![string_encode_spec(transport, data)],
                    seq![],
                ),
                _ => (pre, seq![], seq![]),
            },
            OutStageV::Tap(t) => (
                OutStageV::Tap(TapOutV { writes: t.writes.push(m), ..t }),
                seq![m],
                seq![],
            ),
        }
    }

    open spec fn close_spec(pre: OutStageV) -> OutStageV {
        match pre {
            OutStageV::TransportTcp(_) => OutStageV::TransportTcp(None),
            OutStageV::TransportUdp(v) => OutStageV::TransportUdp(
                UdpEncoderV { chan: None, ..v },
            ),
            OutStageV::Tap(t) => OutStageV::Tap(TapOutV { closed: true, ..t }),
            _ => pre,
        }
    }

    open spec fn exception_spec(pre: OutStageV, e: PipelineError) -> OutStageV {
        match pre {
            OutStageV::Tap(t) => OutStageV::Tap(TapOutV { exceptions: t.exceptions.push(e), ..t }),
            _ => pre,
        }
    }

    proof fn write_spec_wf(pre: OutStageV, m: MsgV) {
    }

    proof fn events_preserve_tags(pre: OutStageV, e: PipelineError) {
    }

    fn win_exec(&self) -> (k: MsgKind) {
        match self {
            OutboundStage::TransportTcp(_) => MsgKind::Bytes,
            OutboundStage::TransportUdp(_) => MsgKind::Bytes,
            OutboundStage::ByteCodec => MsgKind::Bytes,
            OutboundStage::StringCodec(_) => MsgKind::Text,
            OutboundStage::Tap(t) => t.kind,
        }
    }

    fn wout_exec(&self) -> (k: MsgKind) {
        match self {
            OutboundStage::TransportTcp(_) => MsgKind::Bytes,
            OutboundStage::TransportUdp(_) => MsgKind::Bytes,
            OutboundStage::ByteCodec => MsgKind::Bytes,
            OutboundStage::StringCodec(_) => MsgKind::Bytes,
            OutboundStage::Tap(t) => t.kind,
        }
    }

    fn write_internal(&mut self, msg: Msg) -> (r: (Vec<Msg>, Vec<PipelineError>)) {
        match self {
            OutboundStage::TransportTcp(e) => match msg {
                Msg::Bytes(tb) => {
                    e.write(tb);
                    (Vec::new(), Vec::new())
                },
                _ => vstd::pervasive::unreached(),
            },
            OutboundStage::TransportUdp(e) => match msg {
                Msg::Bytes(tb) => {
                    e.write(tb);
                    (Vec::new(), Vec::new())
                },
                _ => vstd::pervasive::unreached(),
            },
            OutboundStage::ByteCodec => {
                let mut outs: Vec<Msg> = Vec::new();
                outs.push(msg);
                proof {
                    assert(views_of(outs@) =~= seq![outs@[0]@]);
                }
                (outs, Vec::new())
            },
            OutboundStage::StringCodec(e) => match msg {
                Msg::Text(ts) => {
                    let out = e.write(ts);
                    let mut outs: Vec<Msg> = Vec::new();
                    outs.push(out);
                    proof {
                        assert(views_of(outs@) =~= seq![outs@[0]@]);
                    }
                    (outs, Vec::new())
                },
                _ => vstd::pervasive::unreached(),
            },
            OutboundStage::Tap(t) => {
                let copy = msg.duplicate();
                let ghost pre_writes = t.writes@;
                t.writes.push(copy);
                proof {
                    assert(views_of(t.writes@) =~= views_of(pre_writes).push(msg@));
                }
                let mut outs: Vec<Msg> = Vec::new();
                outs.push(msg);
                proof {
                    assert(views_of(outs@) =~= seq![outs@[0]@]);
                }
                (outs, Vec::new())
            },
        }
    }

    fn write_exception_internal(&mut self, err: PipelineError) {
        match self {
            OutboundStage::Tap(t) => {
                t.exceptions.push(err);
            },
            _ => {},
        }
    }

    fn close_internal(&mut self) {
        match self {
            OutboundStage::TransportTcp(e) => e.close(),
            OutboundStage::TransportUdp(e) => e.close(),
            OutboundStage::Tap(t) => {
                t.closed = true;
            },
            _ => {},
        }
    }
}

/// A handler value as the application hands it to `add_back`: one of the
/// built-in stages or a user tap.
pub enum Handler {
    TransportTcp(AsyncTransportTcp),
    TransportUdp(AsyncTransportUdp),
    ByteCodec(TaggedByteToMessageCodec),
    StringCodec(TaggedStringCodec),
    Tap(TapHandler),
}

/// The view of a handler: the views of the two halves it splits into.
pub struct HandlerV {
    pub inb: InStageV,
    pub outb: OutStageV,
}

impl View for Handler {
    type V = HandlerV;

    open spec fn view(&self) -> HandlerV {
        match self {
            Handler::TransportTcp(h) => HandlerV {
                inb: InStageV::TransportTcp,
                outb: OutStageV::TransportTcp(h.encoder@),
            },
            Handler::TransportUdp(h) => HandlerV {
                inb: InStageV::TransportUdp,
                outb: OutStageV::TransportUdp(h.encoder@),
            },
            Handler::ByteCodec(h) => HandlerV {
                inb: InStageV::ByteCodec(h.decoder@),
                outb: OutStageV::ByteCodec,
            },
            Handler::StringCodec(_) => HandlerV {
                inb: InStageV::StringCodec,
                outb: OutStageV::StringCodec,
            },
            Handler::Tap(h) => HandlerV {
                inb: InStageV::Tap(h.inbound@),
                outb: OutStageV::Tap(h.outbound@),
            },
        }
    }
}

impl Handler {
    /// The stage's name, for diagnostics.
    pub fn name(&self) -> &'static str {
        match self {
            Handler::TransportTcp(_) => "AsyncTransportTcp",
            Handler::TransportUdp(_) => "AsyncTransportUdp",
            Handler::ByteCodec(_) => "TaggedByteToMessageCodec",
            Handler::StringCodec(_) => "TaggedStringCodec",
            Handler::Tap(_) => "Tap",
        }
    }

    /// The tags the construction-time chain check compares: what the
    /// inbound half accepts on read, and what the outbound half emits on
    /// write.
    pub fn halves_tags(&self) -> (r: (MsgKind, MsgKind))
        ensures
            r.0 == <InboundStage as InboundHandlerInternal>::rin(self@.inb),
            r.1 == <OutboundStage as OutboundHandlerInternal>::wout(self@.outb),
    {
        match self {
            Handler::TransportTcp(_) => (MsgKind::Bytes, MsgKind::Bytes),
            Handler::TransportUdp(_) => (MsgKind::Bytes, MsgKind::Bytes),
            Handler::ByteCodec(_) => (MsgKind::Bytes, MsgKind::Bytes),
            Handler::StringCodec(_) => (MsgKind::Bytes, MsgKind::Bytes),
            Handler::Tap(h) => (h.inbound.kind, h.outbound.kind),
        }
    }

    /// The two erased halves of the handler.
    pub fn split(self) -> (r: (InboundStage, OutboundStage))
        ensures
            r.0@ == self@.inb,
            r.1@ == self@.outb,
    {
        match self {
            Handler::TransportTcp(h) => {
                let (d, e) = h.split();
                (InboundStage::TransportTcp(d), OutboundStage::TransportTcp(e))
            },
            Handler::TransportUdp(h) => {
                let (d, e) = h.split();
                (InboundStage::TransportUdp(d), OutboundStage::TransportUdp(e))
            },
            Handler::ByteCodec(h) => (InboundStage::ByteCodec(h), OutboundStage::ByteCodec),
            Handler::StringCodec(h) => {
                let (d, _e) = h.split();
                (InboundStage::StringCodec(d), OutboundStage::StringCodec(TaggedStringEncoder))
            },
            Handler::Tap(h) => (InboundStage::Tap(h.inbound), OutboundStage::Tap(h.outbound)),
        }
    }
}

} // verus!
