//! The pipeline: an ordered, type-checked chain of handler stages, the
//! entry points for inbound and outbound events, and the lifecycle that
//! gates them. Stages are stored as parallel inbound and outbound chains;
//! events walk head to tail inbound and tail to head outbound, each stage
//! seeing the messages of one direction in the order they were produced.

use vstd::prelude::*;
use crate::handler::{Handler, InStageV, InboundStage, OutStageV, OutboundStage};
use crate::handler_internal::{
    narrow_deadline, InboundHandlerInternal, OutboundHandlerInternal,
};
use crate::message::{all_of_kind, views_of, Msg, MsgKind, MsgV, PipelineError};
use crate::transport::TaggedBytesMut;

verus! {

/// Where a pipeline stands in its life: handlers may be added only while
/// `Constructing`; events flow only while `Active`.
#[derive(Clone, Copy, PartialEq, Eq, Structural, Debug)]
pub enum Lifecycle {
    Constructing,
    Finalized,
    Active,
    Inactive,
}

/// The accepted read tag of an inbound half.
pub open spec fn rin_v(v: InStageV) -> MsgKind {
    <InboundStage as InboundHandlerInternal>::rin(v)
}

/// The emitted read tag of an inbound half.
pub open spec fn rout_v(v: InStageV) -> MsgKind {
    <InboundStage as InboundHandlerInternal>::rout(v)
}

/// The deadline an inbound half asks for.
pub open spec fn deadline_v(v: InStageV) -> Option<u64> {
    <InboundStage as InboundHandlerInternal>::deadline(v)
}

/// What one read does at an inbound half.
pub open spec fn read_v(v: InStageV, m: MsgV) -> (InStageV, Seq<MsgV>, Seq<PipelineError>) {
    <InboundStage as InboundHandlerInternal>::read_spec(v, m)
}

/// The accepted write tag of an outbound half.
pub open spec fn win_v(v: OutStageV) -> MsgKind {
    <OutboundStage as OutboundHandlerInternal>::win(v)
}

/// The emitted write tag of an outbound half.
pub open spec fn wout_v(v: OutStageV) -> MsgKind {
    <OutboundStage as OutboundHandlerInternal>::wout(v)
}

/// What one write does at an outbound half.
pub open spec fn write_v(v: OutStageV, m: MsgV) -> (OutStageV, Seq<MsgV>, Seq<PipelineError>) {
    <OutboundStage as OutboundHandlerInternal>::write_spec(v, m)
}

/// The views of a chain of inbound halves.
pub open spec fn in_views(s: Seq<InboundStage>) -> Seq<InStageV> {
    s.map(|i: int, st: InboundStage| st@)
}

/// The views of a chain of outbound halves.
pub open spec fn out_views(s: Seq<OutboundStage>) -> Seq<OutStageV> {
    s.map(|i: int, st: OutboundStage| st@)
}

/// The type chain holds: inbound, each stage emits what its successor
/// accepts; outbound, each stage emits what its predecessor accepts.
pub open spec fn chain_ok(inb: Seq<InStageV>, outb: Seq<OutStageV>) -> bool {
    &&& inb.len() == outb.len()
    &&& forall|i: int|
        0 <= i && i + 1 < inb.len() ==> rout_v(#[trigger] inb[i]) == rin_v(inb[i + 1])
    &&& forall|i: int|
        0 <= i && i + 1 < outb.len() ==> wout_v(#[trigger] outb[i + 1]) == win_v(outb[i])
}

/// One stateful stage fed a list of messages, one at a time, accumulating
/// what it emits and what it reports.
pub open spec fn run_stage(s: InStageV, msgs: Seq<MsgV>) -> (InStageV, Seq<MsgV>, Seq<
    PipelineError,
>)
    decreases msgs.len(),
{
    if msgs.len() == 0 {
        (s, Seq::empty(), Seq::empty())
    } else {
        let (s1, o1, e1) = read_v(s, msgs[0]);
        let (s2, o2, e2) = run_stage(s1, msgs.drop_first());
        (s2, o1 + o2, e1 + e2)
    }
}

/// The inbound traversal from stage `i` on: the messages enter stage `i`,
/// what it emits enters stage `i + 1`, and what leaves the last stage is
/// delivered at the tail.
pub open spec fn run_inbound(stages: Seq<InStageV>, i: int, msgs: Seq<MsgV>) -> (Seq<InStageV>,
    Seq<MsgV>, Seq<PipelineError>)
    decreases stages.len() - i,
{
    if i < 0 || i >= stages.len() {
        (stages, msgs, Seq::empty())
    } else {
        let (s2, outs, e1) = run_stage(stages[i], msgs);
        let (st2, delivered, e2) = run_inbound(stages.update(i, s2), i + 1, outs);
        (st2, delivered, e1 + e2)
    }
}

/// One outbound stage fed a list of messages, one at a time.
pub open spec fn run_stage_out(s: OutStageV, msgs: Seq<MsgV>) -> (OutStageV, Seq<MsgV>, Seq<
    PipelineError,
>)
    decreases msgs.len(),
{
    if msgs.len() == 0 {
        (s, Seq::empty(), Seq::empty())
    } else {
        let (s1, o1, e1) = write_v(s, msgs[0]);
        let (s2, o2, e2) = run_stage_out(s1, msgs.drop_first());
        (s2, o1 + o2, e1 + e2)
    }
}

/// The outbound traversal from stage `i` down: the messages enter stage
/// `i`, what it emits enters stage `i - 1`, and what leaves stage 0 reaches
/// the outbound terminal.
pub open spec fn run_outbound(stages: Seq<OutStageV>, i: int, msgs: Seq<MsgV>) -> (Seq<OutStageV
>, Seq<MsgV>, Seq<PipelineError>)
    decreases i + 1,
{
    if i < 0 || i >= stages.len() {
        (stages, msgs, Seq::empty())
    } else {
        let (s2, outs, e1) = run_stage_out(stages[i], msgs);
        let (st2, term, e2) = run_outbound(stages.update(i, s2), i - 1, outs);
        (st2, term, e1 + e2)
    }
}

/// The least wakeup over a chain of inbound halves, starting from `eto`.
pub open spec fn chain_min(stages: Seq<InStageV>, eto: u64) -> u64
    decreases stages.len(),
{
    if stages.len() == 0 {
        eto
    } else {
        chain_min(stages.drop_first(), narrow_deadline(eto, deadline_v(stages[0])))
    }
}

pub proof fn lemma_all_kind_drop(s: Seq<MsgV>, k: MsgKind)
    requires
        all_of_kind(s, k),
        s.len() > 0,
    ensures
        all_of_kind(s.drop_first(), k),
{
    assert forall|j: int| 0 <= j < s.drop_first().len() implies (#[trigger] s.drop_first()[j]).kind()
        == k by {
        assert(s.drop_first()[j] == s[j + 1]);
    }
}

pub proof fn lemma_all_kind_concat(a: Seq<MsgV>, b: Seq<MsgV>, k: MsgKind)
    requires
        all_of_kind(a, k),
        all_of_kind(b, k),
    ensures
        all_of_kind(a + b, k),
{
    assert forall|j: int| 0 <= j < (a + b).len() implies (#[trigger] (a + b)[j]).kind() == k by {
        if j < a.len() {
            assert((a + b)[j] == a[j]);
        } else {
            assert((a + b)[j] == b[j - a.len()]);
        }
    }
}

/// Feeding a stage only messages it accepts emits only messages of its
/// emitted tag, and moves neither tag.
pub proof fn lemma_run_stage_wf(s: InStageV, msgs: Seq<MsgV>)
    requires
        all_of_kind(msgs, rin_v(s)),
    ensures
        ({
            let (s2, outs, errs) = run_stage(s, msgs);
            &&& all_of_kind(outs, rout_v(s))
            &&& rin_v(s2) == rin_v(s)
            &&& rout_v(s2) == rout_v(s)
        }),
    decreases msgs.len(),
{
    if msgs.len() == 0 {
    } else {
        InboundStage::read_spec_wf(s, msgs[0]);
        let (s1, o1, e1) = read_v(s, msgs[0]);
        lemma_all_kind_drop(msgs, rin_v(s));
        lemma_run_stage_wf(s1, msgs.drop_first());
        let (s2, o2, e2) = run_stage(s1, msgs.drop_first());
        lemma_all_kind_concat(o1, o2, rout_v(s));
    }
}

/// Feeding an outbound stage only messages it accepts emits only messages
/// of its emitted tag, and moves neither tag.
pub proof fn lemma_run_stage_out_wf(s: OutStageV, msgs: Seq<MsgV>)
    requires
        all_of_kind(msgs, win_v(s)),
    ensures
        ({
            let (s2, outs, errs) = run_stage_out(s, msgs);
            &&& all_of_kind(outs, wout_v(s))
            &&& win_v(s2) == win_v(s)
            &&& wout_v(s2) == wout_v(s)
        }),
    decreases msgs.len(),
{
    if msgs.len() == 0 {
    } else {
        OutboundStage::write_spec_wf(s, msgs[0]);
        let (s1, o1, e1) = write_v(s, msgs[0]);
        lemma_all_kind_drop(msgs, win_v(s));
        lemma_run_stage_out_wf(s1, msgs.drop_first());
        let (s2, o2, e2) = run_stage_out(s1, msgs.drop_first());
        lemma_all_kind_concat(o1, o2, wout_v(s));
    }
}

/// One step of the inbound traversal, unfolded.
pub proof fn lemma_run_inbound_step(stages: Seq<InStageV>, i: int, msgs: Seq<MsgV>)
    requires
        0 <= i < stages.len(),
    ensures
        ({
            let step = run_stage(stages[i], msgs);
            let rem = run_inbound(stages.update(i, step.0), i + 1, step.1);
            &&& run_inbound(stages, i, msgs).0 == rem.0
            &&& run_inbound(stages, i, msgs).1 == rem.1
            &&& run_inbound(stages, i, msgs).2 == step.2 + rem.2
        }),
{
}

/// One step of the outbound traversal, unfolded.
pub proof fn lemma_run_outbound_step(stages: Seq<OutStageV>, i: int, msgs: Seq<MsgV>)
    requires
        0 <= i < stages.len(),
    ensures
        ({
            let step = run_stage_out(stages[i], msgs);
            let rem = run_outbound(stages.update(i, step.0), i - 1, step.1);
            &&& run_outbound(stages, i, msgs).0 == rem.0
            &&& run_outbound(stages, i, msgs).1 == rem.1
            &&& run_outbound(stages, i, msgs).2 == step.2 + rem.2
        }),
{
}

/// The bookkeeping of the inbound traversal loop: what remains of the
/// traversal from the current stage on, composed with what has been
/// consumed, equals the whole traversal.
#[verifier::opaque]
pub open spec fn read_frame(
    orig: Seq<InStageV>,
    minit: Seq<MsgV>,
    cur: Seq<InStageV>,
    i: int,
    fr: Seq<MsgV>,
    errs: Seq<PipelineError>,
) -> bool {
    &&& run_inbound(orig, 0, minit).0 == run_inbound(cur, i, fr).0
    &&& run_inbound(orig, 0, minit).1 == run_inbound(cur, i, fr).1
    &&& run_inbound(orig, 0, minit).2 == errs + run_inbound(cur, i, fr).2
}

pub proof fn lemma_read_frame_init(orig: Seq<InStageV>, minit: Seq<MsgV>)
    ensures
        read_frame(orig, minit, orig, 0, minit, Seq::<PipelineError>::empty()),
{
    reveal(read_frame);
    assert(Seq::<PipelineError>::empty() + run_inbound(orig, 0, minit).2 =~= run_inbound(
        orig,
        0,
        minit,
    ).2);
}

pub proof fn lemma_read_frame_step(
    orig: Seq<InStageV>,
    minit: Seq<MsgV>,
    pre: Seq<InStageV>,
    i: int,
    fr: Seq<MsgV>,
    errs0: Seq<PipelineError>,
)
    requires
        read_frame(orig, minit, pre, i, fr, errs0),
        0 <= i < pre.len(),
    ensures
        ({
            let step = run_stage(pre[i], fr);
            read_frame(orig, minit, pre.update(i, step.0), i + 1, step.1, errs0 + step.2)
        }),
{
    reveal(read_frame);
    lemma_run_inbound_step(pre, i, fr);
    let step = run_stage(pre[i], fr);
    let rem = run_inbound(pre.update(i, step.0), i + 1, step.1);
    assert(errs0 + (step.2 + rem.2) =~= (errs0 + step.2) + rem.2);
}

pub proof fn lemma_read_frame_final(
    orig: Seq<InStageV>,
    minit: Seq<MsgV>,
    cur: Seq<InStageV>,
    fr: Seq<MsgV>,
    errs: Seq<PipelineError>,
)
    requires
        read_frame(orig, minit, cur, cur.len() as int, fr, errs),
    ensures
        run_inbound(orig, 0, minit).0 == cur,
        run_inbound(orig, 0, minit).1 == fr,
        run_inbound(orig, 0, minit).2 == errs,
{
    reveal(read_frame);
    assert(errs + Seq::<PipelineError>::empty() =~= errs);
}

/// Feeds the messages one at a time to one inbound half, collecting what
/// it emits and what it reports, in order.
fn feed_stage(st: &mut InboundStage, msgs: Vec<Msg>) -> (r: (Vec<Msg>, Vec<PipelineError>))
    requires
        all_of_kind(views_of(msgs@), rin_v(old(st)@)),
    ensures
        final(st)@ == run_stage(old(st)@, views_of(msgs@)).0,
        views_of(r.0@) == run_stage(old(st)@, views_of(msgs@)).1,
        r.1@ == run_stage(old(st)@, views_of(msgs@)).2,
        rin_v(final(st)@) == rin_v(old(st)@),
        rout_v(final(st)@) == rout_v(old(st)@),
        all_of_kind(views_of(r.0@), rout_v(old(st)@)),
{
    let mut frontier = msgs;
    let ghost st0 = st@;
    let ghost fr0 = views_of(frontier@);
    let mut next: Vec<Msg> = Vec::new();
    let mut errs: Vec<PipelineError> = Vec::new();
    proof {
        assert(views_of(next@) =~= Seq::<MsgV>::empty());
        assert(views_of(next@) + run_stage(st0, fr0).1 =~= run_stage(st0, fr0).1);
        assert(errs@ + run_stage(st0, fr0).2 =~= run_stage(st0, fr0).2);
    }
    while frontier.len() > 0
        invariant
            st0 == old(st)@,
            fr0 == views_of(msgs@),
            all_of_kind(views_of(frontier@), rin_v(st@)),
            rin_v(st@) == rin_v(st0),
            rout_v(st@) == rout_v(st0),
            run_stage(st0, fr0).0 == run_stage(st@, views_of(frontier@)).0,
            run_stage(st0, fr0).1 == views_of(next@) + run_stage(st@, views_of(frontier@)).1,
            run_stage(st0, fr0).2 == errs@ + run_stage(st@, views_of(frontier@)).2,
            all_of_kind(views_of(next@), rout_v(st0)),
        decreases frontier.len(),
    {
        let ghost st_pre = st@;
        let ghost fr_pre = views_of(frontier@);
        let ghost next_pre = views_of(next@);
        let ghost errs_pre = errs@;
        let m = frontier.remove(0);
        proof {
            assert(views_of(frontier@) =~= fr_pre.drop_first());
            assert(m@ == fr_pre[0]);
            lemma_all_kind_drop(fr_pre, rin_v(st_pre));
        }
        let (mut outs, mut es) = st.read_internal(m);
        proof {
            InboundStage::read_spec_wf(st_pre, m@);
            lemma_run_stage_wf(st@, views_of(frontier@));
        }
        let ghost outs_v = views_of(outs@);
        let ghost es_v = es@;
        next.append(&mut outs);
        errs.append(&mut es);
        proof {
            assert(views_of(next@) =~= next_pre + outs_v);
            lemma_all_kind_concat(next_pre, outs_v, rout_v(st0));
            assert(run_stage(st_pre, fr_pre).0 == run_stage(st@, views_of(frontier@)).0);
            assert(run_stage(st_pre, fr_pre).1 =~= outs_v + run_stage(
                st@,
                views_of(frontier@),
            ).1);
            assert(views_of(next@) + run_stage(st@, views_of(frontier@)).1 =~= next_pre
                + run_stage(st_pre, fr_pre).1);
            assert(run_stage(st_pre, fr_pre).2 =~= es_v + run_stage(st@, views_of(frontier@)).2);
            assert(errs@ + run_stage(st@, views_of(frontier@)).2 =~= errs_pre + run_stage(
                st_pre,
                fr_pre,
            ).2);
        }
    }
    proof {
        assert(views_of(frontier@) =~= Seq::<MsgV>::empty());
        assert(run_stage(st@, views_of(frontier@)).0 == st@);
        assert(run_stage(st0, fr0).1 =~= views_of(next@));
        assert(run_stage(st0, fr0).2 =~= errs@);
        lemma_run_stage_wf(st0, fr0);
    }
    (next, errs)
}

/// The bookkeeping of the outbound traversal loop.
#[verifier::opaque]
pub open spec fn write_frame(
    orig: Seq<OutStageV>,
    minit: Seq<MsgV>,
    cur: Seq<OutStageV>,
    i: int,
    fr: Seq<MsgV>,
    errs: Seq<PipelineError>,
) -> bool {
    &&& run_outbound(orig, orig.len() - 1, minit).0 == run_outbound(cur, i, fr).0
    &&& run_outbound(orig, orig.len() - 1, minit).1 == run_outbound(cur, i, fr).1
    &&& run_outbound(orig, orig.len() - 1, minit).2 == errs + run_outbound(cur, i, fr).2
}

pub proof fn lemma_write_frame_init(orig: Seq<OutStageV>, minit: Seq<MsgV>)
    ensures
        write_frame(orig, minit, orig, orig.len() - 1, minit, Seq::<PipelineError>::empty()),
{
    reveal(write_frame);
    assert(Seq::<PipelineError>::empty() + run_outbound(orig, orig.len() - 1, minit).2
        =~= run_outbound(orig, orig.len() - 1, minit).2);
}

pub proof fn lemma_write_frame_step(
    orig: Seq<OutStageV>,
    minit: Seq<MsgV>,
    pre: Seq<OutStageV>,
    i: int,
    fr: Seq<MsgV>,
    errs0: Seq<PipelineError>,
)
    requires
        write_frame(orig, minit, pre, i, fr, errs0),
        0 <= i < pre.len(),
    ensures
        ({
            let step = run_stage_out(pre[i], fr);
            write_frame(orig, minit, pre.update(i, step.0), i - 1, step.1, errs0 + step.2)
        }),
{
    reveal(write_frame);
    lemma_run_outbound_step(pre, i, fr);
    let step = run_stage_out(pre[i], fr);
    let rem = run_outbound(pre.update(i, step.0), i - 1, step.1);
    assert(errs0 + (step.2 + rem.2) =~= (errs0 + step.2) + rem.2);
}

pub proof fn lemma_write_frame_final(
    orig: Seq<OutStageV>,
    minit: Seq<MsgV>,
    cur: Seq<OutStageV>,
    fr: Seq<MsgV>,
    errs: Seq<PipelineError>,
)
    requires
        write_frame(orig, minit, cur, -1, fr, errs),
    ensures
        run_outbound(orig, orig.len() - 1, minit).0 == cur,
        run_outbound(orig, orig.len() - 1, minit).1 == fr,
        run_outbound(orig, orig.len() - 1, minit).2 == errs,
{
    reveal(write_frame);
    assert(errs + Seq::<PipelineError>::empty() =~= errs);
}

/// Feeds the messages one at a time to one outbound half, collecting what
/// it emits and what it reports, in order.
fn feed_stage_out(st: &mut OutboundStage, msgs: Vec<Msg>) -> (r: (Vec<Msg>, Vec<PipelineError>))
    requires
        all_of_kind(views_of(msgs@), win_v(old(st)@)),
    ensures
        final(st)@ == run_stage_out(old(st)@, views_of(msgs@)).0,
        views_of(r.0@) == run_stage_out(old(st)@, views_of(msgs@)).1,
        r.1@ == run_stage_out(old(st)@, views_of(msgs@)).2,
        win_v(final(st)@) == win_v(old(st)@),
        wout_v(final(st)@) == wout_v(old(st)@),
        all_of_kind(views_of(r.0@), wout_v(old(st)@)),
{
    let mut frontier = msgs;
    let ghost st0 = st@;
    let ghost fr0 = views_of(frontier@);
    let mut next: Vec<Msg> = Vec::new();
    let mut errs: Vec<PipelineError> = Vec::new();
    proof {
        assert(views_of(next@) =~= Seq::<MsgV>::empty());
        assert(views_of(next@) + run_stage_out(st0, fr0).1 =~= run_stage_out(st0, fr0).1);
        assert(errs@ + run_stage_out(st0, fr0).2 =~= run_stage_out(st0, fr0).2);
    }
    while frontier.len() > 0
        invariant
            st0 == old(st)@,
            fr0 == views_of(msgs@),
            all_of_kind(views_of(frontier@), win_v(st@)),
            win_v(st@) == win_v(st0),
            wout_v(st@) == wout_v(st0),
            run_stage_out(st0, fr0).0 == run_stage_out(st@, views_of(frontier@)).0,
            run_stage_out(st0, fr0).1 == views_of(next@) + run_stage_out(
                st@,
                views_of(frontier@),
            ).1,
            run_stage_out(st0, fr0).2 == errs@ + run_stage_out(st@, views_of(frontier@)).2,
            all_of_kind(views_of(next@), wout_v(st0)),
        decreases frontier.len(),
    {
        let ghost st_pre = st@;
        let ghost fr_pre = views_of(frontier@);
        let ghost next_pre = views_of(next@);
        let ghost errs_pre = errs@;
        let m = frontier.remove(0);
        proof {
            assert(views_of(frontier@) =~= fr_pre.drop_first());
            assert(m@ == fr_pre[0]);
            lemma_all_kind_drop(fr_pre, win_v(st_pre));
        }
        let (mut outs, mut es) = st.write_internal(m);
        proof {
            OutboundStage::write_spec_wf(st_pre, m@);
            lemma_run_stage_out_wf(st@, views_of(frontier@));
        }
        let ghost outs_v = views_of(outs@);
        let ghost es_v = es@;
        next.append(&mut outs);
        errs.append(&mut es);
        proof {
            assert(views_of(next@) =~= next_pre + outs_v);
            lemma_all_kind_concat(next_pre, outs_v, wout_v(st0));
            assert(run_stage_out(st_pre, fr_pre).0 == run_stage_out(
                st@,
                views_of(frontier@),
            ).0);
            assert(run_stage_out(st_pre, fr_pre).1 =~= outs_v + run_stage_out(
                st@,
                views_of(frontier@),
            ).1);
            assert(views_of(next@) + run_stage_out(st@, views_of(frontier@)).1 =~= next_pre
                + run_stage_out(st_pre, fr_pre).1);
            assert(run_stage_out(st_pre, fr_pre).2 =~= es_v + run_stage_out(
                st@,
                views_of(frontier@),
            ).2);
            assert(errs@ + run_stage_out(st@, views_of(frontier@)).2 =~= errs_pre
                + run_stage_out(st_pre, fr_pre).2);
        }
    }
    proof {
        assert(views_of(frontier@) =~= Seq::<MsgV>::empty());
        assert(run_stage_out(st@, views_of(frontier@)).0 == st@);
        assert(run_stage_out(st0, fr0).1 =~= views_of(next@));
        assert(run_stage_out(st0, fr0).2 =~= errs@);
        lemma_run_stage_out_wf(st0, fr0);
    }
    (next, errs)
}

/// An ordered, type-checked chain of handler stages with its lifecycle,
/// its terminal sink for outbound messages that leave the first stage, and
/// the head and tail tags fixed at creation.
pub struct Pipeline {
    in_stages: Vec<InboundStage>,
    out_stages: Vec<OutboundStage>,
    state: Lifecycle,
    in_kind: MsgKind,
    out_kind: MsgKind,
    outflow: Vec<Msg>,
}

impl Pipeline {
    /// The views of the inbound chain, head first.
    pub closed spec fn inb(self) -> Seq<InStageV> {
        in_views(self.in_stages@)
    }

    /// The views of the outbound chain, head first (the outbound traversal
    /// walks it tail first).
    pub closed spec fn outb(self) -> Seq<OutStageV> {
        out_views(self.out_stages@)
    }

    /// Where the pipeline stands in its life.
    pub closed spec fn lifecycle(self) -> Lifecycle {
        self.state
    }

    /// The tag the head accepts from the event loop.
    pub closed spec fn in_kind(self) -> MsgKind {
        self.in_kind
    }

    /// The tag the tail delivers to the event loop.
    pub closed spec fn out_kind(self) -> MsgKind {
        self.out_kind
    }

    /// What has reached the outbound terminal, in order.
    pub closed spec fn outflow(self) -> Seq<MsgV> {
        views_of(self.outflow@)
    }

    /// The number of stages.
    pub open spec fn num_stages(self) -> int {
        self.inb().len() as int
    }

    /// The type chain holds, and once the pipeline is linked its ends match
    /// the tags fixed at creation.
    pub open spec fn wf(self) -> bool {
        &&& chain_ok(self.inb(), self.outb())
        &&& self.lifecycle() != Lifecycle::Constructing ==> self.ends_ok()
    }

    /// A chain whose first stage reads the head tag and whose last stage
    /// emits the tail tag.
    pub open spec fn ends_ok(self) -> bool {
        self.num_stages() > 0 ==> {
            &&& rin_v(self.inb()[0]) == self.in_kind()
            &&& wout_v(self.outb()[self.num_stages() - 1]) == self.out_kind()
        }
    }

    /// The tag an external `write` must carry: what the last outbound half
    /// accepts, or the tail tag of an empty chain.
    pub open spec fn write_kind(self) -> MsgKind {
        if self.num_stages() > 0 {
            win_v(self.outb()[self.num_stages() - 1])
        } else {
            self.out_kind()
        }
    }

    /// The chain would accept `h` at its back.
    pub open spec fn accepts(self, h: crate::handler::HandlerV) -> bool {
        self.num_stages() == 0 || {
            &&& rout_v(self.inb()[self.num_stages() - 1]) == rin_v(h.inb)
            &&& wout_v(h.outb) == win_v(self.outb()[self.num_stages() - 1])
        }
    }

    /// The chain's ends match the tags fixed at creation, so `finalize`
    /// would accept it.
    pub open spec fn finalizable(self) -> bool {
        self.num_stages() == 0 || {
            &&& rin_v(self.inb()[0]) == self.in_kind()
            &&& wout_v(self.outb()[self.num_stages() - 1]) == self.out_kind()
        }
    }

    /// An empty pipeline in `Constructing`, fixed to read `in_kind` at its
    /// head and deliver `out_kind` at its tail.
    pub fn new(in_kind: MsgKind, out_kind: MsgKind) -> (r: Pipeline)
        ensures
            r.wf(),
            r.lifecycle() == Lifecycle::Constructing,
            r.num_stages() == 0,
            r.in_kind() == in_kind,
            r.out_kind() == out_kind,
            r.outflow() == Seq::<MsgV>::empty(),
    {
        let r = Pipeline {
            in_stages: Vec::new(),
            out_stages: Vec::new(),
            state: Lifecycle::Constructing,
            in_kind,
            out_kind,
            outflow: Vec::new(),
        };
        proof {
            assert(r.inb() =~= Seq::<InStageV>::empty());
            assert(r.outb() =~= Seq::<OutStageV>::empty());
            assert(r.outflow() =~= Seq::<MsgV>::empty());
        }
        r
    }

    /// Appends a handler while constructing. The handler is accepted only
    /// when its read tag continues the inbound chain and its emitted write
    /// tag feeds the outbound chain; otherwise the pipeline is unchanged
    /// and the mismatch is reported.
    pub fn add_back(&mut self, h: Handler) -> (r: Result<(), PipelineError>)
        requires
            old(self).wf(),
            old(self).lifecycle() == Lifecycle::Constructing,
        ensures
            final(self).wf(),
            final(self).lifecycle() == Lifecycle::Constructing,
            final(self).in_kind() == old(self).in_kind(),
            final(self).out_kind() == old(self).out_kind(),
            final(self).outflow() == old(self).outflow(),
            old(self).accepts(h@) ==> {
                &&& r is Ok
                &&& final(self).inb() == old(self).inb().push(h@.inb)
                &&& final(self).outb() == old(self).outb().push(h@.outb)
            },
            !old(self).accepts(h@) ==> {
                &&& r == Result::<(), PipelineError>::Err(PipelineError::TypeChainMismatch)
                &&& final(self).inb() == old(self).inb()
                &&& final(self).outb() == old(self).outb()
            },
    {
        let n = self.in_stages.len();
        let ok: bool = if n == 0 {
            true
        } else {
            let last_in = &self.in_stages[n - 1];
            let last_out = &self.out_stages[n - 1];
            let (hi, ho) = h.halves_tags();
            last_in.rout_exec() == hi && ho == last_out.win_exec()
        };
        if !ok {
            return Err(PipelineError::TypeChainMismatch);
        }
        let (inb_half, outb_half) = h.split();
        self.in_stages.push(inb_half);
        self.out_stages.push(outb_half);
        proof {
            assert(self.inb() =~= old(self).inb().push(inb_half@));
            assert(self.outb() =~= old(self).outb().push(outb_half@));
        }
        Ok(())
    }

    /// Links the chain. The chain is accepted only when its first stage
    /// reads the head tag and its last stage emits the tail tag; otherwise
    /// the pipeline stays as it was, still constructing.
    pub fn finalize(&mut self) -> (r: Result<(), PipelineError>)
        requires
            old(self).wf(),
            old(self).lifecycle() == Lifecycle::Constructing,
        ensures
            final(self).wf(),
            final(self).inb() == old(self).inb(),
            final(self).outb() == old(self).outb(),
            final(self).in_kind() == old(self).in_kind(),
            final(self).out_kind() == old(self).out_kind(),
            final(self).outflow() == old(self).outflow(),
            old(self).finalizable() ==> r is Ok && final(self).lifecycle() == Lifecycle::Finalized,
            !old(self).finalizable() ==> {
                &&& r == Result::<(), PipelineError>::Err(PipelineError::TypeChainMismatch)
                &&& final(self).lifecycle() == Lifecycle::Constructing
            },
    {
        let n = self.in_stages.len();
        let ok: bool = if n == 0 {
            true
        } else {
            let first_in = &self.in_stages[0];
            let last_out = &self.out_stages[n - 1];
            first_in.rin_exec() == self.in_kind && last_out.wout_exec() == self.out_kind
        };
        if !ok {
            return Err(PipelineError::TypeChainMismatch);
        }
        self.state = Lifecycle::Finalized;
        Ok(())
    }

    /// Tells every inbound half that the transport came up, head to tail,
    /// and opens the pipeline for events.
    #[verifier::rlimit(60)]
    pub fn transport_active(&mut self)
        requires
            old(self).wf(),
            old(self).lifecycle() == Lifecycle::Finalized,
        ensures
            final(self).wf(),
            final(self).lifecycle() == Lifecycle::Active,
            final(self).inb() == old(self).inb().map(
                |j: int, v: InStageV| <InboundStage as InboundHandlerInternal>::active_spec(v),
            ),
            final(self).outb() == old(self).outb(),
            final(self).in_kind() == old(self).in_kind(),
            final(self).out_kind() == old(self).out_kind(),
            final(self).outflow() == old(self).outflow(),
    {
        let ghost orig = self.inb();
        let n = self.in_stages.len();
        let mut i: usize = 0;
        while i < n
            invariant
                i <= n,
                n == self.inb().len(),
                orig.len() == n,
                forall|j: int|
                    0 <= j < i ==> self.inb()[j] == <InboundStage as InboundHandlerInternal>::active_spec(#[trigger] orig[j]),
                forall|j: int| i <= j < n ==> self.inb()[j] == #[trigger] orig[j],
                self.outb() == old(self).outb(),
                self.lifecycle() == old(self).lifecycle(),
                self.in_kind() == old(self).in_kind(),
                self.out_kind() == old(self).out_kind(),
                self.outflow() == old(self).outflow(),
            decreases n - i,
        {
            let ghost pre = self.inb();
            let mut st = self.in_stages.remove(i);
            st.transport_active_internal();
            self.in_stages.insert(i, st);
            proof {
                assert(self.inb() =~= pre.update(i as int, st@));
            }
            i = i + 1;
        }
        self.state = Lifecycle::Active;
        proof {
            assert(final(self).inb() =~= orig.map(
                |j: int, v: InStageV| <InboundStage as InboundHandlerInternal>::active_spec(v),
            ));
            assert forall|j: int| 0 <= j < n implies {
                &&& rin_v(#[trigger] final(self).inb()[j]) == rin_v(orig[j])
                &&& rout_v(final(self).inb()[j]) == rout_v(orig[j])
            } by {
                InboundStage::events_preserve_tags(orig[j], 0u64, PipelineError::InvalidUtf8);
            }
        }
    }

    /// Tells every inbound half that the transport went down, head to
    /// tail, and closes the pipeline to further events.
    #[verifier::rlimit(60)]
    pub fn transport_inactive(&mut self)
        requires
            old(self).wf(),
            old(self).lifecycle() == Lifecycle::Active,
        ensures
            final(self).wf(),
            final(self).lifecycle() == Lifecycle::Inactive,
            final(self).inb() == old(self).inb().map(
                |j: int, v: InStageV| <InboundStage as InboundHandlerInternal>::inactive_spec(v),
            ),
            final(self).outb() == old(self).outb(),
            final(self).in_kind() == old(self).in_kind(),
            final(self).out_kind() == old(self).out_kind(),
            final(self).outflow() == old(self).outflow(),
    {
        let ghost orig = self.inb();
        let n = self.in_stages.len();
        let mut i: usize = 0;
        while i < n
            invariant
                i <= n,
                n == self.inb().len(),
                orig.len() == n,
                forall|j: int|
                    0 <= j < i ==> self.inb()[j] == <InboundStage as InboundHandlerInternal>::inactive_spec(#[trigger] orig[j]),
                forall|j: int| i <= j < n ==> self.inb()[j] == #[trigger] orig[j],
                self.outb() == old(self).outb(),
                self.lifecycle() == old(self).lifecycle(),
                self.in_kind() == old(self).in_kind(),
                self.out_kind() == old(self).out_kind(),
                self.outflow() == old(self).outflow(),
            decreases n - i,
        {
            let ghost pre = self.inb();
            let mut st = self.in_stages.remove(i);
            st.transport_inactive_internal();
            self.in_stages.insert(i, st);
            proof {
                assert(self.inb() =~= pre.update(i as int, st@));
            }
            i = i + 1;
        }
        self.state = Lifecycle::Inactive;
        proof {
            assert(final(self).inb() =~= orig.map(
                |j: int, v: InStageV| <InboundStage as InboundHandlerInternal>::inactive_spec(v),
            ));
            assert forall|j: int| 0 <= j < n implies {
                &&& rin_v(#[trigger] final(self).inb()[j]) == rin_v(orig[j])
                &&& rout_v(final(self).inb()[j]) == rout_v(orig[j])
            } by {
                InboundStage::events_preserve_tags(orig[j], 0u64, PipelineError::InvalidUtf8);
            }
        }
    }

    /// Tells every inbound half, head to tail, that input ended.
    #[verifier::rlimit(60)]
    pub fn read_eof(&mut self)
        requires
            old(self).wf(),
            old(self).lifecycle() == Lifecycle::Active,
        ensures
            final(self).wf(),
            final(self).lifecycle() == Lifecycle::Active,
            final(self).inb() == old(self).inb().map(
                |j: int, v: InStageV| <InboundStage as InboundHandlerInternal>::eof_spec(v),
            ),
            final(self).outb() == old(self).outb(),
            final(self).in_kind() == old(self).in_kind(),
            final(self).out_kind() == old(self).out_kind(),
            final(self).outflow() == old(self).outflow(),
    {
        let ghost orig = self.inb();
        let n = self.in_stages.len();
        let mut i: usize = 0;
        while i < n
            invariant
                i <= n,
                n == self.inb().len(),
                orig.len() == n,
                forall|j: int|
                    0 <= j < i ==> self.inb()[j] == <InboundStage as InboundHandlerInternal>::eof_spec(#[trigger] orig[j]),
                forall|j: int| i <= j < n ==> self.inb()[j] == #[trigger] orig[j],
                self.outb() == old(self).outb(),
                self.lifecycle() == old(self).lifecycle(),
                self.in_kind() == old(self).in_kind(),
                self.out_kind() == old(self).out_kind(),
                self.outflow() == old(self).outflow(),
            decreases n - i,
        {
            let ghost pre = self.inb();
            let mut st = self.in_stages.remove(i);
            st.read_eof_internal();
            self.in_stages.insert(i, st);
            proof {
                assert(self.inb() =~= pre.update(i as int, st@));
            }
            i = i + 1;
        }
        proof {
            assert(final(self).inb() =~= orig.map(
                |j: int, v: InStageV| <InboundStage as InboundHandlerInternal>::eof_spec(v),
            ));
            assert forall|j: int| 0 <= j < n implies {
                &&& rin_v(#[trigger] final(self).inb()[j]) == rin_v(orig[j])
                &&& rout_v(final(self).inb()[j]) == rout_v(orig[j])
            } by {
                InboundStage::events_preserve_tags(orig[j], 0u64, PipelineError::InvalidUtf8);
            }
        }
    }

    /// Delivers an error to every inbound half, head to tail.
    #[verifier::rlimit(60)]
    pub fn read_exception(&mut self, err: PipelineError)
        requires
            old(self).wf(),
            old(self).lifecycle() == Lifecycle::Active,
        ensures
            final(self).wf(),
            final(self).lifecycle() == Lifecycle::Active,
            final(self).inb() == old(self).inb().map(
                |j: int, v: InStageV|
                    <InboundStage as InboundHandlerInternal>::exception_spec(v, err),
            ),
            final(self).outb() == old(self).outb(),
            final(self).in_kind() == old(self).in_kind(),
            final(self).out_kind() == old(self).out_kind(),
            final(self).outflow() == old(self).outflow(),
    {
        let ghost orig = self.inb();
        let n = self.in_stages.len();
        let mut i: usize = 0;
        while i < n
            invariant
                i <= n,
                n == self.inb().len(),
                orig.len() == n,
                forall|j: int|
                    0 <= j < i ==> self.inb()[j] == <InboundStage as InboundHandlerInternal>::exception_spec(#[trigger] orig[j], err),
                forall|j: int| i <= j < n ==> self.inb()[j] == #[trigger] orig[j],
                self.outb() == old(self).outb(),
                self.lifecycle() == old(self).lifecycle(),
                self.in_kind() == old(self).in_kind(),
                self.out_kind() == old(self).out_kind(),
                self.outflow() == old(self).outflow(),
            decreases n - i,
        {
            let ghost pre = self.inb();
            let mut st = self.in_stages.remove(i);
            st.read_exception_internal(err);
            self.in_stages.insert(i, st);
            proof {
                assert(self.inb() =~= pre.update(i as int, st@));
            }
            i = i + 1;
        }
        proof {
            assert(final(self).inb() =~= orig.map(
                |j: int, v: InStageV|
                    <InboundStage as InboundHandlerInternal>::exception_spec(v, err),
            ));
            assert forall|j: int| 0 <= j < n implies {
                &&& rin_v(#[trigger] final(self).inb()[j]) == rin_v(orig[j])
                &&& rout_v(final(self).inb()[j]) == rout_v(orig[j])
            } by {
                InboundStage::events_preserve_tags(orig[j], 0u64, err);
            }
        }
    }

    /// Fires the wakeup at `now` for every inbound half, head to tail.
    #[verifier::rlimit(60)]
    pub fn handle_timeout(&mut self, now: u64)
        requires
            old(self).wf(),
            old(self).lifecycle() == Lifecycle::Active,
        ensures
            final(self).wf(),
            final(self).lifecycle() == Lifecycle::Active,
            final(self).inb() == old(self).inb().map(
                |j: int, v: InStageV| <InboundStage as InboundHandlerInternal>::timeout_spec(v, now),
            ),
            final(self).outb() == old(self).outb(),
            final(self).in_kind() == old(self).in_kind(),
            final(self).out_kind() == old(self).out_kind(),
            final(self).outflow() == old(self).outflow(),
    {
        let ghost orig = self.inb();
        let n = self.in_stages.len();
        let mut i: usize = 0;
        while i < n
            invariant
                i <= n,
                n == self.inb().len(),
                orig.len() == n,
                forall|j: int|
                    0 <= j < i ==> self.inb()[j] == <InboundStage as InboundHandlerInternal>::timeout_spec(#[trigger] orig[j], now),
                forall|j: int| i <= j < n ==> self.inb()[j] == #[trigger] orig[j],
                self.outb() == old(self).outb(),
                self.lifecycle() == old(self).lifecycle(),
                self.in_kind() == old(self).in_kind(),
                self.out_kind() == old(self).out_kind(),
                self.outflow() == old(self).outflow(),
            decreases n - i,
        {
            let ghost pre = self.inb();
            let mut st = self.in_stages.remove(i);
            st.handle_timeout_internal(now);
            self.in_stages.insert(i, st);
            proof {
                assert(self.inb() =~= pre.update(i as int, st@));
            }
            i = i + 1;
        }
        proof {
            assert(final(self).inb() =~= orig.map(
                |j: int, v: InStageV| <InboundStage as InboundHandlerInternal>::timeout_spec(v, now),
            ));
            assert forall|j: int| 0 <= j < n implies {
                &&& rin_v(#[trigger] final(self).inb()[j]) == rin_v(orig[j])
                &&& rout_v(final(self).inb()[j]) == rout_v(orig[j])
            } by {
                InboundStage::events_preserve_tags(orig[j], now, PipelineError::InvalidUtf8);
            }
        }
    }

    /// One inbound traversal step: feeds the frontier to the stage at `i`
    /// and answers what it emitted and reported.
    fn read_step(&mut self, i: usize, frontier: Vec<Msg>) -> (r: (Vec<Msg>, Vec<PipelineError>))
        requires
            0 <= i < old(self).inb().len(),
            all_of_kind(views_of(frontier@), rin_v(old(self).inb()[i as int])),
        ensures
            ({
                let step = run_stage(old(self).inb()[i as int], views_of(frontier@));
                &&& final(self).inb() == old(self).inb().update(i as int, step.0)
                &&& views_of(r.0@) == step.1
                &&& r.1@ == step.2
                &&& rin_v(step.0) == rin_v(old(self).inb()[i as int])
                &&& rout_v(step.0) == rout_v(old(self).inb()[i as int])
                &&& all_of_kind(views_of(r.0@), rout_v(old(self).inb()[i as int]))
            }),
            final(self).outb() == old(self).outb(),
            final(self).lifecycle() == old(self).lifecycle(),
            final(self).in_kind() == old(self).in_kind(),
            final(self).out_kind() == old(self).out_kind(),
            final(self).outflow() == old(self).outflow(),
    {
        let mut st = self.in_stages.remove(i);
        let r = feed_stage(&mut st, frontier);
        self.in_stages.insert(i, st);
        proof {
            assert(self.inb() =~= old(self).inb().update(i as int, st@));
        }
        r
    }

    /// Feeds one inbound value to the head stage and walks the chain to
    /// the tail: what a stage emits enters the next stage in emission
    /// order, and what leaves the last stage is delivered back to the
    /// caller, with every error any stage reported along the way.
    #[verifier::rlimit(100)]
    pub fn read(&mut self, msg: Msg) -> (r: (Vec<Msg>, Vec<PipelineError>))
        requires
            old(self).wf(),
            old(self).lifecycle() == Lifecycle::Active,
            msg@.kind() == old(self).in_kind(),
        ensures
            final(self).wf(),
            final(self).lifecycle() == old(self).lifecycle(),
            final(self).outb() == old(self).outb(),
            final(self).in_kind() == old(self).in_kind(),
            final(self).out_kind() == old(self).out_kind(),
            final(self).outflow() == old(self).outflow(),
            ({
                let (st2, delivered, errs) = run_inbound(old(self).inb(), 0, seq![msg@]);
                &&& final(self).inb() == st2
                &&& views_of(r.0@) == delivered
                &&& r.1@ == errs
            }),
    {
        let ghost orig = self.inb();
        let ghost minit: Seq<MsgV> = seq![msg@];
        let mut frontier: Vec<Msg> = Vec::new();
        frontier.push(msg);
        let mut errors: Vec<PipelineError> = Vec::new();
        proof {
            assert(views_of(frontier@) =~= minit);
            assert(errors@ =~= Seq::<PipelineError>::empty());
            lemma_read_frame_init(orig, minit);
        }
        let n = self.in_stages.len();
        let mut i: usize = 0;
        while i < n
            invariant
                i <= n,
                n == self.inb().len(),
                orig.len() == n,
                orig == old(self).inb(),
                forall|j: int|
                    0 <= j && j + 1 < n ==> rout_v(#[trigger] orig[j]) == rin_v(orig[j + 1]),
                forall|j: int|
                    0 <= j < n ==> rin_v(#[trigger] self.inb()[j]) == rin_v(orig[j]) && rout_v(
                        self.inb()[j],
                    ) == rout_v(orig[j]),
                read_frame(orig, minit, self.inb(), i as int, views_of(frontier@), errors@),
                i < n ==> all_of_kind(views_of(frontier@), rin_v(orig[i as int])),
                self.outb() == old(self).outb(),
                self.lifecycle() == old(self).lifecycle(),
                self.in_kind() == old(self).in_kind(),
                self.out_kind() == old(self).out_kind(),
                self.outflow() == old(self).outflow(),
            decreases n - i,
        {
            let ghost pre_inb = self.inb();
            let ghost fr0 = views_of(frontier@);
            let ghost errors0 = errors@;
            let (next, mut errs_stage) = self.read_step(i, frontier);
            let ghost errs_committed = errs_stage@;
            errors.append(&mut errs_stage);
            frontier = next;
            proof {
                assert(errors@ =~= errors0 + errs_committed);
                lemma_read_frame_step(orig, minit, pre_inb, i as int, fr0, errors0);
                assert forall|j: int| 0 <= j < n implies rin_v(#[trigger] self.inb()[j]) == rin_v(
                    orig[j],
                ) && rout_v(self.inb()[j]) == rout_v(orig[j]) by {
                    if j != i as int {
                        assert(self.inb()[j] == pre_inb[j]);
                    }
                }
            }
            i = i + 1;
        }
        proof {
            lemma_read_frame_final(orig, minit, self.inb(), views_of(frontier@), errors@);
            assert(final(self).wf()) by {
                assert(chain_ok(orig, old(self).outb()));
            }
        }
        (frontier, errors)
    }

    /// One outbound traversal step: feeds the frontier to the stage at `i`
    /// and answers what it emitted and reported.
    fn write_step(&mut self, i: usize, frontier: Vec<Msg>) -> (r: (Vec<Msg>, Vec<PipelineError>))
        requires
            0 <= i < old(self).outb().len(),
            all_of_kind(views_of(frontier@), win_v(old(self).outb()[i as int])),
        ensures
            ({
                let step = run_stage_out(old(self).outb()[i as int], views_of(frontier@));
                &&& final(self).outb() == old(self).outb().update(i as int, step.0)
                &&& views_of(r.0@) == step.1
                &&& r.1@ == step.2
                &&& win_v(step.0) == win_v(old(self).outb()[i as int])
                &&& wout_v(step.0) == wout_v(old(self).outb()[i as int])
                &&& all_of_kind(views_of(r.0@), wout_v(old(self).outb()[i as int]))
            }),
            final(self).inb() == old(self).inb(),
            final(self).lifecycle() == old(self).lifecycle(),
            final(self).in_kind() == old(self).in_kind(),
            final(self).out_kind() == old(self).out_kind(),
            final(self).outflow() == old(self).outflow(),
    {
        let mut st = self.out_stages.remove(i);
        let r = feed_stage_out(&mut st, frontier);
        self.out_stages.insert(i, st);
        proof {
            assert(self.outb() =~= old(self).outb().update(i as int, st@));
        }
        r
    }

    /// Feeds one outbound value to the last stage and walks the chain back
    /// to the first: what a stage emits enters the stage before it, the
    /// transport stage enqueues finished envelopes onto its channel, and
    /// whatever leaves the first stage reaches the outbound terminal.
    #[verifier::rlimit(100)]
    pub fn write(&mut self, msg: Msg) -> (r: Vec<PipelineError>)
        requires
            old(self).wf(),
            old(self).lifecycle() == Lifecycle::Active,
            msg@.kind() == old(self).write_kind(),
        ensures
            final(self).wf(),
            final(self).lifecycle() == old(self).lifecycle(),
            final(self).inb() == old(self).inb(),
            final(self).in_kind() == old(self).in_kind(),
            final(self).out_kind() == old(self).out_kind(),
            ({
                let (st2, term, errs) = run_outbound(
                    old(self).outb(),
                    old(self).num_stages() - 1,
                    seq![msg@],
                );
                &&& final(self).outb() == st2
                &&& final(self).outflow() == old(self).outflow() + term
                &&& r@ == errs
            }),
    {
        let ghost orig = self.outb();
        let ghost minit: Seq<MsgV> = seq![msg@];
        let mut frontier: Vec<Msg> = Vec::new();
        frontier.push(msg);
        let mut errors: Vec<PipelineError> = Vec::new();
        proof {
            assert(views_of(frontier@) =~= minit);
            assert(errors@ =~= Seq::<PipelineError>::empty());
            lemma_write_frame_init(orig, minit);
        }
        let n = self.out_stages.len();
        let mut i: usize = n;
        while i > 0
            invariant
                i <= n,
                n == self.outb().len(),
                orig.len() == n,
                orig == old(self).outb(),
                forall|j: int|
                    0 <= j && j + 1 < n ==> wout_v(#[trigger] orig[j + 1]) == win_v(orig[j]),
                forall|j: int|
                    0 <= j < n ==> win_v(#[trigger] self.outb()[j]) == win_v(orig[j]) && wout_v(
                        self.outb()[j],
                    ) == wout_v(orig[j]),
                write_frame(orig, minit, self.outb(), i as int - 1, views_of(frontier@), errors@),
                i > 0 ==> all_of_kind(views_of(frontier@), win_v(orig[i as int - 1])),
                self.inb() == old(self).inb(),
                self.lifecycle() == old(self).lifecycle(),
                self.in_kind() == old(self).in_kind(),
                self.out_kind() == old(self).out_kind(),
                self.outflow() == old(self).outflow(),
            decreases i,
        {
            let idx = i - 1;
            let ghost pre_outb = self.outb();
            let ghost fr0 = views_of(frontier@);
            let ghost errors0 = errors@;
            let (next, mut errs_stage) = self.write_step(idx, frontier);
            let ghost errs_committed = errs_stage@;
            errors.append(&mut errs_stage);
            frontier = next;
            proof {
                assert(errors@ =~= errors0 + errs_committed);
                lemma_write_frame_step(orig, minit, pre_outb, idx as int, fr0, errors0);
                if idx > 0 {
                    assert(orig[idx as int] == orig[(idx as int - 1) + 1]);
                    assert(wout_v(orig[(idx as int - 1) + 1]) == win_v(orig[idx as int - 1]));
                    assert(wout_v(pre_outb[idx as int]) == wout_v(orig[idx as int]));
                }
                assert forall|j: int| 0 <= j < n implies win_v(#[trigger] self.outb()[j]) == win_v(
                    orig[j],
                ) && wout_v(self.outb()[j]) == wout_v(orig[j]) by {
                    if j != idx as int {
                        assert(self.outb()[j] == pre_outb[j]);
                    }
                }
            }
            i = idx;
        }
        let ghost term = views_of(frontier@);
        let mut sink = frontier;
        self.outflow.append(&mut sink);
        proof {
            lemma_write_frame_final(orig, minit, self.outb(), term, errors@);
            assert(self.outflow() =~= old(self).outflow() + term);
            assert(final(self).wf()) by {
                assert(chain_ok(old(self).inb(), orig));
            }
        }
        errors
    }

    /// Propagates `close` from the last stage back to the first: the
    /// transport stage drops its channel, so nothing more can be sent.
    #[verifier::rlimit(60)]
    pub fn close(&mut self)
        requires
            old(self).wf(),
            old(self).lifecycle() == Lifecycle::Active,
        ensures
            final(self).wf(),
            final(self).lifecycle() == old(self).lifecycle(),
            final(self).inb() == old(self).inb(),
            final(self).outb() == old(self).outb().map(
                |j: int, v: OutStageV| <OutboundStage as OutboundHandlerInternal>::close_spec(v),
            ),
            final(self).in_kind() == old(self).in_kind(),
            final(self).out_kind() == old(self).out_kind(),
            final(self).outflow() == old(self).outflow(),
    {
        let ghost orig = self.outb();
        let n = self.out_stages.len();
        let mut i: usize = n;
        while i > 0
            invariant
                i <= n,
                n == self.outb().len(),
                orig.len() == n,
                forall|j: int| 0 <= j < i ==> self.outb()[j] == #[trigger] orig[j],
                forall|j: int|
                    i <= j < n ==> self.outb()[j] == <OutboundStage as OutboundHandlerInternal>::close_spec(#[trigger] orig[j]),
                self.inb() == old(self).inb(),
                self.lifecycle() == old(self).lifecycle(),
                self.in_kind() == old(self).in_kind(),
                self.out_kind() == old(self).out_kind(),
                self.outflow() == old(self).outflow(),
            decreases i,
        {
            let idx = i - 1;
            let ghost pre = self.outb();
            let mut st = self.out_stages.remove(idx);
            st.close_internal();
            self.out_stages.insert(idx, st);
            proof {
                assert(self.outb() =~= pre.update(idx as int, st@));
            }
            i = idx;
        }
        proof {
            assert(final(self).outb() =~= orig.map(
                |j: int, v: OutStageV| <OutboundStage as OutboundHandlerInternal>::close_spec(v),
            ));
            assert forall|j: int| 0 <= j < n implies {
                &&& win_v(#[trigger] final(self).outb()[j]) == win_v(orig[j])
                &&& wout_v(final(self).outb()[j]) == wout_v(orig[j])
            } by {
                OutboundStage::events_preserve_tags(orig[j], PipelineError::InvalidUtf8);
            }
        }
    }

    /// Delivers an error to every outbound half, last to first.
    #[verifier::rlimit(60)]
    pub fn write_exception(&mut self, err: PipelineError)
        requires
            old(self).wf(),
            old(self).lifecycle() == Lifecycle::Active,
        ensures
            final(self).wf(),
            final(self).lifecycle() == old(self).lifecycle(),
            final(self).inb() == old(self).inb(),
            final(self).outb() == old(self).outb().map(
                |j: int, v: OutStageV|
                    <OutboundStage as OutboundHandlerInternal>::exception_spec(v, err),
            ),
            final(self).in_kind() == old(self).in_kind(),
            final(self).out_kind() == old(self).out_kind(),
            final(self).outflow() == old(self).outflow(),
    {
        let ghost orig = self.outb();
        let n = self.out_stages.len();
        let mut i: usize = n;
        while i > 0
            invariant
                i <= n,
                n == self.outb().len(),
                orig.len() == n,
                forall|j: int| 0 <= j < i ==> self.outb()[j] == #[trigger] orig[j],
                forall|j: int|
                    i <= j < n ==> self.outb()[j] == <OutboundStage as OutboundHandlerInternal>::exception_spec(#[trigger] orig[j], err),
                self.inb() == old(self).inb(),
                self.lifecycle() == old(self).lifecycle(),
                self.in_kind() == old(self).in_kind(),
                self.out_kind() == old(self).out_kind(),
                self.outflow() == old(self).outflow(),
            decreases i,
        {
            let idx = i - 1;
            let ghost pre = self.outb();
            let mut st = self.out_stages.remove(idx);
            st.write_exception_internal(err);
            self.out_stages.insert(idx, st);
            proof {
                assert(self.outb() =~= pre.update(idx as int, st@));
            }
            i = idx;
        }
        proof {
            assert(final(self).outb() =~= orig.map(
                |j: int, v: OutStageV|
                    <OutboundStage as OutboundHandlerInternal>::exception_spec(v, err),
            ));
            assert forall|j: int| 0 <= j < n implies {
                &&& win_v(#[trigger] final(self).outb()[j]) == win_v(orig[j])
                &&& wout_v(final(self).outb()[j]) == wout_v(orig[j])
            } by {
                OutboundStage::events_preserve_tags(orig[j], err);
            }
        }
    }

    /// Narrows `eto` to the earliest wakeup any inbound half asks for: the
    /// result is the least of `eto` and every stage's own deadline.
    pub fn poll_timeout(&mut self, eto: &mut u64)
        requires
            old(self).wf(),
            old(self).lifecycle() == Lifecycle::Active,
        ensures
            final(self).wf(),
            final(self).inb() == old(self).inb(),
            final(self).outb() == old(self).outb(),
            final(self).lifecycle() == old(self).lifecycle(),
            final(self).in_kind() == old(self).in_kind(),
            final(self).out_kind() == old(self).out_kind(),
            final(self).outflow() == old(self).outflow(),
            *final(eto) == chain_min(old(self).inb(), *old(eto)),
    {
        let ghost orig = self.inb();
        let ghost eto0 = *eto;
        proof {
            assert(orig.skip(0) =~= orig);
        }
        let n = self.in_stages.len();
        let mut i: usize = 0;
        while i < n
            invariant
                i <= n,
                n == self.inb().len(),
                orig.len() == n,
                self.inb() == orig,
                chain_min(orig, eto0) == chain_min(orig.skip(i as int), *eto),
                self.outb() == old(self).outb(),
                self.lifecycle() == old(self).lifecycle(),
                self.in_kind() == old(self).in_kind(),
                self.out_kind() == old(self).out_kind(),
                self.outflow() == old(self).outflow(),
            decreases n - i,
        {
            let ghost pre = self.inb();
            let ghost eto_pre = *eto;
            let mut st = self.in_stages.remove(i);
            st.poll_timeout_internal(eto);
            self.in_stages.insert(i, st);
            proof {
                assert(self.inb() =~= pre.update(i as int, st@));
                assert(self.inb() =~= orig);
                assert(orig.skip(i as int).drop_first() =~= orig.skip(i as int + 1));
                assert(orig.skip(i as int)[0] == orig[i as int]);
                assert(chain_min(orig.skip(i as int), eto_pre) == chain_min(
                    orig.skip(i as int + 1),
                    narrow_deadline(eto_pre, deadline_v(orig[i as int])),
                ));
            }
            i = i + 1;
        }
        proof {
            assert(orig.skip(n as int) =~= Seq::<InStageV>::empty());
        }
    }

    /// What waits on the outbound channel of the head stage: the transport
    /// stage of a standard pipeline holds it.
    pub open spec fn outbound_chan(self) -> Option<Seq<MsgV>> {
        if self.outb().len() > 0 {
            self.outb()[0].chan()
        } else {
            None
        }
    }

    /// Pops the envelope that has waited longest on the outbound channel,
    /// if any: the event loop calls this to learn what to send next.
    pub fn poll_outbound(&mut self) -> (r: Option<TaggedBytesMut>)
        requires
            old(self).wf(),
        ensures
            final(self).wf(),
            final(self).inb() == old(self).inb(),
            final(self).lifecycle() == old(self).lifecycle(),
            final(self).in_kind() == old(self).in_kind(),
            final(self).out_kind() == old(self).out_kind(),
            final(self).outflow() == old(self).outflow(),
            (old(self).outbound_chan() is None || old(self).outbound_chan().unwrap().len() == 0)
                ==> r is None && final(self).outb() == old(self).outb(),
            (old(self).outbound_chan() is Some && old(self).outbound_chan().unwrap().len() > 0)
                ==> ({
                let q = old(self).outbound_chan().unwrap();
                &&& r is Some
                &&& (MsgV::Bytes {
                    transport: r.unwrap().transport,
                    data: r.unwrap().message@,
                }) == q[0]
                &&& final(self).outb() == old(self).outb().update(
                    0,
                    old(self).outb()[0].with_chan(Some(q.drop_first())),
                )
            }),
    {
        if self.out_stages.len() == 0 {
            return None;
        }
        let ghost orig = self.outb();
        let mut st = self.out_stages.remove(0);
        let r = st.poll_chan();
        self.out_stages.insert(0, st);
        proof {
            assert(self.outb() =~= orig.update(0, st@));
            if orig[0].chan() is None || orig[0].chan().unwrap().len() == 0 {
                assert(self.outb() =~= orig);
            }
            assert forall|j: int| 0 <= j < orig.len() implies {
                &&& win_v(#[trigger] self.outb()[j]) == win_v(orig[j])
                &&& wout_v(self.outb()[j]) == wout_v(orig[j])
            } by {}
        }
        r
    }

    /// Empties the outbound channel, handing every waiting envelope out in
    /// send order: the graceful path sends them all before closing.
    pub fn drain_outbound(&mut self) -> (r: Vec<TaggedBytesMut>)
        requires
            old(self).wf(),
        ensures
            final(self).wf(),
            final(self).inb() == old(self).inb(),
            final(self).lifecycle() == old(self).lifecycle(),
            final(self).in_kind() == old(self).in_kind(),
            final(self).out_kind() == old(self).out_kind(),
            final(self).outflow() == old(self).outflow(),
            old(self).outbound_chan() is None ==> r@.len() == 0 && final(self).outb() == old(
                self,
            ).outb(),
            old(self).outbound_chan() is Some ==> ({
                &&& crate::outbound::tbs_views(r@) == old(self).outbound_chan().unwrap()
                &&& final(self).outb() == old(self).outb().update(
                    0,
                    old(self).outb()[0].with_chan(Some(Seq::<MsgV>::empty())),
                )
                &&& final(self).outbound_chan() == Some(Seq::<MsgV>::empty())
            }),
    {
        if self.out_stages.len() == 0 {
            let r: Vec<TaggedBytesMut> = Vec::new();
            return r;
        }
        let ghost orig = self.outb();
        let mut st = self.out_stages.remove(0);
        let r = st.drain_chan();
        self.out_stages.insert(0, st);
        proof {
            assert(self.outb() =~= orig.update(0, st@));
            if orig[0].chan() is None {
                assert(self.outb() =~= orig);
            }
            assert forall|j: int| 0 <= j < orig.len() implies {
                &&& win_v(#[trigger] self.outb()[j]) == win_v(orig[j])
                &&& wout_v(self.outb()[j]) == wout_v(orig[j])
            } by {}
        }
        r
    }

    /// Takes the pipeline apart after `transport_inactive`: the halves come
    /// back in reverse add order, so releasing the vector front to back
    /// releases the stages added last first.
    pub fn teardown(self) -> (r: Vec<(InboundStage, OutboundStage)>)
        requires
            self.wf(),
        ensures
            r@.len() == self.num_stages(),
            forall|i: int|
                0 <= i < r@.len() ==> (#[trigger] r@[i]).0@ == self.inb()[r@.len() - 1 - i]
                    && r@[i].1@ == self.outb()[r@.len() - 1 - i],
    {
        let ghost orig_in = self.inb();
        let ghost orig_out = self.outb();
        let mut me = self;
        let ghost n = orig_in.len() as int;
        let mut r: Vec<(InboundStage, OutboundStage)> = Vec::new();
        while me.in_stages.len() > 0
            invariant
                orig_in == self.inb(),
                orig_out == self.outb(),
                n == orig_in.len() as int,
                orig_out.len() == n,
                me.inb().len() == me.outb().len(),
                r@.len() + me.inb().len() == n,
                me.inb() == orig_in.take(me.inb().len() as int),
                me.outb() == orig_out.take(me.outb().len() as int),
                forall|i: int|
                    0 <= i < r@.len() ==> (#[trigger] r@[i]).0@ == orig_in[n - 1 - i]
                        && r@[i].1@ == orig_out[n - 1 - i],
            decreases me.inb().len(),
        {
            let ghost in_pre = me.inb();
            let ghost out_pre = me.outb();
            let ib_opt = me.in_stages.pop();
            let ob_opt = me.out_stages.pop();
            let ib = ib_opt.unwrap();
            let ob = ob_opt.unwrap();
            r.push((ib, ob));
            proof {
                assert(me.inb() =~= in_pre.drop_last());
                assert(me.outb() =~= out_pre.drop_last());
                assert(ib@ == in_pre[in_pre.len() - 1]);
                assert(ob@ == out_pre[out_pre.len() - 1]);
                assert(in_pre[in_pre.len() - 1] == orig_in[me.inb().len() as int]);
                assert(me.inb() =~= orig_in.take(me.inb().len() as int));
                assert(me.outb() =~= orig_out.take(me.outb().len() as int));
            }
        }
        r
    }

    /// The current lifecycle, for the loop that drives the pipeline.
    pub fn lifecycle_of(&self) -> (r: Lifecycle)
        ensures
            r == self.lifecycle(),
    {
        self.state
    }

    /// How many stages the chain holds.
    pub fn len(&self) -> (n: usize)
        ensures
            n as int == self.num_stages(),
    {
        self.in_stages.len()
    }

    /// The inbound half at position `i`, head first; taps are inspected
    /// through it.
    pub fn inbound_stage(&self, i: usize) -> (r: &InboundStage)
        requires
            0 <= i < self.num_stages(),
        ensures
            r@ == self.inb()[i as int],
    {
        &self.in_stages[i]
    }

    /// The outbound half at position `i`, head first.
    pub fn outbound_stage(&self, i: usize) -> (r: &OutboundStage)
        requires
            0 <= i < self.outb().len(),
        ensures
            r@ == self.outb()[i as int],
    {
        &self.out_stages[i]
    }

    /// What has reached the outbound terminal so far, in order.
    pub fn outflow_at(&self, i: usize) -> (r: &Msg)
        requires
            0 <= i < self.outflow().len(),
        ensures
            r@ == self.outflow()[i as int],
    {
        &self.outflow[i]
    }

    /// How many messages have reached the outbound terminal.
    pub fn outflow_len(&self) -> (n: usize)
        ensures
            n as int == self.outflow().len(),
    {
        self.outflow.len()
    }
}

/// Type chain, inbound: in a chain the check accepted, everything a stage
/// emits during a traversal carries exactly the tag its successor accepts,
/// so a delivery never reaches a stage under a tag it does not read.
pub proof fn lemma_type_chain_inbound(
    inb: Seq<InStageV>,
    outb: Seq<OutStageV>,
    i: int,
    msgs: Seq<MsgV>,
)
    requires
        chain_ok(inb, outb),
        0 <= i < inb.len(),
        all_of_kind(msgs, rin_v(inb[i])),
    ensures
        i + 1 < inb.len() ==> all_of_kind(run_stage(inb[i], msgs).1, rin_v(inb[i + 1])),
{
    lemma_run_stage_wf(inb[i], msgs);
}

/// Type chain, outbound: everything a stage emits during a write traversal
/// carries exactly the tag the stage before it accepts.
pub proof fn lemma_type_chain_outbound(
    inb: Seq<InStageV>,
    outb: Seq<OutStageV>,
    i: int,
    msgs: Seq<MsgV>,
)
    requires
        chain_ok(inb, outb),
        0 < i < outb.len(),
        all_of_kind(msgs, win_v(outb[i])),
    ensures
        all_of_kind(run_stage_out(outb[i], msgs).1, win_v(outb[i - 1])),
{
    lemma_run_stage_out_wf(outb[i], msgs);
    assert(outb[i] == outb[(i - 1) + 1]);
    assert(wout_v(outb[(i - 1) + 1]) == win_v(outb[i - 1]));
}

/// First-in-first-out within the inbound direction: a tap stage fed the
/// messages of one traversal appends them to its log in exactly that
/// order, passes them on unchanged and in order, and reports nothing.
pub proof fn lemma_tap_fifo(t: crate::handler::TapInV, msgs: Seq<MsgV>)
    requires
        all_of_kind(msgs, t.kind),
    ensures
        ({
            let (s2, outs, errs) = run_stage(InStageV::Tap(t), msgs);
            &&& s2 == InStageV::Tap(crate::handler::TapInV { reads: t.reads + msgs, ..t })
            &&& outs == msgs
            &&& errs.len() == 0
        }),
    decreases msgs.len(),
{
    if msgs.len() == 0 {
        assert(t.reads + msgs =~= t.reads);
        assert(run_stage(InStageV::Tap(t), msgs).1 =~= msgs);
    } else {
        let t1 = crate::handler::TapInV { reads: t.reads.push(msgs[0]), ..t };
        lemma_all_kind_drop(msgs, t.kind);
        lemma_tap_fifo(t1, msgs.drop_first());
        assert(t1.reads + msgs.drop_first() =~= t.reads + msgs);
        assert(seq![msgs[0]] + msgs.drop_first() =~= msgs);
        assert(run_stage(InStageV::Tap(t), msgs).1 =~= msgs);
        assert(run_stage(InStageV::Tap(t), msgs).2 =~= Seq::<PipelineError>::empty());
    }
}

/// First-in-first-out across batches: feeding a stage two batches one
/// after the other is feeding their concatenation, so later messages never
/// overtake earlier ones in its output or in its state.
pub proof fn lemma_run_stage_concat(s: InStageV, a: Seq<MsgV>, b: Seq<MsgV>)
    ensures
        ({
            let (s1, o1, e1) = run_stage(s, a);
            let (s2, o2, e2) = run_stage(s1, b);
            &&& run_stage(s, a + b).0 == s2
            &&& run_stage(s, a + b).1 == o1 + o2
            &&& run_stage(s, a + b).2 == e1 + e2
        }),
    decreases a.len(),
{
    let (s1, o1, e1) = run_stage(s, a);
    let (s2, o2, e2) = run_stage(s1, b);
    if a.len() == 0 {
        assert(a + b =~= b);
        assert(o1 + o2 =~= o2);
        assert(e1 + e2 =~= e2);
    } else {
        let h = a[0];
        let (sh, oh, eh) = read_v(s, h);
        assert((a + b)[0] == h);
        assert((a + b).drop_first() =~= a.drop_first() + b);
        lemma_run_stage_concat(sh, a.drop_first(), b);
        let (sa, oa, ea) = run_stage(sh, a.drop_first());
        assert(oh + (oa + o2) =~= (oh + oa) + o2);
        assert(eh + (ea + e2) =~= (eh + ea) + e2);
    }
}

/// Pass-through neutrality, inbound: a pipeline of the transport stage and
/// an identity tap delivers every byte envelope unchanged at the tail.
pub proof fn lemma_pass_through_read(t: crate::handler::TapInV, m: MsgV)
    requires
        t.kind == MsgKind::Bytes,
        m.kind() == MsgKind::Bytes,
    ensures
        run_inbound(seq![InStageV::TransportTcp, InStageV::Tap(t)], 0, seq![m]).1 == seq![m],
{
    reveal_with_fuel(run_stage, 3);
    let stages = seq![InStageV::TransportTcp, InStageV::Tap(t)];
    let one = seq![m];
    assert(one.drop_first() =~= Seq::<MsgV>::empty());
    assert(run_stage(InStageV::TransportTcp, one).1 =~= seq![m] + Seq::<MsgV>::empty());
    assert(seq![m] + Seq::<MsgV>::empty() =~= one);
    assert(all_of_kind(one, t.kind));
    lemma_tap_fifo(t, one);
    lemma_run_inbound_step(stages, 0, one);
    lemma_run_inbound_step(stages.update(0, run_stage(stages[0], one).0), 1, one);
}

/// Pass-through neutrality, outbound: writing a byte envelope through an
/// identity tap and the transport stage enqueues it unchanged on the
/// outbound channel, and nothing reaches the terminal.
pub proof fn lemma_pass_through_write(
    chan: Seq<MsgV>,
    t: crate::handler::TapOutV,
    m: MsgV,
)
    requires
        t.kind == MsgKind::Bytes,
        m.kind() == MsgKind::Bytes,
    ensures
        ({
            let stages = seq![OutStageV::TransportTcp(Some(chan)), OutStageV::Tap(t)];
            let (st2, term, errs) = run_outbound(stages, 1, seq![m]);
            &&& st2[0] == OutStageV::TransportTcp(Some(chan.push(m)))
            &&& term.len() == 0
            &&& errs.len() == 0
        }),
{
    reveal_with_fuel(run_stage_out, 3);
    let stages = seq![OutStageV::TransportTcp(Some(chan)), OutStageV::Tap(t)];
    let one = seq![m];
    assert(one.drop_first() =~= Seq::<MsgV>::empty());
    let tap2 = run_stage_out(stages[1], one).0;
    assert(run_stage_out(stages[1], one).1 =~= seq![m] + Seq::<MsgV>::empty());
    assert(seq![m] + Seq::<MsgV>::empty() =~= one);
    assert(run_stage_out(stages[1], one).2 =~= Seq::<PipelineError>::empty());
    let stages1 = stages.update(1, tap2);
    assert(stages1[0] == OutStageV::TransportTcp(Some(chan)));
    assert(run_stage_out(stages1[0], one).0 == OutStageV::TransportTcp(Some(chan.push(m))));
    assert(run_stage_out(stages1[0], one).1 =~= Seq::<MsgV>::empty() + Seq::<MsgV>::empty());
    lemma_run_outbound_step(stages, 1, one);
    lemma_run_outbound_step(stages1, 0, one);
    assert(run_outbound(stages, 1, one).2 =~= Seq::<PipelineError>::empty());
    assert(run_outbound(stages, 1, one).1.len() == 0);
}

/// Timer aggregation: the deadline `poll_timeout` narrows to is the least
/// of the starting deadline and every stage's own wish; it equals the
/// starting deadline unless some stage asked for exactly it.
pub proof fn lemma_chain_min_is_min(stages: Seq<InStageV>, eto: u64)
    ensures
        chain_min(stages, eto) <= eto,
        forall|i: int|
            0 <= i < stages.len() && deadline_v(#[trigger] stages[i]) is Some ==> chain_min(
                stages,
                eto,
            ) <= deadline_v(stages[i]).unwrap(),
        chain_min(stages, eto) == eto || exists|i: int|
            0 <= i < stages.len() && deadline_v(#[trigger] stages[i]) == Some(
                chain_min(stages, eto),
            ),
    decreases stages.len(),
{
    if stages.len() == 0 {
    } else {
        let e1 = narrow_deadline(eto, deadline_v(stages[0]));
        let rest = stages.drop_first();
        lemma_chain_min_is_min(rest, e1);
        let r = chain_min(rest, e1);
        assert(chain_min(stages, eto) == r);
        assert forall|i: int|
            0 <= i < stages.len() && deadline_v(#[trigger] stages[i]) is Some implies r
            <= deadline_v(stages[i]).unwrap() by {
            if i == 0 {
                assert(r <= e1);
            } else {
                assert(rest[i - 1] == stages[i]);
            }
        }
        if r == e1 {
            if e1 == eto {
            } else {
                assert(deadline_v(stages[0]) == Some(e1));
                assert(0 <= 0 < stages.len() && deadline_v(stages[0]) == Some(r));
            }
        } else {
            let w = choose|i: int|
                0 <= i < rest.len() && deadline_v(#[trigger] rest[i]) == Some(r);
            assert(rest[w] == stages[w + 1]);
            assert(deadline_v(stages[w + 1]) == Some(r));
        }
    }
}

} // verus!
