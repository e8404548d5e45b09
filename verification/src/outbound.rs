//! The outbound channel: the per-pipeline FIFO queue that carries finished
//! byte envelopes from the transport stage to the event loop that owns the
//! socket. The pipeline runs single-threaded, so the queue is a plain
//! first-in-first-out buffer: the transport stage appends, the loop pops.

use vstd::prelude::*;
use crate::message::MsgV;
use crate::transport::TaggedBytesMut;

verus! {

/// The views of a sequence of byte envelopes, in order.
pub open spec fn tbs_views(s: Seq<TaggedBytesMut>) -> Seq<MsgV> {
    s.map(|i: int, tb: TaggedBytesMut| MsgV::Bytes { transport: tb.transport, data: tb.message@ })
}

/// The producing end of a pipeline's outbound queue, as held by the
/// transport stage; the event loop drains it in send order.
pub struct OutboundTx {
    queue: Vec<TaggedBytesMut>,
}

impl View for OutboundTx {
    type V = Seq<MsgV>;

    closed spec fn view(&self) -> Seq<MsgV> {
        tbs_views(self.queue@)
    }
}

impl OutboundTx {
    /// An empty queue.
    pub fn new() -> (r: OutboundTx)
        ensures
            r@ =~= Seq::<MsgV>::empty(),
    {
        let r = OutboundTx { queue: Vec::new() };
        proof {
            assert(r@ =~= Seq::<MsgV>::empty());
        }
        r
    }

    /// Appends one envelope; everything queued before it stays ahead of it.
    pub fn send(&mut self, tb: TaggedBytesMut)
        ensures
            final(self)@ =~= old(self)@.push(
                MsgV::Bytes { transport: tb.transport, data: tb.message@ },
            ),
    {
        self.queue.push(tb);
        proof {
            assert(self@ =~= old(self)@.push(
                MsgV::Bytes { transport: tb.transport, data: tb.message@ },
            ));
        }
    }

    /// Pops the envelope that has waited longest, if any.
    pub fn recv(&mut self) -> (r: Option<TaggedBytesMut>)
        ensures
            old(self)@.len() == 0 ==> r is None && final(self)@ == old(self)@,
            old(self)@.len() > 0 ==> ({
                &&& r is Some
                &&& (MsgV::Bytes {
                    transport: r.unwrap().transport,
                    data: r.unwrap().message@,
                }) == old(self)@[0]
                &&& final(self)@ =~= old(self)@.drop_first()
            }),
    {
        if self.queue.len() == 0 {
            None
        } else {
            let tb = self.queue.remove(0);
            proof {
                assert(self@ =~= old(self)@.drop_first());
            }
            Some(tb)
        }
    }

    /// How many envelopes wait in the queue.
    pub fn len(&self) -> (n: usize)
        ensures
            n == self@.len(),
    {
        self.queue.len()
    }

    /// Empties the queue, handing every waiting envelope out in send order.
    pub fn drain(&mut self) -> (r: Vec<TaggedBytesMut>)
        ensures
            tbs_views(r@) == old(self)@,
            final(self)@ == Seq::<MsgV>::empty(),
    {
        let mut r: Vec<TaggedBytesMut> = Vec::new();
        proof {
            assert(tbs_views(r@) + self@ =~= old(self)@);
        }
        while self.queue.len() > 0
            invariant
                tbs_views(r@) + self@ == old(self)@,
            decreases self.queue.len(),
        {
            let ghost r_pre = r@;
            let ghost q_pre = self.queue@;
            let tb = self.queue.remove(0);
            r.push(tb);
            proof {
                assert(r@ =~= r_pre.push(tb));
                assert(self.queue@ =~= q_pre.drop_first());
                assert(tbs_views(r@) + self@ =~= tbs_views(r_pre) + tbs_views(q_pre));
            }
        }
        proof {
            assert(self@ =~= Seq::<MsgV>::empty());
            assert(tbs_views(r@) + self@ =~= tbs_views(r@));
        }
        r
    }
}

} // verus!
