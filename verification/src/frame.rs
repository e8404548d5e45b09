//! Line-based framing: carving one application frame per line terminator out
//! of a byte stream, buffering partial lines across reads, capping the frame
//! length, and discarding an over-long line up to its terminator before
//! resuming.

use vstd::prelude::*;
use crate::message::{Msg, MsgV, MsgKind, PipelineError, views_of};
use crate::transport::TaggedBytesMut;

verus! {

/// Which terminator ends a frame: a bare line feed, a carriage return and
/// line feed pair, or either.
#[derive(Clone, Copy, PartialEq, Eq, Structural, Debug)]
pub enum TerminatorType {
    Newline,
    CarriageNewline,
    Both,
}

/// A terminator begins at position `i` of `b`.
pub open spec fn eol_at(b: Seq<u8>, t: TerminatorType, i: int) -> bool {
    match t {
        TerminatorType::Newline => b[i] == 10u8,
        TerminatorType::CarriageNewline => b[i] == 13u8 && i + 1 < b.len() && b[i + 1] == 10u8,
        TerminatorType::Both => b[i] == 10u8 || (b[i] == 13u8 && i + 1 < b.len() && b[i + 1]
            == 10u8),
    }
}

/// The width of the terminator beginning at position `i` of `b`.
pub open spec fn delim_len(b: Seq<u8>, t: TerminatorType, i: int) -> int {
    match t {
        TerminatorType::Newline => 1,
        TerminatorType::CarriageNewline => 2,
        TerminatorType::Both => if b[i] == 13u8 {
            2
        } else {
            1
        },
    }
}

/// The position of the first terminator at or after `i`, if any.
pub open spec fn find_eol_from(b: Seq<u8>, t: TerminatorType, i: int) -> Option<int>
    decreases b.len() - i,
{
    if i >= b.len() {
        None
    } else if eol_at(b, t, i) {
        Some(i)
    } else {
        find_eol_from(b, t, i + 1)
    }
}

pub proof fn lemma_find_eol_from(b: Seq<u8>, t: TerminatorType, i: int)
    requires
        0 <= i,
    ensures
        match find_eol_from(b, t, i) {
            Some(p) => i <= p < b.len() && eol_at(b, t, p) && p + delim_len(b, t, p) <= b.len()
                && (forall|j: int| i <= j < p ==> !eol_at(b, t, j)),
            None => forall|j: int| i <= j < b.len() ==> !eol_at(b, t, j),
        },
    decreases b.len() - i,
{
    if i >= b.len() {
    } else if eol_at(b, t, i) {
    } else {
        lemma_find_eol_from(b, t, i + 1);
    }
}

/// What one call of the decoder leaves behind and hands out: the frames in
/// order, the errors in order, and the buffer and discard flag that remain.
#[verifier::ext_equal]
pub struct DrainOut {
    pub frames: Seq<Seq<u8>>,
    pub errors: Seq<PipelineError>,
    pub buf: Seq<u8>,
    pub discarding: bool,
}

/// The decoder's drain loop as a function of its configuration and state:
/// while a terminator is in the buffer, either leave discard mode (dropping
/// through the terminator), or drop and report a line longer than `max`, or
/// carve a frame; with no terminator left, keep a short buffer, or clear it,
/// report, and enter discard mode when it has outgrown `max`.
pub open spec fn drain_spec(
    max: int,
    strip: bool,
    t: TerminatorType,
    buf: Seq<u8>,
    discarding: bool,
) -> DrainOut
    decreases buf.len(),
    when true
    via drain_spec_decreases
{
    match find_eol_from(buf, t, 0) {
        Some(pos) => {
            let consumed = pos + delim_len(buf, t, pos);
            let rest = buf.subrange(consumed, buf.len() as int);
            if discarding {
                drain_spec(max, strip, t, rest, false)
            } else if pos > max {
                let tail = drain_spec(max, strip, t, rest, false);
                DrainOut {
                    frames: tail.frames,
                    errors: seq![PipelineError::TooLongFrame { length: pos as usize }]
                        + tail.errors,
                    buf: tail.buf,
                    discarding: tail.discarding,
                }
            } else {
                let frame = if strip {
                    buf.subrange(0, pos)
                } else {
                    buf.subrange(0, consumed)
                };
                let tail = drain_spec(max, strip, t, rest, false);
                DrainOut {
                    frames: seq![frame] + tail.frames,
                    errors: tail.errors,
                    buf: tail.buf,
                    discarding: tail.discarding,
                }
            }
        },
        None => {
            if discarding {
                DrainOut { frames: seq![], errors: seq![], buf: seq![], discarding: true }
            } else if buf.len() > max {
                DrainOut {
                    frames: seq![],
                    errors: seq![PipelineError::TooLongFrame { length: buf.len() as usize }],
                    buf: seq![],
                    discarding: true,
                }
            } else {
                DrainOut { frames: seq![], errors: seq![], buf, discarding: false }
            }
        },
    }
}

#[via_fn]
proof fn drain_spec_decreases(
    max: int,
    strip: bool,
    t: TerminatorType,
    buf: Seq<u8>,
    discarding: bool,
) {
    lemma_find_eol_from(buf, t, 0);
}

/// A decoder that yields one frame per line terminator, buffering partial
/// lines across reads and capping the frame length at `max_length`.
pub struct LineBasedFrameDecoder {
    pub max_length: usize,
    pub strip_delimiter: bool,
    pub terminator: TerminatorType,
    pub buf: Vec<u8>,
    pub discarding: bool,
}

/// The decoder's view: its configuration and the mathematical state.
pub struct LineDecoderV {
    pub max_length: int,
    pub strip_delimiter: bool,
    pub terminator: TerminatorType,
    pub buf: Seq<u8>,
    pub discarding: bool,
}

impl View for LineBasedFrameDecoder {
    type V = LineDecoderV;

    open spec fn view(&self) -> LineDecoderV {
        LineDecoderV {
            max_length: self.max_length as int,
            strip_delimiter: self.strip_delimiter,
            terminator: self.terminator,
            buf: self.buf@,
            discarding: self.discarding,
        }
    }
}

impl LineDecoderV {
    /// The configuration of `self`, with an empty buffer out of discard mode.
    pub open spec fn fresh(self) -> bool {
        self.buf.len() == 0 && !self.discarding
    }

    /// `self` and `other` are configured alike.
    pub open spec fn same_config(self, other: LineDecoderV) -> bool {
        self.max_length == other.max_length && self.strip_delimiter == other.strip_delimiter
            && self.terminator == other.terminator
    }

    /// What draining from state `self` gives.
    pub open spec fn drained(self) -> DrainOut {
        drain_spec(self.max_length, self.strip_delimiter, self.terminator, self.buf,
            self.discarding)
    }
}

/// The first `n` bytes of `v`.
fn take_front(v: &Vec<u8>, n: usize) -> (r: Vec<u8>)
    requires
        n <= v@.len(),
    ensures
        r@ == v@.subrange(0, n as int),
{
    let mut r: Vec<u8> = Vec::new();
    let mut i: usize = 0;
    while i < n
        invariant
            i <= n <= v@.len(),
            r@ == v@.subrange(0, i as int),
        decreases n - i,
    {
        r.push(v[i]);
        i = i + 1;
        proof {
            assert(r@ =~= v@.subrange(0, i as int));
        }
    }
    r
}

/// Removes the first `n` bytes of `v`.
fn drop_front(v: &mut Vec<u8>, n: usize)
    requires
        n <= old(v)@.len(),
    ensures
        final(v)@ == old(v)@.subrange(n as int, old(v)@.len() as int),
{
    let len = v.len();
    let mut r: Vec<u8> = Vec::new();
    let mut i: usize = n;
    while i < len
        invariant
            n <= i <= len == v@.len(),
            r@ == v@.subrange(n as int, i as int),
        decreases len - i,
    {
        r.push(v[i]);
        i = i + 1;
        proof {
            assert(r@ =~= v@.subrange(n as int, i as int));
        }
    }
    *v = r;
}

/// The position of the first terminator in `v`, if any.
fn find_eol(v: &Vec<u8>, t: TerminatorType) -> (r: Option<usize>)
    ensures
        match r {
            Some(p) => find_eol_from(v@, t, 0) == Some(p as int),
            None => find_eol_from(v@, t, 0) is None,
        },
{
    let len = v.len();
    let mut i: usize = 0;
    while i < len
        invariant
            0 <= i <= len == v@.len(),
            find_eol_from(v@, t, 0) == find_eol_from(v@, t, i as int),
        decreases len - i,
    {
        let hit = match t {
            TerminatorType::Newline => v[i] == 10u8,
            TerminatorType::CarriageNewline => v[i] == 13u8 && i + 1 < len && v[i + 1] == 10u8,
            TerminatorType::Both => v[i] == 10u8 || (v[i] == 13u8 && i + 1 < len && v[i + 1]
                == 10u8),
        };
        if hit {
            proof {
                assert(eol_at(v@, t, i as int));
            }
            return Some(i);
        }
        proof {
            assert(!eol_at(v@, t, i as int));
        }
        i = i + 1;
    }
    None
}

impl LineBasedFrameDecoder {
    /// A fresh decoder with the given cap, delimiter handling and terminator.
    pub fn new(max_length: usize, strip_delimiter: bool, terminator: TerminatorType) -> (r:
        LineBasedFrameDecoder)
        ensures
            r@.max_length == max_length as int,
            r@.strip_delimiter == strip_delimiter,
            r@.terminator == terminator,
            r@.fresh(),
    {
        LineBasedFrameDecoder {
            max_length,
            strip_delimiter,
            terminator,
            buf: Vec::new(),
            discarding: false,
        }
    }

    /// Appends `input` to the buffered bytes and carves out every complete
    /// frame, reporting each over-long line once.
    pub fn decode(&mut self, input: Vec<u8>) -> (r: (Vec<Vec<u8>>, Vec<PipelineError>))
        ensures
            ({
                let out = (LineDecoderV { buf: old(self)@.buf + input@, ..old(self)@ }).drained();
                &&& final(self)@.same_config(old(self)@)
                &&& r.0@.map(|i: int, f: Vec<u8>| f@) == out.frames
                &&& r.1@ == out.errors
                &&& final(self)@.buf == out.buf
                &&& final(self)@.discarding == out.discarding
            }),
    {
        let ghost start = LineDecoderV { buf: self@.buf + input@, ..self@ };
        let mut inp = input;
        self.buf.append(&mut inp);
        let mut frames: Vec<Vec<u8>> = Vec::new();
        let mut errors: Vec<PipelineError> = Vec::new();
        proof {
            assert(self@ =~= start);
            assert(frames@.map(|i: int, f: Vec<u8>| f@) =~= Seq::<Seq<u8>>::empty());
        }
        loop
            invariant
                self@.same_config(start),
                start.drained().frames =~= frames@.map(|i: int, f: Vec<u8>| f@)
                    + self@.drained().frames,
                start.drained().errors =~= errors@ + self@.drained().errors,
                start.drained().buf == self@.drained().buf,
                start.drained().discarding == self@.drained().discarding,
            ensures
                self@.same_config(start),
                start.drained().frames =~= frames@.map(|i: int, f: Vec<u8>| f@),
                start.drained().errors =~= errors@,
                start.drained().buf == self@.buf,
                start.drained().discarding == self@.discarding,
            decreases self.buf.len(),
        {
            let ghost pre = self@;
            proof {
                lemma_find_eol_from(pre.buf, pre.terminator, 0);
            }
            match find_eol(&self.buf, self.terminator) {
                Some(pos) => {
                    let dl: usize = match self.terminator {
                        TerminatorType::Newline => 1,
                        TerminatorType::CarriageNewline => 2,
                        TerminatorType::Both => if self.buf[pos] == 13u8 {
                            2
                        } else {
                            1
                        },
                    };
                    proof {
                        assert(dl as int == delim_len(pre.buf, pre.terminator, pos as int));
                    }
                    let consumed = pos + dl;
                    if self.discarding {
                        drop_front(&mut self.buf, consumed);
                        self.discarding = false;
                    } else if pos > self.max_length {
                        errors.push(PipelineError::TooLongFrame { length: pos });
                        drop_front(&mut self.buf, consumed);
                        proof {
                            assert(errors@ =~= errors@.subrange(0, errors@.len() - 1).push(
                                PipelineError::TooLongFrame { length: pos }));
                        }
                    } else {
                        let frame = if self.strip_delimiter {
                            take_front(&self.buf, pos)
                        } else {
                            take_front(&self.buf, consumed)
                        };
                        frames.push(frame);
                        drop_front(&mut self.buf, consumed);
                    }
                    proof {
                        assert(pre.drained().frames =~= (if pre.discarding || pos as int
                            > pre.max_length {
                            self@.drained().frames
                        } else {
                            seq![if pre.strip_delimiter {
                                pre.buf.subrange(0, pos as int)
                            } else {
                                pre.buf.subrange(0, consumed as int)
                            }] + self@.drained().frames
                        }));
                    }
                },
                None => {
                    proof {
                        assert(pre.drained() == (if pre.discarding {
                            DrainOut {
                                frames: seq![],
                                errors: seq![],
                                buf: seq![],
                                discarding: true,
                            }
                        } else if pre.buf.len() > pre.max_length {
                            DrainOut {
                                frames: seq![],
                                errors: seq![
                                    PipelineError::TooLongFrame { length: pre.buf.len() as usize },
                                ],
                                buf: seq![],
                                discarding: true,
                            }
                        } else {
                            DrainOut {
                                frames: seq![],
                                errors: seq![],
                                buf: pre.buf,
                                discarding: false,
                            }
                        }));
                    }
                    let ghost frames_pre = frames@;
                    let ghost errors_pre = errors@;
                    if self.discarding {
                        self.buf.clear();
                    } else if self.buf.len() > self.max_length {
                        errors.push(PipelineError::TooLongFrame { length: self.buf.len() });
                        self.buf.clear();
                        self.discarding = true;
                    }
                    proof {
                        assert(start.drained().frames =~= frames@.map(|i: int, f: Vec<u8>| f@));
                        assert(start.drained().errors =~= errors@);
                        assert(start.drained().buf =~= self@.buf);
                    }
                    break ;
                },
            }
        }
        (frames, errors)
    }
}

/// What reading one byte envelope does to the framing stage: the decoder
/// state after draining, the framed envelopes in order, each keeping the
/// read's transport context, and the over-length reports in order.
pub open spec fn byte_codec_read_spec(
    pre: LineDecoderV,
    t: crate::transport::TransportContext,
    data: Seq<u8>,
) -> (LineDecoderV, Seq<MsgV>, Seq<PipelineError>) {
    let out = (LineDecoderV { buf: pre.buf + data, ..pre }).drained();
    (
        LineDecoderV { buf: out.buf, discarding: out.discarding, ..pre },
        out.frames.map(|i: int, f: Seq<u8>| MsgV::Bytes { transport: t, data: f }),
        out.errors,
    )
}

/// The framing stage: its inbound half carves frames out of each byte
/// envelope; its outbound half passes byte envelopes through unchanged.
pub struct TaggedByteToMessageCodec {
    pub decoder: LineBasedFrameDecoder,
}

impl TaggedByteToMessageCodec {
    /// A framing stage around the given line decoder.
    pub fn new(decoder: LineBasedFrameDecoder) -> (r: TaggedByteToMessageCodec)
        ensures
            r.decoder@ == decoder@,
    {
        TaggedByteToMessageCodec { decoder }
    }

    /// Feeds one byte envelope to the decoder and wraps every carved frame
    /// in an envelope with the read's context.
    pub fn read(&mut self, tb: TaggedBytesMut) -> (r: (Vec<Msg>, Vec<PipelineError>))
        ensures
            ({
                let (d2, outs, errs) = byte_codec_read_spec(
                    old(self).decoder@,
                    tb.transport,
                    tb.message@,
                );
                &&& final(self).decoder@ == d2
                &&& views_of(r.0@) =~= outs
                &&& r.1@ =~= errs
            }),
    {
        let transport = tb.transport;
        let (mut frames, errors) = self.decoder.decode(tb.message);
        let ghost frame_views = frames@.map(|i: int, f: Vec<u8>| f@);
        let ghost target = frame_views.map(
            |i: int, f: Seq<u8>| MsgV::Bytes { transport, data: f },
        );
        let mut outs: Vec<Msg> = Vec::new();
        proof {
            assert(views_of(outs@) + frames@.map(
                |i: int, f: Vec<u8>| MsgV::Bytes { transport, data: f@ },
            ) =~= target);
        }
        while frames.len() > 0
            invariant
                views_of(outs@) + frames@.map(
                    |i: int, f: Vec<u8>| MsgV::Bytes { transport, data: f@ },
                ) =~= target,
            decreases frames@.len(),
        {
            let ghost pre_outs = outs@;
            let ghost pre_frames = frames@;
            let message = frames.remove(0);
            outs.push(Msg::Bytes(TaggedBytesMut { transport, message }));
            proof {
                assert(views_of(outs@) =~= views_of(pre_outs).push(
                    MsgV::Bytes { transport, data: message@ },
                ));
                assert(frames@ =~= pre_frames.drop_first());
                assert(views_of(outs@) + frames@.map(
                    |i: int, f: Vec<u8>| MsgV::Bytes { transport, data: f@ },
                ) =~= target);
            }
        }
        proof {
            assert(views_of(outs@) =~= target);
            assert(byte_codec_read_spec(old(self).decoder@, tb.transport, tb.message@).1
                =~= target);
        }
        (outs, errors)
    }
}

} // verus!
