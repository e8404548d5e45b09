//! The string codec stage: inbound it decodes each framed byte buffer as
//! UTF-8 text, reporting a buffer that is not valid UTF-8 instead of
//! delivering it; outbound it encodes text back into the bytes the framer and
//! transport expect.

use vstd::prelude::*;
use crate::message::{Msg, MsgV, PipelineError, views_of};
use crate::transport::{TaggedBytesMut, TransportContext};

verus! {

/// A transport context paired with a decoded text message.
#[derive(Clone, PartialEq, Eq, Debug)]
pub struct TaggedString {
    pub transport: TransportContext,
    pub message: String,
}

impl TaggedString {
    pub fn new(transport: TransportContext, message: String) -> (r: TaggedString)
        ensures
            r.transport == transport,
            r.message@ == message@,
    {
        TaggedString { transport, message }
    }
}

/// Relies on `String::from_utf8`: it returns `Ok` exactly on valid UTF-8 and
/// then holds the decoded characters of the input bytes.
#[verifier::external_body]
fn string_from_utf8(v: Vec<u8>) -> (r: Option<String>)
    ensures
        r is Some <==> vstd::utf8::valid_utf8(v@),
        r is Some ==> r.unwrap()@ == vstd::utf8::decode_utf8(v@),
{
    String::from_utf8(v).ok()
}

/// Decodes one framed buffer: the text on valid UTF-8, nothing otherwise.
pub fn decode_utf8_frame(frame: Vec<u8>) -> (r: Option<String>)
    ensures
        r is Some <==> vstd::utf8::valid_utf8(frame@),
        r is Some ==> r.unwrap()@ == vstd::utf8::decode_utf8(frame@),
{
    string_from_utf8(frame)
}

/// Encodes text into the bytes whose decoding gives the text back.
pub fn encode_utf8_frame(text: &String) -> (r: Vec<u8>)
    ensures
        r@ == vstd::utf8::encode_utf8(text@),
{
    let bytes: &[u8] = text.as_str().as_bytes();
    vstd::slice::slice_to_vec(bytes)
}

/// What decoding one byte envelope gives: the text envelope on valid UTF-8,
/// otherwise no output and one report.
pub open spec fn string_decode_spec(t: TransportContext, data: Seq<u8>) -> (Seq<MsgV>, Seq<
    PipelineError,
>) {
    if vstd::utf8::valid_utf8(data) {
        (seq![MsgV::Text { transport: t, data: vstd::utf8::decode_utf8(data) }], seq![])
    } else {
        (seq![], seq![PipelineError::InvalidUtf8])
    }
}

/// What encoding one text envelope gives: the byte envelope whose bytes
/// decode back to the text.
pub open spec fn string_encode_spec(t: TransportContext, data: Seq<char>) -> MsgV {
    MsgV::Bytes { transport: t, data: vstd::utf8::encode_utf8(data) }
}

/// The inbound half of the string codec: frames in, text out.
pub struct TaggedStringDecoder;

impl TaggedStringDecoder {
    /// Decodes one framed buffer as UTF-8 text, keeping its context; a
    /// buffer that is not UTF-8 is reported instead of delivered.
    pub fn read(&mut self, tb: TaggedBytesMut) -> (r: (Vec<Msg>, Vec<PipelineError>))
        ensures
            ({
                let (outs, errs) = string_decode_spec(tb.transport, tb.message@);
                views_of(r.0@) =~= outs && r.1@ =~= errs
            }),
    {
        let transport = tb.transport;
        let mut outs: Vec<Msg> = Vec::new();
        let mut errs: Vec<PipelineError> = Vec::new();
        match decode_utf8_frame(tb.message) {
            Some(message) => {
                outs.push(Msg::Text(TaggedString { transport, message }));
                proof {
                    assert(views_of(outs@) =~= string_decode_spec(tb.transport, tb.message@).0);
                }
            },
            None => {
                errs.push(PipelineError::InvalidUtf8);
            },
        }
        (outs, errs)
    }
}

/// The outbound half of the string codec: text in, frames out.
pub struct TaggedStringEncoder;

impl TaggedStringEncoder {
    /// Encodes one text envelope into the bytes the framer and transport
    /// expect, keeping its context.
    pub fn write(&mut self, ts: TaggedString) -> (r: Msg)
        ensures
            r@ == string_encode_spec(ts.transport, ts.message@),
    {
        let message = encode_utf8_frame(&ts.message);
        Msg::Bytes(TaggedBytesMut { transport: ts.transport, message })
    }
}

/// The string codec stage, split on insertion into its two halves.
pub struct TaggedStringCodec {
    pub decoder: TaggedStringDecoder,
    pub encoder: TaggedStringEncoder,
}

impl TaggedStringCodec {
    /// A string codec stage.
    pub fn new() -> (r: TaggedStringCodec)
    {
        TaggedStringCodec { decoder: TaggedStringDecoder, encoder: TaggedStringEncoder }
    }

    /// The two erased halves of the stage.
    pub fn split(self) -> (r: (TaggedStringDecoder, TaggedStringEncoder)) {
        (self.decoder, self.encoder)
    }
}

} // verus!
