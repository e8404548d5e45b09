use retty::frame::{LineBasedFrameDecoder, TaggedByteToMessageCodec, TerminatorType};
use retty::message::{Msg, PipelineError};
use retty::transport::{SockAddr, TaggedBytesMut, TransportContext};

fn ctx() -> TransportContext {
    TransportContext::new(SockAddr { ip: 0x7f000001, port: 8080 })
}

#[test]
fn test_line_framing_at_boundary() {
    let mut dec = LineBasedFrameDecoder::new(8192, true, TerminatorType::Both);

    let (frames, errors) = dec.decode(b"hel".to_vec());
    assert!(frames.is_empty());
    assert!(errors.is_empty());

    let (frames, errors) = dec.decode(b"lo\r\nworld\r\nextra".to_vec());
    assert_eq!(frames, vec![b"hello".to_vec(), b"world".to_vec()]);
    assert!(errors.is_empty());
    assert_eq!(dec.buf, b"extra".to_vec());
    assert!(!dec.discarding);
}

#[test]
fn test_line_framing_lf_only_mode() {
    let mut dec = LineBasedFrameDecoder::new(100, true, TerminatorType::Newline);
    let (frames, errors) = dec.decode(b"a\rb\nc\n".to_vec());
    assert_eq!(frames, vec![b"a\rb".to_vec(), b"c".to_vec()]);
    assert!(errors.is_empty());
}

#[test]
fn test_line_framing_keep_delimiter() {
    let mut dec = LineBasedFrameDecoder::new(100, false, TerminatorType::Both);
    let (frames, errors) = dec.decode(b"hi\r\nyo\n".to_vec());
    assert_eq!(frames, vec![b"hi\r\n".to_vec(), b"yo\n".to_vec()]);
    assert!(errors.is_empty());
}

#[test]
fn test_oversized_frame() {
    let mut dec = LineBasedFrameDecoder::new(8192, true, TerminatorType::Both);

    let run = vec![b'x'; 9000];
    let (frames, errors) = dec.decode(run);
    assert!(frames.is_empty());
    assert_eq!(errors, vec![PipelineError::TooLongFrame { length: 9000 }]);
    assert!(dec.discarding);

    // The terminator ends the over-long line; the following frame decodes
    // normally: the connection stays usable.
    let (frames, errors) = dec.decode(b"tail\nok\n".to_vec());
    assert_eq!(frames, vec![b"ok".to_vec()]);
    assert!(errors.is_empty());
    assert!(!dec.discarding);
}

#[test]
fn test_oversized_frame_terminated_in_one_read() {
    let mut dec = LineBasedFrameDecoder::new(4, true, TerminatorType::Newline);
    let (frames, errors) = dec.decode(b"toolong\nok\n".to_vec());
    assert_eq!(frames, vec![b"ok".to_vec()]);
    assert_eq!(errors, vec![PipelineError::TooLongFrame { length: 7 }]);
    assert!(!dec.discarding);
}

#[test]
fn test_byte_codec_wraps_frames_with_context() {
    let mut codec = TaggedByteToMessageCodec::new(LineBasedFrameDecoder::new(
        8192,
        true,
        TerminatorType::Both,
    ));
    let envelope = TaggedBytesMut::new(ctx(), b"one\r\ntwo\r\n".to_vec());
    let (msgs, errors) = codec.read(envelope);
    assert!(errors.is_empty());
    assert_eq!(msgs.len(), 2);
    match &msgs[0] {
        Msg::Bytes(tb) => {
            assert_eq!(tb.message, b"one".to_vec());
            assert_eq!(tb.transport, ctx());
        }
        other => panic!("expected bytes, got {:?}", other),
    }
    match &msgs[1] {
        Msg::Bytes(tb) => assert_eq!(tb.message, b"two".to_vec()),
        other => panic!("expected bytes, got {:?}", other),
    }
}
