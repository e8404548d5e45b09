use retty::async_transport::{AsyncTransportTcp, AsyncTransportUdp};
use retty::frame::{LineBasedFrameDecoder, TaggedByteToMessageCodec, TerminatorType};
use retty::handler::{Handler, InboundStage, OutboundStage, TapHandler};
use retty::message::{Msg, MsgKind, PipelineError};
use retty::outbound::OutboundTx;
use retty::pipeline::{Lifecycle, Pipeline};
use retty::string_codec::{TaggedString, TaggedStringCodec};
use retty::transport::{SockAddr, TaggedBytesMut, TransportContext};

fn addr(port: u16) -> SockAddr {
    SockAddr { ip: 0x7f000001, port }
}

fn ctx() -> TransportContext {
    TransportContext::new(addr(8080))
}

fn bytes_msg(data: &[u8]) -> Msg {
    Msg::Bytes(TaggedBytesMut::new(ctx(), data.to_vec()))
}

fn tap_inbound(p: &Pipeline, i: usize) -> &retty::handler::TapInbound {
    match p.inbound_stage(i) {
        InboundStage::Tap(t) => t,
        _ => panic!("stage {} is not a tap", i),
    }
}

#[test]
fn test_lifecycle_states() {
    let mut p = Pipeline::new(MsgKind::Bytes, MsgKind::Bytes);
    assert_eq!(p.lifecycle_of(), Lifecycle::Constructing);
    p.add_back(Handler::Tap(TapHandler::new(MsgKind::Bytes))).unwrap();
    assert!(p.finalize().is_ok());
    assert_eq!(p.lifecycle_of(), Lifecycle::Finalized);
    p.transport_active();
    assert_eq!(p.lifecycle_of(), Lifecycle::Active);
    p.transport_inactive();
    assert_eq!(p.lifecycle_of(), Lifecycle::Inactive);
    let tap = tap_inbound(&p, 0);
    assert!(tap.active);
    assert!(tap.inactive);
}

#[test]
fn test_type_chain_construction_failure() {
    let mut p = Pipeline::new(MsgKind::Bytes, MsgKind::Text);
    p.add_back(Handler::TransportTcp(AsyncTransportTcp::new(OutboundTx::new()))).unwrap();
    p.add_back(Handler::StringCodec(TaggedStringCodec::new())).unwrap();
    // The codec emits text inbound; a second codec reads bytes: rejected.
    let r = p.add_back(Handler::StringCodec(TaggedStringCodec::new()));
    assert_eq!(r, Err(PipelineError::TypeChainMismatch));
    // No partially-built pipeline is observable: the chain is as before,
    // and construction can go on with a handler that fits.
    assert_eq!(p.len(), 2);
    assert_eq!(p.lifecycle_of(), Lifecycle::Constructing);
    p.add_back(Handler::Tap(TapHandler::new(MsgKind::Text))).unwrap();
    assert!(p.finalize().is_ok());
}

#[test]
fn test_finalize_rejects_mismatched_tail() {
    let mut p = Pipeline::new(MsgKind::Bytes, MsgKind::Text);
    p.add_back(Handler::TransportTcp(AsyncTransportTcp::new(OutboundTx::new()))).unwrap();
    // The transport emits bytes outbound, but the pipeline promised text.
    let r = p.finalize();
    assert_eq!(r, Err(PipelineError::TypeChainMismatch));
    assert_eq!(p.lifecycle_of(), Lifecycle::Constructing);
}

#[test]
fn test_fifo_within_direction() {
    let mut p = Pipeline::new(MsgKind::Bytes, MsgKind::Bytes);
    p.add_back(Handler::Tap(TapHandler::new(MsgKind::Bytes))).unwrap();
    p.finalize().unwrap();
    p.transport_active();
    p.read(bytes_msg(b"m1"));
    p.read(bytes_msg(b"m2"));
    p.read(bytes_msg(b"m3"));
    let tap = tap_inbound(&p, 0);
    let seen: Vec<&Vec<u8>> = tap
        .reads
        .iter()
        .map(|m| match m {
            Msg::Bytes(tb) => &tb.message,
            _ => panic!("tap saw a non-byte message"),
        })
        .collect();
    assert_eq!(seen, vec![&b"m1".to_vec(), &b"m2".to_vec(), &b"m3".to_vec()]);
}

#[test]
fn test_pass_through_neutrality() {
    let mut p = Pipeline::new(MsgKind::Bytes, MsgKind::Bytes);
    p.add_back(Handler::TransportTcp(AsyncTransportTcp::new(OutboundTx::new()))).unwrap();
    p.add_back(Handler::Tap(TapHandler::new(MsgKind::Bytes))).unwrap();
    p.finalize().unwrap();
    p.transport_active();

    // Inbound: the envelope reaches the tail unchanged.
    let (delivered, errors) = p.read(bytes_msg(b"abc"));
    assert!(errors.is_empty());
    assert_eq!(delivered, vec![bytes_msg(b"abc")]);

    // Outbound: the envelope reaches the channel unchanged.
    let errors = p.write(bytes_msg(b"xyz"));
    assert!(errors.is_empty());
    let sent = p.poll_outbound().expect("one frame queued");
    assert_eq!(sent.message, b"xyz".to_vec());
    assert!(p.poll_outbound().is_none());
}

#[test]
fn test_timer_aggregation() {
    let mut p = Pipeline::new(MsgKind::Bytes, MsgKind::Bytes);
    p.add_back(Handler::Tap(TapHandler::new(MsgKind::Bytes).with_deadline(50))).unwrap();
    p.add_back(Handler::Tap(TapHandler::new(MsgKind::Bytes).with_deadline(30))).unwrap();
    p.add_back(Handler::Tap(TapHandler::new(MsgKind::Bytes))).unwrap();
    p.finalize().unwrap();
    p.transport_active();

    let mut eto: u64 = 100;
    p.poll_timeout(&mut eto);
    assert_eq!(eto, 30);

    // A deadline later than the offer narrows nothing.
    let mut eto: u64 = 10;
    p.poll_timeout(&mut eto);
    assert_eq!(eto, 10);

    p.handle_timeout(30);
    assert_eq!(tap_inbound(&p, 0).timeouts, vec![30]);
    assert_eq!(tap_inbound(&p, 1).timeouts, vec![30]);
    assert_eq!(tap_inbound(&p, 2).timeouts, vec![30]);
}

#[test]
fn test_drop_order_is_reverse_of_add_order() {
    let mut p = Pipeline::new(MsgKind::Bytes, MsgKind::Text);
    p.add_back(Handler::TransportTcp(AsyncTransportTcp::new(OutboundTx::new()))).unwrap();
    p.add_back(Handler::ByteCodec(TaggedByteToMessageCodec::new(LineBasedFrameDecoder::new(
        8192,
        true,
        TerminatorType::Both,
    ))))
    .unwrap();
    p.add_back(Handler::StringCodec(TaggedStringCodec::new())).unwrap();
    p.add_back(Handler::Tap(TapHandler::new(MsgKind::Text))).unwrap();
    p.finalize().unwrap();
    p.transport_active();
    p.transport_inactive();

    // Releasing the returned vector front to back runs the halves'
    // destructors in reverse of add order.
    let stages = p.teardown();
    assert_eq!(stages.len(), 4);
    assert!(matches!(stages[0].0, InboundStage::Tap(_)));
    assert!(matches!(stages[1].0, InboundStage::StringCodec(_)));
    assert!(matches!(stages[2].0, InboundStage::ByteCodec(_)));
    assert!(matches!(stages[3].0, InboundStage::TransportTcp(_)));
    assert!(matches!(stages[3].1, OutboundStage::TransportTcp(_)));
}

#[test]
fn test_graceful_shutdown_drains_backlog() {
    let mut p = Pipeline::new(MsgKind::Bytes, MsgKind::Text);
    p.add_back(Handler::TransportUdp(AsyncTransportUdp::new(OutboundTx::new(), true))).unwrap();
    p.add_back(Handler::ByteCodec(TaggedByteToMessageCodec::new(LineBasedFrameDecoder::new(
        8192,
        true,
        TerminatorType::Both,
    ))))
    .unwrap();
    p.add_back(Handler::StringCodec(TaggedStringCodec::new())).unwrap();
    p.add_back(Handler::Tap(TapHandler::new(MsgKind::Text))).unwrap();
    p.finalize().unwrap();
    p.transport_active();

    let mut peer_ctx = ctx();
    peer_ctx.peer_addr = Some(addr(9000));
    for i in 0..10 {
        let text = format!("frame {}\r\n", i);
        let errors = p.write(Msg::Text(TaggedString::new(peer_ctx, text)));
        assert!(errors.is_empty());
    }

    // The graceful path empties the backlog, in send order, before the
    // socket closes.
    let drained = p.drain_outbound();
    assert_eq!(drained.len(), 10);
    for (i, tb) in drained.iter().enumerate() {
        assert_eq!(tb.message, format!("frame {}\r\n", i).into_bytes());
        assert_eq!(tb.transport.peer_addr, Some(addr(9000)));
    }
    assert!(p.poll_outbound().is_none());

    // After close, nothing more can be sent.
    p.close();
    let errors = p.write(Msg::Text(TaggedString::new(peer_ctx, String::from("late\r\n"))));
    assert!(errors.is_empty());
    assert!(p.poll_outbound().is_none());
}

#[test]
fn test_udp_server_write_without_peer_is_dropped() {
    let mut p = Pipeline::new(MsgKind::Bytes, MsgKind::Bytes);
    p.add_back(Handler::TransportUdp(AsyncTransportUdp::new(OutboundTx::new(), true))).unwrap();
    p.finalize().unwrap();
    p.transport_active();

    // No peer address: a server datagram has no destination.
    let errors = p.write(bytes_msg(b"nowhere"));
    assert!(errors.is_empty());
    assert!(p.poll_outbound().is_none());

    let mut peer_ctx = ctx();
    peer_ctx.peer_addr = Some(addr(9000));
    p.write(Msg::Bytes(TaggedBytesMut::new(peer_ctx, b"there".to_vec())));
    let sent = p.poll_outbound().expect("routed datagram queued");
    assert_eq!(sent.message, b"there".to_vec());
}

#[test]
fn test_invalid_utf8_is_reported_not_delivered() {
    let mut p = Pipeline::new(MsgKind::Bytes, MsgKind::Text);
    p.add_back(Handler::StringCodec(TaggedStringCodec::new())).unwrap();
    p.add_back(Handler::Tap(TapHandler::new(MsgKind::Text))).unwrap();
    p.finalize().unwrap();
    p.transport_active();

    let (delivered, errors) = p.read(bytes_msg(&[0xff, 0xfe, 0x61]));
    assert!(delivered.is_empty());
    assert_eq!(errors, vec![PipelineError::InvalidUtf8]);
    assert!(tap_inbound(&p, 1).reads.is_empty());

    // The pipeline stays usable for the next, valid buffer.
    let (delivered, errors) = p.read(bytes_msg("héllo".as_bytes()));
    assert!(errors.is_empty());
    assert_eq!(delivered.len(), 1);
    match &delivered[0] {
        Msg::Text(ts) => assert_eq!(ts.message, "héllo"),
        other => panic!("expected text, got {:?}", other),
    }
}

#[test]
fn test_string_codec_round_trip() {
    let text = String::from("grüße, world");
    let encoded = retty::string_codec::encode_utf8_frame(&text);
    let decoded = retty::string_codec::decode_utf8_frame(encoded).expect("valid again");
    assert_eq!(decoded, text);
}

#[test]
fn test_read_exception_reaches_every_stage() {
    let mut p = Pipeline::new(MsgKind::Bytes, MsgKind::Bytes);
    p.add_back(Handler::Tap(TapHandler::new(MsgKind::Bytes))).unwrap();
    p.add_back(Handler::Tap(TapHandler::new(MsgKind::Bytes))).unwrap();
    p.finalize().unwrap();
    p.transport_active();
    p.read_exception(PipelineError::Io);
    assert_eq!(tap_inbound(&p, 0).exceptions, vec![PipelineError::Io]);
    assert_eq!(tap_inbound(&p, 1).exceptions, vec![PipelineError::Io]);
}
