use retty::bootstrap::{loop_step, next_delay, LoopAction, LoopEvent, MAX_DURATION_IN_SECS};
use retty::handler::{Handler, InboundStage, TapHandler};
use retty::message::{MsgKind, PipelineError};
use retty::pipeline::Pipeline;
use retty::transport::{SockAddr, TaggedBytesMut, TransportContext};

fn addr(port: u16) -> SockAddr {
    SockAddr { ip: 0x7f000001, port }
}

fn tap_pipeline(deadline: Option<u64>) -> Pipeline {
    let mut p = Pipeline::new(MsgKind::Bytes, MsgKind::Bytes);
    let tap = match deadline {
        Some(d) => TapHandler::new(MsgKind::Bytes).with_deadline(d),
        None => TapHandler::new(MsgKind::Bytes),
    };
    p.add_back(Handler::Tap(tap)).unwrap();
    p.finalize().unwrap();
    p.transport_active();
    p
}

fn the_tap(p: &Pipeline) -> &retty::handler::TapInbound {
    match p.inbound_stage(0) {
        InboundStage::Tap(t) => t,
        _ => panic!("stage 0 is not a tap"),
    }
}

#[test]
fn test_close_signal_breaks_immediately() {
    let mut p = tap_pipeline(None);
    let act = loop_step(&mut p, addr(1), LoopEvent::CloseSignal);
    assert!(matches!(act, LoopAction::Break));
    assert!(the_tap(&p).reads.is_empty());
}

#[test]
fn test_timer_expiry_fires_wakeups_and_continues() {
    let mut p = tap_pipeline(Some(30));
    let act = loop_step(&mut p, addr(1), LoopEvent::TimerExpired { now: 31 });
    assert!(matches!(act, LoopAction::Continue));
    assert_eq!(the_tap(&p).timeouts, vec![31]);
}

#[test]
fn test_outbound_frame_goes_to_socket() {
    let mut p = tap_pipeline(None);
    let transport = TransportContext::new(addr(1));
    let tb = TaggedBytesMut::new(transport, b"payload".to_vec());
    let act = loop_step(&mut p, addr(1), LoopEvent::OutboundFrame { frame: Some(tb) });
    match act {
        LoopAction::Send { frame } => assert_eq!(frame.message, b"payload".to_vec()),
        _ => panic!("expected a send"),
    }
}

#[test]
fn test_closed_channel_breaks() {
    let mut p = tap_pipeline(None);
    let act = loop_step(&mut p, addr(1), LoopEvent::OutboundFrame { frame: None });
    assert!(matches!(act, LoopAction::Break));
}

#[test]
fn test_socket_read_enters_pipeline() {
    let mut p = tap_pipeline(None);
    let act = loop_step(
        &mut p,
        addr(1),
        LoopEvent::SocketRead { peer: Some(addr(9000)), now: 5, data: b"abc".to_vec() },
    );
    assert!(matches!(act, LoopAction::Continue));
    let tap = the_tap(&p);
    assert_eq!(tap.reads.len(), 1);
}

#[test]
fn test_empty_read_is_eof_and_breaks() {
    let mut p = tap_pipeline(None);
    let act = loop_step(
        &mut p,
        addr(1),
        LoopEvent::SocketRead { peer: None, now: 5, data: Vec::new() },
    );
    assert!(matches!(act, LoopAction::Break));
    assert!(the_tap(&p).saw_eof);
}

#[test]
fn test_socket_error_is_surfaced_then_breaks() {
    let mut p = tap_pipeline(None);
    let act = loop_step(&mut p, addr(1), LoopEvent::SocketError);
    assert!(matches!(act, LoopAction::Break));
    assert_eq!(the_tap(&p).exceptions, vec![PipelineError::Io]);
}

#[test]
fn test_next_delay_uses_earliest_deadline() {
    let mut p = tap_pipeline(Some(30));
    let delay = next_delay(&mut p, 10, MAX_DURATION_IN_SECS);
    assert_eq!(delay, 20);

    // A deadline already in the past asks for an immediate wakeup.
    let delay = next_delay(&mut p, 40, MAX_DURATION_IN_SECS);
    assert_eq!(delay, 0);
}

#[test]
fn test_next_delay_without_deadlines_is_the_horizon() {
    let mut p = tap_pipeline(None);
    let delay = next_delay(&mut p, 7, MAX_DURATION_IN_SECS);
    assert_eq!(delay, MAX_DURATION_IN_SECS);
}
