use retty::executor::{new, TokioLocalExecutor};
use retty::outbound::OutboundTx;
use retty::transport::{SockAddr, TaggedBytesMut, TransportContext};

#[test]
fn test_executor_handle_name() {
    let e: TokioLocalExecutor = new();
    assert_eq!(e.name(), "retty-tokio-local-executor");
    let other = e.clone();
    assert_eq!(other.name(), "retty-tokio-local-executor");
}

#[test]
fn test_transport_context_defaults() {
    let local = SockAddr { ip: 0x7f000001, port: 5000 };
    let ctx = TransportContext::new(local);
    assert_eq!(ctx.local_addr, local);
    assert_eq!(ctx.peer_addr, None);
    assert_eq!(ctx.ecn, None);
    assert_eq!(ctx.now, 0);
}

#[test]
fn test_outbound_queue_is_fifo() {
    let local = SockAddr { ip: 0x7f000001, port: 5000 };
    let ctx = TransportContext::new(local);
    let mut tx = OutboundTx::new();
    assert_eq!(tx.len(), 0);
    assert!(tx.recv().is_none());
    tx.send(TaggedBytesMut::new(ctx, b"first".to_vec()));
    tx.send(TaggedBytesMut::new(ctx, b"second".to_vec()));
    tx.send(TaggedBytesMut::new(ctx, b"third".to_vec()));
    assert_eq!(tx.len(), 3);
    assert_eq!(tx.recv().unwrap().message, b"first".to_vec());
    assert_eq!(tx.recv().unwrap().message, b"second".to_vec());
    let rest = tx.drain();
    assert_eq!(rest.len(), 1);
    assert_eq!(rest[0].message, b"third".to_vec());
    assert_eq!(tx.len(), 0);
}
