use retty::async_transport::AsyncTransportUdp;
use retty::frame::{LineBasedFrameDecoder, TaggedByteToMessageCodec, TerminatorType};
use retty::handler::{Handler, InboundStage, TapHandler};
use retty::message::{Msg, MsgKind};
use retty::outbound::OutboundTx;
use retty::pipeline::Pipeline;
use retty::string_codec::{TaggedString, TaggedStringCodec};
use retty::transport::{SockAddr, TaggedBytesMut, TransportContext};

fn addr(port: u16) -> SockAddr {
    SockAddr { ip: 0x7f000001, port }
}

/// The standard line pipeline: transport, line framer capped at 8 192,
/// string codec, and a text tap standing for the application handler.
fn line_pipeline(local: SockAddr, is_server: bool) -> Pipeline {
    let mut p = Pipeline::new(MsgKind::Bytes, MsgKind::Text);
    let _ = local;
    p.add_back(Handler::TransportUdp(AsyncTransportUdp::new(OutboundTx::new(), is_server)))
        .unwrap();
    p.add_back(Handler::ByteCodec(TaggedByteToMessageCodec::new(LineBasedFrameDecoder::new(
        8192,
        true,
        TerminatorType::Both,
    ))))
    .unwrap();
    p.add_back(Handler::StringCodec(TaggedStringCodec::new())).unwrap();
    p.add_back(Handler::Tap(TapHandler::new(MsgKind::Text))).unwrap();
    p.finalize().unwrap();
    p.transport_active();
    p
}

fn tap_read_count(p: &Pipeline) -> usize {
    match p.inbound_stage(3) {
        InboundStage::Tap(t) => t.reads.len(),
        _ => panic!("stage 3 is not a tap"),
    }
}

#[test]
fn test_echo_udp() {
    const ITER: usize = 1024;

    let server_addr = addr(8080);
    let client_addr = addr(54321);
    let mut server = line_pipeline(server_addr, true);
    let mut client = line_pipeline(client_addr, false);

    let mut server_done = false;
    let mut client_done = false;

    let mut outgoing: Vec<String> = Vec::new();
    for _ in 0..ITER {
        outgoing.push(format!("hello world\r\n"));
    }
    outgoing.push(format!("bye\r\n"));

    for text in outgoing {
        // The client writes one message; its pipeline frames it onto the
        // outbound channel.
        let transport = TransportContext {
            local_addr: client_addr,
            peer_addr: Some(server_addr),
            ecn: None,
            now: 0,
        };
        let errors = client.write(Msg::Text(TaggedString::new(transport, text)));
        assert!(errors.is_empty());
        let datagram = client.poll_outbound().expect("client queued one datagram");

        // The server reads the datagram; the echo handler answers every
        // line back to its sender and signals on the sentinel.
        let transport = TransportContext {
            local_addr: server_addr,
            peer_addr: Some(client_addr),
            ecn: None,
            now: 0,
        };
        let (delivered, errors) =
            server.read(Msg::Bytes(TaggedBytesMut::new(transport, datagram.message)));
        assert!(errors.is_empty());
        for msg in delivered {
            let ts = match msg {
                Msg::Text(ts) => ts,
                other => panic!("server delivered non-text: {:?}", other),
            };
            let echo = TaggedString::new(ts.transport, format!("{}\r\n", ts.message));
            let errors = server.write(Msg::Text(echo));
            assert!(errors.is_empty());
            if ts.message == "bye" {
                server_done = true;
            }
        }

        // The echoed datagram travels back into the client pipeline.
        while let Some(reply) = server.poll_outbound() {
            let transport = TransportContext {
                local_addr: client_addr,
                peer_addr: Some(server_addr),
                ecn: None,
                now: 0,
            };
            let (delivered, errors) =
                client.read(Msg::Bytes(TaggedBytesMut::new(transport, reply.message)));
            assert!(errors.is_empty());
            for msg in delivered {
                match msg {
                    Msg::Text(ts) => {
                        if ts.message == "bye" {
                            client_done = true;
                        }
                    }
                    other => panic!("client delivered non-text: {:?}", other),
                }
            }
        }
    }

    assert!(server_done);
    assert!(client_done);
    let client_count = tap_read_count(&client);
    let server_count = tap_read_count(&server);
    assert_eq!(client_count, server_count);
    assert_eq!(ITER + 1, client_count);
}

#[test]
fn test_tcp_chat_broadcast() {
    let server_addr = addr(8080);
    let peers = [addr(50001), addr(50002), addr(50003)];

    // One pipeline per accepted connection, keyed by peer address, as the
    // chat server's shared peer table holds them.
    let mut table: Vec<(SockAddr, Pipeline)> = Vec::new();
    for peer in peers {
        table.push((peer, line_pipeline(server_addr, false)));
    }

    // Peer A sends one line; its connection's pipeline decodes it.
    let transport = TransportContext {
        local_addr: server_addr,
        peer_addr: Some(peers[0]),
        ecn: None,
        now: 0,
    };
    let (delivered, errors) =
        table[0].1.read(Msg::Bytes(TaggedBytesMut::new(transport, b"hi\r\n".to_vec())));
    assert!(errors.is_empty());
    assert_eq!(delivered.len(), 1);
    let received = match &delivered[0] {
        Msg::Text(ts) => ts.clone(),
        other => panic!("expected text, got {:?}", other),
    };
    assert_eq!(received.message, "hi");
    let sender = received.transport.peer_addr.unwrap();

    // The chat handler broadcasts to every peer except the sender.
    for (peer, pipeline) in table.iter_mut() {
        if *peer != sender {
            let transport = TransportContext {
                local_addr: server_addr,
                peer_addr: Some(*peer),
                ecn: None,
                now: 0,
            };
            let msg = TaggedString::new(transport, format!("{}\r\n", received.message));
            let errors = pipeline.write(Msg::Text(msg));
            assert!(errors.is_empty());
        }
    }

    // B and C each receive exactly one framed line; A receives none.
    let sent_a = table[0].1.drain_outbound();
    assert!(sent_a.is_empty());
    for i in [1, 2] {
        let sent = table[i].1.drain_outbound();
        assert_eq!(sent.len(), 1);
        assert_eq!(sent[0].message, b"hi\r\n".to_vec());
        assert_eq!(sent[0].transport.peer_addr, Some(peers[i]));
    }
}
