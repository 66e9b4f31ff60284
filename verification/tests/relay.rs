//! End-to-end relay scenario over the model: two clients complete the
//! handshake against one server, both are registered, and a packet sent by
//! one reaches exactly the other, byte for byte.

use dersp::crypto::generate_keypair;
use dersp::frame::{decode_frame, encode_frame, Frame};
use dersp::handshake::{build_client_info, parse_server_key, HandshakePhase, ServerHandshake};
use dersp::reader::FrameReader;
use dersp::registry::{ForwardOutcome, Registry};

#[test]
fn client_to_client_relay() {
    let (server_pk, server_sk) = generate_keypair();
    let mut registry = Registry::new();

    // Both clients connect, upgrade, and authenticate with an empty mesh key.
    let mut client_keys = Vec::new();
    for conn_id in [101u64, 102] {
        let (_, client_sk) = generate_keypair();
        let mut hs = ServerHandshake::new();
        let resp = hs
            .on_upgrade(b"GET /derp HTTP/1.1\r\nHost: relay\r\n\r\n", &server_pk)
            .unwrap();

        // The client reads the ServerKey frame that follows the blank line.
        let head_end = resp.windows(4).position(|w| w == b"\r\n\r\n").unwrap() + 4;
        let mut rd = FrameReader::new();
        rd.feed(&resp[head_end..]);
        let sk_frame = rd.next_frame().unwrap().unwrap();
        let announced = parse_server_key(&sk_frame).unwrap();
        assert_eq!(announced.bytes, server_pk.bytes);

        let ci = build_client_info(&client_sk, &announced, &Vec::new());
        let wire = encode_frame(&ci);
        let parsed = decode_frame(&wire).unwrap();
        let (key, meshkey) = hs.on_client_info(&parsed, &server_sk).unwrap();
        assert_eq!(hs.phase, HandshakePhase::Authenticated);
        assert_eq!(meshkey, None);

        // The server registers the authenticated key.
        assert_eq!(registry.register(&key, conn_id), None);
        client_keys.push(key);
    }

    // The second client addresses the first by key.
    let wire = encode_frame(&Frame::ForwardPacket {
        dst: client_keys[0].clone_key(),
        payload: b"hello".to_vec(),
    });
    match decode_frame(&wire).unwrap() {
        Frame::ForwardPacket { dst, payload } => {
            assert_eq!(
                registry.forward(&client_keys[1], &dst, &payload),
                ForwardOutcome::Delivered
            );
        }
        _ => panic!("expected a forward-packet frame"),
    }

    // Exactly the first client's outbound stream holds the payload.
    assert_eq!(
        registry.take_outbound(&client_keys[0]),
        Some(vec![b"hello".to_vec()])
    );
    assert_eq!(registry.take_outbound(&client_keys[1]), Some(vec![]));
}
