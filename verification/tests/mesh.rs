use dersp::crypto::PublicKey;
use dersp::frame::{decode_frame, encode_frame, Frame};
use dersp::mesh::{mesh_key_matches, MeshAction, MeshSession};
use dersp::registry::{ForwardOutcome, Registry};

fn key(fill: u8) -> PublicKey {
    PublicKey { bytes: vec![fill; 32] }
}

#[test]
fn mesh_keys_must_match_exactly() {
    let mine = Some(b"sekrit".to_vec());
    assert!(mesh_key_matches(&Some(b"sekrit".to_vec()), &mine));
    assert!(!mesh_key_matches(&Some(b"Sekrit".to_vec()), &mine));
    assert!(!mesh_key_matches(&Some(b"sekrit!".to_vec()), &mine));
    assert!(!mesh_key_matches(&None, &mine));
    // A node without a configured key trusts nobody.
    assert!(!mesh_key_matches(&Some(b"sekrit".to_vec()), &None));
    assert!(!mesh_key_matches(&None, &None));
}

#[test]
fn session_tracks_remote_presence() {
    let mut s = MeshSession::new();
    assert!(matches!(
        s.on_peer_frame(Frame::PeerPresent { public_key: key(1), online: true }),
        MeshAction::Noted
    ));
    assert_eq!(s.peer_keys.len(), 1);
    // Seeing the same key again adds nothing.
    s.on_peer_frame(Frame::PeerPresent { public_key: key(1), online: true });
    assert_eq!(s.peer_keys.len(), 1);
    s.on_peer_frame(Frame::PeerPresent { public_key: key(2), online: true });
    assert_eq!(s.peer_keys.len(), 2);
    s.on_peer_frame(Frame::PeerPresent { public_key: key(1), online: false });
    assert_eq!(s.peer_keys.len(), 1);
    assert_eq!(s.peer_keys[0].bytes, vec![2u8; 32]);
    // Going offline twice is harmless.
    s.on_peer_frame(Frame::PeerPresent { public_key: key(1), online: false });
    assert_eq!(s.peer_keys.len(), 1);
}

#[test]
fn session_routes_only_keys_living_on_the_peer() {
    let mut s = MeshSession::new();
    s.on_peer_frame(Frame::PeerPresent { public_key: key(1), online: true });
    assert!(s.route_local_packet(&key(9), &b"x".to_vec()).is_none());
    match s.route_local_packet(&key(1), &b"x".to_vec()) {
        Some(Frame::ForwardPacket { dst, payload }) => {
            assert_eq!(dst.bytes, vec![1u8; 32]);
            assert_eq!(payload, b"x".to_vec());
        }
        _ => panic!("expected a forward-packet frame"),
    }
}

#[test]
fn session_hands_peer_packets_to_local_delivery() {
    let mut s = MeshSession::new();
    match s.on_peer_frame(Frame::ForwardPacket { dst: key(3), payload: b"pkt".to_vec() }) {
        MeshAction::Deliver { dst, payload } => {
            assert_eq!(dst.bytes, vec![3u8; 32]);
            assert_eq!(payload, b"pkt".to_vec());
        }
        _ => panic!("expected a delivery"),
    }
    assert!(matches!(s.on_peer_frame(Frame::ServerInfo), MeshAction::Ignore));
}

/// Two relay nodes mesh: a client on node A reaches a client registered only
/// on node B, and A's watch subscription saw that client's presence first.
#[test]
fn packet_crosses_the_mesh_link() {
    // Node B: the destination client lives here; node A's inbound mesh
    // session is watcher 1.
    let mut reg_b = Registry::new();
    assert!(reg_b.watch(1));
    let client_b = key(9);
    reg_b.register(&client_b, 90);

    // B streams the presence event over the mesh link; A applies it.
    let mut session_a = MeshSession::new();
    let mut presence_seen: usize = 0;
    for ev in reg_b.take_events(1).unwrap() {
        let wire = encode_frame(&Frame::PeerPresent { public_key: ev.key, online: ev.online });
        let frame = decode_frame(&wire).unwrap();
        assert!(matches!(session_a.on_peer_frame(frame), MeshAction::Noted));
        presence_seen += 1;
    }
    assert_eq!(presence_seen, 1);

    // Node A: a local client addresses the B-side client. The local
    // registry does not know the key; the mesh session does.
    let mut reg_a = Registry::new();
    let client_a = key(4);
    reg_a.register(&client_a, 40);
    let payload = b"across the mesh".to_vec();
    assert_eq!(
        reg_a.forward(&client_a, &client_b, &payload),
        ForwardOutcome::DroppedUnknownDest
    );
    let outward = session_a.route_local_packet(&client_b, &payload).unwrap();
    let wire = encode_frame(&outward);

    // Node B receives the frame on its inbound mesh connection and routes it
    // into its own registry.
    match decode_frame(&wire).unwrap() {
        Frame::ForwardPacket { dst, payload: p } => {
            assert_eq!(reg_b.forward(&key(0), &dst, &p), ForwardOutcome::Delivered);
        }
        _ => panic!("expected a forward-packet frame"),
    }
    assert_eq!(reg_b.take_outbound(&client_b), Some(vec![payload]));
}
