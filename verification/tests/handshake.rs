use dersp::crypto::{generate_keypair, open, public_key_of, seal, PublicKey, SecretKey};
use dersp::frame::{decode_frame, encode_frame, Frame};
use dersp::handshake::{
    build_client_info, check_server_info, encode_client_payload, parse_server_key,
    process_client_info, HandshakeError, HandshakePhase, ServerHandshake,
};
use dersp::http::{process_upgrade, validate_headers, HeaderPair, UpgradeError};
use dersp::reader::FrameReader;

fn upgrade_request(extra_headers: &str) -> Vec<u8> {
    format!("GET /derp HTTP/1.1\r\nHost: relay\r\n{extra_headers}\r\n").into_bytes()
}

#[test]
fn seal_open_round_trip() {
    let (pk_a, sk_a) = generate_keypair();
    let (pk_b, sk_b) = generate_keypair();
    let m = b"attack at dawn".to_vec();
    let (nonce, ct) = seal(&m, &sk_a, &pk_b);
    assert_eq!(nonce.len(), 24);
    assert_eq!(ct.len(), m.len() + 16);
    assert_eq!(open(&nonce, &ct, &sk_b, &pk_a), Some(m));
}

#[test]
fn open_fails_closed_on_any_tampering() {
    let (pk_a, sk_a) = generate_keypair();
    let (pk_b, sk_b) = generate_keypair();
    let (pk_c, sk_c) = generate_keypair();
    let m = b"attack at dawn".to_vec();
    let (nonce, ct) = seal(&m, &sk_a, &pk_b);

    for i in 0..ct.len() {
        let mut bad = ct.clone();
        bad[i] ^= 1;
        assert_eq!(open(&nonce, &bad, &sk_b, &pk_a), None);
    }
    let mut bad_nonce = nonce.clone();
    bad_nonce[0] ^= 1;
    assert_eq!(open(&bad_nonce, &ct, &sk_b, &pk_a), None);
    // Wrong recipient key and wrong claimed sender both fail.
    assert_eq!(open(&nonce, &ct, &sk_c, &pk_a), None);
    assert_eq!(open(&nonce, &ct, &sk_b, &pk_c), None);
}

#[test]
fn upgrade_accepts_valid_headers() {
    let (pk_s, _sk_s) = generate_keypair();
    let req = upgrade_request("Upgrade: DERP\r\nConnection: Upgrade\r\n");
    let resp = process_upgrade(&req, &pk_s).unwrap();
    let text = String::from_utf8_lossy(&resp).into_owned();
    assert!(text.starts_with("HTTP/1.1 101 Switching Protocols\r\n"));
    assert!(text.contains("Upgrade: DERP\r\n"));
    assert!(text.contains("Connection: Upgrade\r\n"));
    assert!(text.contains("Derp-Version: 2\r\n"));
    let hex: String = pk_s.bytes.iter().map(|b| format!("{b:02x}")).collect();
    assert!(text.contains(&format!("Derp-Public-Key: {hex}\r\n")));
}

#[test]
fn upgrade_accepts_websocket_case_insensitively() {
    let (pk_s, _sk_s) = generate_keypair();
    let req = upgrade_request("Upgrade: WebSocket\r\nConnection: UPGRADE\r\n");
    assert!(process_upgrade(&req, &pk_s).is_ok());
}

#[test]
fn upgrade_rejects_connection_close() {
    let (pk_s, _sk_s) = generate_keypair();
    let req = upgrade_request("Upgrade: derp\r\nConnection: close\r\n");
    assert_eq!(process_upgrade(&req, &pk_s).unwrap_err(), UpgradeError::BadHeaders);
}

#[test]
fn upgrade_accepts_absent_headers() {
    // Headers are validated only when present.
    let (pk_s, _sk_s) = generate_keypair();
    let req = upgrade_request("");
    assert!(process_upgrade(&req, &pk_s).is_ok());
}

#[test]
fn upgrade_rejects_bad_upgrade_value() {
    let (pk_s, _sk_s) = generate_keypair();
    let req = upgrade_request("Upgrade: h2c\r\nConnection: Upgrade\r\n");
    assert_eq!(process_upgrade(&req, &pk_s).unwrap_err(), UpgradeError::BadHeaders);
}

#[test]
fn upgrade_rejects_empty_oversized_and_malformed() {
    let (pk_s, _sk_s) = generate_keypair();
    assert_eq!(process_upgrade(&[], &pk_s).unwrap_err(), UpgradeError::EmptyMessage);
    let huge = vec![b'a'; 4096];
    assert_eq!(process_upgrade(&huge, &pk_s).unwrap_err(), UpgradeError::MessageTooBig);
    assert_eq!(
        process_upgrade(b"not an http request at all\r\n\r\n", &pk_s).unwrap_err(),
        UpgradeError::BadRequest
    );
    // Incomplete request head: no terminating blank line.
    assert_eq!(
        process_upgrade(b"GET / HTTP/1.1\r\nHost: x\r\n", &pk_s).unwrap_err(),
        UpgradeError::BadRequest
    );
}

#[test]
fn validate_headers_checks_only_named_headers() {
    let ok = vec![HeaderPair { name: b"X-Anything".to_vec(), value: b"close".to_vec() }];
    assert!(validate_headers(&ok));
    let bad = vec![HeaderPair { name: b"Connection".to_vec(), value: b"close".to_vec() }];
    assert!(!validate_headers(&bad));
}

#[test]
fn client_info_round_trip_plain_client() {
    let (pk_s, sk_s) = generate_keypair();
    let (pk_c, sk_c) = generate_keypair();
    let f = build_client_info(&sk_c, &pk_s, &Vec::new());
    let wire = encode_frame(&f);
    let parsed = decode_frame(&wire).unwrap();
    let (pk, meshkey) = process_client_info(&parsed, &sk_s).unwrap();
    assert_eq!(pk.bytes, pk_c.bytes);
    assert_eq!(meshkey, None);
}

#[test]
fn client_info_round_trip_mesh_peer() {
    let (pk_s, sk_s) = generate_keypair();
    let (_pk_c, sk_c) = generate_keypair();
    let f = build_client_info(&sk_c, &pk_s, &b"sekrit".to_vec());
    let (_, meshkey) = process_client_info(&f, &sk_s).unwrap();
    assert_eq!(meshkey, Some(b"sekrit".to_vec()));
}

#[test]
fn client_info_rejects_wrong_version() {
    let (pk_s, sk_s) = generate_keypair();
    let (_pk_c, sk_c) = generate_keypair();
    let plain = encode_client_payload(99, &Vec::new());
    let (nonce, ciphertext) = seal(&plain, &sk_c, &pk_s);
    let f = Frame::ClientInfo { public_key: public_key_of(&sk_c), nonce, ciphertext };
    assert_eq!(process_client_info(&f, &sk_s).unwrap_err(), HandshakeError::BadVersion);
}

#[test]
fn client_info_rejects_wrong_key_and_wrong_frame() {
    let (pk_s, _sk_s) = generate_keypair();
    let (_, sk_other) = generate_keypair();
    let (_pk_c, sk_c) = generate_keypair();
    let f = build_client_info(&sk_c, &pk_s, &Vec::new());
    // Decrypting with a key other than the server's fails closed.
    assert_eq!(process_client_info(&f, &sk_other).unwrap_err(), HandshakeError::DecryptFailed);
    assert_eq!(
        process_client_info(&Frame::WatchConns, &sk_other).unwrap_err(),
        HandshakeError::UnexpectedFrame
    );
}

#[test]
fn full_server_side_handshake() {
    let (pk_s, sk_s) = generate_keypair();
    let (pk_c, sk_c) = generate_keypair();

    let mut hs = ServerHandshake::new();
    assert_eq!(hs.phase, HandshakePhase::AwaitingUpgrade);

    let req = upgrade_request("Upgrade: derp\r\nConnection: upgrade\r\n");
    let resp = hs.on_upgrade(&req, &pk_s).unwrap();
    assert_eq!(hs.phase, HandshakePhase::AwaitingClientInfo);

    // The client finds the ServerKey frame right after the blank line.
    let head_end = resp.windows(4).position(|w| w == b"\r\n\r\n").unwrap() + 4;
    let mut rd = FrameReader::new();
    rd.feed(&resp[head_end..]);
    let sk_frame = rd.next_frame().unwrap().unwrap();
    let server_key = parse_server_key(&sk_frame).unwrap();
    assert_eq!(server_key.bytes, pk_s.bytes);

    // The client answers with its sealed info; the server authenticates it.
    let ci = build_client_info(&sk_c, &server_key, &Vec::new());
    let wire = encode_frame(&ci);
    let parsed = decode_frame(&wire).unwrap();
    let (pk, meshkey) = hs.on_client_info(&parsed, &sk_s).unwrap();
    assert_eq!(hs.phase, HandshakePhase::Authenticated);
    assert_eq!(pk.bytes, pk_c.bytes);
    assert_eq!(meshkey, None);

    // The server acknowledges; the client checks the acknowledgment.
    let ack = encode_frame(&Frame::ServerInfo);
    let got = decode_frame(&ack).unwrap();
    assert!(check_server_info(&got));
    assert!(!check_server_info(&sk_frame));
}

#[test]
fn handshake_closes_on_bad_upgrade() {
    let (pk_s, _sk_s) = generate_keypair();
    let mut hs = ServerHandshake::new();
    let req = upgrade_request("Connection: close\r\n");
    assert!(hs.on_upgrade(&req, &pk_s).is_err());
    assert_eq!(hs.phase, HandshakePhase::Closed);
}

#[test]
fn secret_keys_are_not_printable() {
    // SecretKey offers no rendering; only its public counterpart is shown
    // (hex) in the upgrade response. This pins the type surface.
    let sk = SecretKey { bytes: vec![1u8; 32] };
    let pk: PublicKey = public_key_of(&sk);
    assert_eq!(pk.bytes.len(), 32);
}
