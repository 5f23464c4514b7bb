use ed25519_dalek::{Signer, SigningKey};
use relay_hub::client_conn::{CloseReason, ErrorKind, ReadStep};
use relay_hub::dispatcher::{Dispatcher, WRITE_TIMEOUT_MICROS};
use relay_hub::frame::{Frame, FrameError, PROTOCOL_VERSION};
use relay_hub::handshake::{
    accept, accept_client, first_frame, first_message, handshake_timed_out, recv_client_key,
    server_key_frame, signed_bytes, AcceptConfig, ClientInfo, FirstFrame, HandshakeError,
    Verdicts, HANDSHAKE_TIMEOUT_MICROS,
};
use relay_hub::key_cache::{KeyCache, KeyError};
use relay_hub::rate_limit::ClientConnRateLimit;
use relay_hub::signature::{get_or_verify, verify_client};
use sha2::{Digest, Sha256};

fn hello(n: u8) -> Frame {
    Frame::ClientInfo {
        client_public_key: [n; 32],
        signature: [0x5a; 64],
        message: b"{\"version\":3}".to_vec(),
    }
}

fn good(version: u32) -> Verdicts {
    Verdicts { key_is_valid: true, signature_verifies: true, info: Some(ClientInfo { version }) }
}

fn settings() -> AcceptConfig {
    AcceptConfig { write_timeout: WRITE_TIMEOUT_MICROS, rate_limit: None }
}

#[test]
fn good_handshake_registers_the_client() {
    let mut server = Dispatcher::new();
    let mut cache = KeyCache::new(8);
    let accepted =
        accept(&mut server, &mut cache, settings(), &hello(1), good(PROTOCOL_VERSION), 7).unwrap();
    assert_eq!(accepted.node_id.as_bytes(), [1; 32]);
    assert_eq!(accepted.info, ClientInfo { version: PROTOCOL_VERSION });
    assert_eq!(accepted.epoch, 1);
    assert!(accepted.evicted.is_none());
    assert_eq!(server.epoch_of(&[1; 32]), Some(1));
    assert!(cache.contains(&[1; 32]));
}

#[test]
fn second_handshake_for_a_key_replaces_the_first() {
    let mut server = Dispatcher::new();
    let mut cache = KeyCache::new(8);
    accept(&mut server, &mut cache, settings(), &hello(1), good(PROTOCOL_VERSION), 7).unwrap();
    let second =
        accept(&mut server, &mut cache, settings(), &hello(1), good(PROTOCOL_VERSION), 8).unwrap();
    assert_eq!(second.epoch, 2);
    let mut first = second.evicted.unwrap();
    assert!(first.is_cancelled());
    assert_eq!(first.drain_next(), Some(Frame::PeerGone { peer: [1; 32] }));
    assert_eq!(server.conns_active(), 1);
}

#[test]
fn bad_version_is_rejected_and_leaves_no_slot() {
    let mut server = Dispatcher::new();
    let mut cache = KeyCache::new(8);
    let r = accept(
        &mut server,
        &mut cache,
        settings(),
        &hello(1),
        good(PROTOCOL_VERSION - 1),
        7,
    );
    assert_eq!(r.err(), Some(HandshakeError::VersionMismatch));
    assert_eq!(server.conns_active(), 0);
    assert!(!server.contains(&[1; 32]));
    // the server keeps running
    assert!(
        accept(&mut server, &mut cache, settings(), &hello(2), good(PROTOCOL_VERSION), 8).is_ok()
    );
    assert_eq!(server.conns_active(), 1);
}

#[test]
fn bad_signature_is_rejected_and_leaves_no_slot() {
    let mut server = Dispatcher::new();
    let mut cache = KeyCache::new(8);
    let verdicts = Verdicts { signature_verifies: false, ..good(PROTOCOL_VERSION) };
    let r = accept(&mut server, &mut cache, settings(), &hello(1), verdicts, 7);
    assert_eq!(r.err(), Some(HandshakeError::BadSignature));
    assert_eq!(server.conns_active(), 0);
}

#[test]
fn bad_signature_does_not_unseat_a_connected_client() {
    let mut server = Dispatcher::new();
    let mut cache = KeyCache::new(8);
    accept(&mut server, &mut cache, settings(), &hello(1), good(PROTOCOL_VERSION), 7).unwrap();
    let verdicts = Verdicts { signature_verifies: false, ..good(PROTOCOL_VERSION) };
    assert!(accept(&mut server, &mut cache, settings(), &hello(1), verdicts, 8).is_err());
    assert_eq!(server.epoch_of(&[1; 32]), Some(1));
}

#[test]
fn each_failure_has_its_error() {
    let mut cache = KeyCache::new(8);
    assert_eq!(
        recv_client_key(&Frame::KeepAlive, &mut cache, good(3)),
        Err(HandshakeError::UnexpectedFrame)
    );
    assert_eq!(
        recv_client_key(&hello(1), &mut cache, Verdicts { key_is_valid: false, ..good(3) }),
        Err(HandshakeError::InvalidKey)
    );
    assert_eq!(
        recv_client_key(&hello(1), &mut cache, Verdicts { signature_verifies: false, ..good(3) }),
        Err(HandshakeError::BadSignature)
    );
    assert_eq!(
        recv_client_key(&hello(1), &mut cache, Verdicts { info: None, ..good(3) }),
        Err(HandshakeError::MalformedInfo)
    );
    // the key is checked before the signature
    let nothing_holds = Verdicts { key_is_valid: false, signature_verifies: false, info: None };
    assert_eq!(
        recv_client_key(&hello(2), &mut cache, nothing_holds),
        Err(HandshakeError::InvalidKey)
    );
}

#[test]
fn recv_client_key_returns_the_key_and_the_info() {
    let mut cache = KeyCache::new(8);
    let (key, info) = recv_client_key(&hello(4), &mut cache, good(17)).unwrap();
    assert_eq!(key.as_bytes(), [4; 32]);
    assert_eq!(info.version, 17);
}

#[test]
fn server_key_frame_carries_the_server_key() {
    let mut cache = KeyCache::new(1);
    let server_key = cache.get_or_insert(&[0x11; 32], true).unwrap();
    assert_eq!(server_key_frame(&server_key), Frame::ServerKey { key: [0x11; 32] });
}

#[test]
fn signed_bytes_put_the_domain_before_the_message() {
    assert_eq!(signed_bytes(b"{}"), b"iroh-relay-client-info{}".to_vec());
    assert_eq!(signed_bytes(b""), b"iroh-relay-client-info".to_vec());
}

#[test]
fn handshake_times_out_after_ten_seconds() {
    assert_eq!(HANDSHAKE_TIMEOUT_MICROS, 10_000_000);
    assert!(!handshake_timed_out(5, 5));
    assert!(!handshake_timed_out(5, 10_000_004));
    assert!(handshake_timed_out(5, 10_000_005));
    assert!(!handshake_timed_out(10, 5));
}

#[test]
fn protocol_version_is_three() {
    assert_eq!(PROTOCOL_VERSION, 3);
}

/// The frame that a client with the secret key `seed` sends, and its key.
fn signed_hello(seed: u8, message: &[u8]) -> (Frame, [u8; 32]) {
    let secret = SigningKey::from_bytes(&[seed; 32]);
    let digest = Sha256::digest(signed_bytes(message));
    let signature = secret.sign(digest.as_slice()).to_bytes();
    let key = secret.verifying_key().to_bytes();
    (Frame::ClientInfo { client_public_key: key, signature, message: message.to_vec() }, key)
}

/// Thirty-two bytes that are no point of the curve.
fn no_key() -> [u8; 32] {
    let mut bytes = [0u8; 32];
    for candidate in 2..=255u8 {
        bytes[0] = candidate;
        if get_or_verify(&mut KeyCache::new(0), &bytes).is_err() {
            return bytes;
        }
    }
    panic!("every candidate is a key");
}

#[test]
fn signature_of_the_client_is_checked_over_the_digest() {
    let (frame, _) = signed_hello(7, b"{\"version\":3}");
    let info = Some(ClientInfo { version: 3 });
    assert_eq!(
        verify_client(&frame, false, info),
        Verdicts { key_is_valid: true, signature_verifies: true, info }
    );
    // another message under the same signature
    let forged = match frame.clone() {
        Frame::ClientInfo { client_public_key, signature, .. } => {
            Frame::ClientInfo { client_public_key, signature, message: b"{\"version\":4}".to_vec() }
        }
        other => other,
    };
    assert!(!verify_client(&forged, false, info).signature_verifies);
    // the signature of another key
    let (other, _) = signed_hello(8, b"{\"version\":3}");
    let stolen = match (frame.clone(), other) {
        (Frame::ClientInfo { client_public_key, message, .. }, Frame::ClientInfo { signature, .. }) => {
            Frame::ClientInfo { client_public_key, signature, message }
        }
        (frame, _) => frame,
    };
    assert!(!verify_client(&stolen, false, info).signature_verifies);
    // a signature over the message itself, not over the digest of domain and message
    let secret = SigningKey::from_bytes(&[7; 32]);
    let plain = Frame::ClientInfo {
        client_public_key: secret.verifying_key().to_bytes(),
        signature: secret.sign(b"{\"version\":3}").to_bytes(),
        message: b"{\"version\":3}".to_vec(),
    };
    assert!(!verify_client(&plain, false, info).signature_verifies);
    // frames of other kinds have nothing to check
    assert_eq!(
        verify_client(&Frame::KeepAlive, true, None),
        Verdicts { key_is_valid: false, signature_verifies: false, info: None }
    );
}

#[test]
fn client_with_a_true_signature_is_admitted() {
    let mut server = Dispatcher::new();
    let mut cache = KeyCache::new(8);
    let (frame, key) = signed_hello(7, b"{\"version\":3}");
    let info = Some(ClientInfo { version: PROTOCOL_VERSION });
    let accepted = accept_client(&mut server, &mut cache, settings(), &frame, info, 5).unwrap();
    assert_eq!(accepted.node_id.as_bytes(), key);
    assert_eq!(server.epoch_of(&key), Some(accepted.epoch));
    assert!(cache.contains(&key));
}

#[test]
fn client_with_a_false_signature_is_rejected_and_leaves_no_slot() {
    let mut server = Dispatcher::new();
    let mut cache = KeyCache::new(8);
    let (frame, key) = signed_hello(7, b"{\"version\":3}");
    let broken = match frame {
        Frame::ClientInfo { client_public_key, mut signature, message } => {
            signature[5] ^= 1;
            Frame::ClientInfo { client_public_key, signature, message }
        }
        other => other,
    };
    let info = Some(ClientInfo { version: PROTOCOL_VERSION });
    let r = accept_client(&mut server, &mut cache, settings(), &broken, info, 5);
    assert_eq!(r.err(), Some(HandshakeError::BadSignature));
    assert!(!server.contains(&key));
    assert_eq!(server.conns_active(), 0);
    // and so is a client of another version, whatever its signature
    let (frame, key) = signed_hello(7, b"{\"version\":2}");
    let old = Some(ClientInfo { version: PROTOCOL_VERSION - 1 });
    let r = accept_client(&mut server, &mut cache, settings(), &frame, old, 5);
    assert_eq!(r.err(), Some(HandshakeError::VersionMismatch));
    assert!(!server.contains(&key));
}

#[test]
fn bytes_that_are_no_key_are_refused() {
    let mut server = Dispatcher::new();
    let mut cache = KeyCache::new(8);
    let bad = no_key();
    let frame = Frame::ClientInfo { client_public_key: bad, signature: [0; 64], message: vec![] };
    let r = accept_client(&mut server, &mut cache, settings(), &frame, None, 5);
    assert_eq!(r.err(), Some(HandshakeError::InvalidKey));
    assert_eq!(get_or_verify(&mut cache, &bad), Err(KeyError::InvalidKey));
    assert_eq!(cache.len(), 0);
}

#[test]
fn key_cache_checks_a_key_once() {
    let mut cache = KeyCache::new(8);
    let (_, key) = signed_hello(9, b"");
    assert_eq!(get_or_verify(&mut cache, &key).unwrap().as_bytes(), key);
    assert!(cache.contains(&key));
    assert_eq!(get_or_verify(&mut cache, &key).unwrap().as_bytes(), key);
    assert_eq!(cache.len(), 1);
}

#[test]
fn admitted_connection_has_the_settings_of_the_hub() {
    let mut server = Dispatcher::new();
    let mut cache = KeyCache::new(8);
    let limit = ClientConnRateLimit { bytes_per_second: 100, max_burst_bytes: 50 };
    let config = AcceptConfig { write_timeout: 1_234, rate_limit: Some(limit) };
    let accepted = accept(&mut server, &mut cache, config, &hello(1), good(3), 10).unwrap();
    let mut conn = accepted.conn;
    assert_eq!(conn.node_id().as_bytes(), [1; 32]);
    assert_eq!(conn.epoch(), accepted.epoch);
    assert_eq!(conn.write_deadline(10), 1_244);
    assert_eq!(conn.bytes_received(), 0);
    // the bucket is full with 50 bytes: a frame of 13 bytes passes three times
    let ping = Frame::Ping { data: [0; 8] }.encode().unwrap();
    for _ in 0..3 {
        assert_eq!(conn.read_step(&mut server, &ping, false, 10), ReadStep::Handled { consumed: 13 });
    }
    assert_eq!(conn.read_step(&mut server, &ping, false, 10), ReadStep::Pause { micros: 20_000 });
    // without a limit nothing is paused
    let plain = accept(&mut server, &mut cache, settings(), &hello(2), good(3), 10).unwrap();
    let mut conn = plain.conn;
    assert_eq!(conn.write_deadline(0), WRITE_TIMEOUT_MICROS);
    for _ in 0..100 {
        assert_eq!(conn.read_step(&mut server, &ping, false, 10), ReadStep::Handled { consumed: 13 });
    }
}

#[test]
fn first_frame_is_read_from_the_front_of_the_stream() {
    let hello = hello(1).encode().unwrap();
    let mut stream = hello.clone();
    stream.extend_from_slice(&[12, 0, 0]);
    assert_eq!(
        first_frame(&stream, false),
        FirstFrame::Read { frame: self::hello(1), consumed: hello.len() }
    );
    assert_eq!(first_frame(&hello[..20], false), FirstFrame::NeedMore);
    assert_eq!(first_frame(&[], false), FirstFrame::NeedMore);
    assert_eq!(first_frame(&[], true), FirstFrame::Close(CloseReason::Eof));
    assert_eq!(
        first_frame(&hello[..20], true),
        FirstFrame::Close(CloseReason::Protocol(FrameError::ShortRead))
    );
    // a header that declares 70000 bytes
    let oversize = first_frame(&[2, 0x00, 0x01, 0x11, 0x70], false);
    assert_eq!(oversize, FirstFrame::Close(CloseReason::Protocol(FrameError::FrameTooLarge)));
    assert_eq!(CloseReason::Protocol(FrameError::FrameTooLarge).kind(), ErrorKind::Protocol);
}

#[test]
fn first_message_holds_exactly_one_frame() {
    let hello = hello(1).encode().unwrap();
    assert_eq!(
        first_message(&hello),
        FirstFrame::Read { frame: self::hello(1), consumed: hello.len() }
    );
    let mut more = hello.clone();
    more.push(0);
    assert_eq!(first_message(&more), FirstFrame::Close(CloseReason::Protocol(FrameError::Malformed)));
    assert_eq!(
        first_message(&hello[..9]),
        FirstFrame::Close(CloseReason::Protocol(FrameError::ShortRead))
    );
}

#[test]
fn failed_handshakes_are_counted_as_protocol_errors() {
    for err in [
        HandshakeError::UnexpectedFrame,
        HandshakeError::InvalidKey,
        HandshakeError::BadSignature,
        HandshakeError::MalformedInfo,
        HandshakeError::VersionMismatch,
    ] {
        assert_eq!(err.kind(), ErrorKind::Protocol);
    }
    assert_eq!(HandshakeError::ServerExhausted.kind(), ErrorKind::Capacity);
}
