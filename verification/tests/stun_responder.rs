use relay_hub::net::{IpAddress, SocketAddress};
use relay_hub::stun::{
    handle_datagram, is_stun, parse_binding_request, parse_response, response, StunError,
    StunOutcome,
};

const TXID: [u8; 12] = [0xa1, 0xb2, 0xc3, 0xd4, 0xe5, 0xf6, 0x07, 0x18, 0x29, 0x3a, 0x4b, 0x5c];

fn binding_request(txid: [u8; 12]) -> Vec<u8> {
    let mut b = vec![0x00, 0x01, 0x00, 0x00, 0x21, 0x12, 0xa4, 0x42];
    b.extend_from_slice(&txid);
    b
}

#[test]
fn binding_request_is_answered_with_the_senders_address() {
    let from = SocketAddress::new(IpAddress::V4([203, 0, 113, 5]), 41234);
    match handle_datagram(&binding_request(TXID), from) {
        StunOutcome::Reply(bytes) => assert_eq!(parse_response(&bytes), Ok((TXID, from))),
        other => panic!("no reply: {:?}", other),
    }
}

#[test]
fn response_to_an_ipv4_sender_has_the_documented_bytes() {
    let from = SocketAddress::new(IpAddress::V4([203, 0, 113, 5]), 41234);
    let bytes = response(TXID, from);
    let mut expected = vec![0x01, 0x01, 0x00, 0x0c, 0x21, 0x12, 0xa4, 0x42];
    expected.extend_from_slice(&TXID);
    // attribute 0x0020, eight bytes: zero, family 1, port and address hidden
    expected.extend_from_slice(&[0x00, 0x20, 0x00, 0x08, 0x00, 0x01]);
    // 41234 = 0xa112; 0xa112 ^ 0x2112 = 0x8000
    expected.extend_from_slice(&[0x80, 0x00]);
    expected.extend_from_slice(&[203 ^ 0x21, 0 ^ 0x12, 113 ^ 0xa4, 5 ^ 0x42]);
    assert_eq!(bytes, expected);
}

#[test]
fn response_to_an_ipv6_sender_decodes_to_the_sender() {
    let ip = [0x20, 0x01, 0x0d, 0xb8, 0, 0, 0, 0, 0, 0, 0, 0, 0, 0, 0, 0x01];
    let from = SocketAddress::new(IpAddress::V6(ip), 3478);
    let bytes = response(TXID, from);
    assert_eq!(bytes.len(), 44);
    assert_eq!(&bytes[..4], &[0x01, 0x01, 0x00, 0x18]);
    assert_eq!(&bytes[20..26], &[0x00, 0x20, 0x00, 0x14, 0x00, 0x02]);
    // the address meets the cookie and then the transaction id
    assert_eq!(bytes[28], 0x20 ^ 0x21);
    assert_eq!(bytes[32], 0x00 ^ TXID[0]);
    assert_eq!(bytes[43], 0x01 ^ TXID[11]);
    assert_eq!(parse_response(&bytes), Ok((TXID, from)));
}

#[test]
fn every_port_and_transaction_id_comes_back() {
    for port in [0u16, 1, 255, 256, 0x2112, 41234, 65535] {
        for seed in [0u8, 1, 0x21, 0xff] {
            let txid = [seed; 12];
            let v4 = SocketAddress::new(IpAddress::V4([seed, 0, 255, seed]), port);
            assert_eq!(parse_response(&response(txid, v4)), Ok((txid, v4)));
            let v6 = SocketAddress::new(IpAddress::V6([seed ^ 0x5a; 16]), port);
            assert_eq!(parse_response(&response(txid, v6)), Ok((txid, v6)));
        }
    }
}

#[test]
fn datagrams_that_are_no_stun_are_ignored() {
    let from = SocketAddress::new(IpAddress::V4([10, 0, 0, 1]), 9);
    assert!(!is_stun(&[]));
    assert!(!is_stun(&[0u8; 19]));
    assert_eq!(handle_datagram(&[0u8; 19], from), StunOutcome::Ignored);
    // wrong cookie
    let mut b = binding_request(TXID);
    b[7] = 0x43;
    assert!(!is_stun(&b));
    assert_eq!(handle_datagram(&b, from), StunOutcome::Ignored);
    assert_eq!(parse_binding_request(&b), Err(StunError::NotStun));
    // top bits set
    let mut b = binding_request(TXID);
    b[0] = 0x40;
    assert!(!is_stun(&b));
    assert_eq!(parse_binding_request(&b), Err(StunError::NotStun));
}

#[test]
fn stun_messages_that_are_no_binding_request_get_no_answer() {
    let from = SocketAddress::new(IpAddress::V4([10, 0, 0, 1]), 9);
    // a binding success response
    let mut b = binding_request(TXID);
    b[0] = 0x01;
    b[1] = 0x01;
    assert!(is_stun(&b));
    assert_eq!(parse_binding_request(&b), Err(StunError::NotBinding));
    assert_eq!(handle_datagram(&b, from), StunOutcome::Invalid(StunError::NotBinding));
    // a binding indication (class 0b01)
    let mut b = binding_request(TXID);
    b[1] = 0x11;
    assert_eq!(parse_binding_request(&b), Err(StunError::NotBinding));
    // another method
    let mut b = binding_request(TXID);
    b[1] = 0x02;
    assert_eq!(parse_binding_request(&b), Err(StunError::NotBinding));
}

#[test]
fn binding_request_yields_its_transaction_id() {
    assert_eq!(parse_binding_request(&binding_request(TXID)), Ok(TXID));
    let mut with_attribute = binding_request([9; 12]);
    with_attribute.extend_from_slice(&[0x80, 0x22, 0x00, 0x04, b't', b'e', b's', b't']);
    assert_eq!(parse_binding_request(&with_attribute), Ok([9; 12]));
}

#[test]
fn responses_that_cannot_be_read_give_their_reason() {
    let from = SocketAddress::new(IpAddress::V4([192, 0, 2, 1]), 7000);
    let good = response(TXID, from);
    assert_eq!(parse_response(&good[..19]), Err(StunError::NotStun));
    assert_eq!(parse_response(&binding_request(TXID)), Err(StunError::NotSuccessResponse));
    // the header declares more than follows
    assert_eq!(parse_response(&good[..31]), Err(StunError::Malformed));
    // no attribute at all
    let mut empty = vec![0x01, 0x01, 0x00, 0x00, 0x21, 0x12, 0xa4, 0x42];
    empty.extend_from_slice(&TXID);
    assert_eq!(parse_response(&empty), Err(StunError::NoMappedAddress));
    // an unknown family
    let mut odd = good.clone();
    odd[25] = 0x03;
    assert_eq!(parse_response(&odd), Err(StunError::Malformed));
}

#[test]
fn mapped_address_is_found_behind_other_attributes() {
    let from = SocketAddress::new(IpAddress::V4([192, 0, 2, 1]), 7000);
    let plain = response(TXID, from);
    let mut b = vec![0x01, 0x01, 0x00, 0x14, 0x21, 0x12, 0xa4, 0x42];
    b.extend_from_slice(&TXID);
    // a software attribute of three bytes, padded to four
    b.extend_from_slice(&[0x80, 0x22, 0x00, 0x03, b'h', b'u', b'b', 0x00]);
    b.extend_from_slice(&plain[20..]);
    assert_eq!(parse_response(&b), Ok((TXID, from)));
}
