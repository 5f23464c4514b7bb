use relay_hub::store::{decide_upsert, SignedPacket, SignedPacketStore, Upsert, PACKET_TTL_SECS};

fn packet(key: u8, timestamp: u64, encoded: &[u8]) -> SignedPacket {
    SignedPacket {
        public_key: [key; 32],
        signature: vec![key ^ 0x55; 64],
        timestamp,
        encoded_packet: encoded.to_vec(),
    }
}

#[test]
fn first_packet_of_a_key_is_inserted() {
    let mut store = SignedPacketStore::in_memory();
    assert_eq!(store.get(&[1; 32]), None);
    assert_eq!(store.upsert(packet(1, 10, b"a")), Upsert::Inserted);
    assert_eq!(store.get(&[1; 32]), Some(packet(1, 10, b"a")));
    assert_eq!(store.get(&[2; 32]), None);
}

#[test]
fn later_packet_takes_the_place_of_the_earlier() {
    let mut store = SignedPacketStore::open();
    assert!(store.upsert(packet(1, 10, b"a")).stored());
    assert_eq!(store.upsert(packet(1, 11, b"b")), Upsert::Updated);
    assert_eq!(store.get(&[1; 32]), Some(packet(1, 11, b"b")));
}

#[test]
fn earlier_packet_is_stale() {
    let mut store = SignedPacketStore::open();
    store.upsert(packet(1, 10, b"a"));
    let outcome = store.upsert(packet(1, 9, b"z"));
    assert_eq!(outcome, Upsert::Stale);
    assert!(!outcome.stored());
    assert_eq!(store.get(&[1; 32]), Some(packet(1, 10, b"a")));
}

#[test]
fn with_equal_timestamps_the_greater_encoding_wins() {
    let mut store = SignedPacketStore::open();
    store.upsert(packet(1, 10, b"abc"));
    assert_eq!(store.upsert(packet(1, 10, b"abb")), Upsert::Stale);
    assert_eq!(store.upsert(packet(1, 10, b"ab")), Upsert::Stale);
    assert_eq!(store.upsert(packet(1, 10, b"abc")), Upsert::Updated);
    assert_eq!(store.upsert(packet(1, 10, b"abcd")), Upsert::Updated);
    assert_eq!(store.upsert(packet(1, 10, b"b")), Upsert::Updated);
    assert_eq!(store.get(&[1; 32]), Some(packet(1, 10, b"b")));
}

#[test]
fn more_recent_than_is_by_time_then_by_bytes() {
    assert!(packet(1, 2, b"").more_recent_than(&packet(1, 1, b"zzz")));
    assert!(!packet(1, 1, b"zzz").more_recent_than(&packet(1, 2, b"")));
    assert!(packet(1, 1, &[0, 1]).more_recent_than(&packet(1, 1, &[0, 0, 9])));
    assert!(packet(1, 1, &[0, 0, 0]).more_recent_than(&packet(1, 1, &[0, 0])));
    assert!(!packet(1, 1, &[0, 0]).more_recent_than(&packet(1, 1, &[0, 0])));
    assert!(!packet(1, 1, &[]).more_recent_than(&packet(1, 1, &[])));
    assert!(packet(1, 1, &[0xff]).more_recent_than(&packet(1, 1, &[0x7f, 0xff])));
}

#[test]
fn keys_do_not_touch_each_other() {
    let mut store = SignedPacketStore::open();
    store.upsert(packet(1, 10, b"a"));
    store.upsert(packet(2, 5, b"b"));
    assert_eq!(store.upsert(packet(2, 6, b"c")), Upsert::Updated);
    assert_eq!(store.get(&[1; 32]), Some(packet(1, 10, b"a")));
    assert_eq!(store.get(&[2; 32]), Some(packet(2, 6, b"c")));
}

#[test]
fn remove_tells_whether_there_was_a_packet() {
    let mut store = SignedPacketStore::open();
    store.upsert(packet(1, 10, b"a"));
    assert!(store.remove(&[1; 32]));
    assert!(!store.remove(&[1; 32]));
    assert_eq!(store.get(&[1; 32]), None);
    assert_eq!(store.upsert(packet(1, 1, b"a")), Upsert::Inserted);
}

#[test]
fn signature_is_carried_along() {
    let mut store = SignedPacketStore::open();
    let mut p = packet(1, 10, b"a");
    p.signature = vec![9; 64];
    store.upsert(p.clone());
    assert_eq!(store.get(&[1; 32]).unwrap().signature, vec![9; 64]);
    // the signature takes no part in the order
    let mut q = packet(1, 10, b"a");
    q.signature = vec![0; 64];
    assert!(!p.more_recent_than(&q));
    assert!(!q.more_recent_than(&p));
}

#[test]
fn decision_is_the_same_for_any_store() {
    let held = packet(1, 10, b"a");
    assert_eq!(decide_upsert(None, &held), Upsert::Inserted);
    assert_eq!(decide_upsert(Some(&held), &packet(1, 11, b"a")), Upsert::Updated);
    assert_eq!(decide_upsert(Some(&held), &packet(1, 9, b"a")), Upsert::Stale);
    assert_eq!(decide_upsert(Some(&held), &held), Upsert::Updated);
    assert_eq!(PACKET_TTL_SECS, 300);
}
