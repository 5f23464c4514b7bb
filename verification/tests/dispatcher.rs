use relay_hub::dispatcher::{
    ClientConnConfig, Delivery, Dispatcher, Message, Outcome, SERVER_CHANNEL_SIZE,
    WRITE_TIMEOUT_MICROS,
};
use relay_hub::frame::{Frame, MAX_FRAME_SIZE};
use relay_hub::key::PublicKey;
use relay_hub::key_cache::KeyCache;

fn key(n: u8) -> PublicKey {
    KeyCache::new(1).get_or_insert(&[n; 32], true).unwrap()
}

fn config(node_id: PublicKey) -> ClientConnConfig {
    ClientConnConfig {
        node_id,
        write_timeout: WRITE_TIMEOUT_MICROS,
        channel_capacity: 32,
        rate_limit: None,
        peer_gone_on_close: false,
    }
}

fn small(node_id: PublicKey, channel_capacity: usize) -> ClientConnConfig {
    ClientConnConfig { channel_capacity, ..config(node_id) }
}

#[test]
fn test_server_basic() {
    let mut server = Dispatcher::new();
    let (a, b) = (key(1), key(2));
    let epoch_a = server.create_client(config(a), 0).unwrap().epoch;
    let epoch_b = server.create_client(config(b), 0).unwrap().epoch;
    assert_eq!(server.conns_active(), 2);

    // send message from a to b
    let msg = b"hello client b!!".to_vec();
    assert_eq!(server.send_packet(&a, &b.as_bytes(), msg.clone()), Delivery::Queued);
    assert_eq!(
        server.next_outbound(&b.as_bytes(), epoch_b),
        Some(Frame::RecvPacket { src_key: a.as_bytes(), content: msg })
    );

    // send message from b to a
    let msg = b"nice to meet you client a!!".to_vec();
    assert_eq!(server.send_packet(&b, &a.as_bytes(), msg.clone()), Delivery::Queued);
    assert_eq!(
        server.next_outbound(&a.as_bytes(), epoch_a),
        Some(Frame::RecvPacket { src_key: b.as_bytes(), content: msg })
    );

    // close the server: the client connections have been shut down
    let closed = server.close();
    assert_eq!(closed.len(), 2);
    assert!(closed.iter().all(|slot| slot.is_cancelled()));
    assert_eq!(server.conns_active(), 0);
    assert_eq!(
        server.send_packet(&a, &b.as_bytes(), b"try to send".to_vec()),
        Delivery::NoSuchPeer
    );
    assert_eq!(server.next_outbound(&b.as_bytes(), epoch_b), None);
}

#[test]
fn test_server_replace_client() {
    let mut server = Dispatcher::new();
    let (a, b) = (key(1), key(2));
    let epoch_a = server.create_client(config(a), 0).unwrap().epoch;
    let epoch_b = server.create_client(config(b), 0).unwrap().epoch;

    let msg = b"hello client b!!".to_vec();
    assert_eq!(server.send_packet(&a, &b.as_bytes(), msg.clone()), Delivery::Queued);
    assert_eq!(
        server.next_outbound(&b.as_bytes(), epoch_b),
        Some(Frame::RecvPacket { src_key: a.as_bytes(), content: msg })
    );
    let msg = b"nice to meet you client a!!".to_vec();
    assert_eq!(server.send_packet(&b, &a.as_bytes(), msg.clone()), Delivery::Queued);
    assert_eq!(
        server.next_outbound(&a.as_bytes(), epoch_a),
        Some(Frame::RecvPacket { src_key: b.as_bytes(), content: msg })
    );

    // client b connects again
    let created = server.create_client(config(b), 5).unwrap();
    let new_epoch_b = created.epoch;
    assert!(new_epoch_b > epoch_b);
    let mut old_b = created.evicted.unwrap();
    assert!(old_b.is_cancelled());
    assert_eq!(old_b.epoch(), epoch_b);
    assert_eq!(server.conns_active(), 2);

    // send message from a to b: the new client b gets it
    let msg = b"are you still there, b?!".to_vec();
    assert_eq!(server.send_packet(&a, &b.as_bytes(), msg.clone()), Delivery::Queued);
    assert_eq!(server.next_outbound(&b.as_bytes(), epoch_b), None);
    assert_eq!(
        server.next_outbound(&b.as_bytes(), new_epoch_b),
        Some(Frame::RecvPacket { src_key: a.as_bytes(), content: msg })
    );
    assert_eq!(server.next_outbound(&b.as_bytes(), new_epoch_b), None);
    // the old client b got the notice and nothing else
    assert_eq!(old_b.drain_next(), Some(Frame::PeerGone { peer: b.as_bytes() }));
    assert_eq!(old_b.drain_next(), None);

    // send message from the new b to a
    let msg = b"just had a spot of trouble but I'm back now,a!!".to_vec();
    assert_eq!(server.send_packet(&b, &a.as_bytes(), msg.clone()), Delivery::Queued);
    assert_eq!(
        server.next_outbound(&a.as_bytes(), epoch_a),
        Some(Frame::RecvPacket { src_key: b.as_bytes(), content: msg })
    );

    server.close();
    assert_eq!(
        server.send_packet(&a, &b.as_bytes(), b"try to send".to_vec()),
        Delivery::NoSuchPeer
    );
    assert_eq!(server.next_outbound(&b.as_bytes(), new_epoch_b), None);
}

#[test]
fn test_http_clients_and_server() {
    let mut server = Dispatcher::new();
    let (a_key, b_key) = (key(0xa), key(0xb));
    let a = server.create_client(config(a_key), 0).unwrap().epoch;
    let b = server.create_client(config(b_key), 0).unwrap().epoch;

    let msg = b"hi there, client b!".to_vec();
    assert_eq!(server.send_packet(&a_key, &b_key.as_bytes(), msg.clone()), Delivery::Queued);
    match server.next_outbound(&b_key.as_bytes(), b) {
        Some(Frame::RecvPacket { src_key, content }) => {
            assert_eq!(a_key.as_bytes(), src_key);
            assert_eq!(msg, content);
        }
        other => panic!("expected message from client_a, got {:?}", other),
    }

    let msg = b"right back at ya, client b!".to_vec();
    assert_eq!(server.send_packet(&b_key, &a_key.as_bytes(), msg.clone()), Delivery::Queued);
    match server.next_outbound(&a_key.as_bytes(), a) {
        Some(Frame::RecvPacket { src_key, content }) => {
            assert_eq!(b_key.as_bytes(), src_key);
            assert_eq!(msg, content);
        }
        other => panic!("expected message from client_b, got {:?}", other),
    }
    assert!(server.remove_client(&a_key.as_bytes(), a).is_some());
    assert!(server.remove_client(&b_key.as_bytes(), b).is_some());
    assert_eq!(server.conns_active(), 0);
}

#[test]
fn epochs_grow_with_every_admission() {
    let mut server = Dispatcher::new();
    let first = server.create_client(config(key(1)), 0).unwrap();
    assert_eq!(first.epoch, 1);
    assert!(first.evicted.is_none());
    assert_eq!(server.create_client(config(key(2)), 0).unwrap().epoch, 2);
    assert_eq!(server.create_client(config(key(1)), 0).unwrap().epoch, 3);
    assert_eq!(server.epoch_of(&[1; 32]), Some(3));
    assert_eq!(server.epoch_of(&[2; 32]), Some(2));
    assert_eq!(server.epoch_of(&[3; 32]), None);
    assert!(server.contains(&[1; 32]));
    assert!(!server.contains(&[3; 32]));
}

#[test]
fn stale_connection_cannot_remove_its_successor() {
    let mut server = Dispatcher::new();
    let k = key(1);
    let old = server.create_client(config(k), 0).unwrap().epoch;
    let new = server.create_client(config(k), 1).unwrap().epoch;
    assert!(server.remove_client(&k.as_bytes(), old).is_none());
    assert_eq!(server.epoch_of(&k.as_bytes()), Some(new));
    let gone = server.remove_client(&k.as_bytes(), new).unwrap();
    assert!(gone.is_cancelled());
    assert_eq!(gone.epoch(), new);
    assert_eq!(gone.created_at(), 1);
    assert_eq!(server.conns_active(), 0);
    assert!(server.remove_client(&k.as_bytes(), new).is_none());
}

#[test]
fn packet_reaches_only_its_destination() {
    let mut server = Dispatcher::new();
    let (a, b, c) = (key(1), key(2), key(3));
    let ea = server.create_client(config(a), 0).unwrap().epoch;
    let eb = server.create_client(config(b), 0).unwrap().epoch;
    let ec = server.create_client(config(c), 0).unwrap().epoch;
    assert_eq!(server.send_packet(&a, &b.as_bytes(), vec![1]), Delivery::Queued);
    assert_eq!(server.next_outbound(&a.as_bytes(), ea), None);
    assert_eq!(server.next_outbound(&c.as_bytes(), ec), None);
    assert_eq!(
        server.next_outbound(&b.as_bytes(), eb),
        Some(Frame::RecvPacket { src_key: a.as_bytes(), content: vec![1] })
    );
    assert_eq!(server.next_outbound(&b.as_bytes(), eb), None);
}

#[test]
fn packet_for_an_absent_peer_is_dropped_in_silence() {
    let mut server = Dispatcher::new();
    let a = key(1);
    server.create_client(config(a), 0).unwrap();
    assert_eq!(server.send_packet(&a, &[9; 32], vec![1]), Delivery::NoSuchPeer);
    assert_eq!(server.packets_forwarded(), 0);
    assert_eq!(server.packets_dropped_full_mailbox(), 0);
}

#[test]
fn full_mailbox_drops_and_counts() {
    let mut server = Dispatcher::new();
    let (a, b) = (key(1), key(2));
    server.create_client(config(a), 0).unwrap();
    let eb = server.create_client(small(b, 2), 0).unwrap().epoch;
    assert_eq!(server.send_packet(&a, &b.as_bytes(), vec![1]), Delivery::Queued);
    assert_eq!(server.send_packet(&a, &b.as_bytes(), vec![2]), Delivery::Queued);
    assert_eq!(server.send_packet(&a, &b.as_bytes(), vec![3]), Delivery::DroppedFull);
    assert_eq!(server.send_packet(&a, &b.as_bytes(), vec![4]), Delivery::DroppedFull);
    assert_eq!(server.packets_forwarded(), 2);
    assert_eq!(server.packets_dropped_full_mailbox(), 2);
    assert_eq!(
        server.next_outbound(&b.as_bytes(), eb),
        Some(Frame::RecvPacket { src_key: a.as_bytes(), content: vec![1] })
    );
    assert_eq!(server.send_packet(&a, &b.as_bytes(), vec![5]), Delivery::Queued);
    assert_eq!(
        server.next_outbound(&b.as_bytes(), eb),
        Some(Frame::RecvPacket { src_key: a.as_bytes(), content: vec![2] })
    );
    assert_eq!(
        server.next_outbound(&b.as_bytes(), eb),
        Some(Frame::RecvPacket { src_key: a.as_bytes(), content: vec![5] })
    );
}

#[test]
fn packet_too_large_for_a_frame_is_not_routed() {
    let mut server = Dispatcher::new();
    let (a, b) = (key(1), key(2));
    server.create_client(config(a), 0).unwrap();
    let eb = server.create_client(config(b), 0).unwrap().epoch;
    let too_large = vec![0u8; MAX_FRAME_SIZE - 31];
    assert_eq!(server.send_packet(&a, &b.as_bytes(), too_large), Delivery::TooLarge);
    assert_eq!(server.next_outbound(&b.as_bytes(), eb), None);
    let largest = vec![0u8; MAX_FRAME_SIZE - 32];
    assert_eq!(server.send_packet(&a, &b.as_bytes(), largest), Delivery::Queued);
}

#[test]
fn replaced_connection_with_a_full_mailbox_loses_the_notice() {
    let mut server = Dispatcher::new();
    let (a, b) = (key(1), key(2));
    server.create_client(config(a), 0).unwrap();
    server.create_client(small(b, 1), 0).unwrap();
    assert_eq!(server.send_packet(&a, &b.as_bytes(), vec![7]), Delivery::Queued);
    let mut old_b = server.create_client(small(b, 1), 1).unwrap().evicted.unwrap();
    assert!(old_b.is_cancelled());
    assert_eq!(old_b.queued(), 1);
    assert_eq!(
        old_b.drain_next(),
        Some(Frame::RecvPacket { src_key: a.as_bytes(), content: vec![7] })
    );
    assert_eq!(old_b.drain_next(), None);
}

#[test]
fn messages_do_what_the_calls_do() {
    let mut server = Dispatcher::new();
    let (a, b) = (key(1), key(2));
    let ea = match server.handle_message(Message::CreateClient(config(a)), 3) {
        Outcome::Created(Some(created)) => created.epoch,
        other => panic!("{:?}", other),
    };
    let eb = match server.handle_message(Message::CreateClient(config(b)), 4) {
        Outcome::Created(Some(created)) => created.epoch,
        other => panic!("{:?}", other),
    };
    assert_eq!((ea, eb), (1, 2));
    let sent = server.handle_message(
        Message::SendPacket { src: a, dst: b.as_bytes(), payload: vec![1, 2] },
        5,
    );
    assert!(matches!(sent, Outcome::Sent(Delivery::Queued)));
    let stale = server.handle_message(Message::RemoveClient { node_id: [2; 32], epoch: 9 }, 6);
    assert!(matches!(stale, Outcome::Removed(None)));
    let gone = server.handle_message(Message::RemoveClient { node_id: [2; 32], epoch: eb }, 6);
    match gone {
        Outcome::Removed(Some(slot)) => {
            assert_eq!(slot.queued(), 1);
            assert_eq!(slot.last_seen(), 4);
        }
        other => panic!("{:?}", other),
    }
}

#[test]
fn touch_and_send_to_need_the_registered_epoch() {
    let mut server = Dispatcher::new();
    let a = key(1);
    let ea = server.create_client(config(a), 10).unwrap().epoch;
    assert!(!server.touch(&[1; 32], ea + 1, 20));
    assert!(server.touch(&[1; 32], ea, 20));
    assert_eq!(server.send_to(&[1; 32], ea + 1, Frame::KeepAlive), None);
    assert_eq!(server.send_to(&[1; 32], ea, Frame::KeepAlive), Some(Ok(())));
    let slot = server.remove_client(&[1; 32], ea).unwrap();
    assert_eq!(slot.last_seen(), 20);
    assert_eq!(slot.created_at(), 10);
    assert_eq!(slot.node_id(), a);
    assert!(!slot.peer_gone_on_close());
}

#[test]
fn dispatcher_channel_is_bounded() {
    assert_eq!(SERVER_CHANNEL_SIZE, 1024);
    assert_eq!(WRITE_TIMEOUT_MICROS, 2_000_000);
}

#[test]
fn snapshot_shows_the_registry_of_its_moment() {
    let mut server = Dispatcher::new();
    assert_eq!(server.snapshot().lookup(&[1; 32]), None);
    let a = server.create_client(config(key(1)), 0).unwrap().epoch;
    let b = server.create_client(config(key(2)), 0).unwrap().epoch;
    let before = server.snapshot();
    assert_eq!(before.lookup(&[1; 32]), Some(a));
    assert_eq!(before.lookup(&[2; 32]), Some(b));
    assert_eq!(before.lookup(&[3; 32]), None);
    assert!(before.shows(&[1; 32], a));
    assert!(!before.shows(&[1; 32], a + 5));
    assert!(!before.shows(&[3; 32], a));
    // the registry moves on, the snapshot does not
    let a2 = server.create_client(config(key(1)), 1).unwrap().epoch;
    server.remove_client(&[2; 32], b);
    assert_eq!(before.lookup(&[1; 32]), Some(a));
    assert_eq!(before.lookup(&[2; 32]), Some(b));
    let after = server.snapshot();
    assert_eq!(after.lookup(&[1; 32]), Some(a2));
    assert_eq!(after.lookup(&[2; 32]), None);
    assert_eq!(relay_hub::dispatcher::Snapshot::empty().lookup(&[1; 32]), None);
}

#[test]
fn offer_and_seen_messages_name_their_connection() {
    let mut server = Dispatcher::new();
    let e = server.create_client(small(key(1), 1), 0).unwrap().epoch;
    let offer = |epoch| Message::Offer { node_id: [1; 32], epoch, frame: Frame::KeepAlive };
    assert!(matches!(server.handle_message(offer(e + 1), 1), Outcome::Offered(None)));
    assert!(matches!(server.handle_message(offer(e), 1), Outcome::Offered(Some(Ok(())))));
    assert!(matches!(server.handle_message(offer(e), 1), Outcome::Offered(Some(Err(_)))));
    let seen = |epoch| Message::Seen { node_id: [1; 32], epoch };
    assert!(matches!(server.handle_message(seen(e + 1), 9), Outcome::Noted(false)));
    assert!(matches!(server.handle_message(seen(e), 9), Outcome::Noted(true)));
    let slot = server.remove_client(&[1; 32], e).unwrap();
    assert_eq!(slot.last_seen(), 9);
    assert_eq!(slot.queued(), 1);
}

#[test]
fn replaced_connection_flushes_for_two_seconds_at_most() {
    let mut server = Dispatcher::new();
    let (a, b) = (key(1), key(2));
    server.create_client(config(a), 0).unwrap();
    server.create_client(config(b), 0).unwrap();
    for n in 0..3u8 {
        assert_eq!(server.send_packet(&a, &b.as_bytes(), vec![n]), Delivery::Queued);
    }
    let mut old_b = server.create_client(config(b), 1).unwrap().evicted.unwrap();
    assert_eq!(old_b.queued(), 4);
    let left_at = 1_000;
    assert_eq!(
        old_b.drain_before_deadline(left_at, left_at),
        Some(Frame::RecvPacket { src_key: a.as_bytes(), content: vec![0] })
    );
    assert_eq!(
        old_b.drain_before_deadline(left_at, left_at + 1_999_999),
        Some(Frame::RecvPacket { src_key: a.as_bytes(), content: vec![1] })
    );
    // the time is over: what still waits is lost
    assert_eq!(old_b.drain_before_deadline(left_at, left_at + 2_000_000), None);
    assert_eq!(old_b.drain_before_deadline(left_at, u64::MAX), None);
    assert_eq!(old_b.queued(), 2);
}
