use relay_hub::dispatcher::{ClientConnConfig, Delivery, WRITE_TIMEOUT_MICROS};
use relay_hub::frame::Frame;
use relay_hub::gateway::{
    accept_loop, call_client_conn, relay_connection_handler, requested_protocol,
    switch_to_relay, switch_to_websocket, ConnectionKind, Dispatch, Handlers, Protocol,
    ServerAction, ServerBuilder, ServerEvent, TlsAcceptor, UpgradeError, LISTEN_BACKLOG,
};
use relay_hub::headers::{merge, set_all};
use relay_hub::net::{IpAddress, SocketAddress};
use relay_hub::rate_limit::ClientConnRateLimit;
use relay_hub::response::{find_header, Header, Method, Response};

fn h(name: &str, value: &str) -> Header {
    Header::new(name.as_bytes(), value.as_bytes())
}

/// A header map with these lines; lines with the same name are kept all.
fn map(lines: &[(&str, &str)]) -> http::HeaderMap {
    let mut m = http::HeaderMap::new();
    for (name, value) in lines {
        m.append(
            http::HeaderName::from_bytes(name.as_bytes()).unwrap(),
            http::HeaderValue::from_bytes(value.as_bytes()).unwrap(),
        );
    }
    m
}

fn lines(m: &http::HeaderMap) -> Vec<(String, String)> {
    m.iter().map(|(n, v)| (n.as_str().to_string(), v.to_str().unwrap().to_string())).collect()
}

fn pairs(lines: &[(&str, &str)]) -> Vec<(String, String)> {
    lines.iter().map(|(n, v)| (n.to_string(), v.to_string())).collect()
}

fn localhost() -> SocketAddress {
    SocketAddress::new(IpAddress::V4([127, 0, 0, 1]), 0)
}

fn names(response: &Response) -> Vec<String> {
    response.headers.iter().map(|h| String::from_utf8(h.name.clone()).unwrap()).collect()
}

#[test]
fn upgrade_to_the_relay_protocol_is_granted() {
    let up = call_client_conn(&vec![], Protocol::Relay, &vec![h("Upgrade", "derp")]);
    assert_eq!(up.protocol, Some(Protocol::Relay));
    assert_eq!(up.response.status, 101);
    assert_eq!(up.response.headers, vec![h("upgrade", "derp")]);
    assert!(up.response.body.is_empty());
}

#[test]
fn upgrade_to_websocket_carries_the_accept_key() {
    let request = vec![
        h("Host", "relay.example"),
        h("Upgrade", "websocket"),
        h("Sec-WebSocket-Key", "dGhlIHNhbXBsZSBub25jZQ=="),
        h("Sec-WebSocket-Version", "13"),
    ];
    assert_eq!(requested_protocol(&request), Some(Protocol::Websocket));
    let up = call_client_conn(&vec![h("x-hub", "1")], Protocol::Websocket, &request);
    assert_eq!(up.protocol, Some(Protocol::Websocket));
    assert_eq!(up.response.status, 101);
    assert_eq!(
        up.response.headers,
        vec![
            h("x-hub", "1"),
            h("upgrade", "websocket"),
            h("sec-websocket-accept", "s3pPLMBiTxaQ9kYGzzhZRbK+xOo="),
            h("connection", "upgrade"),
        ]
    );
    assert_eq!(up.response.body, b"switching to websocket protocol".to_vec());
}

#[test]
fn accept_key_depends_on_the_request_key() {
    let request = |key: &str| {
        vec![h("upgrade", "websocket"), h("sec-websocket-key", key), h("sec-websocket-version", "13")]
    };
    let one = call_client_conn(&vec![], Protocol::Websocket, &request("AAAAAAAAAAAAAAAAAAAAAA=="));
    let two = call_client_conn(&vec![], Protocol::Websocket, &request("AAAAAAAAAAAAAAAAAAAAAQ=="));
    let accept = |r: &Response| find_header(&r.headers, b"Sec-WebSocket-Accept").unwrap().clone();
    assert_ne!(accept(&one.response), accept(&two.response));
    assert_ne!(accept(&one.response), b"AAAAAAAAAAAAAAAAAAAAAA==".to_vec());
    assert_eq!(accept(&one.response).len(), 28);
}

#[test]
fn switch_to_websocket_uses_the_key_it_is_given() {
    let up = switch_to_websocket(&vec![], b"the-accept-key".to_vec());
    assert_eq!(find_header(&up.response.headers, b"sec-websocket-accept").unwrap(), b"the-accept-key");
    assert_eq!(up.response.status, 101);
}

#[test]
fn request_without_a_known_upgrade_is_not_for_the_relay_endpoint() {
    let server = ServerBuilder::new(localhost()).headers(&map(&[("x-hub", "1")])).spawn();
    for request in [vec![], vec![h("Upgrade", "h2c")], vec![h("Upgrade", "DERP")], vec![h("Upgrade", "")]]
    {
        assert_eq!(requested_protocol(&request), None);
        for path in ["/relay", "/derp"] {
            match server.service.call(Method::Get, path.as_bytes(), &request) {
                Dispatch::NotFound(response) => {
                    assert_eq!(response.status, 404);
                    assert_eq!(response.headers, vec![h("x-hub", "1")]);
                    assert_eq!(response.body, b"Not Found".to_vec());
                }
                other => panic!("{:?}", other),
            }
        }
    }
}

#[test]
fn relay_path_without_an_upgrade_can_have_a_handler_of_its_own() {
    let server = ServerBuilder::new(localhost()).request_handler(Method::Get, b"/relay", 5).spawn();
    assert!(matches!(
        server.service.call(Method::Get, b"/relay", &vec![]),
        Dispatch::Handler { handler: 5, .. }
    ));
    // a request that asks for the upgrade still reaches the relay endpoint
    assert!(matches!(
        server.service.call(Method::Get, b"/relay", &vec![h("upgrade", "websocket")]),
        Dispatch::Relay(_)
    ));
}

#[test]
fn upgraded_connection_with_buffered_bytes_is_not_taken_over() {
    assert_eq!(relay_connection_handler(&[]), Ok(()));
    assert_eq!(relay_connection_handler(&[0]), Err(UpgradeError::BufferedData));
    assert_eq!(relay_connection_handler(&[1, 2, 3]), Err(UpgradeError::BufferedData));
}

#[test]
fn websocket_without_key_or_version_is_a_bad_request() {
    let no_key = vec![h("Upgrade", "websocket"), h("Sec-WebSocket-Version", "13")];
    let no_version = vec![h("Upgrade", "websocket"), h("Sec-WebSocket-Key", "abc")];
    for request in [no_key, no_version] {
        let up = call_client_conn(&vec![], Protocol::Websocket, &request);
        assert_eq!(up.protocol, None);
        assert_eq!(up.response.status, 400);
        assert!(up.response.headers.is_empty());
    }
}

#[test]
fn websocket_with_another_version_is_told_the_supported_one() {
    let request = vec![
        h("Upgrade", "websocket"),
        h("Sec-WebSocket-Key", "abc"),
        h("Sec-WebSocket-Version", "8"),
    ];
    let up = call_client_conn(&vec![], Protocol::Websocket, &request);
    assert_eq!(up.protocol, None);
    assert_eq!(up.response.status, 400);
    assert_eq!(up.response.headers, vec![h("sec-websocket-version", "13")]);
}

#[test]
fn protocol_names_are_parsed_exactly() {
    assert_eq!(Protocol::parse_header(b"derp"), Some(Protocol::Relay));
    assert_eq!(Protocol::parse_header(b"websocket"), Some(Protocol::Websocket));
    assert_eq!(Protocol::parse_header(b"websocket "), None);
    assert_eq!(Protocol::parse_header(b"Websocket"), None);
    assert_eq!(Protocol::Relay.upgrade_header(), b"derp".to_vec());
    assert_eq!(Protocol::Websocket.upgrade_header(), b"websocket".to_vec());
}

#[test]
fn requests_are_routed_to_relay_handlers_or_404() {
    let server = ServerBuilder::new(localhost())
        .request_handler(Method::Get, b"/robots.txt", 7)
        .headers(&map(&[("X-Hub", "1")]))
        .spawn();
    let upgrade = vec![h("Upgrade", "derp")];
    for path in ["/relay", "/derp"] {
        match server.service.call(Method::Get, path.as_bytes(), &upgrade) {
            Dispatch::Relay(up) => assert_eq!(up.protocol, Some(Protocol::Relay)),
            other => panic!("{:?}", other),
        }
    }
    // only GET reaches the relay endpoint
    assert!(matches!(server.service.call(Method::Post, b"/relay", &upgrade), Dispatch::NotFound(_)));
    match server.service.call(Method::Get, b"/robots.txt", &vec![]) {
        Dispatch::Handler { handler, response } => {
            assert_eq!(handler, 7);
            assert_eq!(response.status, 200);
            assert_eq!(response.headers, vec![h("x-hub", "1")]);
        }
        other => panic!("{:?}", other),
    }
    match server.service.call(Method::Get, b"/nothing", &vec![]) {
        Dispatch::NotFound(response) => {
            assert_eq!(response.status, 404);
            assert_eq!(response.body, b"Not Found".to_vec());
            assert_eq!(names(&response), vec!["x-hub"]);
        }
        other => panic!("{:?}", other),
    }
    assert!(matches!(server.service.call(Method::Head, b"/robots.txt", &vec![]), Dispatch::NotFound(_)));
    assert!(matches!(server.service.call(Method::Get, b"/relay/", &upgrade), Dispatch::NotFound(_)));
}

#[test]
fn handler_table_keeps_the_last_handler_of_a_route() {
    let mut table = Handlers::new();
    table.insert(Method::Get, b"/a", 1);
    table.insert(Method::Post, b"/a", 2);
    table.insert(Method::Get, b"/b", 3);
    table.insert(Method::Get, b"/a", 4);
    assert_eq!(table.len(), 3);
    assert_eq!(table.get(Method::Get, b"/a"), Some(4));
    assert_eq!(table.get(Method::Post, b"/a"), Some(2));
    assert_eq!(table.get(Method::Get, b"/b"), Some(3));
    assert_eq!(table.get(Method::Put, b"/a"), None);
    assert_eq!(table.get(Method::Get, b"/A"), None);
}

#[test]
fn headers_are_set_not_added_twice() {
    let server = ServerBuilder::new(localhost())
        .headers(&map(&[("a", "1"), ("b", "2")]))
        .headers(&map(&[("b", "9"), ("c", "3"), ("C", "4")]))
        .spawn();
    assert_eq!(
        server.service.default_response().headers,
        vec![h("a", "1"), h("b", "9"), h("c", "4")]
    );
}

#[test]
fn setting_a_header_keeps_one_line_of_its_name() {
    let mut m = map(&[("a", "1"), ("b", "2"), ("b", "3"), ("c", "4")]);
    assert_eq!(lines(&m), pairs(&[("a", "1"), ("b", "2"), ("b", "3"), ("c", "4")]));
    set_all(&mut m, &vec![h("B", "9")]);
    assert_eq!(lines(&m), pairs(&[("a", "1"), ("b", "9"), ("c", "4")]));
    set_all(&mut m, &vec![h("d", "5"), h("A", "6"), h("d", "7")]);
    assert_eq!(lines(&m), pairs(&[("a", "6"), ("b", "9"), ("c", "4"), ("d", "7")]));
}

#[test]
fn names_and_values_that_are_none_set_nothing() {
    let mut m = map(&[("a", "1")]);
    let long = "x".repeat(65536);
    set_all(
        &mut m,
        &vec![
            h("", "1"),
            h("a b", "2"),
            h("a:", "3"),
            h("a\u{e9}", "4"),
            h("a", "line\nbreak"),
            h("a", "\u{7f}"),
            h(&long, "5"),
        ],
    );
    assert_eq!(lines(&m), pairs(&[("a", "1")]));
    // every character that a name may have, a tab and high bytes in a value
    let name = "!#$%&'*+-.^_`|~0189AZaz";
    set_all(&mut m, &vec![h(name, "ok"), h(&long[..65535], "6")]);
    assert_eq!(m.len(), 3);
    assert_eq!(m.get("!#$%&'*+-.^_`|~0189azaz").unwrap(), "ok");
    set_all(&mut m, &vec![Header::new(b"v", &[9, 32, 126, 128, 255])]);
    assert_eq!(m.get("v").unwrap().as_bytes(), &[9, 32, 126, 128, 255]);
}

#[test]
fn merging_takes_the_last_value_of_each_name() {
    let mut m = map(&[("a", "1"), ("b", "2")]);
    merge(&mut m, &map(&[("c", "3"), ("a", "4"), ("a", "5")]));
    assert_eq!(lines(&m), pairs(&[("a", "5"), ("b", "2"), ("c", "3")]));
    merge(&mut m, &http::HeaderMap::new());
    assert_eq!(lines(&m), pairs(&[("a", "5"), ("b", "2"), ("c", "3")]));
}

#[test]
fn map_with_many_lines_still_has_room() {
    let mut m = http::HeaderMap::new();
    let list: Vec<Header> = (0..4096).map(|i| h(&format!("h{i}"), "v")).collect();
    set_all(&mut m, &list);
    assert_eq!(m.len(), 4096);
    assert_eq!(m.iter().next().unwrap().0.as_str(), "h0");
    assert_eq!(m.iter().last().unwrap().0.as_str(), "h4095");
}

#[test]
fn key_cache_capacity_of_the_builder_is_that_of_the_server() {
    let server = ServerBuilder::new(localhost()).spawn();
    assert_eq!(server.key_cache.capacity(), 1024);
    let server = ServerBuilder::new(localhost()).key_cache_capacity(3).spawn();
    assert_eq!(server.key_cache.capacity(), 3);
    assert_eq!(server.key_cache.len(), 0);
    assert_eq!(server.local_addr(), localhost());
}

#[test]
fn builder_settings_reach_the_service() {
    let limit = ClientConnRateLimit { bytes_per_second: 10, max_burst_bytes: 20 };
    let server = ServerBuilder::new(localhost()).client_rx_ratelimit(limit).spawn();
    let config = server.service.accept_config();
    assert_eq!(config.rate_limit, Some(limit));
    assert_eq!(config.write_timeout, 2_000_000);
    assert_eq!(ServerBuilder::new(localhost()).spawn().service.accept_config().rate_limit, None);
    assert_eq!(LISTEN_BACKLOG, 2048);
}

#[test]
fn accept_loop_serves_until_it_is_told_to_stop() {
    let mut server = ServerBuilder::new(localhost()).spawn();
    assert_eq!(server.connection_kind(), ConnectionKind::Plain);
    assert_eq!(server.on_event(ServerEvent::Accepted), ServerAction::Serve(ConnectionKind::Plain));
    assert_eq!(server.on_event(ServerEvent::AcceptFailed), ServerAction::Continue);
    assert_eq!(server.on_event(ServerEvent::TaskJoined { panicked: false }), ServerAction::Continue);
    assert_eq!(server.on_event(ServerEvent::TaskJoined { panicked: true }), ServerAction::Propagate);
    assert_eq!(server.on_event(ServerEvent::Cancelled), ServerAction::Shutdown);
    server.shutdown();
    assert!(server.cancelled);
    assert_eq!(server.on_event(ServerEvent::Accepted), ServerAction::Shutdown);
}

#[test]
fn test_https_clients_and_server() {
    let mut server =
        ServerBuilder::new(localhost()).tls_config(Some(TlsAcceptor::Manual)).spawn();
    assert_eq!(
        server.on_event(ServerEvent::Accepted),
        ServerAction::Serve(ConnectionKind::Tls(TlsAcceptor::Manual))
    );
    let upgrade = vec![h("Upgrade", "derp")];
    assert!(matches!(server.service.call(Method::Get, b"/relay", &upgrade), Dispatch::Relay(_)));

    let a_key = server.key_cache.get_or_insert(&[0xa; 32], true).unwrap();
    let b_key = server.key_cache.get_or_insert(&[0xb; 32], true).unwrap();
    let client = |node_id| ClientConnConfig {
        node_id,
        write_timeout: WRITE_TIMEOUT_MICROS,
        channel_capacity: 32,
        rate_limit: None,
        peer_gone_on_close: false,
    };
    let a = server.dispatcher.create_client(client(a_key), 0).unwrap().epoch;
    let b = server.dispatcher.create_client(client(b_key), 0).unwrap().epoch;

    let msg = b"hi there, client b!".to_vec();
    assert_eq!(
        server.dispatcher.send_packet(&a_key, &b_key.as_bytes(), msg.clone()),
        Delivery::Queued
    );
    match server.dispatcher.next_outbound(&b_key.as_bytes(), b) {
        Some(Frame::RecvPacket { src_key, content }) => {
            assert_eq!(a_key.as_bytes(), src_key);
            assert_eq!(msg, content);
        }
        other => panic!("expected message from client_a, got {:?}", other),
    }
    let msg = b"right back at ya, client b!".to_vec();
    assert_eq!(
        server.dispatcher.send_packet(&b_key, &a_key.as_bytes(), msg.clone()),
        Delivery::Queued
    );
    match server.dispatcher.next_outbound(&a_key.as_bytes(), a) {
        Some(Frame::RecvPacket { src_key, content }) => {
            assert_eq!(b_key.as_bytes(), src_key);
            assert_eq!(msg, content);
        }
        other => panic!("expected message from client_b, got {:?}", other),
    }
    server.shutdown();
    assert_eq!(server.on_event(ServerEvent::Accepted), ServerAction::Shutdown);
    assert_eq!(server.dispatcher.close().len(), 2);
}

#[test]
fn accept_loop_of_a_hub_that_stops_serves_nothing_more() {
    let tls = ConnectionKind::Tls(TlsAcceptor::LetsEncrypt);
    assert_eq!(accept_loop(false, tls, ServerEvent::Accepted), ServerAction::Serve(tls));
    assert_eq!(accept_loop(true, tls, ServerEvent::Accepted), ServerAction::Shutdown);
    assert_eq!(
        accept_loop(true, tls, ServerEvent::TaskJoined { panicked: true }),
        ServerAction::Shutdown
    );
    assert_eq!(
        accept_loop(false, tls, ServerEvent::TaskJoined { panicked: true }),
        ServerAction::Propagate
    );
}

#[test]
fn switch_to_relay_keeps_the_headers_of_the_hub() {
    let up = switch_to_relay(&vec![h("a", "1"), h("b", "2")]);
    assert_eq!(up.response.headers, vec![h("a", "1"), h("b", "2"), h("upgrade", "derp")]);
    assert_eq!(up.response.status, 101);
    assert_eq!(up.protocol, Some(Protocol::Relay));
}

#[test]
fn header_names_are_found_in_any_case() {
    let headers = vec![h("Content-Type", "a"), h("content-type", "b"), h("X", "c")];
    assert_eq!(find_header(&headers, b"CONTENT-TYPE"), Some(&b"a".to_vec()));
    assert_eq!(find_header(&headers, b"x"), Some(&b"c".to_vec()));
    assert_eq!(find_header(&headers, b"content_type"), None);
    assert_eq!(find_header(&headers, b"content-typ"), None);
    // only ASCII letters are folded
    assert_eq!(find_header(&vec![h("[", "a")], b"{"), None);
    assert_eq!(find_header(&vec![h("@", "a")], b"`"), None);
}

#[test]
fn service_admits_clients_with_its_own_settings() {
    let limit = ClientConnRateLimit { bytes_per_second: 13, max_burst_bytes: 13 };
    let mut server = ServerBuilder::new(localhost()).client_rx_ratelimit(limit).spawn();
    let hello = Frame::ClientInfo {
        client_public_key: [1; 32],
        signature: [0; 64],
        message: vec![],
    };
    let verdicts = relay_hub::handshake::Verdicts {
        key_is_valid: true,
        signature_verifies: true,
        info: Some(relay_hub::handshake::ClientInfo { version: relay_hub::frame::PROTOCOL_VERSION }),
    };
    let accepted = server
        .service
        .accept(&mut server.dispatcher, &mut server.key_cache, &hello, verdicts, 0)
        .unwrap();
    let mut conn = accepted.conn;
    assert_eq!(conn.write_deadline(0), WRITE_TIMEOUT_MICROS);
    let ping = Frame::Ping { data: [0; 8] }.encode().unwrap();
    assert!(matches!(
        conn.read_step(&mut server.dispatcher, &ping, false, 0),
        relay_hub::client_conn::ReadStep::Handled { consumed: 13 }
    ));
    assert!(matches!(
        conn.read_step(&mut server.dispatcher, &ping, false, 0),
        relay_hub::client_conn::ReadStep::Pause { micros: 1_000_000 }
    ));
}
