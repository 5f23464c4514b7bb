//! The HTTP upgrade gateway: which requests are admitted into the relay
//! protocol, and what the hub answers to the others.

use vstd::prelude::*;
use crate::dispatcher::{Dispatcher, DispatcherView, WRITE_TIMEOUT_MICROS};
use crate::frame::Frame;
use crate::handshake::{accept, accepted_as, AcceptConfig, Accepted, HandshakeError, Verdicts};
use crate::headers::{
    header_entries, headers_list, headers_new, merge, try_put_all, Headers, HEADER_ROOM,
};
use crate::key_cache::{KeyCache, KeyCacheView, DEFAULT_KEY_CACHE_CAPACITY};
use crate::net::SocketAddress;
use crate::rate_limit::ClientConnRateLimit;
use crate::response::{
    copy_headers, find_header, header_views, spec_find_header, Header,
    Method, Response, ResponseView, STATUS_BAD_REQUEST, STATUS_NOT_FOUND, STATUS_OK,
    STATUS_SWITCHING_PROTOCOLS,
};
use crate::text::{bytes_eq, copy_bytes, is_text, text, text_bytes};

verus! {

/// The path of the relay endpoint.
pub const RELAY_PATH: &'static str = "/relay";

/// The path under which older clients reach the relay endpoint.
pub const LEGACY_RELAY_PATH: &'static str = "/derp";

/// The value of `Upgrade` that asks for the relay protocol on the raw stream.
pub const HTTP_UPGRADE_PROTOCOL: &'static str = "derp";

/// The value of `Upgrade` that asks for the relay protocol inside WebSocket messages.
pub const WEBSOCKET_UPGRADE_PROTOCOL: &'static str = "websocket";

/// The only WebSocket version that the hub speaks.
pub const SUPPORTED_WEBSOCKET_VERSION: &'static str = "13";

/// The body of the answer that switches to WebSocket.
pub const SWITCHING_BODY: &'static str = "switching to websocket protocol";

/// The body of the answer to a request that nothing serves.
pub const NOT_FOUND_BODY: &'static str = "Not Found";

/// The backlog of the listening socket.
pub const LISTEN_BACKLOG: u32 = 2048;

/// The two containers in which relay frames travel after the upgrade.
#[derive(Clone, Copy, Debug, PartialEq, Eq, Structural)]
pub enum Protocol {
    /// Frames directly on the upgraded stream.
    Relay,
    /// One frame in each binary WebSocket message.
    Websocket,
}

/// The protocol that a value of the `Upgrade` header names, if it names one.
pub open spec fn spec_parse_header(value: Seq<u8>) -> Option<Protocol> {
    if value == text(HTTP_UPGRADE_PROTOCOL) {
        Some(Protocol::Relay)
    } else if value == text(WEBSOCKET_UPGRADE_PROTOCOL) {
        Some(Protocol::Websocket)
    } else {
        None
    }
}

impl Protocol {
    /// The text that names this protocol in the `Upgrade` header.
    pub open spec fn spec_upgrade_header(self) -> Seq<u8> {
        match self {
            Protocol::Relay => text(HTTP_UPGRADE_PROTOCOL),
            Protocol::Websocket => text(WEBSOCKET_UPGRADE_PROTOCOL),
        }
    }

    /// The value of the `Upgrade` header for this protocol.
    pub fn upgrade_header(&self) -> (r: Vec<u8>)
        ensures
            r@ == self.spec_upgrade_header(),
    {
        match self {
            Protocol::Relay => text_bytes(HTTP_UPGRADE_PROTOCOL),
            Protocol::Websocket => text_bytes(WEBSOCKET_UPGRADE_PROTOCOL),
        }
    }

    /// Reads the protocol out of the value of an `Upgrade` header.
    pub fn parse_header(value: &[u8]) -> (r: Option<Protocol>)
        ensures
            r == spec_parse_header(value@),
    {
        if is_text(value, HTTP_UPGRADE_PROTOCOL) {
            Some(Protocol::Relay)
        } else if is_text(value, WEBSOCKET_UPGRADE_PROTOCOL) {
            Some(Protocol::Websocket)
        } else {
            None
        }
    }
}

/// The `Sec-WebSocket-Accept` value that answers a `Sec-WebSocket-Key`: the
/// base64 text of the SHA-1 digest of the key followed by the protocol's
/// fixed GUID.
pub uninterp spec fn websocket_accept_key(request_key: Seq<u8>) -> Seq<u8>;

/// Calls `tungstenite::handshake::derive_accept_key`. The result is a function
/// of the key alone; nothing is proved of the digest or of the encoding.
#[verifier::external_body]
fn derive_accept_key(request_key: &[u8]) -> (r: Vec<u8>)
    ensures
        r@ == websocket_accept_key(request_key@),
{
    tokio_tungstenite::tungstenite::handshake::derive_accept_key(request_key).into_bytes()
}

/// What the gateway does with a request at the relay endpoint.
pub struct UpgradeView {
    pub response: ResponseView,
    pub protocol: Option<Protocol>,
}

/// The answer to a request at the relay endpoint, and the protocol to run on
/// the stream once the answer is sent (`None`: the request was refused and the
/// connection stays HTTP).
#[derive(Debug)]
pub struct Upgrade {
    pub response: Response,
    pub protocol: Option<Protocol>,
}

impl View for Upgrade {
    type V = UpgradeView;

    open spec fn view(&self) -> UpgradeView {
        UpgradeView { response: self.response@, protocol: self.protocol }
    }
}

/// A refusal: status 400, the hub's own headers, then `extra`, and no body.
pub open spec fn bad_request(
    base: Seq<(Seq<u8>, Seq<u8>)>,
    extra: Seq<(Seq<u8>, Seq<u8>)>,
) -> UpgradeView {
    UpgradeView {
        response: ResponseView {
            status: STATUS_BAD_REQUEST,
            headers: base + extra,
            body: Seq::empty(),
        },
        protocol: None,
    }
}

/// The answer that grants the upgrade to WebSocket: 101, with the `Upgrade`
/// header, the accept key that answers the request's key, and
/// `Connection: upgrade`.
pub open spec fn spec_switch_to_websocket(
    base: Seq<(Seq<u8>, Seq<u8>)>,
    accept_key: Seq<u8>,
) -> UpgradeView {
    UpgradeView {
        response: ResponseView {
            status: STATUS_SWITCHING_PROTOCOLS,
            headers: base + seq![
                (text("upgrade"), text(WEBSOCKET_UPGRADE_PROTOCOL)),
                (text("sec-websocket-accept"), accept_key),
                (text("connection"), text("upgrade")),
            ],
            body: text(SWITCHING_BODY),
        },
        protocol: Some(Protocol::Websocket),
    }
}

/// The answer that grants the upgrade to the relay protocol on the raw
/// stream: 101 with the `Upgrade` header, and no body.
pub open spec fn spec_switch_to_relay(base: Seq<(Seq<u8>, Seq<u8>)>) -> UpgradeView {
    UpgradeView {
        response: ResponseView {
            status: STATUS_SWITCHING_PROTOCOLS,
            headers: base + seq![(text("upgrade"), text(HTTP_UPGRADE_PROTOCOL))],
            body: Seq::empty(),
        },
        protocol: Some(Protocol::Relay),
    }
}

/// The protocol that the `Upgrade` header of a request asks for, if the
/// request has such a header and the header names a protocol.
pub open spec fn spec_requested_protocol(request: Seq<(Seq<u8>, Seq<u8>)>) -> Option<Protocol> {
    match spec_find_header(request, text("upgrade")) {
        Some(value) => spec_parse_header(value),
        None => None,
    }
}

/// The answer of the relay endpoint to a request that asks for `protocol`
/// and has the header lines `request`, where `base` are the hub's own
/// headers.
///
/// * The relay protocol on the raw stream is granted.
/// * WebSocket without `Sec-WebSocket-Key` or without `Sec-WebSocket-Version`: 400.
/// * WebSocket with another version than 13: 400, and the version that is
///   supported is advertised.
/// * Otherwise WebSocket is granted.
pub open spec fn spec_upgrade(
    base: Seq<(Seq<u8>, Seq<u8>)>,
    protocol: Protocol,
    request: Seq<(Seq<u8>, Seq<u8>)>,
) -> UpgradeView {
    match protocol {
        Protocol::Relay => spec_switch_to_relay(base),
        Protocol::Websocket => match (
            spec_find_header(request, text("sec-websocket-key")),
            spec_find_header(request, text("sec-websocket-version")),
        ) {
            (Some(key), Some(version)) => if version == text(SUPPORTED_WEBSOCKET_VERSION) {
                spec_switch_to_websocket(base, websocket_accept_key(key))
            } else {
                bad_request(
                    base,
                    seq![(text("sec-websocket-version"), text(SUPPORTED_WEBSOCKET_VERSION))],
                )
            },
            _ => bad_request(base, Seq::empty()),
        },
    }
}

/// Reads the protocol that a request asks for out of its `Upgrade` header.
pub fn requested_protocol(request: &Vec<Header>) -> (r: Option<Protocol>)
    ensures
        r == spec_requested_protocol(header_views(request@)),
{
    match find_header(request, "upgrade".as_bytes()) {
        Some(value) => Protocol::parse_header(value.as_slice()),
        None => None,
    }
}

fn refuse(base: &Vec<Header>, extra: Option<Header>) -> (r: Upgrade)
    ensures
        r@ == bad_request(
            header_views(base@),
            match extra {
                Some(h) => seq![h@],
                None => Seq::empty(),
            },
        ),
{
    let mut headers = copy_headers(base);
    let ghost before = header_views(headers@);
    match extra {
        Some(h) => {
            headers.push(h);
            assert(header_views(headers@) =~= before + seq![h@]);
        },
        None => {
            assert(header_views(headers@) =~= before + Seq::empty());
        },
    }
    Upgrade {
        response: Response { status: STATUS_BAD_REQUEST, headers, body: Vec::new() },
        protocol: None,
    }
}

/// Grants the upgrade to WebSocket, with the accept key `accept_key`.
pub fn switch_to_websocket(base: &Vec<Header>, accept_key: Vec<u8>) -> (r: Upgrade)
    ensures
        r@ == spec_switch_to_websocket(header_views(base@), accept_key@),
{
    let mut headers = copy_headers(base);
    let ghost before = header_views(headers@);
    headers.push(Header::from_text("upgrade", WEBSOCKET_UPGRADE_PROTOCOL));
    headers.push(Header { name: text_bytes("sec-websocket-accept"), value: accept_key });
    headers.push(Header::from_text("connection", "upgrade"));
    assert(header_views(headers@) =~= before + seq![
        (text("upgrade"), text(WEBSOCKET_UPGRADE_PROTOCOL)),
        (text("sec-websocket-accept"), accept_key@),
        (text("connection"), text("upgrade")),
    ]);
    Upgrade {
        response: Response {
            status: STATUS_SWITCHING_PROTOCOLS,
            headers,
            body: text_bytes(SWITCHING_BODY),
        },
        protocol: Some(Protocol::Websocket),
    }
}

/// Grants the upgrade to the relay protocol on the raw stream.
pub fn switch_to_relay(base: &Vec<Header>) -> (r: Upgrade)
    ensures
        r@ == spec_switch_to_relay(header_views(base@)),
{
    let mut headers = copy_headers(base);
    let ghost before = header_views(headers@);
    headers.push(Header::from_text("upgrade", HTTP_UPGRADE_PROTOCOL));
    assert(header_views(headers@) =~= before + seq![
        (text("upgrade"), text(HTTP_UPGRADE_PROTOCOL)),
    ]);
    Upgrade {
        response: Response { status: STATUS_SWITCHING_PROTOCOLS, headers, body: Vec::new() },
        protocol: Some(Protocol::Relay),
    }
}

/// Decides on a request at the relay endpoint that asks for `protocol`:
/// `base` are the headers that the hub adds to every response, `request`
/// the header lines of the request.
pub fn call_client_conn(base: &Vec<Header>, protocol: Protocol, request: &Vec<Header>) -> (r:
    Upgrade)
    ensures
        r@ == spec_upgrade(header_views(base@), protocol, header_views(request@)),
{
    match protocol {
        Protocol::Relay => switch_to_relay(base),
        Protocol::Websocket => {
            let key = match find_header(request, "sec-websocket-key".as_bytes()) {
                None => {
                    return refuse(base, None);
                },
                Some(k) => k,
            };
            let version = match find_header(request, "sec-websocket-version".as_bytes()) {
                None => {
                    return refuse(base, None);
                },
                Some(v) => v,
            };
            if !is_text(version.as_slice(), SUPPORTED_WEBSOCKET_VERSION) {
                return refuse(
                    base,
                    Some(Header::from_text("sec-websocket-version", SUPPORTED_WEBSOCKET_VERSION)),
                );
            }
            switch_to_websocket(base, derive_accept_key(key.as_slice()))
        },
    }
}

/// Why an upgraded connection is not taken over.
#[derive(Clone, Copy, Debug, PartialEq, Eq, Structural)]
pub enum UpgradeError {
    /// Bytes of the client were read before the upgrade was done: the hub
    /// does not take a connection over in the middle of its data.
    BufferedData,
}

/// Decides whether the hub takes an upgraded connection over, given the
/// bytes that were read from it beyond the request: only a connection
/// without such bytes is taken.
pub fn relay_connection_handler(read_buf: &[u8]) -> (r: Result<(), UpgradeError>)
    ensures
        r is Ok <==> read_buf@.len() == 0,
        r is Err ==> r == Err::<(), UpgradeError>(UpgradeError::BufferedData),
{
    if read_buf.len() == 0 {
        Ok(())
    } else {
        Err(UpgradeError::BufferedData)
    }
}

/// One entry of the table of handlers: the handler `handler` serves the
/// requests with this method and this path.
#[derive(Clone, Debug, PartialEq, Eq)]
pub struct Route {
    pub method: Method,
    pub path: Vec<u8>,
    pub handler: u64,
}

/// The mathematical content of a [`Route`].
pub struct RouteView {
    pub method: Method,
    pub path: Seq<u8>,
    pub handler: u64,
}

impl View for Route {
    type V = RouteView;

    open spec fn view(&self) -> RouteView {
        RouteView { method: self.method, path: self.path@, handler: self.handler }
    }
}

/// The handler that the table names for a method and a path, if it names one.
pub open spec fn spec_lookup(routes: Seq<RouteView>, method: Method, path: Seq<u8>) -> Option<u64>
    decreases routes.len(),
{
    if routes.len() == 0 {
        None
    } else if routes[0].method == method && routes[0].path == path {
        Some(routes[0].handler)
    } else {
        spec_lookup(routes.drop_first(), method, path)
    }
}

/// The table after `route` was put into it: in the place of the entry with
/// the same method and path, or at the end if there was none.
pub open spec fn spec_insert(routes: Seq<RouteView>, route: RouteView) -> Seq<RouteView>
    decreases routes.len(),
{
    if routes.len() == 0 {
        seq![route]
    } else if routes[0].method == route.method && routes[0].path == route.path {
        seq![route] + routes.drop_first()
    } else {
        seq![routes[0]] + spec_insert(routes.drop_first(), route)
    }
}

/// Two entries are for the same requests: same method, same path.
pub open spec fn same_route(a: RouteView, b: RouteView) -> bool {
    a.method == b.method && a.path == b.path
}

/// No method and path stand twice in the table.
pub open spec fn unique_routes(routes: Seq<RouteView>) -> bool {
    forall|i: int, j: int|
        0 <= i < routes.len() && 0 <= j < routes.len() && i != j ==> !same_route(
            #[trigger] routes[i],
            #[trigger] routes[j],
        )
}

/// What putting an entry into the table comes to: the entry stands in the
/// place of the first entry for the same requests, or at the end if there is
/// none.
pub proof fn lemma_insert_shape(routes: Seq<RouteView>, route: RouteView)
    ensures
        ({
            let after = spec_insert(routes, route);
            ||| exists|i: int|
                0 <= i < routes.len() && same_route(#[trigger] routes[i], route) && after
                    == routes.update(i, route)
            ||| (forall|j: int| 0 <= j < routes.len() ==> !same_route(#[trigger] routes[j], route))
                && after == routes.push(route)
        }),
    decreases routes.len(),
{
    let after = spec_insert(routes, route);
    if routes.len() == 0 {
        assert(after =~= routes.push(route));
    } else if same_route(routes[0], route) {
        assert(after =~= routes.update(0, route));
    } else {
        let rest = routes.drop_first();
        lemma_insert_shape(rest, route);
        let inner = spec_insert(rest, route);
        if exists|i: int|
            0 <= i < rest.len() && same_route(#[trigger] rest[i], route) && inner == rest.update(
                i,
                route,
            ) {
            let i = choose|i: int|
                0 <= i < rest.len() && same_route(#[trigger] rest[i], route) && inner
                    == rest.update(i, route);
            assert(routes[i + 1] == rest[i]);
            assert(after =~= routes.update(i + 1, route));
        } else {
            assert forall|j: int| 0 <= j < routes.len() implies !same_route(
                #[trigger] routes[j],
                route,
            ) by {
                if j > 0 {
                    assert(routes[j] == rest[j - 1]);
                }
            }
            assert(after =~= routes.push(route));
        }
    }
}

/// The table never names two handlers for the same requests: a table
/// without a method and path twice stays so when an entry is put into it.
pub proof fn lemma_insert_keeps_routes_unique(routes: Seq<RouteView>, route: RouteView)
    requires
        unique_routes(routes),
    ensures
        unique_routes(spec_insert(routes, route)),
{
    lemma_insert_shape(routes, route);
    let after = spec_insert(routes, route);
    if exists|i: int|
        0 <= i < routes.len() && same_route(#[trigger] routes[i], route) && after
            == routes.update(i, route) {
        let i = choose|i: int|
            0 <= i < routes.len() && same_route(#[trigger] routes[i], route) && after
                == routes.update(i, route);
        assert forall|a: int, b: int|
            0 <= a < after.len() && 0 <= b < after.len() && a != b implies !same_route(
            #[trigger] after[a],
            #[trigger] after[b],
        ) by {
            assert(same_route(after[a], routes[a]));
            assert(same_route(after[b], routes[b]));
            assert(!same_route(routes[a], routes[b]));
        }
    } else {
        assert forall|a: int, b: int|
            0 <= a < after.len() && 0 <= b < after.len() && a != b implies !same_route(
            #[trigger] after[a],
            #[trigger] after[b],
        ) by {
            if a < routes.len() && b < routes.len() {
                assert(!same_route(routes[a], routes[b]));
            } else if a < routes.len() {
                assert(!same_route(routes[a], route));
            } else {
                assert(!same_route(routes[b], route));
            }
        }
    }
}

/// The table of the handlers that serve other requests than those of the
/// relay endpoint. The handlers themselves are the caller's: the table knows
/// them by number.
#[derive(Debug)]
pub struct Handlers {
    routes: Vec<Route>,
}

impl View for Handlers {
    type V = Seq<RouteView>;

    closed spec fn view(&self) -> Seq<RouteView> {
        self.routes@.map_values(|r: Route| r@)
    }
}

impl Handlers {
    /// The invariant of the table: no method and path stand in it twice.
    pub open spec fn wf(&self) -> bool {
        unique_routes(self@)
    }

    /// An empty table.
    pub fn new() -> (h: Handlers)
        ensures
            h@ == Seq::<RouteView>::empty(),
            h.wf(),
    {
        let h = Handlers { routes: Vec::new() };
        assert(h@ =~= Seq::<RouteView>::empty());
        h
    }

    /// The number of entries.
    pub fn len(&self) -> (n: usize)
        ensures
            n == self@.len(),
    {
        self.routes.len()
    }

    /// Puts a handler into the table; it takes the place of the handler that
    /// had the same method and path, if there was one.
    pub fn insert(&mut self, method: Method, path: &[u8], handler: u64)
        ensures
            final(self)@ == spec_insert(old(self)@, RouteView { method, path: path@, handler }),
            old(self).wf() ==> final(self).wf(),
    {
        let ghost all = self@;
        let ghost route = RouteView { method, path: path@, handler };
        proof {
            if unique_routes(all) {
                lemma_insert_keeps_routes_unique(all, route);
            }
        }
        let mut i: usize = 0;
        assert(all.skip(0) =~= all);
        assert(all.subrange(0, 0) + spec_insert(all, route) =~= spec_insert(all, route));
        while i < self.routes.len()
            invariant
                i <= self.routes.len(),
                self@ == all,
                all == old(self)@,
                route == (RouteView { method, path: path@, handler }),
                spec_insert(all, route) == all.subrange(0, i as int) + spec_insert(
                    all.skip(i as int),
                    route,
                ),
            decreases self.routes.len() - i,
        {
            let ghost rest = all.skip(i as int);
            assert(rest[0] == self.routes@[i as int]@);
            assert(rest.drop_first() =~= all.skip(i + 1));
            if self.routes[i].method == method && bytes_eq(self.routes[i].path.as_slice(), path) {
                assert(rest.len() > 0 && rest[0].method == route.method && rest[0].path == route.path);
                assert(spec_insert(rest, route) == seq![route] + rest.drop_first());
                self.routes[i].handler = handler;
                assert(self@ =~= all.subrange(0, i as int) + (seq![route] + rest.drop_first()));
                return ;
            }
            assert(all.subrange(0, i + 1) =~= all.subrange(0, i as int) + seq![rest[0]]);
            assert(all.subrange(0, i as int) + (seq![rest[0]] + spec_insert(
                rest.drop_first(),
                route,
            )) =~= all.subrange(0, i + 1) + spec_insert(all.skip(i + 1), route));
            i = i + 1;
        }
        assert(all.skip(i as int).len() == 0);
        assert(all.subrange(0, i as int) =~= all);
        self.routes.push(Route { method, path: copy_bytes(path), handler });
        assert(self@ =~= all + seq![route]);
    }

    /// Looks the handler for a method and a path up.
    pub fn get(&self, method: Method, path: &[u8]) -> (r: Option<u64>)
        ensures
            r == spec_lookup(self@, method, path@),
    {
        let ghost all = self@;
        let mut i: usize = 0;
        assert(all.skip(0) =~= all);
        while i < self.routes.len()
            invariant
                i <= self.routes.len(),
                all == self@,
                spec_lookup(all, method, path@) == spec_lookup(all.skip(i as int), method, path@),
            decreases self.routes.len() - i,
        {
            let ghost rest = all.skip(i as int);
            assert(rest[0] == self.routes@[i as int]@);
            assert(rest.drop_first() =~= all.skip(i + 1));
            if self.routes[i].method == method && bytes_eq(self.routes[i].path.as_slice(), path) {
                return Some(self.routes[i].handler);
            }
            i = i + 1;
        }
        assert(all.skip(i as int).len() == 0);
        None
    }
}

/// The table answers with what was put into it last: after a handler was
/// put in for a method and a path, the table names it for them, and names
/// for every other method or path what it named before.
pub proof fn lemma_lookup_after_insert(
    routes: Seq<RouteView>,
    route: RouteView,
    method: Method,
    path: Seq<u8>,
)
    ensures
        spec_lookup(spec_insert(routes, route), method, path) == if method == route.method && path
            == route.path {
            Some(route.handler)
        } else {
            spec_lookup(routes, method, path)
        },
    decreases routes.len(),
{
    let after = spec_insert(routes, route);
    if routes.len() == 0 {
        assert(after.drop_first() =~= Seq::<RouteView>::empty());
    } else if routes[0].method == route.method && routes[0].path == route.path {
        assert(after.drop_first() =~= routes.drop_first());
    } else {
        assert(after.drop_first() =~= spec_insert(routes.drop_first(), route));
        lemma_lookup_after_insert(routes.drop_first(), route, method, path);
    }
}

/// The two ways in which the hub gets its certificate.
#[derive(Clone, Copy, Debug, PartialEq, Eq, Structural)]
pub enum TlsAcceptor {
    /// Certificates are issued by Let's Encrypt.
    LetsEncrypt,
    /// The certificate was given by hand.
    Manual,
}

/// How a connection that was accepted is served.
#[derive(Clone, Copy, Debug, PartialEq, Eq, Structural)]
pub enum ConnectionKind {
    /// HTTP on the stream as it is.
    Plain,
    /// HTTP after a TLS handshake with this acceptor.
    Tls(TlsAcceptor),
}

/// What the server's accept loop is woken by.
#[derive(Clone, Copy, Debug, PartialEq, Eq, Structural)]
pub enum ServerEvent {
    /// The server was told to stop.
    Cancelled,
    /// The task of a connection has ended, in a panic or not.
    TaskJoined { panicked: bool },
    /// A connection was accepted.
    Accepted,
    /// Accepting a connection failed.
    AcceptFailed,
}

/// What the server's accept loop does next.
#[derive(Clone, Copy, Debug, PartialEq, Eq, Structural)]
pub enum ServerAction {
    /// Leave the loop, close the dispatcher, and stop all connection tasks.
    Shutdown,
    /// Pass the panic of the connection task on.
    Propagate,
    /// Serve the new connection in a task of its own.
    Serve(ConnectionKind),
    /// Go on accepting.
    Continue,
}

/// What the hub does with a request.
#[derive(Debug)]
pub enum Dispatch {
    /// The request is for the relay endpoint: this is the answer, and the
    /// protocol to run after it, if the upgrade is granted.
    Relay(Upgrade),
    /// The handler with this number serves the request; it starts from this
    /// response, which carries the hub's own headers.
    Handler { handler: u64, response: Response },
    /// Nothing serves the request: this is the answer.
    NotFound(Response),
}

/// The response that every handler starts from: status 200, the hub's own
/// headers, no body.
pub open spec fn spec_default_response(base: Seq<(Seq<u8>, Seq<u8>)>) -> ResponseView {
    ResponseView { status: STATUS_OK, headers: base, body: Seq::empty() }
}

/// The answer to a request that nothing serves: status 404, the hub's own
/// headers, and the body "Not Found".
pub open spec fn spec_not_found(base: Seq<(Seq<u8>, Seq<u8>)>) -> ResponseView {
    ResponseView { status: STATUS_NOT_FOUND, headers: base, body: text(NOT_FOUND_BODY) }
}

/// A request for the relay endpoint: `GET` on one of its two paths, with an
/// `Upgrade` header that names one of the two protocols.
pub open spec fn is_relay_request(
    method: Method,
    path: Seq<u8>,
    request: Seq<(Seq<u8>, Seq<u8>)>,
) -> bool {
    &&& method == Method::Get
    &&& path == text(LEGACY_RELAY_PATH) || path == text(RELAY_PATH)
    &&& spec_requested_protocol(request) is Some
}

/// The service that answers the requests of one hub.
#[derive(Debug)]
pub struct RelayService {
    handlers: Handlers,
    headers: Headers,
    write_timeout: u64,
    rate_limit: Option<ClientConnRateLimit>,
}

/// The mathematical content of a [`RelayService`].
pub struct ServiceView {
    pub handlers: Seq<RouteView>,
    pub headers: Seq<(Seq<u8>, Seq<u8>)>,
    pub write_timeout: u64,
    pub rate_limit: Option<ClientConnRateLimit>,
}

impl View for RelayService {
    type V = ServiceView;

    closed spec fn view(&self) -> ServiceView {
        ServiceView {
            handlers: self.handlers@,
            headers: header_entries(self.headers),
            write_timeout: self.write_timeout,
            rate_limit: self.rate_limit,
        }
    }
}

impl RelayService {
    pub fn new(
        handlers: Handlers,
        headers: Headers,
        write_timeout: u64,
        rate_limit: Option<ClientConnRateLimit>,
    ) -> (s: RelayService)
        ensures
            s@ == (ServiceView {
                handlers: handlers@,
                headers: header_entries(headers),
                write_timeout,
                rate_limit,
            }),
    {
        RelayService { handlers, headers, write_timeout, rate_limit }
    }

    /// The settings with which this service admits clients.
    pub fn accept_config(&self) -> (c: AcceptConfig)
        ensures
            c.write_timeout == self@.write_timeout,
            c.rate_limit == self@.rate_limit,
    {
        AcceptConfig { write_timeout: self.write_timeout, rate_limit: self.rate_limit }
    }

    /// Admits a client after the upgrade with the settings of this service:
    /// the state of the new connection has the service's write deadline and
    /// rate limit. See [`accepted_as`] for what an admission does.
    pub fn accept(
        &self,
        dispatcher: &mut Dispatcher,
        key_cache: &mut KeyCache,
        frame: &Frame,
        verdicts: Verdicts,
        now: u64,
    ) -> (r: Result<Accepted, HandshakeError>)
        requires
            old(dispatcher).wf(),
            old(key_cache).wf(),
        ensures
            final(dispatcher).wf(),
            final(key_cache).wf(),
            r matches Ok(accepted) ==> accepted.conn.wf(),
            accepted_as(
                r,
                old(dispatcher)@,
                final(dispatcher)@,
                old(key_cache)@,
                final(key_cache)@,
                AcceptConfig {
                    write_timeout: self@.write_timeout,
                    rate_limit: self@.rate_limit,
                },
                frame@,
                verdicts,
                now,
            ),
    {
        accept(dispatcher, key_cache, self.accept_config(), frame, verdicts, now)
    }

    /// The response that every handler starts from.
    pub fn default_response(&self) -> (r: Response)
        ensures
            r@ == spec_default_response(self@.headers),
    {
        Response { status: STATUS_OK, headers: headers_list(&self.headers), body: Vec::new() }
    }

    /// The answer to a request that nothing serves, made from the response
    /// `res` that the caller started: its headers stay, its status and body
    /// are set.
    pub fn not_found_fn(&self, res: Response) -> (r: Response)
        ensures
            r@ == (ResponseView {
                status: STATUS_NOT_FOUND,
                headers: res@.headers,
                body: text(NOT_FOUND_BODY),
            }),
    {
        Response { status: STATUS_NOT_FOUND, headers: res.headers, body: text_bytes(NOT_FOUND_BODY) }
    }

    /// Decides on a request. A `GET` on a path of the relay endpoint that
    /// asks for one of the two protocols goes to the relay endpoint; every
    /// other request goes to the table of handlers, and gets 404 if the
    /// table names no handler for it.
    pub fn call(&self, method: Method, path: &[u8], request: &Vec<Header>) -> (r: Dispatch)
        ensures
            if is_relay_request(method, path@, header_views(request@)) {
                r matches Dispatch::Relay(upgrade) && upgrade@ == spec_upgrade(
                    self@.headers,
                    spec_requested_protocol(header_views(request@))->0,
                    header_views(request@),
                )
            } else {
                match spec_lookup(self@.handlers, method, path@) {
                    Some(id) => r matches Dispatch::Handler { handler, response } && handler == id
                        && response@ == spec_default_response(self@.headers),
                    None => r matches Dispatch::NotFound(response) && response@ == spec_not_found(
                        self@.headers,
                    ),
                }
            },
    {
        if method == Method::Get && (is_text(path, LEGACY_RELAY_PATH) || is_text(path, RELAY_PATH)) {
            match requested_protocol(request) {
                Some(protocol) => {
                    let base = headers_list(&self.headers);
                    return Dispatch::Relay(call_client_conn(&base, protocol, request));
                },
                None => {},
            }
        }
        match self.handlers.get(method, path) {
            Some(handler) => Dispatch::Handler { handler, response: self.default_response() },
            None => Dispatch::NotFound(self.not_found_fn(self.default_response())),
        }
    }
}

/// The mathematical content of a [`ServerBuilder`].
pub struct BuilderView {
    pub addr: SocketAddress,
    pub tls_config: Option<TlsAcceptor>,
    pub handlers: Seq<RouteView>,
    pub headers: Seq<(Seq<u8>, Seq<u8>)>,
    pub client_rx_ratelimit: Option<ClientConnRateLimit>,
    pub key_cache_capacity: usize,
}

/// Collects the settings of a hub before it is started.
#[derive(Debug)]
pub struct ServerBuilder {
    addr: SocketAddress,
    tls_config: Option<TlsAcceptor>,
    handlers: Handlers,
    headers: Headers,
    client_rx_ratelimit: Option<ClientConnRateLimit>,
    key_cache_capacity: usize,
}

impl View for ServerBuilder {
    type V = BuilderView;

    closed spec fn view(&self) -> BuilderView {
        BuilderView {
            addr: self.addr,
            tls_config: self.tls_config,
            handlers: self.handlers@,
            headers: header_entries(self.headers),
            client_rx_ratelimit: self.client_rx_ratelimit,
            key_cache_capacity: self.key_cache_capacity,
        }
    }
}

impl ServerBuilder {
    /// A builder for a hub that listens on `addr`: plain HTTP, no handlers
    /// beside the relay endpoint, no headers of its own, no rate limit, and
    /// a key cache of the default capacity.
    pub fn new(addr: SocketAddress) -> (b: ServerBuilder)
        ensures
            b@ == (BuilderView {
                addr,
                tls_config: None,
                handlers: Seq::empty(),
                headers: Seq::empty(),
                client_rx_ratelimit: None,
                key_cache_capacity: DEFAULT_KEY_CACHE_CAPACITY,
            }),
    {
        ServerBuilder {
            addr,
            tls_config: None,
            handlers: Handlers::new(),
            headers: headers_new(),
            client_rx_ratelimit: None,
            key_cache_capacity: DEFAULT_KEY_CACHE_CAPACITY,
        }
    }

    /// Serves all requests over TLS with this acceptor, or over plain HTTP.
    pub fn tls_config(self, config: Option<TlsAcceptor>) -> (b: ServerBuilder)
        ensures
            b@ == (BuilderView { tls_config: config, ..self@ }),
    {
        ServerBuilder { tls_config: config, ..self }
    }

    /// Sets the limit on what each client may send.
    pub fn client_rx_ratelimit(self, config: ClientConnRateLimit) -> (b: ServerBuilder)
        ensures
            b@ == (BuilderView { client_rx_ratelimit: Some(config), ..self@ }),
    {
        ServerBuilder { client_rx_ratelimit: Some(config), ..self }
    }

    /// Adds a handler for a method and a path.
    pub fn request_handler(self, method: Method, uri_path: &[u8], handler: u64) -> (b:
        ServerBuilder)
        ensures
            b@ == (BuilderView {
                handlers: spec_insert(
                    self@.handlers,
                    RouteView { method, path: uri_path@, handler },
                ),
                ..self@
            }),
    {
        let mut b = self;
        b.handlers.insert(method, uri_path, handler);
        b
    }

    /// Adds headers to the responses of the hub; a header that is set
    /// already gets the new value. The hub keeps fewer than [`HEADER_ROOM`]
    /// header lines; beyond that, nothing is promised of which are kept.
    pub fn headers(self, headers: &Headers) -> (b: ServerBuilder)
        ensures
            b@ == (BuilderView { headers: b@.headers, ..self@ }),
            self@.headers.len() + header_entries(*headers).len() <= HEADER_ROOM ==> b@.headers
                == try_put_all(self@.headers, header_entries(*headers)),
    {
        let mut b = self;
        merge(&mut b.headers, headers);
        b
    }

    /// Sets the capacity of the cache of public keys.
    pub fn key_cache_capacity(self, capacity: usize) -> (b: ServerBuilder)
        ensures
            b@ == (BuilderView { key_cache_capacity: capacity, ..self@ }),
    {
        ServerBuilder { key_cache_capacity: capacity, ..self }
    }

    /// Makes the hub: its service, an empty registry and an empty key cache.
    /// Nothing listens yet; binding the socket and running the accept loop
    /// are the caller's.
    pub fn spawn(self) -> (s: Server)
        ensures
            s.wf(),
            s.addr == self@.addr,
            s.tls_config == self@.tls_config,
            !s.cancelled,
            s.service@ == (ServiceView {
                handlers: self@.handlers,
                headers: self@.headers,
                write_timeout: WRITE_TIMEOUT_MICROS,
                rate_limit: self@.client_rx_ratelimit,
            }),
            s.dispatcher@ == DispatcherView::initial(),
            s.key_cache@ == KeyCacheView::empty(self@.key_cache_capacity as nat),
    {
        Server {
            addr: self.addr,
            tls_config: self.tls_config,
            cancelled: false,
            service: RelayService::new(
                self.handlers,
                self.headers,
                WRITE_TIMEOUT_MICROS,
                self.client_rx_ratelimit,
            ),
            dispatcher: Dispatcher::new(),
            key_cache: KeyCache::new(self.key_cache_capacity),
        }
    }
}

/// A hub: what its accept loop and its connections work on.
pub struct Server {
    pub addr: SocketAddress,
    pub tls_config: Option<TlsAcceptor>,
    pub cancelled: bool,
    pub service: RelayService,
    pub dispatcher: Dispatcher,
    pub key_cache: KeyCache,
}

impl Server {
    pub open spec fn wf(&self) -> bool {
        self.dispatcher.wf() && self.key_cache.wf()
    }

    /// The address that the hub is to listen on.
    pub fn local_addr(&self) -> (a: SocketAddress)
        ensures
            a == self.addr,
    {
        self.addr
    }

    /// How the connections of this hub are served.
    pub fn connection_kind(&self) -> (k: ConnectionKind)
        ensures
            k == match self.tls_config {
                Some(acceptor) => ConnectionKind::Tls(acceptor),
                None => ConnectionKind::Plain,
            },
    {
        match self.tls_config {
            Some(acceptor) => ConnectionKind::Tls(acceptor),
            None => ConnectionKind::Plain,
        }
    }

    /// Tells the hub to stop.
    pub fn shutdown(&mut self)
        ensures
            *final(self) == (Server { cancelled: true, ..*old(self) }),
    {
        self.cancelled = true;
    }

    /// One turn of the accept loop of this hub.
    pub fn on_event(&self, event: ServerEvent) -> (r: ServerAction)
        ensures
            r == spec_accept_loop(
                self.cancelled,
                match self.tls_config {
                    Some(acceptor) => ConnectionKind::Tls(acceptor),
                    None => ConnectionKind::Plain,
                },
                event,
            ),
    {
        accept_loop(self.cancelled, self.connection_kind(), event)
    }
}

/// What the accept loop does on an event. A hub that was told to stop shuts
/// down whatever the event; otherwise a panic in a connection task is passed
/// on, a new connection is served, and anything else is passed over.
pub open spec fn spec_accept_loop(cancelled: bool, kind: ConnectionKind, event: ServerEvent)
    -> ServerAction {
    if cancelled {
        ServerAction::Shutdown
    } else {
        match event {
            ServerEvent::Cancelled => ServerAction::Shutdown,
            ServerEvent::TaskJoined { panicked } => if panicked {
                ServerAction::Propagate
            } else {
                ServerAction::Continue
            },
            ServerEvent::Accepted => ServerAction::Serve(kind),
            ServerEvent::AcceptFailed => ServerAction::Continue,
        }
    }
}

/// One turn of the accept loop of a hub that serves connections of the kind
/// `kind`.
pub fn accept_loop(cancelled: bool, kind: ConnectionKind, event: ServerEvent) -> (r: ServerAction)
    ensures
        r == spec_accept_loop(cancelled, kind, event),
{
    if cancelled {
        return ServerAction::Shutdown;
    }
    match event {
        ServerEvent::Cancelled => ServerAction::Shutdown,
        ServerEvent::TaskJoined { panicked } => if panicked {
            ServerAction::Propagate
        } else {
            ServerAction::Continue
        },
        ServerEvent::Accepted => ServerAction::Serve(kind),
        ServerEvent::AcceptFailed => ServerAction::Continue,
    }
}

} // verus!
