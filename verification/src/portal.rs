//! The small handlers that the hub serves beside the relay endpoint: the
//! landing page, the latency probe, the robots file, and the answer to
//! captive-portal detection.

use vstd::prelude::*;
use crate::response::{
    find_header, header_views, spec_find_header, Header, Method, Response, ResponseView,
    STATUS_NOT_FOUND, STATUS_NO_CONTENT, STATUS_OK,
};
use crate::text::{append_bytes, is_text, text, text_bytes};

verus! {

/// The request header that carries the challenge of a captive-portal check.
pub const NO_CONTENT_CHALLENGE_HEADER: &'static str = "X-Tailscale-Challenge";

/// The response header that answers the challenge.
pub const NO_CONTENT_RESPONSE_HEADER: &'static str = "X-Tailscale-Response";

/// What stands before the challenge in the answer.
pub const RESPONSE_PREFIX: &'static str = "response ";

pub const NOTFOUND: &'static str = "Not Found";

pub const DERP_DISABLED: &'static str = "derp server disabled";

pub const ROBOTS_TXT: &'static str = "User-agent: *\nDisallow: /\n";

pub const INDEX: &'static str =
    "<html><body>\n<h1>DERP</h1>\n<p>\n  This is an\n  <a href=\"https://iroh.computer/\">Iroh</a> DERP\n  server.\n</p>\n";

pub const GENERATE_204_PATH: &'static str = "/generate_204";

pub const HSTS_HEADER: &'static str = "Strict-Transport-Security";

pub const HSTS_VALUE: &'static str = "max-age=63072000; includeSubDomains";

pub const CSP_HEADER: &'static str = "Content-Security-Policy";

pub const CSP_VALUE: &'static str =
    "default-src 'none'; frame-ancestors 'none'; form-action 'none'; base-uri 'self'; block-all-mixed-content; plugin-types 'none'";

/// The numbers under which the table of handlers knows the hub's own handlers.
pub const HANDLER_ROOT: u64 = 0;

pub const HANDLER_PROBE: u64 = 1;

pub const HANDLER_ROBOTS: u64 = 2;

pub const HANDLER_NO_CONTENT: u64 = 3;

/// The characters that a challenge may be made of: ASCII letters and
/// digits, the full stop, the hyphen and the underscore.
pub open spec fn spec_is_challenge_char(c: char) -> bool {
    ||| 'a' <= c <= 'z'
    ||| 'A' <= c <= 'Z'
    ||| '0' <= c <= '9'
    ||| c == '.'
    ||| c == '-'
    ||| c == '_'
}

/// Tells whether a challenge may hold the character `c`.
pub fn is_challenge_char(c: char) -> (r: bool)
    ensures
        r == spec_is_challenge_char(c),
{
    ('a' <= c && c <= 'z') || ('A' <= c && c <= 'Z') || ('0' <= c && c <= '9') || c == '.' || c
        == '-' || c == '_'
}

/// A challenge that is answered: not empty, shorter than 64 bytes, and made
/// of challenge characters only.
pub open spec fn spec_valid_challenge(v: Seq<u8>) -> bool {
    &&& 0 < v.len() < 64
    &&& forall|i: int| 0 <= i < v.len() ==> spec_is_challenge_char(#[trigger] v[i] as char)
}

/// Tells whether a challenge is answered.
pub fn valid_challenge(v: &[u8]) -> (r: bool)
    ensures
        r == spec_valid_challenge(v@),
{
    if v.len() == 0 || v.len() >= 64 {
        return false;
    }
    let mut i: usize = 0;
    while i < v.len()
        invariant
            i <= v.len(),
            forall|j: int| 0 <= j < i ==> spec_is_challenge_char(#[trigger] v@[j] as char),
        decreases v.len() - i,
    {
        if !is_challenge_char(v[i] as char) {
            return false;
        }
        i = i + 1;
    }
    true
}

/// The headers that the answer to a captive-portal check adds: the challenge
/// of the request, given back behind "response ", if the request carries a
/// challenge and the challenge is valid; nothing otherwise.
pub open spec fn spec_challenge_answer(request: Seq<(Seq<u8>, Seq<u8>)>) -> Seq<(Seq<u8>, Seq<u8>)> {
    match spec_find_header(request, text(NO_CONTENT_CHALLENGE_HEADER)) {
        Some(challenge) => if spec_valid_challenge(challenge) {
            seq![(text(NO_CONTENT_RESPONSE_HEADER), text(RESPONSE_PREFIX) + challenge)]
        } else {
            Seq::empty()
        },
        None => Seq::empty(),
    }
}

/// The response `started` with more headers, another status and another body.
pub open spec fn finished(
    started: ResponseView,
    more: Seq<(Seq<u8>, Seq<u8>)>,
    status: u16,
    body: Seq<u8>,
) -> ResponseView {
    ResponseView { status, headers: started.headers + more, body }
}

fn finish(started: Response, more: Option<Header>, status: u16, body: Vec<u8>) -> (r: Response)
    ensures
        r@ == finished(
            started@,
            match more {
                Some(h) => seq![h@],
                None => Seq::empty(),
            },
            status,
            body@,
        ),
{
    let mut headers = started.headers;
    let ghost before = header_views(headers@);
    match more {
        Some(h) => {
            headers.push(h);
            assert(header_views(headers@) =~= before + seq![h@]);
        },
        None => {
            assert(header_views(headers@) =~= before + Seq::empty());
        },
    }
    Response { status, headers, body }
}

/// Answers a captive-portal check: status 204 and no body, and the answer
/// to the challenge if the request carries a valid one.
pub fn serve_no_content_handler(request: &Vec<Header>, response: Response) -> (r: Response)
    ensures
        r@ == finished(
            response@,
            spec_challenge_answer(header_views(request@)),
            STATUS_NO_CONTENT,
            Seq::empty(),
        ),
{
    let mut answer: Option<Header> = None;
    match find_header(request, NO_CONTENT_CHALLENGE_HEADER.as_bytes()) {
        Some(challenge) => {
            if valid_challenge(challenge.as_slice()) {
                let mut value = text_bytes(RESPONSE_PREFIX);
                append_bytes(&mut value, challenge.as_slice());
                answer = Some(Header { name: text_bytes(NO_CONTENT_RESPONSE_HEADER), value });
            }
        },
        None => {},
    }
    finish(response, answer, STATUS_NO_CONTENT, Vec::new())
}

/// The answer of a hub whose relay endpoint is switched off.
pub fn derp_disabled_handler(response: Response) -> (r: Response)
    ensures
        r@ == finished(response@, Seq::empty(), STATUS_NOT_FOUND, text(DERP_DISABLED)),
{
    finish(response, None, STATUS_NOT_FOUND, text_bytes(DERP_DISABLED))
}

/// The landing page.
pub fn root_handler(response: Response) -> (r: Response)
    ensures
        r@ == finished(
            response@,
            seq![(text("Content-Type"), text("text/html; charset=utf-8"))],
            STATUS_OK,
            text(INDEX),
        ),
{
    finish(
        response,
        Some(Header::from_text("Content-Type", "text/html; charset=utf-8")),
        STATUS_OK,
        text_bytes(INDEX),
    )
}

/// The answer to a latency probe.
pub fn probe_handler(response: Response) -> (r: Response)
    ensures
        r@ == finished(
            response@,
            seq![(text("Access-Control-Allow-Origin"), text("*"))],
            STATUS_OK,
            Seq::empty(),
        ),
{
    finish(
        response,
        Some(Header::from_text("Access-Control-Allow-Origin", "*")),
        STATUS_OK,
        Vec::new(),
    )
}

/// The robots file: nothing is to be crawled.
pub fn robots_handler(response: Response) -> (r: Response)
    ensures
        r@ == finished(response@, Seq::empty(), STATUS_OK, text(ROBOTS_TXT)),
{
    finish(response, None, STATUS_OK, text_bytes(ROBOTS_TXT))
}

/// What the handler with the number `handler` answers to a request, starting
/// from `response`; `None` for a number that is none of the hub's own.
pub open spec fn spec_run_handler(
    handler: u64,
    request: Seq<(Seq<u8>, Seq<u8>)>,
    response: ResponseView,
) -> Option<ResponseView> {
    if handler == HANDLER_ROOT {
        Some(
            finished(
                response,
                seq![(text("Content-Type"), text("text/html; charset=utf-8"))],
                STATUS_OK,
                text(INDEX),
            ),
        )
    } else if handler == HANDLER_PROBE {
        Some(
            finished(
                response,
                seq![(text("Access-Control-Allow-Origin"), text("*"))],
                STATUS_OK,
                Seq::empty(),
            ),
        )
    } else if handler == HANDLER_ROBOTS {
        Some(finished(response, Seq::empty(), STATUS_OK, text(ROBOTS_TXT)))
    } else if handler == HANDLER_NO_CONTENT {
        Some(finished(response, spec_challenge_answer(request), STATUS_NO_CONTENT, Seq::empty()))
    } else {
        None
    }
}

/// Runs one of the hub's own handlers.
pub fn run_handler(handler: u64, request: &Vec<Header>, response: Response) -> (r: Option<Response>)
    ensures
        match r {
            Some(res) => spec_run_handler(handler, header_views(request@), response@) == Some(
                res@,
            ),
            None => spec_run_handler(handler, header_views(request@), response@) is None,
        },
{
    if handler == HANDLER_ROOT {
        Some(root_handler(response))
    } else if handler == HANDLER_PROBE {
        Some(probe_handler(response))
    } else if handler == HANDLER_ROBOTS {
        Some(robots_handler(response))
    } else if handler == HANDLER_NO_CONTENT {
        Some(serve_no_content_handler(request, response))
    } else {
        None
    }
}

/// The headers that the hub adds to every response when it serves TLS.
pub open spec fn spec_tls_headers() -> Seq<(Seq<u8>, Seq<u8>)> {
    seq![(text(HSTS_HEADER), text(HSTS_VALUE)), (text(CSP_HEADER), text(CSP_VALUE))]
}

/// The headers that the hub adds to every response when it serves TLS.
pub fn tls_headers() -> (r: Vec<Header>)
    ensures
        header_views(r@) == spec_tls_headers(),
{
    let mut out: Vec<Header> = Vec::new();
    out.push(Header::from_text(HSTS_HEADER, HSTS_VALUE));
    out.push(Header::from_text(CSP_HEADER, CSP_VALUE));
    assert(header_views(out@) =~= spec_tls_headers());
    out
}

/// The answer of the captive-portal service, which listens on plain HTTP
/// beside a hub that serves TLS: `GET /generate_204` gets the answer to a
/// captive-portal check, everything else gets 404.
pub open spec fn spec_captive_portal(method: Method, path: Seq<u8>, request: Seq<(Seq<u8>, Seq<u8>)>)
    -> ResponseView {
    if method == Method::Get && path == text(GENERATE_204_PATH) {
        ResponseView {
            status: STATUS_NO_CONTENT,
            headers: spec_challenge_answer(request),
            body: Seq::empty(),
        }
    } else {
        ResponseView { status: STATUS_NOT_FOUND, headers: Seq::empty(), body: text(NOTFOUND) }
    }
}

/// The service that answers captive-portal checks.
#[derive(Clone, Copy, Debug)]
pub struct CaptivePortalService;

impl CaptivePortalService {
    /// Answers one request.
    pub fn call(&self, method: Method, path: &[u8], request: &Vec<Header>) -> (r: Response)
        ensures
            r@ == spec_captive_portal(method, path@, header_views(request@)),
    {
        let started = Response { status: STATUS_OK, headers: Vec::new(), body: Vec::new() };
        assert(started@.headers =~= Seq::empty());
        if method == Method::Get && is_text(path, GENERATE_204_PATH) {
            let r = serve_no_content_handler(request, started);
            assert(r@.headers =~= spec_challenge_answer(header_views(request@)));
            r
        } else {
            let r = finish(started, None, STATUS_NOT_FOUND, text_bytes(NOTFOUND));
            assert(r@.headers =~= Seq::empty());
            r
        }
    }
}

} // verus!
