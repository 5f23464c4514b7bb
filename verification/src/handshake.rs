//! The client handshake, seen from the server: the server sends its key, the
//! client answers with its own key and a signed message that names the
//! protocol version it speaks.
//!
//! The hub does no cryptography of its own. Whether the client's key is a
//! valid key, whether the signature verifies, and what the message says are
//! found out by the caller and handed in; what follows from them is decided
//! here.

use vstd::prelude::*;
use crate::client_conn::{ClientConn, CloseReason, ConnView, ErrorKind};
use crate::dispatcher::{ClientConnConfig, ConnectionSlot, Dispatcher, DispatcherView};
use crate::frame::{
    decode, decode_message, spec_decode, spec_decode_message, Frame, FrameError, FrameView,
    PROTOCOL_VERSION,
};
use crate::signature::{spec_verdicts, verify_client};
use crate::key::PublicKey;
use crate::key_cache::{KeyCache, KeyCacheView};
use crate::mailbox::PER_CLIENT_SEND_QUEUE_DEPTH;
use crate::rate_limit::ClientConnRateLimit;
use crate::text::{append_bytes, text, text_bytes};

verus! {

/// How long the server waits for the client's answer, in microseconds.
pub const HANDSHAKE_TIMEOUT_MICROS: u64 = 10_000_000;

/// The text that stands before the client's message in what the client signs.
pub const CLIENT_INFO_DOMAIN: &'static str = "iroh-relay-client-info";

/// What the client says of itself in the handshake.
#[derive(Clone, Copy, Debug, PartialEq, Eq, Structural)]
pub struct ClientInfo {
    /// The version of the relay protocol that the client speaks.
    pub version: u32,
}

/// Why a handshake failed. The connection is closed in every case.
#[derive(Clone, Copy, Debug, PartialEq, Eq, Structural)]
pub enum HandshakeError {
    /// The client's first frame is not a `ClientInfo` frame.
    UnexpectedFrame,
    /// The client's key is no valid key.
    InvalidKey,
    /// The signature over the client's message does not verify.
    BadSignature,
    /// The client's message cannot be read.
    MalformedInfo,
    /// The client speaks another version of the protocol.
    VersionMismatch,
    /// The dispatcher has no epoch left for a new connection.
    ServerExhausted,
}

impl HandshakeError {
    /// The kind of error that a failed handshake is counted as: the client
    /// broke the protocol, unless it is the hub that has no room.
    pub open spec fn spec_kind(self) -> ErrorKind {
        match self {
            HandshakeError::ServerExhausted => ErrorKind::Capacity,
            _ => ErrorKind::Protocol,
        }
    }

    /// The kind of error that a failed handshake is counted as.
    pub fn kind(&self) -> (k: ErrorKind)
        ensures
            k == self.spec_kind(),
    {
        match self {
            HandshakeError::ServerExhausted => ErrorKind::Capacity,
            _ => ErrorKind::Protocol,
        }
    }
}

/// What the server has of the client's first frame.
#[derive(Clone, Debug, PartialEq, Eq)]
pub enum FirstFrame {
    /// The bytes hold no whole frame yet: read more.
    NeedMore,
    /// The frame, and the number of bytes that it took; the bytes behind
    /// them belong to the frames that follow.
    Read { frame: Frame, consumed: usize },
    /// The connection is closed.
    Close(CloseReason),
}

/// Reads the client's first frame from the bytes `buf` that have arrived on
/// the stream (`at_eof`: no more will come). Bytes that are no frame close
/// the connection, and so does the end of the stream before a whole frame.
pub fn first_frame(buf: &[u8], at_eof: bool) -> (r: FirstFrame)
    ensures
        match spec_decode(buf@) {
            Ok((f, n)) => r matches FirstFrame::Read { frame, consumed } && frame@ == f && consumed
                == n,
            Err(FrameError::ShortRead) => r == if !at_eof {
                FirstFrame::NeedMore
            } else if buf@.len() == 0 {
                FirstFrame::Close(CloseReason::Eof)
            } else {
                FirstFrame::Close(CloseReason::Protocol(FrameError::ShortRead))
            },
            Err(e) => r == FirstFrame::Close(CloseReason::Protocol(e)),
        },
{
    match decode(buf) {
        Ok((frame, consumed)) => FirstFrame::Read { frame, consumed },
        Err(FrameError::ShortRead) => {
            if !at_eof {
                FirstFrame::NeedMore
            } else if buf.len() == 0 {
                FirstFrame::Close(CloseReason::Eof)
            } else {
                FirstFrame::Close(CloseReason::Protocol(FrameError::ShortRead))
            }
        },
        Err(e) => FirstFrame::Close(CloseReason::Protocol(e)),
    }
}

/// Reads the client's first frame from a binary WebSocket message, which
/// must hold exactly one frame.
pub fn first_message(message: &[u8]) -> (r: FirstFrame)
    ensures
        match spec_decode_message(message@) {
            Ok(f) => r matches FirstFrame::Read { frame, consumed } && frame@ == f && consumed
                == message@.len(),
            Err(e) => r == FirstFrame::Close(CloseReason::Protocol(e)),
        },
{
    match decode_message(message) {
        Ok(frame) => FirstFrame::Read { frame, consumed: message.len() },
        Err(e) => FirstFrame::Close(CloseReason::Protocol(e)),
    }
}

/// What the caller found out about a `ClientInfo` frame.
#[derive(Clone, Copy, Debug, PartialEq, Eq, Structural)]
pub struct Verdicts {
    /// The client's key is a valid key.
    pub key_is_valid: bool,
    /// The signature verifies, with the client's key, over the SHA-256
    /// digest of [`signed_bytes`] of the message.
    pub signature_verifies: bool,
    /// What the message says, if it can be read.
    pub info: Option<ClientInfo>,
}

/// The first frame of a connection: the server's key.
pub fn server_key_frame(server_key: &PublicKey) -> (f: Frame)
    ensures
        f@ == (FrameView::ServerKey { key: server_key@ }),
        f@.wf(),
{
    proof {
        server_key.lemma_len();
    }
    Frame::ServerKey { key: server_key.as_bytes() }
}

/// The bytes whose digest the client signs: the domain text, then the message.
pub open spec fn spec_signed_bytes(message: Seq<u8>) -> Seq<u8> {
    text(CLIENT_INFO_DOMAIN) + message
}

/// Builds the bytes whose digest the client signs.
pub fn signed_bytes(message: &[u8]) -> (r: Vec<u8>)
    ensures
        r@ == spec_signed_bytes(message@),
{
    let mut out = text_bytes(CLIENT_INFO_DOMAIN);
    append_bytes(&mut out, message);
    out
}

/// Tells whether the deadline of a handshake that began at `started` has
/// passed at `now`.
pub fn handshake_timed_out(started: u64, now: u64) -> (r: bool)
    ensures
        r == (now - started >= HANDSHAKE_TIMEOUT_MICROS),
{
    now >= started && now - started >= HANDSHAKE_TIMEOUT_MICROS
}

/// The outcome of the handshake for the frame `frame`, given what was found
/// out about it and whether the cache holds the key already. The first
/// failing check decides: the kind of the frame, the key, the signature, the
/// message.
pub open spec fn spec_recv_client_key(frame: FrameView, cached: bool, verdicts: Verdicts) -> Result<
    (Seq<u8>, ClientInfo),
    HandshakeError,
> {
    match frame {
        FrameView::ClientInfo { client_public_key, signature, message } => {
            if !cached && !verdicts.key_is_valid {
                Err(HandshakeError::InvalidKey)
            } else if !verdicts.signature_verifies {
                Err(HandshakeError::BadSignature)
            } else {
                match verdicts.info {
                    None => Err(HandshakeError::MalformedInfo),
                    Some(info) => Ok((client_public_key, info)),
                }
            }
        },
        _ => Err(HandshakeError::UnexpectedFrame),
    }
}

/// The key of the client that sent `frame`, if `frame` is a `ClientInfo` frame.
pub open spec fn client_key_of(frame: FrameView) -> Option<Seq<u8>> {
    match frame {
        FrameView::ClientInfo { client_public_key, .. } => Some(client_public_key),
        _ => None,
    }
}

/// The cache after the handshake for `frame`: the client's key has been
/// looked up, and taken in if it was new and valid.
pub open spec fn cache_after(cache: KeyCacheView, frame: FrameView, verdicts: Verdicts)
    -> KeyCacheView {
    match client_key_of(frame) {
        Some(key) => if cache.entries.contains(key) {
            cache.promote(key)
        } else if verdicts.key_is_valid {
            cache.take_in(key)
        } else {
            cache
        },
        None => cache,
    }
}

/// Reads the client's answer to the server key: returns the client's key and
/// what the client said of itself, or the reason for closing the connection.
pub fn recv_client_key(frame: &Frame, key_cache: &mut KeyCache, verdicts: Verdicts) -> (r: Result<
    (PublicKey, ClientInfo),
    HandshakeError,
>)
    requires
        old(key_cache).wf(),
    ensures
        final(key_cache).wf(),
        final(key_cache)@ == cache_after(old(key_cache)@, frame@, verdicts),
        match r {
            Ok((key, info)) => spec_recv_client_key(
                frame@,
                client_key_of(frame@) is Some && old(key_cache)@.entries.contains(
                    client_key_of(frame@)->0,
                ),
                verdicts,
            ) == Ok::<(Seq<u8>, ClientInfo), HandshakeError>((key@, info)),
            Err(e) => spec_recv_client_key(
                frame@,
                client_key_of(frame@) is Some && old(key_cache)@.entries.contains(
                    client_key_of(frame@)->0,
                ),
                verdicts,
            ) == Err::<(Seq<u8>, ClientInfo), HandshakeError>(e),
        },
{
    match frame {
        Frame::ClientInfo { client_public_key, signature, message } => {
            let key = match key_cache.get_or_insert(client_public_key, verdicts.key_is_valid) {
                Ok(key) => key,
                Err(_) => {
                    return Err(HandshakeError::InvalidKey);
                },
            };
            if !verdicts.signature_verifies {
                return Err(HandshakeError::BadSignature);
            }
            match verdicts.info {
                None => Err(HandshakeError::MalformedInfo),
                Some(info) => Ok((key, info)),
            }
        },
        _ => Err(HandshakeError::UnexpectedFrame),
    }
}

/// The settings with which the hub admits clients.
#[derive(Clone, Copy, Debug)]
pub struct AcceptConfig {
    /// The deadline for writing one frame to a client, in microseconds.
    pub write_timeout: u64,
    /// The limit on what one client may send, if there is one.
    pub rate_limit: Option<ClientConnRateLimit>,
}

/// A client that was admitted.
#[derive(Debug)]
pub struct Accepted {
    pub node_id: PublicKey,
    pub info: ClientInfo,
    /// The epoch of the client's slot.
    pub epoch: u64,
    /// The state of the new connection: it has the write deadline and the
    /// rate limit of the settings.
    pub conn: ClientConn,
    /// The connection that had the client's key before, if there was one.
    pub evicted: Option<ConnectionSlot>,
}

/// The outcome of admitting the client that sent `frame`.
pub open spec fn spec_accept(frame: FrameView, cached: bool, verdicts: Verdicts, next_epoch: u64)
    -> Result<(Seq<u8>, ClientInfo), HandshakeError> {
    match spec_recv_client_key(frame, cached, verdicts) {
        Err(e) => Err(e),
        Ok((key, info)) => if info.version != PROTOCOL_VERSION {
            Err(HandshakeError::VersionMismatch)
        } else if next_epoch == u64::MAX {
            Err(HandshakeError::ServerExhausted)
        } else {
            Ok((key, info))
        },
    }
}

/// What an admission has done, given the registry and the key cache before
/// and after it and what was found out about the frame.
///
/// * The key cache has looked the client's key up.
/// * A handshake whose signature does not verify, or whose version is not
///   the server's, fails and leaves the registry as it was.
/// * Success is owed exactly when [`spec_accept`] says so. The client then
///   has a new slot with the mailbox of the usual depth, and the state of its
///   connection carries the write deadline and the rate limit of `config`.
/// * Every failure leaves the registry as it was.
pub open spec fn accepted_as(
    r: Result<Accepted, HandshakeError>,
    dispatcher: DispatcherView,
    after: DispatcherView,
    key_cache: KeyCacheView,
    cache_after_it: KeyCacheView,
    config: AcceptConfig,
    frame: FrameView,
    verdicts: Verdicts,
    now: u64,
) -> bool {
    let cached = client_key_of(frame) is Some && key_cache.entries.contains(
        client_key_of(frame)->0,
    );
    &&& cache_after_it == cache_after(key_cache, frame, verdicts)
    &&& !verdicts.signature_verifies || (verdicts.info matches Some(info) && info.version
        != PROTOCOL_VERSION) ==> r is Err && after == dispatcher
    &&& match r {
        Ok(accepted) => {
            &&& spec_accept(frame, cached, verdicts, dispatcher.next_epoch) == Ok::<
                (Seq<u8>, ClientInfo),
                HandshakeError,
            >((accepted.node_id@, accepted.info))
            &&& accepted.info.version == PROTOCOL_VERSION
            &&& accepted.epoch == dispatcher.next_epoch
            &&& accepted.conn@ == ConnView::fresh(
                accepted.node_id@,
                accepted.epoch,
                config.write_timeout,
                config.rate_limit,
                now,
            )
            &&& after == dispatcher.create(
                accepted.node_id@,
                PER_CLIENT_SEND_QUEUE_DEPTH as nat,
                false,
                now,
            )
            &&& match accepted.evicted {
                Some(slot) => slot.wf() && dispatcher.evicted(accepted.node_id@) == Some(slot@),
                None => dispatcher.evicted(accepted.node_id@) is None,
            }
        },
        Err(e) => {
            &&& spec_accept(frame, cached, verdicts, dispatcher.next_epoch) == Err::<
                (Seq<u8>, ClientInfo),
                HandshakeError,
            >(e)
            &&& after == dispatcher
        },
    }
}

/// Admits a client after the upgrade, given what was found out about
/// `frame`, the client's answer to the server key. On success the client has
/// a new slot in the registry and the state of its connection is handed
/// back. On failure the registry is exactly as it was: a handshake that
/// fails leaves no slot behind.
pub fn accept(
    dispatcher: &mut Dispatcher,
    key_cache: &mut KeyCache,
    config: AcceptConfig,
    frame: &Frame,
    verdicts: Verdicts,
    now: u64,
) -> (r: Result<Accepted, HandshakeError>)
    requires
        old(dispatcher).wf(),
        old(key_cache).wf(),
    ensures
        final(dispatcher).wf(),
        final(key_cache).wf(),
        r matches Ok(accepted) ==> accepted.conn.wf(),
        accepted_as(
            r,
            old(dispatcher)@,
            final(dispatcher)@,
            old(key_cache)@,
            final(key_cache)@,
            config,
            frame@,
            verdicts,
            now,
        ),
{
    let (node_id, info) = match recv_client_key(frame, key_cache, verdicts) {
        Ok(pair) => pair,
        Err(e) => {
            return Err(e);
        },
    };
    if info.version != PROTOCOL_VERSION {
        return Err(HandshakeError::VersionMismatch);
    }
    let client = ClientConnConfig {
        node_id,
        write_timeout: config.write_timeout,
        channel_capacity: PER_CLIENT_SEND_QUEUE_DEPTH,
        rate_limit: config.rate_limit,
        peer_gone_on_close: false,
    };
    match dispatcher.create_client(client, now) {
        Some(created) => Ok(
            Accepted {
                node_id,
                info,
                epoch: created.epoch,
                conn: ClientConn::new(
                    node_id,
                    created.epoch,
                    config.write_timeout,
                    config.rate_limit,
                    now,
                ),
                evicted: created.evicted,
            },
        ),
        None => Err(HandshakeError::ServerExhausted),
    }
}

/// Admits a client after the upgrade: makes the checks of the handshake on
/// `frame`, the client's answer to the server key, and admits the client if
/// they pass. `info` is what the message of the frame says, if it can be
/// read.
pub fn accept_client(
    dispatcher: &mut Dispatcher,
    key_cache: &mut KeyCache,
    config: AcceptConfig,
    frame: &Frame,
    info: Option<ClientInfo>,
    now: u64,
) -> (r: Result<Accepted, HandshakeError>)
    requires
        old(dispatcher).wf(),
        old(key_cache).wf(),
    ensures
        final(dispatcher).wf(),
        final(key_cache).wf(),
        r matches Ok(accepted) ==> accepted.conn.wf(),
        accepted_as(
            r,
            old(dispatcher)@,
            final(dispatcher)@,
            old(key_cache)@,
            final(key_cache)@,
            config,
            frame@,
            spec_verdicts(
                frame@,
                client_key_of(frame@) is Some && old(key_cache)@.entries.contains(
                    client_key_of(frame@)->0,
                ),
                info,
            ),
            now,
        ),
{
    let cached = match frame {
        Frame::ClientInfo { client_public_key, .. } => key_cache.contains(client_public_key),
        _ => false,
    };
    let verdicts = verify_client(frame, cached, info);
    accept(dispatcher, key_cache, config, frame, verdicts, now)
}

/// A handshake is refused if the signature does not verify or the version is
/// not the server's, whatever else holds of it.
pub proof fn lemma_handshake_rejection(
    frame: FrameView,
    cached: bool,
    verdicts: Verdicts,
    next_epoch: u64,
)
    requires
        !verdicts.signature_verifies || (verdicts.info matches Some(info) && info.version
            != PROTOCOL_VERSION),
    ensures
        spec_accept(frame, cached, verdicts, next_epoch) is Err,
{
}

} // verus!
