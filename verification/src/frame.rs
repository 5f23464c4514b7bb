//! The frame codec: the binary form of relay frames on a byte stream.
//!
//! Every frame is a type byte, the length of the payload as four bytes with
//! the high byte first, and the payload.

use vstd::prelude::*;
use crate::text::{append_bytes, copy_range, take_array};

verus! {

/// The largest payload that a frame may carry: 64 KiB.
pub const MAX_FRAME_SIZE: usize = 65536;

/// The length of the type byte and the length prefix together.
pub const FRAME_HEADER_LEN: usize = 5;

/// The length of a public key.
pub const KEY_LEN: usize = 32;

/// The length of a signature.
pub const SIGNATURE_LEN: usize = 64;

/// The length of the data that a ping carries and its pong returns.
pub const PING_LEN: usize = 8;

/// The version of the relay protocol that this hub speaks.
pub const PROTOCOL_VERSION: u32 = 3;

/// The eight bytes that open the payload of a `ServerKey` frame: the text
/// "DERP" followed by the UTF-8 form of the key emoji.
pub open spec fn magic() -> Seq<u8> {
    seq![0x44u8, 0x45u8, 0x52u8, 0x50u8, 0xf0u8, 0x9fu8, 0x94u8, 0x91u8]
}

pub const TYPE_SERVER_KEY: u8 = 1;

pub const TYPE_CLIENT_INFO: u8 = 2;

pub const TYPE_SEND_PACKET: u8 = 4;

pub const TYPE_RECV_PACKET: u8 = 5;

pub const TYPE_KEEP_ALIVE: u8 = 6;

pub const TYPE_PEER_GONE: u8 = 8;

pub const TYPE_PING: u8 = 12;

pub const TYPE_PONG: u8 = 13;

/// Why a frame could not be written or read.
#[derive(Clone, Copy, Debug, PartialEq, Eq, Structural)]
pub enum FrameError {
    /// The payload is longer than [`MAX_FRAME_SIZE`].
    FrameTooLarge,
    /// The bytes end before the frame does.
    ShortRead,
    /// The type byte names no frame that the hub knows.
    UnknownType,
    /// The payload has not the shape that its type asks for.
    Malformed,
}

/// A relay frame.
#[derive(Clone, Debug, PartialEq, Eq)]
pub enum Frame {
    /// The first frame that the server sends: its public key.
    ServerKey { key: [u8; 32] },
    /// The client's answer: its public key, and its signed handshake message.
    ClientInfo { client_public_key: [u8; 32], signature: [u8; 64], message: Vec<u8> },
    /// A packet from a client for the peer `dst_key`.
    SendPacket { dst_key: [u8; 32], packet: Vec<u8> },
    /// A packet delivered to a client, from the peer `src_key`.
    RecvPacket { src_key: [u8; 32], content: Vec<u8> },
    /// Sent on an idle connection.
    KeepAlive,
    /// Asks for a `Pong` with the same data.
    Ping { data: [u8; 8] },
    /// The answer to a `Ping`.
    Pong { data: [u8; 8] },
    /// Tells a client that the peer `peer` is no longer connected here.
    PeerGone { peer: [u8; 32] },
}

/// The mathematical content of a [`Frame`].
pub enum FrameView {
    ServerKey { key: Seq<u8> },
    ClientInfo { client_public_key: Seq<u8>, signature: Seq<u8>, message: Seq<u8> },
    SendPacket { dst_key: Seq<u8>, packet: Seq<u8> },
    RecvPacket { src_key: Seq<u8>, content: Seq<u8> },
    KeepAlive,
    Ping { data: Seq<u8> },
    Pong { data: Seq<u8> },
    PeerGone { peer: Seq<u8> },
}

impl View for Frame {
    type V = FrameView;

    open spec fn view(&self) -> FrameView {
        match *self {
            Frame::ServerKey { key } => FrameView::ServerKey { key: key@ },
            Frame::ClientInfo { client_public_key, signature, message } => FrameView::ClientInfo {
                client_public_key: client_public_key@,
                signature: signature@,
                message: message@,
            },
            Frame::SendPacket { dst_key, packet } => FrameView::SendPacket {
                dst_key: dst_key@,
                packet: packet@,
            },
            Frame::RecvPacket { src_key, content } => FrameView::RecvPacket {
                src_key: src_key@,
                content: content@,
            },
            Frame::KeepAlive => FrameView::KeepAlive,
            Frame::Ping { data } => FrameView::Ping { data: data@ },
            Frame::Pong { data } => FrameView::Pong { data: data@ },
            Frame::PeerGone { peer } => FrameView::PeerGone { peer: peer@ },
        }
    }
}

impl FrameView {
    /// The fixed-size fields have their sizes.
    pub open spec fn well_sized(self) -> bool {
        match self {
            FrameView::ServerKey { key } => key.len() == KEY_LEN,
            FrameView::ClientInfo { client_public_key, signature, message } => {
                client_public_key.len() == KEY_LEN && signature.len() == SIGNATURE_LEN
            },
            FrameView::SendPacket { dst_key, packet } => dst_key.len() == KEY_LEN,
            FrameView::RecvPacket { src_key, content } => src_key.len() == KEY_LEN,
            FrameView::KeepAlive => true,
            FrameView::Ping { data } => data.len() == PING_LEN,
            FrameView::Pong { data } => data.len() == PING_LEN,
            FrameView::PeerGone { peer } => peer.len() == KEY_LEN,
        }
    }

    /// The type byte of the frame.
    pub open spec fn type_byte(self) -> u8 {
        match self {
            FrameView::ServerKey { .. } => TYPE_SERVER_KEY,
            FrameView::ClientInfo { .. } => TYPE_CLIENT_INFO,
            FrameView::SendPacket { .. } => TYPE_SEND_PACKET,
            FrameView::RecvPacket { .. } => TYPE_RECV_PACKET,
            FrameView::KeepAlive => TYPE_KEEP_ALIVE,
            FrameView::Ping { .. } => TYPE_PING,
            FrameView::Pong { .. } => TYPE_PONG,
            FrameView::PeerGone { .. } => TYPE_PEER_GONE,
        }
    }

    /// The payload of the frame: its fields one after the other.
    pub open spec fn payload(self) -> Seq<u8> {
        match self {
            FrameView::ServerKey { key } => magic() + key,
            FrameView::ClientInfo { client_public_key, signature, message } => client_public_key
                + signature + message,
            FrameView::SendPacket { dst_key, packet } => dst_key + packet,
            FrameView::RecvPacket { src_key, content } => src_key + content,
            FrameView::KeepAlive => Seq::empty(),
            FrameView::Ping { data } => data,
            FrameView::Pong { data } => data,
            FrameView::PeerGone { peer } => peer,
        }
    }

    /// A frame that can go on the wire: fields of the right sizes and a
    /// payload within the limit.
    pub open spec fn wf(self) -> bool {
        self.well_sized() && self.payload().len() <= MAX_FRAME_SIZE
    }

    /// The bytes that the frame takes on the wire, header included.
    pub open spec fn wire_len(self) -> nat {
        FRAME_HEADER_LEN as nat + self.payload().len()
    }
}

/// A length as four bytes, high byte first.
pub open spec fn be32(n: nat) -> Seq<u8> {
    seq![
        (n / 0x1000000 % 256) as u8,
        (n / 0x10000 % 256) as u8,
        (n / 0x100 % 256) as u8,
        (n % 256) as u8,
    ]
}

/// The number that four bytes stand for, high byte first.
pub open spec fn from_be32(b: Seq<u8>) -> nat {
    (b[0] as nat) * 0x1000000 + (b[1] as nat) * 0x10000 + (b[2] as nat) * 0x100 + (b[3] as nat)
}

/// The wire form of a frame.
pub open spec fn spec_encode(f: FrameView) -> Seq<u8> {
    seq![f.type_byte()] + be32(f.payload().len()) + f.payload()
}

/// The frame that a type byte and a payload stand for.
pub open spec fn spec_parse_payload(t: u8, p: Seq<u8>) -> Result<FrameView, FrameError> {
    if t == TYPE_SERVER_KEY {
        if p.len() == 8 + KEY_LEN && p.subrange(0, 8) == magic() {
            Ok(FrameView::ServerKey { key: p.subrange(8, 40) })
        } else {
            Err(FrameError::Malformed)
        }
    } else if t == TYPE_CLIENT_INFO {
        if p.len() >= KEY_LEN + SIGNATURE_LEN {
            Ok(
                FrameView::ClientInfo {
                    client_public_key: p.subrange(0, 32),
                    signature: p.subrange(32, 96),
                    message: p.subrange(96, p.len() as int),
                },
            )
        } else {
            Err(FrameError::Malformed)
        }
    } else if t == TYPE_SEND_PACKET {
        if p.len() >= KEY_LEN {
            Ok(
                FrameView::SendPacket {
                    dst_key: p.subrange(0, 32),
                    packet: p.subrange(32, p.len() as int),
                },
            )
        } else {
            Err(FrameError::Malformed)
        }
    } else if t == TYPE_RECV_PACKET {
        if p.len() >= KEY_LEN {
            Ok(
                FrameView::RecvPacket {
                    src_key: p.subrange(0, 32),
                    content: p.subrange(32, p.len() as int),
                },
            )
        } else {
            Err(FrameError::Malformed)
        }
    } else if t == TYPE_KEEP_ALIVE {
        if p.len() == 0 {
            Ok(FrameView::KeepAlive)
        } else {
            Err(FrameError::Malformed)
        }
    } else if t == TYPE_PING {
        if p.len() == PING_LEN {
            Ok(FrameView::Ping { data: p })
        } else {
            Err(FrameError::Malformed)
        }
    } else if t == TYPE_PONG {
        if p.len() == PING_LEN {
            Ok(FrameView::Pong { data: p })
        } else {
            Err(FrameError::Malformed)
        }
    } else if t == TYPE_PEER_GONE {
        if p.len() == KEY_LEN {
            Ok(FrameView::PeerGone { peer: p })
        } else {
            Err(FrameError::Malformed)
        }
    } else {
        Err(FrameError::UnknownType)
    }
}

/// The first frame in `b` and the number of bytes it takes.
///
/// * Fewer than five bytes: `ShortRead`.
/// * A declared length above the limit: `FrameTooLarge`, whatever follows.
/// * Fewer bytes than the header declares: `ShortRead`.
/// * Otherwise the type byte and the payload decide.
pub open spec fn spec_decode(b: Seq<u8>) -> Result<(FrameView, nat), FrameError> {
    if b.len() < FRAME_HEADER_LEN {
        Err(FrameError::ShortRead)
    } else {
        let len = from_be32(b.subrange(1, 5));
        if len > MAX_FRAME_SIZE {
            Err(FrameError::FrameTooLarge)
        } else if b.len() < FRAME_HEADER_LEN + len {
            Err(FrameError::ShortRead)
        } else {
            match spec_parse_payload(b[0], b.subrange(5, (5 + len) as int)) {
                Ok(f) => Ok((f, (5 + len) as nat)),
                Err(e) => Err(e),
            }
        }
    }
}

impl Frame {
    /// The length of the payload, or `None` if it is above the limit.
    fn payload_len(&self) -> (r: Option<usize>)
        ensures
            match r {
                Some(n) => n == self@.payload().len() && n <= MAX_FRAME_SIZE,
                None => self@.payload().len() > MAX_FRAME_SIZE,
            },
    {
        let (fixed, rest): (usize, usize) = match self {
            Frame::ServerKey { .. } => (40, 0),
            Frame::ClientInfo { message, .. } => (96, message.len()),
            Frame::SendPacket { packet, .. } => (32, packet.len()),
            Frame::RecvPacket { content, .. } => (32, content.len()),
            Frame::KeepAlive => (0, 0),
            Frame::Ping { .. } => (8, 0),
            Frame::Pong { .. } => (8, 0),
            Frame::PeerGone { .. } => (32, 0),
        };
        if rest > MAX_FRAME_SIZE - fixed {
            None
        } else {
            Some(fixed + rest)
        }
    }

    /// The type byte of this frame.
    pub fn type_byte(&self) -> (r: u8)
        ensures
            r == self@.type_byte(),
    {
        match self {
            Frame::ServerKey { .. } => TYPE_SERVER_KEY,
            Frame::ClientInfo { .. } => TYPE_CLIENT_INFO,
            Frame::SendPacket { .. } => TYPE_SEND_PACKET,
            Frame::RecvPacket { .. } => TYPE_RECV_PACKET,
            Frame::KeepAlive => TYPE_KEEP_ALIVE,
            Frame::Ping { .. } => TYPE_PING,
            Frame::Pong { .. } => TYPE_PONG,
            Frame::PeerGone { .. } => TYPE_PEER_GONE,
        }
    }

    /// The number of bytes that this frame takes on the wire, if it can go
    /// there at all.
    pub fn wire_len(&self) -> (r: Option<usize>)
        ensures
            match r {
                Some(n) => self@.wf() && n == self@.wire_len(),
                None => !self@.wf(),
            },
    {
        match self.payload_len() {
            Some(n) => Some(n + FRAME_HEADER_LEN),
            None => None,
        }
    }

    /// Writes this frame in its wire form. A payload above the limit is
    /// refused, and nothing else is.
    pub fn encode(&self) -> (r: Result<Vec<u8>, FrameError>)
        ensures
            match r {
                Ok(bytes) => self@.wf() && bytes@ == spec_encode(self@),
                Err(e) => !self@.wf() && e == FrameError::FrameTooLarge,
            },
    {
        let n = match self.payload_len() {
            Some(n) => n,
            None => {
                return Err(FrameError::FrameTooLarge);
            },
        };
        let mut out: Vec<u8> = Vec::new();
        out.push(self.type_byte());
        out.push((n / 0x1000000 % 256) as u8);
        out.push((n / 0x10000 % 256) as u8);
        out.push((n / 0x100 % 256) as u8);
        out.push((n % 256) as u8);
        assert(out@ =~= seq![self@.type_byte()] + be32(n as nat));
        match self {
            Frame::ServerKey { key } => {
                let m: [u8; 8] = [0x44, 0x45, 0x52, 0x50, 0xf0, 0x9f, 0x94, 0x91];
                assert(m@ =~= magic());
                append_bytes(&mut out, m.as_slice());
                append_bytes(&mut out, key.as_slice());
            },
            Frame::ClientInfo { client_public_key, signature, message } => {
                append_bytes(&mut out, client_public_key.as_slice());
                append_bytes(&mut out, signature.as_slice());
                append_bytes(&mut out, message.as_slice());
            },
            Frame::SendPacket { dst_key, packet } => {
                append_bytes(&mut out, dst_key.as_slice());
                append_bytes(&mut out, packet.as_slice());
            },
            Frame::RecvPacket { src_key, content } => {
                append_bytes(&mut out, src_key.as_slice());
                append_bytes(&mut out, content.as_slice());
            },
            Frame::KeepAlive => {},
            Frame::Ping { data } => {
                append_bytes(&mut out, data.as_slice());
            },
            Frame::Pong { data } => {
                append_bytes(&mut out, data.as_slice());
            },
            Frame::PeerGone { peer } => {
                append_bytes(&mut out, peer.as_slice());
            },
        }
        assert(out@ =~= spec_encode(self@));
        Ok(out)
    }
}

/// Reads the frame that a type byte and a payload (the bytes of `b` from
/// `from` up to `to`) stand for.
fn parse_payload(t: u8, b: &[u8], from: usize, to: usize) -> (r: Result<Frame, FrameError>)
    requires
        from <= to <= b@.len(),
    ensures
        match r {
            Ok(f) => spec_parse_payload(t, b@.subrange(from as int, to as int)) == Ok::<
                FrameView,
                FrameError,
            >(f@),
            Err(e) => spec_parse_payload(t, b@.subrange(from as int, to as int)) == Err::<
                FrameView,
                FrameError,
            >(e),
        },
{
    let ghost p = b@.subrange(from as int, to as int);
    let n: usize = to - from;
    if t == TYPE_SERVER_KEY {
        if n != 40 {
            return Err(FrameError::Malformed);
        }
        let m: [u8; 8] = take_array(b, from);
        assert(m@ =~= p.subrange(0, 8));
        if !(m[0] == 0x44 && m[1] == 0x45 && m[2] == 0x52 && m[3] == 0x50 && m[4] == 0xf0 && m[5]
            == 0x9f && m[6] == 0x94 && m[7] == 0x91) {
            assert(m@ != magic()) by {
                if m@ == magic() {
                    assert(m@[0] == 0x44 && m@[1] == 0x45 && m@[2] == 0x52 && m@[3] == 0x50
                        && m@[4] == 0xf0 && m@[5] == 0x9f && m@[6] == 0x94 && m@[7] == 0x91);
                }
            }
            return Err(FrameError::Malformed);
        }
        assert(m@ =~= magic());
        let key: [u8; 32] = take_array(b, from + 8);
        assert(key@ =~= p.subrange(8, 40));
        Ok(Frame::ServerKey { key })
    } else if t == TYPE_CLIENT_INFO {
        if n < 96 {
            return Err(FrameError::Malformed);
        }
        let client_public_key: [u8; 32] = take_array(b, from);
        let signature: [u8; 64] = take_array(b, from + 32);
        let message = copy_range(b, from + 96, to);
        assert(client_public_key@ =~= p.subrange(0, 32));
        assert(signature@ =~= p.subrange(32, 96));
        assert(message@ =~= p.subrange(96, p.len() as int));
        Ok(Frame::ClientInfo { client_public_key, signature, message })
    } else if t == TYPE_SEND_PACKET {
        if n < 32 {
            return Err(FrameError::Malformed);
        }
        let dst_key: [u8; 32] = take_array(b, from);
        let packet = copy_range(b, from + 32, to);
        assert(dst_key@ =~= p.subrange(0, 32));
        assert(packet@ =~= p.subrange(32, p.len() as int));
        Ok(Frame::SendPacket { dst_key, packet })
    } else if t == TYPE_RECV_PACKET {
        if n < 32 {
            return Err(FrameError::Malformed);
        }
        let src_key: [u8; 32] = take_array(b, from);
        let content = copy_range(b, from + 32, to);
        assert(src_key@ =~= p.subrange(0, 32));
        assert(content@ =~= p.subrange(32, p.len() as int));
        Ok(Frame::RecvPacket { src_key, content })
    } else if t == TYPE_KEEP_ALIVE {
        if n != 0 {
            return Err(FrameError::Malformed);
        }
        Ok(Frame::KeepAlive)
    } else if t == TYPE_PING {
        if n != 8 {
            return Err(FrameError::Malformed);
        }
        let data: [u8; 8] = take_array(b, from);
        assert(data@ =~= p);
        Ok(Frame::Ping { data })
    } else if t == TYPE_PONG {
        if n != 8 {
            return Err(FrameError::Malformed);
        }
        let data: [u8; 8] = take_array(b, from);
        assert(data@ =~= p);
        Ok(Frame::Pong { data })
    } else if t == TYPE_PEER_GONE {
        if n != 32 {
            return Err(FrameError::Malformed);
        }
        let peer: [u8; 32] = take_array(b, from);
        assert(peer@ =~= p);
        Ok(Frame::PeerGone { peer })
    } else {
        Err(FrameError::UnknownType)
    }
}

/// Reads one frame from the front of `b`, and says how many bytes it took.
pub fn decode(b: &[u8]) -> (r: Result<(Frame, usize), FrameError>)
    ensures
        match r {
            Ok((f, n)) => spec_decode(b@) == Ok::<(FrameView, nat), FrameError>((f@, n as nat)),
            Err(e) => spec_decode(b@) == Err::<(FrameView, nat), FrameError>(e),
        },
{
    if b.len() < FRAME_HEADER_LEN {
        return Err(FrameError::ShortRead);
    }
    let len: u64 = (b[1] as u64) * 0x1000000 + (b[2] as u64) * 0x10000 + (b[3] as u64) * 0x100 + (
    b[4] as u64);
    assert(len == from_be32(b@.subrange(1, 5)));
    if len > MAX_FRAME_SIZE as u64 {
        return Err(FrameError::FrameTooLarge);
    }
    let len: usize = len as usize;
    if b.len() - FRAME_HEADER_LEN < len {
        return Err(FrameError::ShortRead);
    }
    match parse_payload(b[0], b, FRAME_HEADER_LEN, FRAME_HEADER_LEN + len) {
        Ok(f) => Ok((f, FRAME_HEADER_LEN + len)),
        Err(e) => Err(e),
    }
}

/// The frame that a message holds which must be one frame and nothing
/// else, as a binary WebSocket message must: bytes behind the frame make the
/// message malformed.
pub open spec fn spec_decode_message(message: Seq<u8>) -> Result<FrameView, FrameError> {
    match spec_decode(message) {
        Ok((frame, n)) => if n == message.len() {
            Ok(frame)
        } else {
            Err(FrameError::Malformed)
        },
        Err(e) => Err(e),
    }
}

/// Reads the one frame of a message.
pub fn decode_message(message: &[u8]) -> (r: Result<Frame, FrameError>)
    ensures
        match r {
            Ok(f) => spec_decode_message(message@) == Ok::<FrameView, FrameError>(f@),
            Err(e) => spec_decode_message(message@) == Err::<FrameView, FrameError>(e),
        },
{
    match decode(message) {
        Ok((frame, n)) => {
            if n == message.len() {
                Ok(frame)
            } else {
                Err(FrameError::Malformed)
            }
        },
        Err(e) => Err(e),
    }
}

/// Four bytes written from a length read back as that length.
pub proof fn lemma_be32_round_trip(n: nat)
    requires
        n < 0x1_0000_0000,
    ensures
        be32(n).len() == 4,
        from_be32(be32(n)) == n,
{
}

/// Reading what was written gives the frame back: for every frame whose
/// payload is within the limit, whatever bytes follow it on the stream,
/// decoding its wire form yields that frame and the length of that form.
pub proof fn lemma_decode_encode(f: FrameView, rest: Seq<u8>)
    requires
        f.wf(),
    ensures
        spec_decode(spec_encode(f) + rest) == Ok::<(FrameView, nat), FrameError>(
            (f, spec_encode(f).len()),
        ),
{
    let p = f.payload();
    let n = p.len();
    let b = spec_encode(f) + rest;
    lemma_be32_round_trip(n);
    assert(b.subrange(1, 5) =~= be32(n));
    assert(b.subrange(5, (5 + n) as int) =~= p);
    assert(b[0] == f.type_byte());
    match f {
        FrameView::ServerKey { key } => {
            assert(p.subrange(0, 8) =~= magic());
            assert(p.subrange(8, 40) =~= key);
        },
        FrameView::ClientInfo { client_public_key, signature, message } => {
            assert(p.subrange(0, 32) =~= client_public_key);
            assert(p.subrange(32, 96) =~= signature);
            assert(p.subrange(96, p.len() as int) =~= message);
        },
        FrameView::SendPacket { dst_key, packet } => {
            assert(p.subrange(0, 32) =~= dst_key);
            assert(p.subrange(32, p.len() as int) =~= packet);
        },
        FrameView::RecvPacket { src_key, content } => {
            assert(p.subrange(0, 32) =~= src_key);
            assert(p.subrange(32, p.len() as int) =~= content);
        },
        FrameView::KeepAlive => {},
        FrameView::Ping { data } => {},
        FrameView::Pong { data } => {},
        FrameView::PeerGone { peer } => {},
    }
}

/// Writing what was read gives the bytes back: whenever bytes decode to a
/// frame, that frame is within the limit and its wire form is exactly the
/// bytes that the decoder took.
pub proof fn lemma_encode_decode(b: Seq<u8>)
    requires
        spec_decode(b) is Ok,
    ensures
        ({
            let (f, n) = spec_decode(b)->Ok_0;
            f.wf() && n <= b.len() && spec_encode(f) == b.subrange(0, n as int)
        }),
{
    let (f, n) = spec_decode(b)->Ok_0;
    let len = from_be32(b.subrange(1, 5));
    let p = b.subrange(5, (5 + len) as int);
    let h = b.subrange(1, 5);
    assert(be32(len) =~= h);
    assert(spec_parse_payload(b[0], p) == Ok::<FrameView, FrameError>(f));
    assert(f.payload() =~= p) by {
        if b[0] == TYPE_SERVER_KEY {
            assert(p =~= p.subrange(0, 8) + p.subrange(8, 40));
        } else if b[0] == TYPE_CLIENT_INFO {
            assert(p =~= p.subrange(0, 32) + p.subrange(32, 96) + p.subrange(96, p.len() as int));
        } else if b[0] == TYPE_SEND_PACKET || b[0] == TYPE_RECV_PACKET {
            assert(p =~= p.subrange(0, 32) + p.subrange(32, p.len() as int));
        }
    }
    assert(spec_encode(f) =~= b.subrange(0, n as int));
}

} // verus!
