//! The STUN responder: recognises binding requests and answers each with the
//! address it came from, as an XOR-MAPPED-ADDRESS attribute.

use vstd::prelude::*;
use crate::net::{IpAddress, SocketAddress, SocketAddressView};

verus! {

/// The length of the STUN message header.
pub const HEADER_LEN: usize = 20;

/// The length of a transaction id.
pub const TRANSACTION_ID_LEN: usize = 12;

/// The magic cookie `0x2112A442`, which stands at offset 4 of every message.
pub open spec fn magic_cookie() -> Seq<u8> {
    seq![0x21u8, 0x12u8, 0xa4u8, 0x42u8]
}

/// Why a datagram or a message was not accepted.
#[derive(Clone, Copy, Debug, PartialEq, Eq, Structural)]
pub enum StunError {
    /// Too short for a header, the two top bits are set, or the cookie is wrong.
    NotStun,
    /// A STUN message, but not a binding request.
    NotBinding,
    /// A STUN message, but not a binding success response.
    NotSuccessResponse,
    /// The length in the header is not the length of what follows it, or an
    /// attribute is cut short or has the wrong size.
    Malformed,
    /// The message holds no XOR-MAPPED-ADDRESS attribute.
    NoMappedAddress,
}

/// A STUN message: at least a header, the two top bits clear, and the magic
/// cookie at offset 4.
pub open spec fn spec_is(b: Seq<u8>) -> bool {
    &&& b.len() >= HEADER_LEN
    &&& b[0] < 0x40
    &&& b.subrange(4, 8) == magic_cookie()
}

/// The transaction id of a message: the twelve bytes after the cookie.
pub open spec fn spec_transaction_id(b: Seq<u8>) -> Seq<u8> {
    b.subrange(8, 20)
}

/// A binding request is a STUN message of type `0x0001`: method Binding
/// (`0x001`) with class Request (`0b00`).
pub open spec fn spec_parse_binding_request(b: Seq<u8>) -> Result<Seq<u8>, StunError> {
    if !spec_is(b) {
        Err(StunError::NotStun)
    } else if b[0] != 0x00 || b[1] != 0x01 {
        Err(StunError::NotBinding)
    } else {
        Ok(spec_transaction_id(b))
    }
}

/// Each byte of `a` combined by exclusive or with the byte of `key` at the same place.
pub open spec fn xor_bytes(a: Seq<u8>, key: Seq<u8>) -> Seq<u8> {
    Seq::new(a.len(), |i: int| a[i] ^ key[i])
}

/// The two bytes of a port, high byte first.
pub open spec fn port_bytes(port: u16) -> Seq<u8> {
    seq![(port / 256) as u8, (port % 256) as u8]
}

/// The key that hides an address: the cookie, followed by the transaction id
/// (an IPv4 address meets the cookie only).
pub open spec fn xor_key(txid: Seq<u8>) -> Seq<u8> {
    magic_cookie() + txid
}

/// The value of the XOR-MAPPED-ADDRESS attribute for `addr`: a zero byte, the
/// family (1 for IPv4, 2 for IPv6), the port and the address, both hidden by
/// exclusive or with the key.
pub open spec fn spec_xor_mapped_address(txid: Seq<u8>, addr: SocketAddressView) -> Seq<u8> {
    seq![0x00u8, if addr.v4 { 0x01u8 } else { 0x02u8 }]
        + xor_bytes(port_bytes(addr.port), magic_cookie())
        + xor_bytes(addr.ip, xor_key(txid))
}

/// The binding success response to the request `txid` from `addr`: type
/// `0x0101`, the length of the one attribute, cookie, transaction id, and the
/// XOR-MAPPED-ADDRESS attribute (type `0x0020`).
pub open spec fn spec_response(txid: Seq<u8>, addr: SocketAddressView) -> Seq<u8> {
    let value = spec_xor_mapped_address(txid, addr);
    seq![0x01u8, 0x01u8, 0x00u8, (value.len() + 4) as u8] + magic_cookie() + txid
        + seq![0x00u8, 0x20u8, 0x00u8, value.len() as u8] + value
}

/// Tells whether `b` is a STUN message.
pub fn is_stun(b: &[u8]) -> (r: bool)
    ensures
        r == spec_is(b@),
{
    if b.len() < HEADER_LEN {
        return false;
    }
    let r = b[0] < 0x40 && b[4] == 0x21 && b[5] == 0x12 && b[6] == 0xa4 && b[7] == 0x42;
    proof {
        let c = b@.subrange(4, 8);
        if r {
            assert(c =~= magic_cookie());
        } else if b[0] < 0x40 {
            assert(c[0] == b@[4] && c[1] == b@[5] && c[2] == b@[6] && c[3] == b@[7]);
            assert(magic_cookie()[0] == 0x21 && magic_cookie()[1] == 0x12 && magic_cookie()[2]
                == 0xa4 && magic_cookie()[3] == 0x42);
        }
    }
    r
}

fn transaction_id(b: &[u8]) -> (r: [u8; 12])
    requires
        b@.len() >= HEADER_LEN,
    ensures
        r@ == spec_transaction_id(b@),
{
    let mut txid = [0u8;12];
    let mut i: usize = 0;
    while i < 12
        invariant
            i <= 12,
            b@.len() >= HEADER_LEN,
            forall|j: int| 0 <= j < i ==> txid@[j] == b@[8 + j],
        decreases 12 - i,
    {
        txid[i] = b[8 + i];
        i = i + 1;
    }
    assert(txid@ =~= spec_transaction_id(b@));
    txid
}

/// Reads the transaction id out of a binding request.
pub fn parse_binding_request(b: &[u8]) -> (r: Result<[u8; 12], StunError>)
    ensures
        match r {
            Ok(txid) => spec_parse_binding_request(b@) == Ok::<Seq<u8>, StunError>(txid@),
            Err(e) => spec_parse_binding_request(b@) == Err::<Seq<u8>, StunError>(e),
        },
{
    if !is_stun(b) {
        return Err(StunError::NotStun);
    }
    if b[0] != 0x00 || b[1] != 0x01 {
        return Err(StunError::NotBinding);
    }
    Ok(transaction_id(b))
}

fn cookie_byte(i: usize) -> (r: u8)
    requires
        i < 4,
    ensures
        r == magic_cookie()[i as int],
{
    if i == 0 {
        0x21
    } else if i == 1 {
        0x12
    } else if i == 2 {
        0xa4
    } else {
        0x42
    }
}

fn key_byte(txid: &[u8; 12], i: usize) -> (r: u8)
    requires
        i < 16,
    ensures
        r == xor_key(txid@)[i as int],
{
    if i < 4 {
        cookie_byte(i)
    } else {
        txid[i - 4]
    }
}

/// Builds the binding success response to the request `txid` from `addr`.
pub fn response(txid: [u8; 12], addr: SocketAddress) -> (r: Vec<u8>)
    ensures
        r@ == spec_response(txid@, addr@),
{
    let mut out: Vec<u8> = Vec::new();
    let v4 = addr.ip.is_ipv4();
    let value_len: u8 = if v4 { 8 } else { 20 };
    out.push(0x01);
    out.push(0x01);
    out.push(0x00);
    out.push(value_len + 4);
    out.push(0x21);
    out.push(0x12);
    out.push(0xa4);
    out.push(0x42);
    let mut i: usize = 0;
    while i < 12
        invariant
            i <= 12,
            out@.len() == 8 + i,
            out@.subrange(0, 8) == seq![0x01u8, 0x01u8, 0x00u8, (value_len + 4) as u8]
                + magic_cookie(),
            forall|j: int| 0 <= j < i ==> out@[8 + j] == txid@[j],
        decreases 12 - i,
    {
        let ghost before = out@;
        out.push(txid[i]);
        assert(out@.subrange(0, 8) =~= before.subrange(0, 8));
        i = i + 1;
    }
    out.push(0x00);
    out.push(0x20);
    out.push(0x00);
    out.push(value_len);
    out.push(0x00);
    out.push(if v4 { 0x01 } else { 0x02 });
    out.push(((addr.port / 256) as u8) ^ 0x21);
    out.push(((addr.port % 256) as u8) ^ 0x12);
    let ghost head = out@;
    assert(head =~= seq![0x01u8, 0x01u8, 0x00u8, (value_len + 4) as u8] + magic_cookie() + txid@
        + seq![0x00u8, 0x20u8, 0x00u8, value_len] + seq![
        0x00u8,
        if addr@.v4 { 0x01u8 } else { 0x02u8 },
    ] + xor_bytes(port_bytes(addr.port), magic_cookie())) by {
        assert(head.subrange(0, 8) =~= seq![0x01u8, 0x01u8, 0x00u8, (value_len + 4) as u8]
            + magic_cookie());
        assert(forall|j: int| 0 <= j < 8 ==> head[j] == head.subrange(0, 8)[j]);
    }
    match addr.ip {
        IpAddress::V4(a) => {
            let mut k: usize = 0;
            while k < 4
                invariant
                    k <= 4,
                    out@.len() == head.len() + k,
                    out@.subrange(0, head.len() as int) == head,
                    forall|j: int| 0 <= j < k ==> out@[head.len() + j] == a@[j] ^ xor_key(txid@)[j],
                decreases 4 - k,
            {
                let ghost before = out@;
                out.push(a[k] ^ key_byte(&txid, k));
                assert(out@.subrange(0, head.len() as int) =~= before.subrange(
                    0,
                    head.len() as int,
                ));
                k = k + 1;
            }
            assert(out@ =~= head + xor_bytes(a@, xor_key(txid@)));
        },
        IpAddress::V6(a) => {
            let mut k: usize = 0;
            while k < 16
                invariant
                    k <= 16,
                    out@.len() == head.len() + k,
                    out@.subrange(0, head.len() as int) == head,
                    forall|j: int| 0 <= j < k ==> out@[head.len() + j] == a@[j] ^ xor_key(txid@)[j],
                decreases 16 - k,
            {
                let ghost before = out@;
                out.push(a[k] ^ key_byte(&txid, k));
                assert(out@.subrange(0, head.len() as int) =~= before.subrange(
                    0,
                    head.len() as int,
                ));
                k = k + 1;
            }
            assert(out@ =~= head + xor_bytes(a@, xor_key(txid@)));
        },
    }
    assert(out@ =~= spec_response(txid@, addr@));
    out
}

/// The length that an attribute declares for its value.
pub open spec fn spec_attr_len(attrs: Seq<u8>) -> int {
    attrs[2] as int * 256 + attrs[3] as int
}

/// A length rounded up to the next multiple of four: attributes are padded.
pub open spec fn spec_padded(len: int) -> int {
    (len + 3) / 4 * 4
}

/// The value of the first attribute of type `(t0, t1)` in a run of attributes;
/// `None` if there is none before the run ends or is cut short.
pub open spec fn spec_find_attr(attrs: Seq<u8>, t0: u8, t1: u8) -> Option<Seq<u8>>
    decreases attrs.len(),
{
    if attrs.len() < 4 {
        None
    } else {
        let len = spec_attr_len(attrs);
        if attrs.len() < 4 + len {
            None
        } else if attrs[0] == t0 && attrs[1] == t1 {
            Some(attrs.subrange(4, 4 + len))
        } else if attrs.len() < 4 + spec_padded(len) {
            None
        } else {
            spec_find_attr(attrs.skip(4 + spec_padded(len)), t0, t1)
        }
    }
}

/// The address that an XOR-MAPPED-ADDRESS value holds, read with the
/// transaction id of its message.
pub open spec fn spec_decode_xor_mapped_address(value: Seq<u8>, txid: Seq<u8>) -> Option<
    SocketAddressView,
> {
    if value.len() == 8 && value[1] == 0x01 {
        Some(
            SocketAddressView {
                v4: true,
                ip: xor_bytes(value.subrange(4, 8), xor_key(txid)),
                port: ((value[2] ^ 0x21u8) as int * 256 + (value[3] ^ 0x12u8) as int) as u16,
            },
        )
    } else if value.len() == 20 && value[1] == 0x02 {
        Some(
            SocketAddressView {
                v4: false,
                ip: xor_bytes(value.subrange(4, 20), xor_key(txid)),
                port: ((value[2] ^ 0x21u8) as int * 256 + (value[3] ^ 0x12u8) as int) as u16,
            },
        )
    } else {
        None
    }
}

/// A binding success response is a STUN message of type `0x0101` whose header
/// declares the length of what follows it; it yields its transaction id and
/// the address of its first XOR-MAPPED-ADDRESS attribute.
pub open spec fn spec_parse_response(b: Seq<u8>) -> Result<(Seq<u8>, SocketAddressView), StunError> {
    if !spec_is(b) {
        Err(StunError::NotStun)
    } else if b[0] != 0x01 || b[1] != 0x01 {
        Err(StunError::NotSuccessResponse)
    } else if b[2] as int * 256 + b[3] as int != b.len() - HEADER_LEN {
        Err(StunError::Malformed)
    } else {
        match spec_find_attr(b.skip(HEADER_LEN as int), 0x00, 0x20) {
            None => Err(StunError::NoMappedAddress),
            Some(value) => match spec_decode_xor_mapped_address(value, spec_transaction_id(b)) {
                None => Err(StunError::Malformed),
                Some(addr) => Ok((spec_transaction_id(b), addr)),
            },
        }
    }
}

/// Finds the attribute of type `(t0, t1)` in `b` from offset `start` on, and
/// returns where its value starts and ends.
fn find_attr(b: &[u8], start: usize, t0: u8, t1: u8) -> (r: Option<(usize, usize)>)
    requires
        start <= b@.len(),
    ensures
        match r {
            Some((from, to)) => from <= to <= b@.len() && spec_find_attr(
                b@.skip(start as int),
                t0,
                t1,
            ) == Some(b@.subrange(from as int, to as int)),
            None => spec_find_attr(b@.skip(start as int), t0, t1) is None,
        },
{
    let mut at: usize = start;
    loop
        invariant
            start <= at <= b@.len(),
            spec_find_attr(b@.skip(start as int), t0, t1) == spec_find_attr(
                b@.skip(at as int),
                t0,
                t1,
            ),
        decreases b@.len() - at,
    {
        let ghost rest = b@.skip(at as int);
        if b.len() - at < 4 {
            return None;
        }
        let len: usize = (b[at + 2] as usize) * 256 + (b[at + 3] as usize);
        assert(len == spec_attr_len(rest));
        if b.len() - at - 4 < len {
            return None;
        }
        if b[at] == t0 && b[at + 1] == t1 {
            assert(rest.subrange(4, 4 + len) =~= b@.subrange(at + 4, at + 4 + len));
            return Some((at + 4, at + 4 + len));
        }
        let padded: usize = (len + 3) / 4 * 4;
        if b.len() - at - 4 < padded {
            return None;
        }
        assert(rest.skip(4 + padded) =~= b@.skip(at + 4 + padded));
        at = at + 4 + padded;
    }
}

/// Reads a binding success response: the transaction id and the address that
/// the responder saw.
pub fn parse_response(b: &[u8]) -> (r: Result<([u8; 12], SocketAddress), StunError>)
    ensures
        match r {
            Ok((txid, addr)) => spec_parse_response(b@) == Ok::<
                (Seq<u8>, SocketAddressView),
                StunError,
            >((txid@, addr@)),
            Err(e) => spec_parse_response(b@) == Err::<(Seq<u8>, SocketAddressView), StunError>(e),
        },
{
    if !is_stun(b) {
        return Err(StunError::NotStun);
    }
    if b[0] != 0x01 || b[1] != 0x01 {
        return Err(StunError::NotSuccessResponse);
    }
    let declared: usize = (b[2] as usize) * 256 + (b[3] as usize);
    if declared != b.len() - HEADER_LEN {
        return Err(StunError::Malformed);
    }
    let txid = transaction_id(b);
    let (from, to) = match find_attr(b, HEADER_LEN, 0x00, 0x20) {
        None => {
            return Err(StunError::NoMappedAddress);
        },
        Some(range) => range,
    };
    let ghost value = b@.subrange(from as int, to as int);
    let n: usize = to - from;
    if n == 8 && b[from + 1] == 0x01 {
        let port: u16 = ((b[from + 2] ^ 0x21) as u16) * 256 + ((b[from + 3] ^ 0x12) as u16);
        let mut ip = [0u8;4];
        let mut k: usize = 0;
        while k < 4
            invariant
                k <= 4,
                from + 8 == to <= b@.len(),
                forall|j: int| 0 <= j < k ==> ip@[j] == b@[from + 4 + j] ^ xor_key(txid@)[j],
            decreases 4 - k,
        {
            ip[k] = b[from + 4 + k] ^ key_byte(&txid, k);
            k = k + 1;
        }
        assert(ip@ =~= xor_bytes(value.subrange(4, 8), xor_key(txid@)));
        Ok((txid, SocketAddress { ip: IpAddress::V4(ip), port }))
    } else if n == 20 && b[from + 1] == 0x02 {
        let port: u16 = ((b[from + 2] ^ 0x21) as u16) * 256 + ((b[from + 3] ^ 0x12) as u16);
        let mut ip = [0u8;16];
        let mut k: usize = 0;
        while k < 16
            invariant
                k <= 16,
                from + 20 == to <= b@.len(),
                forall|j: int| 0 <= j < k ==> ip@[j] == b@[from + 4 + j] ^ xor_key(txid@)[j],
            decreases 16 - k,
        {
            ip[k] = b[from + 4 + k] ^ key_byte(&txid, k);
            k = k + 1;
        }
        assert(ip@ =~= xor_bytes(value.subrange(4, 20), xor_key(txid@)));
        Ok((txid, SocketAddress { ip: IpAddress::V6(ip), port }))
    } else {
        Err(StunError::Malformed)
    }
}

proof fn lemma_xor_twice(a: u8, k: u8)
    ensures
        (a ^ k) ^ k == a,
{
    assert((a ^ k) ^ k == a) by (bit_vector);
}

/// The responder's answer gives the sender its own address back: for every
/// transaction id and every address, reading the response to a request from
/// that address yields the same transaction id and exactly that address.
pub proof fn lemma_response_decodes_to_sender(txid: Seq<u8>, addr: SocketAddressView)
    requires
        txid.len() == TRANSACTION_ID_LEN,
        addr.wf(),
    ensures
        spec_parse_response(spec_response(txid, addr)) == Ok::<
            (Seq<u8>, SocketAddressView),
            StunError,
        >((txid, addr)),
{
    let value = spec_xor_mapped_address(txid, addr);
    let b = spec_response(txid, addr);
    let key = xor_key(txid);
    let n = value.len() as int;
    assert(n == if addr.v4 { 8int } else { 20int });
    assert(b.len() == 24 + n);
    assert(b.subrange(4, 8) =~= magic_cookie());
    assert(spec_transaction_id(b) =~= txid);
    let attrs = b.skip(HEADER_LEN as int);
    assert(attrs =~= seq![0x00u8, 0x20u8, 0x00u8, n as u8] + value);
    assert(spec_attr_len(attrs) == n);
    assert(attrs.subrange(4, 4 + n) =~= value);
    assert(spec_find_attr(attrs, 0x00, 0x20) == Some(value));
    let hi = (addr.port / 256) as u8;
    let lo = (addr.port % 256) as u8;
    assert(value[2] == hi ^ 0x21u8);
    assert(value[3] == lo ^ 0x12u8);
    lemma_xor_twice(hi, 0x21u8);
    lemma_xor_twice(lo, 0x12u8);
    let hidden = value.subrange(4, n);
    assert(hidden =~= xor_bytes(addr.ip, key));
    assert(xor_bytes(hidden, key) =~= addr.ip) by {
        assert forall|i: int| 0 <= i < addr.ip.len() implies (addr.ip[i] ^ key[i]) ^ key[i]
            == addr.ip[i] by {
            lemma_xor_twice(addr.ip[i], key[i]);
        }
    }
    let got = spec_decode_xor_mapped_address(value, txid);
    assert(got is Some);
    assert(got->0.port == addr.port);
    assert(got->0.ip == addr.ip);
    assert(got->0 == addr);
}

/// What the responder does with one datagram.
#[derive(Clone, Debug, PartialEq, Eq)]
pub enum StunOutcome {
    /// Not a STUN message: ignored.
    Ignored,
    /// A STUN message that is no binding request: no answer.
    Invalid(StunError),
    /// A binding request: these bytes go back to the sender.
    Reply(Vec<u8>),
}

/// The answer owed to the datagram `b` that came from `src`.
pub open spec fn spec_handle_datagram(b: Seq<u8>, src: SocketAddressView) -> Option<Seq<u8>> {
    match spec_parse_binding_request(b) {
        Ok(txid) => Some(spec_response(txid, src)),
        Err(_) => None,
    }
}

/// Handles one datagram: a binding request is answered with the sender's own
/// address, anything else gets no answer.
pub fn handle_datagram(b: &[u8], src: SocketAddress) -> (r: StunOutcome)
    ensures
        match r {
            StunOutcome::Ignored => !spec_is(b@),
            StunOutcome::Invalid(e) => spec_is(b@) && spec_parse_binding_request(b@) == Err::<
                Seq<u8>,
                StunError,
            >(e),
            StunOutcome::Reply(bytes) => spec_handle_datagram(b@, src@) == Some(bytes@),
        },
{
    if !is_stun(b) {
        return StunOutcome::Ignored;
    }
    match parse_binding_request(b) {
        Ok(txid) => StunOutcome::Reply(response(txid, src)),
        Err(e) => StunOutcome::Invalid(e),
    }
}

} // verus!
