//! The headers that the hub adds to its responses, kept in the header map
//! of the `http` crate.

use vstd::prelude::*;
use crate::response::{header_views, spec_ascii_lower, Header};

verus! {

#[verifier::external_type_specification]
#[verifier::external_body]
#[verifier::reject_recursive_types(T)]
pub struct ExHeaderMap<T>(http::HeaderMap<T>);

#[verifier::external_type_specification]
#[verifier::external_body]
pub struct ExHeaderValue(http::HeaderValue);

/// A map from header names to header values.
pub type Headers = http::HeaderMap<http::HeaderValue>;

/// The header lines that a map holds, each a name and a value, in the order
/// in which the map hands them out.
pub uninterp spec fn header_entries(m: Headers) -> Seq<(Seq<u8>, Seq<u8>)>;

/// A map with fewer header lines than this has room for one more.
pub const HEADER_ROOM: usize = 4096;

/// The characters of a header name: letters, digits, and
/// ``! # $ % & ' * + - . ^ _ ` | ~``.
pub open spec fn is_name_char(b: u8) -> bool {
    ||| 0x30 <= b <= 0x39
    ||| 0x41 <= b <= 0x5a
    ||| 0x61 <= b <= 0x7a
    ||| b == 0x21
    ||| 0x23 <= b <= 0x27
    ||| b == 0x2a
    ||| b == 0x2b
    ||| b == 0x2d
    ||| b == 0x2e
    ||| b == 0x5e
    ||| b == 0x5f
    ||| b == 0x60
    ||| b == 0x7c
    ||| b == 0x7e
}

/// A header name: not empty, shorter than 64 KiB, and made of name
/// characters only.
pub open spec fn valid_name(name: Seq<u8>) -> bool {
    &&& 0 < name.len() < 0x1_0000
    &&& forall|i: int| 0 <= i < name.len() ==> is_name_char(#[trigger] name[i])
}

/// A header value: every byte is a tab, or neither a control character nor
/// the delete character.
pub open spec fn valid_value(value: Seq<u8>) -> bool {
    forall|i: int| 0 <= i < value.len() ==> ((#[trigger] value[i]) >= 32 && value[i] != 127)
        || value[i] == 9
}

/// A name with its capital letters turned into small ones: the form in
/// which a map keeps it.
pub open spec fn lowered(name: Seq<u8>) -> Seq<u8> {
    Seq::new(name.len(), |i: int| spec_ascii_lower(name[i]))
}

/// The lines of `entries` without those that have the name `name`.
pub open spec fn without(entries: Seq<(Seq<u8>, Seq<u8>)>, name: Seq<u8>) -> Seq<(Seq<u8>, Seq<u8>)> {
    entries.filter(|e: (Seq<u8>, Seq<u8>)| e.0 != name)
}

/// The lines after the header `name` was set to `value`: the first line
/// with that name gets the value and every later line with that name goes;
/// if there is none, the header stands at the end.
pub open spec fn put(entries: Seq<(Seq<u8>, Seq<u8>)>, name: Seq<u8>, value: Seq<u8>) -> Seq<
    (Seq<u8>, Seq<u8>),
>
    decreases entries.len(),
{
    if entries.len() == 0 {
        seq![(name, value)]
    } else if entries[0].0 == name {
        seq![(name, value)] + without(entries.drop_first(), name)
    } else {
        seq![entries[0]] + put(entries.drop_first(), name, value)
    }
}

/// The lines after an attempt to set the header `name` to `value` in a map
/// that has room: a name or a value that is none changes nothing.
pub open spec fn try_put(entries: Seq<(Seq<u8>, Seq<u8>)>, name: Seq<u8>, value: Seq<u8>) -> Seq<
    (Seq<u8>, Seq<u8>),
> {
    if valid_name(name) && valid_value(value) {
        put(entries, lowered(name), value)
    } else {
        entries
    }
}

/// The lines after an attempt to set every header of `more`, one after the
/// other.
pub open spec fn try_put_all(
    entries: Seq<(Seq<u8>, Seq<u8>)>,
    more: Seq<(Seq<u8>, Seq<u8>)>,
) -> Seq<(Seq<u8>, Seq<u8>)>
    decreases more.len(),
{
    if more.len() == 0 {
        entries
    } else {
        try_put(try_put_all(entries, more.drop_last()), more.last().0, more.last().1)
    }
}

/// No header line.
pub open spec fn no_headers() -> Seq<(Seq<u8>, Seq<u8>)> {
    Seq::empty()
}

/// Calls `http::HeaderMap::new`: the new map holds no header line.
#[verifier::external_body]
pub(crate) fn headers_new() -> (m: Headers)
    ensures
        header_entries(m) == no_headers(),
{
    http::HeaderMap::new()
}

/// Calls `http::HeaderMap::try_insert` with the name that
/// `http::HeaderName::from_bytes` and the value that
/// `http::HeaderValue::from_bytes` make of the bytes, and tells whether the
/// header was set. If it was, the map holds the lowered name with this value
/// once, in the place of its first line with that name or at the end, and
/// its other lines are as they were; if it was not, the map is as it was.
/// The header is set whenever the name and the value are valid and the map
/// has fewer than [`HEADER_ROOM`] lines.
#[verifier::external_body]
pub(crate) fn headers_insert(m: &mut Headers, name: &[u8], value: &[u8]) -> (r: bool)
    ensures
        r ==> valid_name(name@) && valid_value(value@),
        header_entries(*final(m)) == if r {
            put(header_entries(*old(m)), lowered(name@), value@)
        } else {
            header_entries(*old(m))
        },
        valid_name(name@) && valid_value(value@) && header_entries(*old(m)).len() < HEADER_ROOM
            ==> r,
{
    match (http::HeaderName::from_bytes(name), http::HeaderValue::from_bytes(value)) {
        (Ok(name), Ok(value)) => m.try_insert(name, value).is_ok(),
        _ => false,
    }
}

/// Calls `http::HeaderMap::iter` and copies every line out, in the order of
/// the iteration.
#[verifier::external_body]
pub(crate) fn headers_list(m: &Headers) -> (r: Vec<Header>)
    ensures
        header_views(r@) == header_entries(*m),
{
    m.iter().map(|(name, value)| Header::new(name.as_ref(), value.as_bytes())).collect()
}

/// Setting a header adds one line at most.
pub proof fn lemma_put_len(entries: Seq<(Seq<u8>, Seq<u8>)>, name: Seq<u8>, value: Seq<u8>)
    ensures
        put(entries, name, value).len() <= entries.len() + 1,
    decreases entries.len(),
{
    if entries.len() > 0 {
        if entries[0].0 == name {
            let rest = entries.drop_first();
            rest.lemma_filter_len(|e: (Seq<u8>, Seq<u8>)| e.0 != name);
        } else {
            lemma_put_len(entries.drop_first(), name, value);
        }
    }
}

/// Setting headers adds one line for each at most.
pub proof fn lemma_try_put_all_len(entries: Seq<(Seq<u8>, Seq<u8>)>, more: Seq<(Seq<u8>, Seq<u8>)>)
    ensures
        try_put_all(entries, more).len() <= entries.len() + more.len(),
    decreases more.len(),
{
    if more.len() > 0 {
        lemma_try_put_all_len(entries, more.drop_last());
        lemma_put_len(
            try_put_all(entries, more.drop_last()),
            lowered(more.last().0),
            more.last().1,
        );
    }
}

/// Sets every header of the list `more` in the map `m`.
pub fn set_all(m: &mut Headers, more: &Vec<Header>)
    ensures
        header_entries(*old(m)).len() + more@.len() <= HEADER_ROOM ==> header_entries(*final(m))
            == try_put_all(header_entries(*old(m)), header_views(more@)),
{
    let ghost start = header_entries(*m);
    let ghost list = header_views(more@);
    let mut i: usize = 0;
    assert(list.subrange(0, 0) =~= Seq::empty());
    while i < more.len()
        invariant
            i <= more.len(),
            list == header_views(more@),
            start == header_entries(*old(m)),
            start.len() + more@.len() <= HEADER_ROOM ==> header_entries(*m) == try_put_all(
                start,
                list.subrange(0, i as int),
            ) && header_entries(*m).len() <= start.len() + i,
        decreases more.len() - i,
    {
        let ghost before = header_entries(*m);
        let ghost upto = list.subrange(0, i + 1);
        assert(upto.drop_last() =~= list.subrange(0, i as int));
        assert(upto.last() == more@[i as int]@);
        proof {
            lemma_put_len(before, lowered(more@[i as int]@.0), more@[i as int]@.1);
        }
        let _ = headers_insert(m, more[i].name.as_slice(), more[i].value.as_slice());
        i = i + 1;
    }
    assert(list.subrange(0, i as int) =~= list);
}

/// Sets every header of the map `more` in the map `m`.
pub fn merge(m: &mut Headers, more: &Headers)
    ensures
        header_entries(*old(m)).len() + header_entries(*more).len() <= HEADER_ROOM
            ==> header_entries(*final(m)) == try_put_all(
            header_entries(*old(m)),
            header_entries(*more),
        ),
{
    let list = headers_list(more);
    set_all(m, &list);
}

} // verus!
