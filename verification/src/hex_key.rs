//! Keys in files: the secret key of a hub and the pre-shared key of a mesh
//! of hubs are thirty-two bytes each, kept as sixty-four hexadecimal digits
//! with white space around them.

use vstd::prelude::*;

verus! {

/// The length of a key.
pub const HEX_KEY_LEN: usize = 32;

/// The value of a hexadecimal digit, in either case; `None` for any other byte.
pub open spec fn spec_hex_value(c: u8) -> Option<u8> {
    if 0x30 <= c <= 0x39 {
        Some((c - 0x30) as u8)
    } else if 0x41 <= c <= 0x46 {
        Some((c - 0x41 + 10) as u8)
    } else if 0x61 <= c <= 0x66 {
        Some((c - 0x61 + 10) as u8)
    } else {
        None
    }
}

/// The bytes are the hexadecimal form of a key: sixty-four digits.
pub open spec fn spec_is_hex_key(data: Seq<u8>) -> bool {
    &&& data.len() == 2 * HEX_KEY_LEN
    &&& forall|i: int| 0 <= i < data.len() ==> spec_hex_value(#[trigger] data[i]) is Some
}

/// The bytes that hexadecimal digits stand for, two digits to the byte, the
/// high one first.
pub open spec fn spec_hex_decode(data: Seq<u8>) -> Seq<u8> {
    Seq::new(
        data.len() / 2,
        |i: int|
            (spec_hex_value(data[2 * i])->0 * 16 + spec_hex_value(data[2 * i + 1])->0) as u8,
    )
}

/// Calls `hex::decode_to_slice` with room for thirty-two bytes: `Some` with
/// the decoded bytes if `data` is sixty-four hexadecimal digits, `None` if
/// it is not.
#[verifier::external_body]
fn decode_to_slice(data: &[u8]) -> (r: Option<[u8; 32]>)
    ensures
        match r {
            Some(out) => spec_is_hex_key(data@) && out@ == spec_hex_decode(data@),
            None => !spec_is_hex_key(data@),
        },
{
    let mut out = [0u8; 32];
    match hex::decode_to_slice(data, &mut out) {
        Ok(()) => Some(out),
        Err(_) => None,
    }
}

/// The characters that count as white space: those with the Unicode
/// property `White_Space`.
pub open spec fn is_white_space(c: char) -> bool {
    ||| '\u{9}' <= c <= '\u{d}'
    ||| c == ' '
    ||| c == '\u{85}'
    ||| c == '\u{a0}'
    ||| c == '\u{1680}'
    ||| '\u{2000}' <= c <= '\u{200a}'
    ||| c == '\u{2028}'
    ||| c == '\u{2029}'
    ||| c == '\u{202f}'
    ||| c == '\u{205f}'
    ||| c == '\u{3000}'
}

/// A text without the white space at its start.
pub open spec fn trim_start(s: Seq<char>) -> Seq<char>
    decreases s.len(),
{
    if s.len() > 0 && is_white_space(s[0]) {
        trim_start(s.drop_first())
    } else {
        s
    }
}

/// A text without the white space at its end.
pub open spec fn trim_end(s: Seq<char>) -> Seq<char>
    decreases s.len(),
{
    if s.len() > 0 && is_white_space(s.last()) {
        trim_end(s.drop_last())
    } else {
        s
    }
}

/// A text without the white space at its start and at its end.
pub open spec fn trimmed(s: Seq<char>) -> Seq<char> {
    trim_end(trim_start(s))
}

/// Calls `str::trim`: the result is the text without its leading and
/// trailing white space, where white space is what has the Unicode property
/// `White_Space`.
#[verifier::external_body]
fn trim(s: &str) -> (r: &str)
    ensures
        r@ == trimmed(s@),
{
    s.trim()
}

/// A text that neither begins nor ends with white space is its own trimmed
/// form.
pub proof fn lemma_trimmed_of_bare_text(s: Seq<char>)
    requires
        s.len() == 0 || (!is_white_space(s[0]) && !is_white_space(s.last())),
    ensures
        trimmed(s) == s,
{
}

/// Reads a key from the content of its file: the white space around it
/// is dropped, and what is left must be sixty-four hexadecimal digits.
pub fn parse_hex_key(raw: &str) -> (r: Option<[u8; 32]>)
    ensures
        match r {
            Some(key) => {
                &&& spec_is_hex_key(vstd::utf8::encode_utf8(trimmed(raw@)))
                &&& key@ == spec_hex_decode(vstd::utf8::encode_utf8(trimmed(raw@)))
            },
            None => !spec_is_hex_key(vstd::utf8::encode_utf8(trimmed(raw@))),
        },
{
    decode_to_slice(trim(raw).as_bytes())
}

/// Reads a key from text that has no white space around it.
pub fn decode_hex_key(digits: &[u8]) -> (r: Option<[u8; 32]>)
    ensures
        match r {
            Some(key) => spec_is_hex_key(digits@) && key@ == spec_hex_decode(digits@),
            None => !spec_is_hex_key(digits@),
        },
{
    decode_to_slice(digits)
}

} // verus!
