//! Byte strings: the text of HTTP headers, paths and bodies is handled as bytes.

use vstd::prelude::*;
use vstd::slice::slice_to_vec;
use vstd::string::StringSliceAdditionalSpecFns;

verus! {

/// The bytes of a piece of text (its UTF-8 encoding).
pub open spec fn text(s: &str) -> Seq<u8> {
    s.spec_bytes()
}

/// Returns the bytes of `s` as an owned vector.
pub fn text_bytes(s: &str) -> (r: Vec<u8>)
    ensures
        r@ == text(s),
{
    slice_to_vec(s.as_bytes())
}

/// Tells whether two byte strings hold the same bytes.
pub fn bytes_eq(a: &[u8], b: &[u8]) -> (r: bool)
    ensures
        r == (a@ == b@),
{
    if a.len() != b.len() {
        return false;
    }
    let mut i: usize = 0;
    while i < a.len()
        invariant
            a.len() == b.len(),
            i <= a.len(),
            forall|j: int| 0 <= j < i ==> a@[j] == b@[j],
        decreases a.len() - i,
    {
        if a[i] != b[i] {
            return false;
        }
        i = i + 1;
    }
    assert(a@ =~= b@);
    true
}

/// Tells whether `a` holds exactly the bytes of the text `s`.
pub fn is_text(a: &[u8], s: &str) -> (r: bool)
    ensures
        r == (a@ == text(s)),
{
    bytes_eq(a, s.as_bytes())
}

/// An owned copy of a byte string.
pub fn copy_bytes(a: &[u8]) -> (r: Vec<u8>)
    ensures
        r@ == a@,
{
    let mut out: Vec<u8> = Vec::new();
    let mut i: usize = 0;
    while i < a.len()
        invariant
            i <= a.len(),
            out@ == a@.subrange(0, i as int),
        decreases a.len() - i,
    {
        out.push(a[i]);
        assert(out@ =~= a@.subrange(0, i + 1));
        i = i + 1;
    }
    assert(a@.subrange(0, a.len() as int) =~= a@);
    out
}

/// An owned copy of the bytes of `a` from `from` up to `to`.
pub(crate) fn copy_range(a: &[u8], from: usize, to: usize) -> (r: Vec<u8>)
    requires
        from <= to <= a@.len(),
    ensures
        r@ == a@.subrange(from as int, to as int),
{
    let mut out: Vec<u8> = Vec::new();
    let mut i: usize = from;
    while i < to
        invariant
            from <= i <= to <= a@.len(),
            out@ == a@.subrange(from as int, i as int),
        decreases to - i,
    {
        out.push(a[i]);
        assert(out@ =~= a@.subrange(from as int, i + 1));
        i = i + 1;
    }
    out
}

/// The `N` bytes of `a` that start at `from`, as an array.
pub(crate) fn take_array<const N: usize>(a: &[u8], from: usize) -> (r: [u8; N])
    requires
        from + N <= a@.len(),
    ensures
        r@ == a@.subrange(from as int, from + N),
{
    let mut out = [0u8;N];
    let total = a.len();
    let mut i: usize = 0;
    while i < N
        invariant
            i <= N,
            total == a@.len(),
            from + N <= a@.len(),
            forall|j: int| 0 <= j < i ==> out@[j] == a@[from + j],
        decreases N - i,
    {
        out[i] = a[from + i];
        i = i + 1;
    }
    assert(out@ =~= a@.subrange(from as int, from + N));
    out
}

/// Appends the bytes of `a` to `out`.
pub fn append_bytes(out: &mut Vec<u8>, a: &[u8])
    ensures
        final(out)@ == old(out)@ + a@,
{
    let mut i: usize = 0;
    while i < a.len()
        invariant
            i <= a.len(),
            out@ == old(out)@ + a@.subrange(0, i as int),
        decreases a.len() - i,
    {
        out.push(a[i]);
        assert(out@ =~= old(out)@ + a@.subrange(0, i + 1));
        i = i + 1;
    }
    assert(a@.subrange(0, a.len() as int) =~= a@);
}

} // verus!
