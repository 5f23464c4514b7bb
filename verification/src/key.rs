//! Public keys: the identity of a peer.

use vstd::prelude::*;
use crate::text::bytes_eq;

verus! {

/// The handle of a verified public key. A handle comes out of the key cache
/// only: there is no other way to make one.
#[derive(Clone, Copy, Debug, PartialEq, Eq, Hash)]
pub struct PublicKey {
    bytes: [u8; 32],
}

impl View for PublicKey {
    type V = Seq<u8>;

    closed spec fn view(&self) -> Seq<u8> {
        self.bytes@
    }
}

impl PublicKey {
    /// Makes the handle for key bytes that have been vouched for.
    pub(crate) fn from_verified_bytes(bytes: &[u8; 32]) -> (k: PublicKey)
        ensures
            k@ == bytes@,
    {
        PublicKey { bytes: *bytes }
    }

    /// The thirty-two bytes of the key.
    pub fn as_bytes(&self) -> (r: [u8; 32])
        ensures
            r@ == self@,
    {
        self.bytes
    }

    /// Tells whether two handles stand for the same key.
    pub fn same_as(&self, other: &PublicKey) -> (r: bool)
        ensures
            r == (self@ == other@),
    {
        bytes_eq(self.bytes.as_slice(), other.bytes.as_slice())
    }

    /// Tells whether this handle stands for the key with these bytes.
    pub fn has_bytes(&self, bytes: &[u8; 32]) -> (r: bool)
        ensures
            r == (self@ == bytes@),
    {
        bytes_eq(self.bytes.as_slice(), bytes.as_slice())
    }

    /// Every key has thirty-two bytes.
    pub proof fn lemma_len(self)
        ensures
            self@.len() == 32,
    {
    }
}

} // verus!
