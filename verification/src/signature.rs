//! The two checks of a handshake that are cryptography: whether bytes are a
//! valid public key, and whether a signature over the digest of the
//! client's message verifies. The hub computes neither itself.

use vstd::prelude::*;
use sha2::Digest;
use crate::frame::{Frame, FrameView};
use crate::handshake::{signed_bytes, spec_signed_bytes, ClientInfo, Verdicts};
use crate::key::PublicKey;
use crate::key_cache::{KeyCache, KeyError};

verus! {

/// The SHA-256 digest of `data`: thirty-two bytes.
pub uninterp spec fn sha256(data: Seq<u8>) -> Seq<u8>;

/// Calls `sha2::Sha256::digest`. The result is a function of the data
/// alone; nothing is proved of the digest.
#[verifier::external_body]
fn sha256_digest(data: &[u8]) -> (r: Vec<u8>)
    ensures
        r@ == sha256(data@),
{
    sha2::Sha256::digest(data).to_vec()
}

/// The bytes are the compressed form of a point of the curve, and so a
/// public key.
pub uninterp spec fn key_is_valid(key: Seq<u8>) -> bool;

/// Calls `ed25519_dalek::VerifyingKey::from_bytes` and tells whether it
/// gave a key. The result is a function of the bytes alone.
#[verifier::external_body]
fn is_valid_key(key: &[u8; 32]) -> (r: bool)
    ensures
        r == key_is_valid(key@),
{
    ed25519_dalek::VerifyingKey::from_bytes(key).is_ok()
}

/// The bytes of `key` are a public key, and `signature` is a signature of
/// `message` under it that passes strict verification.
pub uninterp spec fn signature_verifies(key: Seq<u8>, message: Seq<u8>, signature: Seq<u8>) -> bool;

/// Calls `ed25519_dalek::VerifyingKey::verify_strict` with the key that
/// `VerifyingKey::from_bytes` makes of `key`; bytes that are no key verify
/// nothing. The result is a function of the three byte strings alone;
/// nothing is proved of the verification.
#[verifier::external_body]
fn verify_strict(key: &[u8; 32], message: &[u8], signature: &[u8; 64]) -> (r: bool)
    ensures
        r == signature_verifies(key@, message@, signature@),
{
    match ed25519_dalek::VerifyingKey::from_bytes(key) {
        Ok(key) => key.verify_strict(message, &ed25519_dalek::Signature::from_bytes(signature)).is_ok(),
        Err(_) => false,
    }
}

/// What the checks find out about a frame: of a `ClientInfo` frame, whether
/// its key is valid (a key that the cache holds already is not checked
/// again) and whether its signature verifies over the SHA-256 digest of the
/// domain text followed by the message; of any other frame, nothing.
pub open spec fn spec_verdicts(frame: FrameView, cached: bool, info: Option<ClientInfo>) -> Verdicts {
    match frame {
        FrameView::ClientInfo { client_public_key, signature, message } => Verdicts {
            key_is_valid: cached || key_is_valid(client_public_key),
            signature_verifies: signature_verifies(
                client_public_key,
                sha256(spec_signed_bytes(message)),
                signature,
            ),
            info,
        },
        _ => Verdicts { key_is_valid: false, signature_verifies: false, info },
    }
}

/// Makes the checks of the handshake on `frame`. `cached` tells whether the
/// key cache holds the key of the frame; `info` is what the message of the
/// frame says, if it can be read.
pub fn verify_client(frame: &Frame, cached: bool, info: Option<ClientInfo>) -> (r: Verdicts)
    ensures
        r == spec_verdicts(frame@, cached, info),
{
    match frame {
        Frame::ClientInfo { client_public_key, signature, message } => {
            let key_is_valid = cached || is_valid_key(client_public_key);
            let digest = sha256_digest(signed_bytes(message.as_slice()).as_slice());
            let signature_verifies = verify_strict(client_public_key, digest.as_slice(), signature);
            Verdicts { key_is_valid, signature_verifies, info }
        },
        _ => Verdicts { key_is_valid: false, signature_verifies: false, info },
    }
}

/// Returns the handle of the key with these bytes: the cached handle if the
/// cache holds the key, and else the handle of a key that was checked and
/// found valid, which the cache then takes in. Bytes that are no valid key
/// are refused with `InvalidKey`, and the cache stays as it was.
pub fn get_or_verify(key_cache: &mut KeyCache, bytes: &[u8; 32]) -> (r: Result<PublicKey, KeyError>)
    requires
        old(key_cache).wf(),
    ensures
        final(key_cache).wf(),
        r is Ok <==> old(key_cache)@.entries.contains(bytes@) || key_is_valid(bytes@),
        match r {
            Ok(k) => {
                &&& k@ == bytes@
                &&& final(key_cache)@.vouched.contains(k@)
                &&& final(key_cache)@ == if old(key_cache)@.entries.contains(bytes@) {
                    old(key_cache)@.promote(bytes@)
                } else {
                    old(key_cache)@.take_in(bytes@)
                }
            },
            Err(e) => e == KeyError::InvalidKey && final(key_cache)@ == old(key_cache)@,
        },
{
    let valid = key_cache.contains(bytes) || is_valid_key(bytes);
    key_cache.get_or_insert(bytes, valid)
}

} // verus!
