//! Base64url (URL-safe alphabet, no padding) encoding and decoding,
//! provided by the `base64` crate through trusted wrappers.
//!
//! The two spec names below stand for what the crate's
//! `URL_SAFE_NO_PAD` engine computes; the wrappers' contracts state the
//! facts the rest of the library needs: both directions are functions
//! of their input alone, the encoder emits ASCII, and decoding an
//! encoder output returns the original bytes.

use vstd::prelude::*;
use base64::Engine;

verus! {

/// The byte sequence that base64url encoding (URL-safe alphabet, no
/// padding) assigns to `b`.
pub uninterp spec fn b64url_of(b: Seq<u8>) -> Seq<u8>;

/// The result of base64url decoding (URL-safe alphabet, padding
/// rejected): `Some` with the decoded bytes on a valid encoding,
/// `None` otherwise.
pub uninterp spec fn b64url_decode_of(s: Seq<u8>) -> Option<Seq<u8>>;

/// Relies on `base64::engine::general_purpose::URL_SAFE_NO_PAD.encode`:
/// the encoding is a function of the input bytes alone, its output is
/// drawn from an ASCII alphabet, and decoding it with the same engine
/// gives back the input.
#[verifier::external_body]
pub fn b64url_encode(b: &[u8]) -> (r: Vec<u8>)
    ensures
        r@ == b64url_of(b@),
        forall|i: int| 0 <= i < r@.len() ==> r@[i] < 128,
        b64url_decode_of(r@) == Some(b@),
{
    base64::engine::general_purpose::URL_SAFE_NO_PAD.encode(b).into_bytes()
}

/// Relies on `base64::engine::general_purpose::URL_SAFE_NO_PAD.decode`:
/// the outcome is a function of the input bytes alone.
#[verifier::external_body]
pub fn b64url_decode(s: &[u8]) -> (r: Result<Vec<u8>, ()>)
    ensures
        r is Ok <==> b64url_decode_of(s@) is Some,
        r matches Ok(v) ==> b64url_decode_of(s@) == Some(v@),
{
    match base64::engine::general_purpose::URL_SAFE_NO_PAD.decode(s) {
        Ok(v) => Ok(v),
        Err(_) => Err(()),
    }
}

} // verus!
