//! HMAC-SHA256, provided by the `hmac` and `sha2` crates through a
//! trusted wrapper.
//!
//! The digest itself is far too long to state, so it is given a name:
//! [`hmac_sha256_of`].  Everything the library proves about signatures
//! goes through that name, and a check on concrete values reaches the
//! real computation only through the wrapper.

use vstd::prelude::*;
use hmac::Mac;

verus! {

/// The 32-byte HMAC-SHA256 digest of `msg` under `key`.  A function of
/// the two arguments alone.
pub uninterp spec fn hmac_sha256_of(key: Seq<u8>, msg: Seq<u8>) -> Seq<u8>;

/// Relies on `hmac::Hmac::<sha2::Sha256>::new_from_slice`, `update` and
/// `finalize`: the digest is a function of key and message alone and is
/// 32 bytes long.  `new_from_slice` accepts keys of every length for an
/// HMAC (long keys are first hashed), so it never fails here.
#[verifier::external_body]
pub fn hmac_sha256(key: &[u8], msg: &[u8]) -> (r: Vec<u8>)
    ensures
        r@ == hmac_sha256_of(key@, msg@),
        r@.len() == 32,
{
    let mut m = hmac::Hmac::<sha2::Sha256>::new_from_slice(key).expect("HMAC accepts any key length");
    m.update(msg);
    m.finalize().into_bytes().to_vec()
}

} // verus!
