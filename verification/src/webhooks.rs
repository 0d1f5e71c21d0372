//! Inbound webhook authentication: HMAC-SHA256 over the raw request
//! body, rendered as lowercase hex and compared against the supplied
//! signature in constant time.
//!
//! The comparison accumulates the XOR of every byte pair instead of
//! returning at the first mismatch, so its running time does not
//! depend on where the first difference lies.

use vstd::prelude::*;
use vstd::string::StringExecFns;
use vstd::utf8::{encode_utf8, encode_utf8_decode_utf8};

use crate::ascii;
use crate::error::VortexError;
use crate::mac;

verus! {

/// What it means for `signature` to verify `payload` under `secret`:
/// it is exactly the lowercase hex of the payload's HMAC-SHA256 digest
/// under the secret's UTF-8 bytes.
pub open spec fn spec_verify_sig(secret: Seq<char>, payload: Seq<u8>, signature: Seq<char>) -> bool {
    signature == ascii::hex_chars_of(mac::hmac_sha256_of(encode_utf8(secret), payload))
}

/// Webhook verifier: a pre-shared secret, held for the verifier's
/// lifetime and required to be non-empty at construction.
#[derive(Debug, Clone)]
pub struct VortexWebhooks {
    pub secret: String,
}

/// Constant-time byte comparison: the length check happens first, and
/// then every byte pair contributes to an accumulated XOR regardless
/// of earlier mismatches.
pub fn constant_time_eq(a: &[u8], b: &[u8]) -> (r: bool)
    ensures
        r == (a@ == b@),
{
    if a.len() != b.len() {
        proof {
            assert(a@.len() != b@.len());
        }
        return false;
    }
    let n = a.len();
    let mut diff: u8 = 0;
    let mut i: usize = 0;
    while i < n
        invariant
            n == a@.len() == b@.len(),
            0 <= i <= n,
            (diff == 0) <==> (forall|j: int| 0 <= j < i ==> a@[j] == b@[j]),
        decreases n - i,
    {
        let x = a[i];
        let y = b[i];
        let ghost d0 = diff;
        diff = diff | (x ^ y);
        proof {
            assert((d0 | (x ^ y)) == 0 <==> d0 == 0 && x == y) by (bit_vector);
        }
        i = i + 1;
    }
    if diff == 0 {
        proof {
            assert(a@ =~= b@);
        }
        true
    } else {
        proof {
            assert(a@ != b@) by {
                if a@ == b@ {
                    assert(forall|j: int| 0 <= j < n ==> a@[j] == b@[j]);
                }
            }
        }
        false
    }
}

impl VortexWebhooks {
    /// A verifier for the given signing secret; fails on an empty
    /// secret and on nothing else.
    pub fn new(secret: &str) -> (r: Result<Self, VortexError>)
        ensures
            r is Ok <==> secret@.len() > 0,
            r matches Ok(w) ==> w.secret@ == secret@,
            r matches Err(e) ==> e is WebhookSignatureError,
    {
        if secret.is_empty() {
            return Err(
                VortexError::WebhookSignatureError(
                    String::from_str("Webhook secret must not be empty."),
                ),
            );
        }
        Ok(VortexWebhooks { secret: String::from_str(secret) })
    }

    /// Recompute the payload's HMAC-SHA256 hex under the stored secret
    /// and compare it against `signature` (the value of the
    /// `X-Vortex-Signature` header, next to the raw, unparsed request
    /// body) in constant time.  True exactly when `signature` is that
    /// hex string; never panics.
    pub fn verify_signature(&self, payload: &[u8], signature: &str) -> (r: bool)
        ensures
            r == spec_verify_sig(self.secret@, payload@, signature@),
    {
        let digest = mac::hmac_sha256(self.secret.as_str().as_bytes(), payload);
        let expected = ascii::hex_encode(digest.as_slice());
        let r = constant_time_eq(expected.as_str().as_bytes(), signature.as_bytes());
        proof {
            if encode_utf8(expected@) == encode_utf8(signature@) {
                encode_utf8_decode_utf8(expected@);
                encode_utf8_decode_utf8(signature@);
            }
        }
        r
    }

    /// The authentication gate of event construction: `Ok` exactly
    /// when the signature verifies, and `WebhookSignatureError`
    /// otherwise — distinct from any later deserialization failure, so
    /// callers can tell "not authentic" from "malformed after
    /// authentication".
    pub fn authenticate(&self, payload: &[u8], signature: &str) -> (r: Result<(), VortexError>)
        ensures
            r is Ok <==> spec_verify_sig(self.secret@, payload@, signature@),
            r matches Err(e) ==> e is WebhookSignatureError,
    {
        if self.verify_signature(payload, signature) {
            Ok(())
        } else {
            Err(
                VortexError::WebhookSignatureError(
                    String::from_str(
                        "Webhook signature verification failed. Ensure you are using the raw request body and the correct signing secret.",
                    ),
                ),
            )
        }
    }
}

/// Verification is symmetric with signing: the hex HMAC the library
/// itself computes for a payload under a secret always verifies under
/// that same secret.
pub proof fn lemma_verify_signed(secret: Seq<char>, payload: Seq<u8>)
    ensures
        spec_verify_sig(
            secret,
            payload,
            ascii::hex_chars_of(mac::hmac_sha256_of(encode_utf8(secret), payload)),
        ),
{
}

/// Tampering is detected whenever it changes the digest: a signature
/// computed for one payload never verifies a payload whose digest
/// differs.
pub proof fn lemma_tampered_payload_rejected(secret: Seq<char>, signed: Seq<u8>, received: Seq<u8>)
    requires
        mac::hmac_sha256_of(encode_utf8(secret), signed) != mac::hmac_sha256_of(
            encode_utf8(secret),
            received,
        ),
    ensures
        !spec_verify_sig(
            secret,
            received,
            ascii::hex_chars_of(mac::hmac_sha256_of(encode_utf8(secret), signed)),
        ),
{
    let da = mac::hmac_sha256_of(encode_utf8(secret), signed);
    let db = mac::hmac_sha256_of(encode_utf8(secret), received);
    if ascii::hex_chars_of(da) == ascii::hex_chars_of(db) {
        ascii::lemma_hex_chars_injective(da, db);
    }
}

} // verus!
