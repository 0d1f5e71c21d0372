//! Structured API key parsing and signing-key derivation.
//!
//! A structured key is `"VRTX." + base64url(16-byte id) + "." + secret`.
//! Parsing splits on `.`, checks the prefix, decodes the identifier,
//! and renders it as canonical hyphenated lowercase UUID text.  The
//! signing key for a parsed key is
//! `HMAC-SHA256(key = secret, message = uuid-text)`, so the root secret
//! itself never signs a token.

use vstd::prelude::*;
use vstd::string::StringExecFns;
use vstd::utf8::encode_utf8;

use crate::ascii;
use crate::b64;
use crate::error::VortexError;
use crate::mac;

verus! {

/// The separator between the three key segments: `'.'`.
pub open spec fn dot() -> u8 {
    46u8
}

/// Splitting a byte sequence on a separator, one segment more than
/// there are separators.  Defined from the back so that a single
/// forward pass matches it step by step.
pub open spec fn split_bytes(s: Seq<u8>, sep: u8) -> Seq<Seq<u8>>
    decreases s.len(),
{
    if s.len() == 0 {
        seq![Seq::<u8>::empty()]
    } else if s.last() == sep {
        split_bytes(s.drop_last(), sep).push(Seq::<u8>::empty())
    } else {
        let r = split_bytes(s.drop_last(), sep);
        r.update(r.len() - 1, r[r.len() - 1].push(s.last()))
    }
}

/// Split `b` on `sep`.
pub fn split_on(b: &[u8], sep: u8) -> (r: Vec<Vec<u8>>)
    ensures
        r.deep_view() == split_bytes(b@, sep),
{
    let mut parts: Vec<Vec<u8>> = Vec::new();
    let mut cur: Vec<u8> = Vec::new();
    proof {
        assert(b@.take(0) =~= Seq::<u8>::empty());
        assert(parts.deep_view().push(cur@) =~~= split_bytes(b@.take(0), sep));
    }
    let n = b.len();
    let mut i: usize = 0;
    while i < n
        invariant
            n == b@.len(),
            0 <= i <= n,
            parts.deep_view().push(cur@) == split_bytes(b@.take(i as int), sep),
        decreases n - i,
    {
        let ghost pp = parts.deep_view();
        let ghost cc = cur@;
        proof {
            assert(b@.take(i + 1 as int).drop_last() =~= b@.take(i as int));
            assert(b@.take(i + 1 as int).last() == b@[i as int]);
        }
        if b[i] == sep {
            parts.push(cur);
            cur = Vec::new();
            proof {
                assert(parts.deep_view() =~~= pp.push(cc));
                assert(parts.deep_view().push(cur@) =~~= split_bytes(
                    b@.take(i + 1 as int),
                    sep,
                ));
            }
        } else {
            cur.push(b[i]);
            proof {
                let r = pp.push(cc);
                assert(r.len() >= 1);
                assert(parts.deep_view() =~~= pp);
                assert(parts.deep_view().push(cur@) =~~= r.update(
                    r.len() - 1,
                    r[r.len() - 1].push(b@[i as int]),
                ));
            }
        }
        i = i + 1;
    }
    let ghost pp = parts.deep_view();
    let ghost cc = cur@;
    parts.push(cur);
    proof {
        assert(parts.deep_view() =~~= pp.push(cc));
        assert(b@.take(n as int) =~= b@);
    }
    parts
}

/// The required literal prefix segment, `"VRTX"`, as bytes.
pub open spec fn vrtx_prefix() -> Seq<u8> {
    seq![86u8, 82u8, 84u8, 88u8]
}

/// The segments of a structured key's UTF-8 bytes.
pub open spec fn api_key_parts(kb: Seq<u8>) -> Seq<Seq<u8>> {
    split_bytes(kb, dot())
}

/// A structured key is valid when it has exactly three segments, the
/// first is `VRTX`, and the second base64url-decodes to exactly 16
/// bytes.
pub open spec fn api_key_valid(kb: Seq<u8>) -> bool {
    let p = api_key_parts(kb);
    &&& p.len() == 3
    &&& p[0] == vrtx_prefix()
    &&& b64::b64url_decode_of(p[1]) is Some
    &&& b64::b64url_decode_of(p[1])->0.len() == 16
}

/// The 16 identifier bytes of a valid key.
pub open spec fn api_key_id_bytes(kb: Seq<u8>) -> Seq<u8> {
    b64::b64url_decode_of(api_key_parts(kb)[1])->0
}

/// The secret segment of a valid key.
pub open spec fn api_key_secret(kb: Seq<u8>) -> Seq<u8> {
    api_key_parts(kb)[2]
}

/// Canonical hyphenated lowercase UUID text for 16 identifier bytes,
/// as ASCII codes: hex in groups of 8-4-4-4-12 digits.
pub open spec fn uuid_ascii_of(id: Seq<u8>) -> Seq<u8> {
    ascii::hex_bytes_of(id.subrange(0, 4)) + seq![45u8] + ascii::hex_bytes_of(id.subrange(4, 6))
        + seq![45u8] + ascii::hex_bytes_of(id.subrange(6, 8)) + seq![45u8]
        + ascii::hex_bytes_of(id.subrange(8, 10)) + seq![45u8] + ascii::hex_bytes_of(
        id.subrange(10, 16),
    )
}

/// The UUID text as characters.
pub open spec fn uuid_chars_of(id: Seq<u8>) -> Seq<char> {
    uuid_ascii_of(id).map_values(|b: u8| b as char)
}

/// The UUID text of a valid key's identifier bytes.
pub open spec fn api_key_uuid_chars(kb: Seq<u8>) -> Seq<char> {
    uuid_chars_of(api_key_id_bytes(kb))
}

/// Render 16 identifier bytes as canonical hyphenated lowercase UUID
/// text.
pub fn uuid_text(id: &[u8]) -> (r: String)
    requires
        id@.len() == 16,
    ensures
        r@ == uuid_chars_of(id@),
        encode_utf8(r@) == uuid_ascii_of(id@),
{
    let mut out: Vec<u8> = Vec::new();
    let g1 = vstd::slice::slice_subrange(id, 0, 4);
    ascii::write_hex(g1, &mut out);
    out.push(45);
    let g2 = vstd::slice::slice_subrange(id, 4, 6);
    ascii::write_hex(g2, &mut out);
    out.push(45);
    let g3 = vstd::slice::slice_subrange(id, 6, 8);
    ascii::write_hex(g3, &mut out);
    out.push(45);
    let g4 = vstd::slice::slice_subrange(id, 8, 10);
    ascii::write_hex(g4, &mut out);
    out.push(45);
    let g5 = vstd::slice::slice_subrange(id, 10, 16);
    ascii::write_hex(g5, &mut out);
    proof {
        assert(out@ =~= uuid_ascii_of(id@));
        ascii::lemma_hex_bytes_ascii(id@.subrange(0, 4));
        ascii::lemma_hex_bytes_ascii(id@.subrange(4, 6));
        ascii::lemma_hex_bytes_ascii(id@.subrange(6, 8));
        ascii::lemma_hex_bytes_ascii(id@.subrange(8, 10));
        ascii::lemma_hex_bytes_ascii(id@.subrange(10, 16));
        assert(forall|i: int| 0 <= i < out@.len() ==> out@[i] < 128);
    }
    let ghost ob = out@;
    let s = ascii::ascii_to_string(out);
    proof {
        assert(s@ =~= ob.map_values(|b: u8| b as char));
        ascii::lemma_ascii_bytes_chars(ob);
    }
    s
}

/// The token-signing key of a parsed structured key:
/// `HMAC-SHA256(key = secret, message = UTF-8 of the uuid text)`.
pub open spec fn spec_signing_key(secret: Seq<u8>, uuid: Seq<char>) -> Seq<u8> {
    mac::hmac_sha256_of(secret, encode_utf8(uuid))
}

/// Derive the per-identifier signing key.
pub fn derive_signing_key(secret: &[u8], uuid: &str) -> (r: Vec<u8>)
    ensures
        r@ == spec_signing_key(secret@, uuid@),
        r@.len() == 32,
{
    mac::hmac_sha256(secret, uuid.as_bytes())
}

/// Parsing is deterministic: any two outcomes that meet
/// [`parse_api_key`]'s contract for the same key bytes carry the same
/// UUID text and the same secret.
pub proof fn lemma_parse_deterministic(
    kb: Seq<u8>,
    u1: Seq<char>,
    s1: Seq<u8>,
    u2: Seq<char>,
    s2: Seq<u8>,
)
    requires
        u1 == api_key_uuid_chars(kb),
        s1 == api_key_secret(kb),
        u2 == api_key_uuid_chars(kb),
        s2 == api_key_secret(kb),
    ensures
        u1 == u2,
        s1 == s2,
{
}

/// Validate and decompose a structured key into its UUID text and
/// secret bytes.
///
/// Succeeds exactly on valid keys; on each malformed key it returns
/// `InvalidApiKey`, and it never panics.  The outcome is a function of
/// the key alone, so parsing is deterministic.  (Any 16 bytes form a
/// valid UUID, so nothing past the length check can reject the
/// identifier.)
pub fn parse_api_key(api_key: &str) -> (r: Result<(String, Vec<u8>), VortexError>)
    ensures
        r is Ok <==> api_key_valid(encode_utf8(api_key@)),
        r matches Ok(p) ==> {
            &&& p.0@ == api_key_uuid_chars(encode_utf8(api_key@))
            &&& encode_utf8(p.0@) == uuid_ascii_of(api_key_id_bytes(encode_utf8(api_key@)))
            &&& p.1@ == api_key_secret(encode_utf8(api_key@))
        },
        r matches Err(e) ==> e is InvalidApiKey,
{
    let kb = api_key.as_bytes();
    let mut parts = split_on(kb, 46);
    proof {
        assert(parts.deep_view() == api_key_parts(encode_utf8(api_key@)));
    }
    if parts.len() != 3 {
        return Err(
            VortexError::InvalidApiKey(String::from_str("Invalid API key format")),
        );
    }
    let seg_secret = parts.pop().unwrap();
    let seg_id = parts.pop().unwrap();
    let seg_prefix = parts.pop().unwrap();
    proof {
        assert(seg_prefix@ == api_key_parts(encode_utf8(api_key@))[0]);
        assert(seg_id@ == api_key_parts(encode_utf8(api_key@))[1]);
        assert(seg_secret@ == api_key_parts(encode_utf8(api_key@))[2]);
    }
    let prefix: Vec<u8> = vec![86u8, 82u8, 84u8, 88u8];
    proof {
        assert(prefix@ =~= vrtx_prefix());
    }
    if !ascii::bytes_eq(seg_prefix.as_slice(), prefix.as_slice()) {
        return Err(
            VortexError::InvalidApiKey(String::from_str("Invalid API key prefix")),
        );
    }
    let id = match b64::b64url_decode(seg_id.as_slice()) {
        Ok(id) => id,
        Err(_) => {
            return Err(
                VortexError::InvalidApiKey(String::from_str("Failed to decode ID")),
            );
        },
    };
    if id.len() != 16 {
        return Err(VortexError::InvalidApiKey(String::from_str("ID must be 16 bytes")));
    }
    let uuid = uuid_text(id.as_slice());
    Ok((uuid, seg_secret))
}

} // verus!
