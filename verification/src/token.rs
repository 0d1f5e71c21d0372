//! The token encoder: header and payload construction, claim merging,
//! base64url encoding, and HMAC-SHA256 signing.
//!
//! For a fixed key and a fixed issue second the token is pinned, byte
//! for byte, by [`spec_token_ascii`]: sibling SDKs in other languages
//! must produce the identical string.

use vstd::prelude::*;
use vstd::string::StringExecFns;
use vstd::utf8::encode_utf8;

use crate::ascii;
use crate::b64;
use crate::json::{
    jser, jv_view, jv_view_list, jv_view_members, lemma_view_members_index, JsonVal, JsonValue,
};
use crate::keys;
use crate::mac;
use crate::types::User;

verus! {

/// The fixed token lifetime in seconds.
pub open spec fn token_lifetime() -> int {
    3600
}

/// The members of the token header, in order: issue time, algorithm
/// tag, type tag, key identifier.
pub open spec fn header_members(iat: u64, uuid: Seq<char>) -> Seq<(Seq<char>, JsonVal)> {
    seq![
        ("iat"@, JsonVal::Int(iat as int)),
        ("alg"@, JsonVal::Str("HS256"@)),
        ("typ"@, JsonVal::Str("JWT"@)),
        ("kid"@, JsonVal::Str(uuid)),
    ]
}

/// The token header document.
pub open spec fn header_val(iat: u64, uuid: Seq<char>) -> JsonVal {
    JsonVal::Obj(header_members(iat, uuid))
}

/// String claims as JSON strings.
pub open spec fn str_vals(xs: Seq<String>) -> Seq<JsonVal> {
    xs.map_values(|s: String| JsonVal::Str(s@))
}

/// The standard payload claims in order: subject, contact, expiry,
/// then each optional claim that is present (the domain list only when
/// non-empty).
pub open spec fn base_claims(u: User, iat: u64) -> Seq<(Seq<char>, JsonVal)> {
    let m0 = seq![
        ("userId"@, JsonVal::Str(u.id@)),
        ("userEmail"@, JsonVal::Str(u.email@)),
        ("expires"@, JsonVal::Int(iat + token_lifetime())),
    ];
    let m1 = if u.name is Some {
        m0.push(("userName"@, JsonVal::Str((u.name->0)@)))
    } else {
        m0
    };
    let m2 = if u.avatar_url is Some {
        m1.push(("userAvatar"@, JsonVal::Str((u.avatar_url->0)@)))
    } else {
        m1
    };
    let m3 = if u.admin_scopes is Some {
        m2.push(("adminScopes"@, JsonVal::Arr(str_vals((u.admin_scopes->0)@))))
    } else {
        m2
    };
    if u.allowed_domains@.len() > 0 {
        m3.push(("allowedDomains"@, JsonVal::Arr(str_vals(u.allowed_domains@))))
    } else {
        m3
    }
}

/// The index of the first member with key `k`, or -1.
pub open spec fn find_key(ms: Seq<(Seq<char>, JsonVal)>, k: Seq<char>) -> int
    decreases ms.len(),
{
    if ms.len() == 0 {
        -1
    } else if ms[0].0 == k {
        0
    } else {
        let r = find_key(ms.drop_first(), k);
        if r < 0 {
            -1
        } else {
            r + 1
        }
    }
}

/// Write `v` under key `k`: replace the first member with that key in
/// place, or append a new member.
pub open spec fn upsert(ms: Seq<(Seq<char>, JsonVal)>, k: Seq<char>, v: JsonVal) -> Seq<
    (Seq<char>, JsonVal),
> {
    let i = find_key(ms, k);
    if i >= 0 {
        ms.update(i, (k, v))
    } else {
        ms.push((k, v))
    }
}

/// Apply extension members to the claim list in order, each one by
/// [`upsert`] — so a later write to the same key wins, also against
/// the standard claims.
pub open spec fn merge_claims(
    ms: Seq<(Seq<char>, JsonVal)>,
    extra: Seq<(Seq<char>, JsonVal)>,
) -> Seq<(Seq<char>, JsonVal)>
    decreases extra.len(),
{
    if extra.len() == 0 {
        ms
    } else {
        merge_claims(upsert(ms, extra[0].0, extra[0].1), extra.drop_first())
    }
}

/// The token payload document: standard claims overlaid with the
/// user's extension claims.
pub open spec fn payload_val(u: User, iat: u64) -> JsonVal {
    JsonVal::Obj(merge_claims(base_claims(u, iat), jv_view_members(u.extra@)))
}

/// The full token as ASCII bytes: base64url of the serialized header,
/// a dot, base64url of the serialized payload, a dot, and base64url of
/// the HMAC-SHA256 signature of the first two segments under the
/// derived signing key.
pub open spec fn spec_token_ascii(uuid: Seq<char>, secret: Seq<u8>, u: User, iat: u64) -> Seq<
    u8,
> {
    let sk = keys::spec_signing_key(secret, uuid);
    let h = b64::b64url_of(jser(header_val(iat, uuid)));
    let p = b64::b64url_of(jser(payload_val(u, iat)));
    let sig = b64::b64url_of(mac::hmac_sha256_of(sk, h + seq![46u8] + p));
    h + seq![46u8] + p + seq![46u8] + sig
}

/// Token generation is idempotent within one second: two token
/// strings produced for the same key material, the same claims and
/// the same issue second are byte-identical, because their UTF-8
/// encodings both equal [`spec_token_ascii`] and UTF-8 decoding
/// inverts encoding.
pub proof fn lemma_token_deterministic(
    uuid: Seq<char>,
    secret: Seq<u8>,
    u: User,
    iat: u64,
    t1: Seq<char>,
    t2: Seq<char>,
)
    requires
        encode_utf8(t1) == spec_token_ascii(uuid, secret, u, iat),
        encode_utf8(t2) == spec_token_ascii(uuid, secret, u, iat),
    ensures
        t1 == t2,
{
    vstd::utf8::encode_utf8_decode_utf8(t1);
    vstd::utf8::encode_utf8_decode_utf8(t2);
}

/// The encoder round trip, payload side: reading the serialized
/// payload document back recovers exactly the claims document, so the
/// payload segment carries the supplied claims with no loss and in
/// order.  (The segment itself base64url-decodes to that serialization:
/// see the ensures of [`encode_token`].)
pub proof fn lemma_payload_round_trip(u: User, iat: u64)
    ensures
        crate::json_parse::parse_value(jser(payload_val(u, iat))) == Some(
            (payload_val(u, iat), Seq::<u8>::empty()),
        ),
{
    crate::json_parse::lemma_parse_jser(payload_val(u, iat), Seq::empty());
    assert(jser(payload_val(u, iat)) + Seq::<u8>::empty() =~= jser(payload_val(u, iat)));
}

/// Merging one more extension member merges it last.
proof fn lemma_merge_push(
    ms: Seq<(Seq<char>, JsonVal)>,
    extra: Seq<(Seq<char>, JsonVal)>,
    x: (Seq<char>, JsonVal),
)
    ensures
        merge_claims(ms, extra.push(x)) == upsert(merge_claims(ms, extra), x.0, x.1),
    decreases extra.len(),
{
    reveal_with_fuel(merge_claims, 3);
    if extra.len() == 0 {
        assert(extra.push(x)[0] == x);
        assert(extra.push(x).drop_first() =~= extra);
        assert(merge_claims(ms, extra.push(x)) == merge_claims(
            upsert(ms, x.0, x.1),
            extra.push(x).drop_first(),
        ));
        assert(merge_claims(upsert(ms, x.0, x.1), extra) == upsert(ms, x.0, x.1));
    } else {
        assert(extra.push(x)[0] == extra[0]);
        assert(extra.push(x).drop_first() =~= extra.drop_first().push(x));
        lemma_merge_push(upsert(ms, extra[0].0, extra[0].1), extra.drop_first(), x);
        assert(merge_claims(ms, extra.push(x)) == merge_claims(
            upsert(ms, extra[0].0, extra[0].1),
            extra.drop_first().push(x),
        ));
        assert(merge_claims(ms, extra) == merge_claims(
            upsert(ms, extra[0].0, extra[0].1),
            extra.drop_first(),
        ));
    }
}

/// `find_key` points at the first member with the key, when there is
/// one.
proof fn lemma_find_key_props(ms: Seq<(Seq<char>, JsonVal)>, k: Seq<char>)
    ensures
        find_key(ms, k) == -1 <==> (forall|i: int| 0 <= i < ms.len() ==> #[trigger] ms[i].0 != k),
        find_key(ms, k) >= 0 ==> {
            &&& find_key(ms, k) < ms.len()
            &&& ms[find_key(ms, k)].0 == k
            &&& forall|j: int| 0 <= j < find_key(ms, k) ==> #[trigger] ms[j].0 != k
        },
    decreases ms.len(),
{
    if ms.len() > 0 && ms[0].0 != k {
        lemma_find_key_props(ms.drop_first(), k);
        assert(forall|i: int|
            1 <= i < ms.len() ==> ms.drop_first()[i - 1] == #[trigger] ms[i]);
    }
}

/// Turn a list of strings into JSON string values.
pub(crate) fn json_strings(xs: &Vec<String>) -> (r: Vec<JsonValue>)
    ensures
        jv_view_list(r@) == str_vals(xs@),
{
    let n = xs.len();
    let mut out: Vec<JsonValue> = Vec::new();
    let mut i: usize = 0;
    while i < n
        invariant
            n == xs@.len(),
            0 <= i <= n,
            jv_view_list(out@) == str_vals(xs@.take(i as int)),
        decreases n - i,
    {
        let ghost prev = out@;
        out.push(JsonValue::Str(xs[i].clone()));
        proof {
            assert(out@.drop_last() =~= prev);
            assert(jv_view_list(out@) == jv_view_list(prev).push(jv_view(out@.last())));
            assert(str_vals(xs@.take(i + 1 as int)) =~= str_vals(xs@.take(i as int)).push(
                JsonVal::Str(xs@[i as int]@),
            ));
        }
        i = i + 1;
    }
    proof {
        assert(xs@.take(n as int) =~= xs@);
    }
    out
}

/// The index of the first member of `ms` with key `k`, if any.
fn find_key_exec(ms: &Vec<(String, JsonValue)>, k: &str) -> (r: Option<usize>)
    ensures
        match r {
            Some(i) => 0 <= i < ms@.len() && find_key(jv_view_members(ms@), k@) == i,
            None => find_key(jv_view_members(ms@), k@) == -1,
        },
{
    proof {
        lemma_view_members_index(ms@);
        lemma_find_key_props(jv_view_members(ms@), k@);
    }
    let n = ms.len();
    let mut i: usize = 0;
    while i < n
        invariant
            n == ms@.len(),
            0 <= i <= n,
            forall|j: int| 0 <= j < i ==> #[trigger] jv_view_members(ms@)[j].0 != k@,
            jv_view_members(ms@).len() == ms@.len(),
            forall|j: int|
                0 <= j < ms@.len() ==> #[trigger] jv_view_members(ms@)[j] == (
                    ms@[j].0@,
                    jv_view(ms@[j].1),
                ),
        decreases n - i,
    {
        if ascii::str_eq(ms[i].0.as_str(), k) {
            proof {
                lemma_find_key_props(jv_view_members(ms@), k@);
                let fk = find_key(jv_view_members(ms@), k@);
                assert(jv_view_members(ms@)[i as int].0 == k@);
                assert(fk != -1);
                assert(fk == i as int);
            }
            return Some(i);
        }
        i = i + 1;
    }
    proof {
        lemma_find_key_props(jv_view_members(ms@), k@);
    }
    None
}

/// Apply extension members to `ms` in order, last write winning.
fn merge_into(ms: &mut Vec<(String, JsonValue)>, extra: &Vec<(String, JsonValue)>)
    ensures
        jv_view_members(final(ms)@) == merge_claims(
            jv_view_members(old(ms)@),
            jv_view_members(extra@),
        ),
{
    let n = extra.len();
    let mut e: usize = 0;
    proof {
        lemma_view_members_index(extra@);
    }
    while e < n
        invariant
            n == extra@.len(),
            0 <= e <= n,
            jv_view_members(extra@).len() == extra@.len(),
            forall|j: int|
                0 <= j < extra@.len() ==> #[trigger] jv_view_members(extra@)[j] == (
                    extra@[j].0@,
                    jv_view(extra@[j].1),
                ),
            jv_view_members(ms@) == merge_claims(
                jv_view_members(old(ms)@),
                jv_view_members(extra@).take(e as int),
            ),
        decreases n - e,
    {
        let k = extra[e].0.clone();
        let v = extra[e].1.clone();
        let ghost base = jv_view_members(old(ms)@);
        let ghost pre = jv_view_members(ms@);
        let ghost exv = jv_view_members(extra@);
        match find_key_exec(ms, k.as_str()) {
            Some(i) => {
                let ghost before = ms@;
                ms[i] = (k, v);
                proof {
                    lemma_view_members_index(before);
                    lemma_view_members_index(ms@);
                    assert(ms@ =~= before.update(i as int, ms@[i as int]));
                    assert(jv_view_members(ms@) =~= pre.update(
                        i as int,
                        (exv[e as int].0, exv[e as int].1),
                    ));
                    assert(jv_view_members(ms@) == upsert(pre, exv[e as int].0, exv[e as int].1));
                }
            },
            None => {
                let ghost before = ms@;
                ms.push((k, v));
                proof {
                    lemma_view_members_index(before);
                    lemma_view_members_index(ms@);
                    assert(jv_view_members(ms@) =~= pre.push((exv[e as int].0, exv[e as int].1)));
                    assert(jv_view_members(ms@) == upsert(pre, exv[e as int].0, exv[e as int].1));
                }
            },
        }
        proof {
            assert(exv.take(e + 1 as int) =~= exv.take(e as int).push(exv[e as int]));
            lemma_merge_push(base, exv.take(e as int), exv[e as int]);
        }
        e = e + 1;
    }
    proof {
        assert(jv_view_members(extra@).take(n as int) =~= jv_view_members(extra@));
    }
}

/// Build the header document for one issue second.
fn build_header(uuid: &str, iat: u64) -> (r: JsonValue)
    requires
        iat <= i64::MAX,
    ensures
        r@ == header_val(iat, uuid@),
{
    let mut ms: Vec<(String, JsonValue)> = Vec::new();
    ms.push((String::from_str("iat"), JsonValue::Int(iat as i64)));
    ms.push((String::from_str("alg"), JsonValue::Str(String::from_str("HS256"))));
    ms.push((String::from_str("typ"), JsonValue::Str(String::from_str("JWT"))));
    ms.push((String::from_str("kid"), JsonValue::Str(String::from_str(uuid))));
    proof {
        lemma_view_members_index(ms@);
        assert(jv_view_members(ms@) =~= header_members(iat, uuid@));
    }
    JsonValue::Obj(ms)
}

/// Build the payload document: standard claims, optional claims, then
/// the extension claims merged last.
fn build_payload(u: &User, iat: u64) -> (r: JsonValue)
    requires
        iat + token_lifetime() <= i64::MAX,
    ensures
        r@ == payload_val(*u, iat),
{
    let mut ms: Vec<(String, JsonValue)> = Vec::new();
    ms.push((String::from_str("userId"), JsonValue::Str(u.id.clone())));
    ms.push((String::from_str("userEmail"), JsonValue::Str(u.email.clone())));
    ms.push((String::from_str("expires"), JsonValue::Int(iat as i64 + 3600)));
    match &u.name {
        Some(nm) => {
            ms.push((String::from_str("userName"), JsonValue::Str(nm.clone())));
        },
        None => {},
    }
    match &u.avatar_url {
        Some(av) => {
            ms.push((String::from_str("userAvatar"), JsonValue::Str(av.clone())));
        },
        None => {},
    }
    match &u.admin_scopes {
        Some(sc) => {
            let arr = json_strings(sc);
            ms.push((String::from_str("adminScopes"), JsonValue::Arr(arr)));
        },
        None => {},
    }
    if u.allowed_domains.len() > 0 {
        let arr = json_strings(&u.allowed_domains);
        ms.push((String::from_str("allowedDomains"), JsonValue::Arr(arr)));
    }
    proof {
        lemma_view_members_index(ms@);
        assert(jv_view_members(ms@) =~= base_claims(*u, iat));
    }
    merge_into(&mut ms, &u.extra);
    JsonValue::Obj(ms)
}

/// Assemble and sign a token from a parsed key's UUID text and secret.
///
/// The result is the ASCII defined by [`spec_token_ascii`], and the
/// payload segment base64url-decodes back to exactly the serialized
/// payload document (the byte-level half of the encoder round trip).
pub fn encode_token(uuid: &str, secret: &[u8], user: &User, iat: u64) -> (r: String)
    requires
        iat + token_lifetime() <= i64::MAX,
    ensures
        encode_utf8(r@) == spec_token_ascii(uuid@, secret@, *user, iat),
        r@ == spec_token_ascii(uuid@, secret@, *user, iat).map_values(|b: u8| b as char),
        b64::b64url_decode_of(b64::b64url_of(jser(payload_val(*user, iat)))) == Some(
            jser(payload_val(*user, iat)),
        ),
{
    let header = build_header(uuid, iat);
    let header_bytes = crate::json::to_json_bytes(&header);
    let h64 = b64::b64url_encode(header_bytes.as_slice());
    let payload = build_payload(user, iat);
    let payload_bytes = crate::json::to_json_bytes(&payload);
    let p64 = b64::b64url_encode(payload_bytes.as_slice());

    let signing_key = keys::derive_signing_key(secret, uuid);

    let mut token: Vec<u8> = Vec::new();
    ascii::push_bytes(&mut token, h64.as_slice());
    token.push(46);
    ascii::push_bytes(&mut token, p64.as_slice());
    proof {
        assert(token@ =~= h64@ + seq![46u8] + p64@);
    }
    let signature = mac::hmac_sha256(signing_key.as_slice(), token.as_slice());
    let s64 = b64::b64url_encode(signature.as_slice());
    token.push(46);
    ascii::push_bytes(&mut token, s64.as_slice());
    proof {
        assert(token@ =~= spec_token_ascii(uuid@, secret@, *user, iat));
        assert(forall|i: int| 0 <= i < token@.len() ==> token@[i] < 128);
    }
    let ghost tb = token@;
    let s = ascii::ascii_to_string(token);
    proof {
        assert(s@ =~= tb.map_values(|b: u8| b as char));
        ascii::lemma_ascii_bytes_chars(tb);
    }
    s
}

} // verus!
