use base64::engine::general_purpose::URL_SAFE_NO_PAD;
use base64::Engine;
use vortex_sdk::parse_api_key;

#[test]
fn test_parse_is_deterministic() {
    let key = format!("VRTX.{}.top-secret", URL_SAFE_NO_PAD.encode([7u8; 16]));
    let (uuid1, secret1) = parse_api_key(&key).unwrap();
    let (uuid2, secret2) = parse_api_key(&key).unwrap();
    assert_eq!(uuid1, uuid2);
    assert_eq!(secret1, secret2);
    assert_eq!(secret1, b"top-secret".to_vec());
}

#[test]
fn test_parse_renders_canonical_uuid_text() {
    let id: Vec<u8> = (0u8..16).collect();
    let key = format!("VRTX.{}.s", URL_SAFE_NO_PAD.encode(&id));
    let (uuid, _secret) = parse_api_key(&key).unwrap();
    assert_eq!(uuid, "00010203-0405-0607-0809-0a0b0c0d0e0f");

    let zero = format!("VRTX.{}.s", URL_SAFE_NO_PAD.encode([0u8; 16]));
    assert_eq!(parse_api_key(&zero).unwrap().0, "00000000-0000-0000-0000-000000000000");
}

#[test]
fn test_parse_rejects_wrong_segment_count() {
    assert!(parse_api_key("VRTX").unwrap_err().is_invalid_api_key());
    assert!(parse_api_key("VRTX.AAAAAAAAAAAAAAAAAAAAAA").unwrap_err().is_invalid_api_key());
    assert!(parse_api_key("VRTX.AAAAAAAAAAAAAAAAAAAAAA.se.cret").unwrap_err().is_invalid_api_key());
    assert!(parse_api_key("").unwrap_err().is_invalid_api_key());
}

#[test]
fn test_parse_rejects_wrong_prefix() {
    let key = format!("NOPE.{}.secret", URL_SAFE_NO_PAD.encode([0u8; 16]));
    assert!(parse_api_key(&key).unwrap_err().is_invalid_api_key());
    let lower = format!("vrtx.{}.secret", URL_SAFE_NO_PAD.encode([0u8; 16]));
    assert!(parse_api_key(&lower).unwrap_err().is_invalid_api_key());
}

#[test]
fn test_parse_rejects_bad_base64() {
    assert!(parse_api_key("VRTX.!!!.secret").unwrap_err().is_invalid_api_key());
    // Padding is not accepted in the identifier segment.
    assert!(parse_api_key("VRTX.AAAAAAAAAAAAAAAAAAAAAA==.secret").unwrap_err().is_invalid_api_key());
}

#[test]
fn test_parse_rejects_wrong_decoded_length() {
    // "dGVzdC1rZXk" decodes to the 8 bytes of "test-key".
    assert!(parse_api_key("VRTX.dGVzdC1rZXk.test-secret").unwrap_err().is_invalid_api_key());
    let short = format!("VRTX.{}.s", URL_SAFE_NO_PAD.encode([1u8; 15]));
    assert!(parse_api_key(&short).unwrap_err().is_invalid_api_key());
    let long = format!("VRTX.{}.s", URL_SAFE_NO_PAD.encode([1u8; 17]));
    assert!(parse_api_key(&long).unwrap_err().is_invalid_api_key());
}

#[test]
fn test_parse_accepts_empty_secret_segment() {
    // The format check is segment count, prefix and identifier; the
    // secret segment itself is not validated here.
    let key = format!("VRTX.{}.", URL_SAFE_NO_PAD.encode([9u8; 16]));
    let (_uuid, secret) = parse_api_key(&key).unwrap();
    assert_eq!(secret, Vec::<u8>::new());
}
