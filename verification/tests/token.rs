use base64::engine::general_purpose::URL_SAFE_NO_PAD;
use base64::Engine;
use hmac::{Hmac, Mac};
use sha2::Sha256;
use vortex_sdk::{JsonValue, User, VortexClient};

type HmacSha256 = Hmac<Sha256>;

const ZERO_UUID: &str = "00000000-0000-0000-0000-000000000000";

fn zero_key() -> String {
    format!("VRTX.{}.secret", URL_SAFE_NO_PAD.encode([0u8; 16]))
}

fn split3(token: &str) -> (String, String, String) {
    let parts: Vec<&str> = token.split('.').collect();
    assert_eq!(parts.len(), 3);
    (parts[0].to_string(), parts[1].to_string(), parts[2].to_string())
}

#[test]
fn test_header_and_payload_exact_bytes() {
    let client = VortexClient::new(zero_key());
    let user = User::new("user-123", "user@example.com");
    let token = client.generate_jwt_at(&user, 1_700_000_000).unwrap();
    let (h, p, _s) = split3(&token);
    let header = URL_SAFE_NO_PAD.decode(h).unwrap();
    assert_eq!(
        String::from_utf8(header).unwrap(),
        format!(r#"{{"iat":1700000000,"alg":"HS256","typ":"JWT","kid":"{}"}}"#, ZERO_UUID)
    );
    let payload = URL_SAFE_NO_PAD.decode(p).unwrap();
    assert_eq!(
        String::from_utf8(payload).unwrap(),
        r#"{"userId":"user-123","userEmail":"user@example.com","expires":1700003600}"#
    );
}

#[test]
fn test_signature_matches_independent_hmac() {
    let client = VortexClient::new(zero_key());
    let user = User::new("user-123", "user@example.com");
    let token = client.generate_jwt_at(&user, 1_700_000_000).unwrap();
    let (h, p, s) = split3(&token);

    let mut kdf = HmacSha256::new_from_slice(b"secret").unwrap();
    kdf.update(ZERO_UUID.as_bytes());
    let signing_key = kdf.finalize().into_bytes();

    let mut mac = HmacSha256::new_from_slice(&signing_key).unwrap();
    mac.update(format!("{}.{}", h, p).as_bytes());
    let sig = mac.finalize().into_bytes();
    assert_eq!(URL_SAFE_NO_PAD.encode(sig), s);
}

#[test]
fn test_idempotent_within_same_second() {
    let client = VortexClient::new(zero_key());
    let user1 = User::new("user-123", "user@example.com");
    let user2 = User::new("user-123", "user@example.com");
    let t1 = client.generate_jwt_at(&user1, 1_700_000_000).unwrap();
    let t2 = client.generate_jwt_at(&user2, 1_700_000_000).unwrap();
    assert_eq!(t1, t2);
    let t3 = client.generate_jwt_at(&user1, 1_700_000_001).unwrap();
    assert_ne!(t1, t3);
}

#[test]
fn test_payload_round_trips_all_claims() {
    let client = VortexClient::new(zero_key());
    let user = User::new("user-9", "nine@example.com")
        .with_name("Nine")
        .with_avatar_url("https://example.com/nine.png")
        .with_admin_scopes(vec!["autojoin".to_string(), "invite".to_string()])
        .with_allowed_domains(vec!["example.com".to_string()])
        .with_extra(vec![
            ("department".to_string(), JsonValue::Str("eng".to_string())),
            ("level".to_string(), JsonValue::Int(7)),
        ]);
    let token = client.generate_jwt_at(&user, 1_700_000_000).unwrap();
    let (_h, p, _s) = split3(&token);
    let payload = URL_SAFE_NO_PAD.decode(p).unwrap();
    let v: serde_json::Value = serde_json::from_slice(&payload).unwrap();
    assert_eq!(v.get("userId").unwrap().as_str().unwrap(), "user-9");
    assert_eq!(v.get("userEmail").unwrap().as_str().unwrap(), "nine@example.com");
    assert_eq!(v.get("expires").unwrap().as_i64().unwrap(), 1_700_003_600);
    assert_eq!(v.get("userName").unwrap().as_str().unwrap(), "Nine");
    assert_eq!(v.get("userAvatar").unwrap().as_str().unwrap(), "https://example.com/nine.png");
    let scopes: Vec<&str> =
        v.get("adminScopes").unwrap().as_array().unwrap().iter().map(|x| x.as_str().unwrap()).collect();
    assert_eq!(scopes, vec!["autojoin", "invite"]);
    let domains: Vec<&str> =
        v.get("allowedDomains").unwrap().as_array().unwrap().iter().map(|x| x.as_str().unwrap()).collect();
    assert_eq!(domains, vec!["example.com"]);
    assert_eq!(v.get("department").unwrap().as_str().unwrap(), "eng");
    assert_eq!(v.get("level").unwrap().as_i64().unwrap(), 7);
    assert_eq!(v.as_object().unwrap().len(), 9);
}

#[test]
fn test_extension_claims_override_standard_claims_last_write_wins() {
    let client = VortexClient::new(zero_key());
    let user = User::new("user-123", "user@example.com").with_extra(vec![(
        "userId".to_string(),
        JsonValue::Str("shadowed".to_string()),
    )]);
    let token = client.generate_jwt_at(&user, 1_700_000_000).unwrap();
    let (_h, p, _s) = split3(&token);
    let payload = String::from_utf8(URL_SAFE_NO_PAD.decode(p).unwrap()).unwrap();
    // The overwrite replaces the value in place: the key keeps its
    // original (first) position.
    assert_eq!(
        payload,
        r#"{"userId":"shadowed","userEmail":"user@example.com","expires":1700003600}"#
    );
}

#[test]
fn test_empty_domain_list_is_omitted() {
    let client = VortexClient::new(zero_key());
    let with_empty = User::new("u", "e@x.y").with_allowed_domains(vec![]);
    let token = client.generate_jwt_at(&with_empty, 1_700_000_000).unwrap();
    let (_h, p, _s) = split3(&token);
    let payload = String::from_utf8(URL_SAFE_NO_PAD.decode(p).unwrap()).unwrap();
    assert!(!payload.contains("allowedDomains"));
}

#[test]
fn test_invalid_keys_rejected() {
    let user = User::new("u", "e@x.y");
    for bad in [
        "not-a-structured-key",
        "VRTX.only-two",
        "WRONG.AAAAAAAAAAAAAAAAAAAAAA.secret",
        "VRTX.!!!not-base64!!!.secret",
        "VRTX.dGVzdC1rZXk.test-secret",
        "VRTX.AAAA.secret",
    ] {
        let client = VortexClient::new(bad.to_string());
        let err = client.generate_jwt_at(&user, 1_700_000_000).unwrap_err();
        assert!(err.is_invalid_api_key(), "expected InvalidApiKey for {bad}");
    }
}

#[test]
fn test_generate_jwt_uses_wall_clock() {
    let client = VortexClient::new(zero_key());
    let user = User::new("user-123", "user@example.com");
    let token = client.generate_jwt(&user).unwrap();
    assert_eq!(token.split('.').count(), 3);
}
