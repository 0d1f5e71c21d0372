use hmac::{Hmac, Mac};
use sha2::Sha256;
use vortex_sdk::{constant_time_eq, hex_encode, VortexError, VortexWebhooks};

type HmacSha256 = Hmac<Sha256>;

const TEST_SECRET: &str = "whsec_test_secret";

fn sign_with(secret: &str, payload: &[u8]) -> String {
    let mut mac = HmacSha256::new_from_slice(secret.as_bytes()).unwrap();
    mac.update(payload);
    hex_encode(mac.finalize().into_bytes().as_slice())
}

fn sign(payload: &[u8]) -> String {
    sign_with(TEST_SECRET, payload)
}

const SAMPLE_WEBHOOK: &str = r#"{"id":"evt_1","type":"invitation.accepted","timestamp":"2026-02-25T12:00:00Z","accountId":"acc_1","environmentId":null,"sourceTable":"invitations","operation":"update","data":{"targetEmail":"user@test.com"}}"#;

#[test]
fn test_verify_valid_signature() {
    let webhooks = VortexWebhooks::new(TEST_SECRET).unwrap();
    let sig = sign(SAMPLE_WEBHOOK.as_bytes());
    assert!(webhooks.verify_signature(SAMPLE_WEBHOOK.as_bytes(), &sig));
}

#[test]
fn test_verify_invalid_signature() {
    let webhooks = VortexWebhooks::new(TEST_SECRET).unwrap();
    assert!(!webhooks.verify_signature(SAMPLE_WEBHOOK.as_bytes(), "bad_sig"));
}

#[test]
fn test_verify_tampered_payload() {
    let webhooks = VortexWebhooks::new(TEST_SECRET).unwrap();
    let sig = sign(SAMPLE_WEBHOOK.as_bytes());
    let tampered = SAMPLE_WEBHOOK.replace("evt_1", "evt_hacked");
    assert!(!webhooks.verify_signature(tampered.as_bytes(), &sig));
}

#[test]
fn test_verify_each_flipped_byte_rejected() {
    let webhooks = VortexWebhooks::new(TEST_SECRET).unwrap();
    let sig = sign(SAMPLE_WEBHOOK.as_bytes());
    for i in 0..SAMPLE_WEBHOOK.len() {
        let mut bytes = SAMPLE_WEBHOOK.as_bytes().to_vec();
        bytes[i] ^= 0x01;
        assert!(!webhooks.verify_signature(&bytes, &sig));
    }
}

#[test]
fn test_empty_secret_rejected() {
    let err = VortexWebhooks::new("").unwrap_err();
    assert!(err.is_webhook_signature_error());
}

#[test]
fn test_known_payload_with_known_secret() {
    let payload =
        r#"{"id":"evt_1","type":"invitation.accepted","timestamp":"2026-02-25T12:00:00Z","accountId":"acc_1"}"#;
    let webhooks = VortexWebhooks::new("whsec_test").unwrap();
    let good = sign_with("whsec_test", payload.as_bytes());
    assert!(webhooks.verify_signature(payload.as_bytes(), &good));

    let other = sign_with("whsec_other", payload.as_bytes());
    assert!(!webhooks.verify_signature(payload.as_bytes(), &other));

    let mut mutated = payload.as_bytes().to_vec();
    mutated[10] ^= 0x20;
    assert!(!webhooks.verify_signature(&mutated, &good));
}

#[test]
fn test_authenticate_ok_and_error_kind() {
    let webhooks = VortexWebhooks::new(TEST_SECRET).unwrap();
    let sig = sign(SAMPLE_WEBHOOK.as_bytes());
    assert!(webhooks.authenticate(SAMPLE_WEBHOOK.as_bytes(), &sig).is_ok());
    let err = webhooks.authenticate(SAMPLE_WEBHOOK.as_bytes(), "bad").unwrap_err();
    assert!(err.is_webhook_signature_error());
    assert!(matches!(err, VortexError::WebhookSignatureError(_)));
}

#[test]
fn test_constant_time_eq_basic() {
    assert!(constant_time_eq(b"abcdef", b"abcdef"));
    assert!(!constant_time_eq(b"abcdef", b"abcdeg"));
    assert!(!constant_time_eq(b"abcdef", b"abcde"));
    assert!(!constant_time_eq(b"zbcdef", b"abcdef"));
    assert!(constant_time_eq(b"", b""));
}

#[test]
fn test_hex_encode_exact() {
    assert_eq!(hex_encode(&[0x00, 0x1f, 0xab, 0xff]), "001fabff");
    assert_eq!(hex_encode(&[]), "");
    assert_eq!(hex_encode(&[0x0a]), "0a");
}
