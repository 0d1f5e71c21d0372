use vortex_sdk::json::to_json_bytes;
use vortex_sdk::{routes, Group, Identifier, InvitationTarget, JsonValue, VortexClient, VortexError};

#[test]
fn test_identifier_builder() {
    let id = Identifier::new("email", "user@example.com");
    assert_eq!(id.identifier_type, "email");
    assert_eq!(id.value, "user@example.com");
}

#[test]
fn test_group_builders() {
    let g = Group::new("team", "Engineering");
    assert_eq!(g.group_type, "team");
    assert_eq!(g.name, "Engineering");
    assert_eq!(g.id, None);
    assert_eq!(g.group_id, None);

    let g = Group::new("team", "Engineering").with_id("legacy-1");
    assert_eq!(g.id, Some("legacy-1".to_string()));

    let g = Group::new("team", "Engineering").with_group_id("team-1");
    assert_eq!(g.group_id, Some("team-1".to_string()));
}

#[test]
fn test_invitation_target_builders() {
    let t = InvitationTarget::new("email", "a@b.c");
    assert_eq!(t.target_type, "email");
    assert_eq!(t.value, "a@b.c");
    let t = InvitationTarget::email("a@b.c");
    assert_eq!(t.target_type, "email");
    let t = InvitationTarget::sms("+15550100");
    assert_eq!(t.target_type, "sms");
    assert_eq!(t.value, "+15550100");
}

#[test]
fn test_client_base_urls() {
    let c = VortexClient::new("k".to_string());
    assert_eq!(c.base_url, "https://api.vortexsoftware.com");
    assert_eq!(c.api_key, "k");
    let c = VortexClient::with_base_url("k".to_string(), "http://localhost:8080".to_string());
    assert_eq!(c.base_url, "http://localhost:8080");
}

#[test]
fn test_route_paths_exact() {
    assert_eq!(routes::invitations_path(), "/api/v1/invitations");
    assert_eq!(routes::invitation_path("inv-1"), "/api/v1/invitations/inv-1");
    assert_eq!(
        routes::invitation_reinvite_path("inv-1"),
        "/api/v1/invitations/inv-1/reinvite"
    );
    assert_eq!(
        routes::invitations_by_group_path("team", "team-1"),
        "/api/v1/invitations/by-group/team/team-1"
    );
    assert_eq!(routes::invitations_accept_path(), "/api/v1/invitations/accept");
}

#[test]
fn test_error_messages() {
    assert_eq!(
        VortexError::InvalidApiKey("bad".to_string()).message(),
        "Invalid API key: bad"
    );
    assert_eq!(VortexError::CryptoError("x".to_string()).message(), "Crypto error: x");
    assert_eq!(VortexError::HttpError("x".to_string()).message(), "HTTP error: x");
    assert_eq!(VortexError::ApiError("x".to_string()).message(), "API error: x");
    assert_eq!(
        VortexError::SerializationError("x".to_string()).message(),
        "Serialization error: x"
    );
    assert_eq!(VortexError::InvalidRequest("x".to_string()).message(), "Invalid request: x");
    assert_eq!(
        VortexError::WebhookSignatureError("x".to_string()).message(),
        "Webhook signature error: x"
    );
}

fn sample_doc() -> JsonValue {
    JsonValue::Obj(vec![
        ("null".to_string(), JsonValue::Null),
        ("yes".to_string(), JsonValue::Bool(true)),
        ("no".to_string(), JsonValue::Bool(false)),
        ("n".to_string(), JsonValue::Int(-42)),
        ("min".to_string(), JsonValue::Int(i64::MIN)),
        ("max".to_string(), JsonValue::Int(i64::MAX)),
        (
            "tricky \"key\"".to_string(),
            JsonValue::Str("line1\nline2\ttab \\ quote \" ctrl \u{1} acc\u{e9}nt".to_string()),
        ),
        (
            "arr".to_string(),
            JsonValue::Arr(vec![
                JsonValue::Int(0),
                JsonValue::Str("s".to_string()),
                JsonValue::Arr(vec![]),
                JsonValue::Obj(vec![]),
            ]),
        ),
    ])
}

fn serde_doc() -> serde_json::Value {
    let mut inner = serde_json::Map::new();
    inner.insert("null".to_string(), serde_json::Value::Null);
    inner.insert("yes".to_string(), serde_json::Value::Bool(true));
    inner.insert("no".to_string(), serde_json::Value::Bool(false));
    inner.insert("n".to_string(), serde_json::Value::from(-42i64));
    inner.insert("min".to_string(), serde_json::Value::from(i64::MIN));
    inner.insert("max".to_string(), serde_json::Value::from(i64::MAX));
    inner.insert(
        "tricky \"key\"".to_string(),
        serde_json::Value::String("line1\nline2\ttab \\ quote \" ctrl \u{1} acc\u{e9}nt".to_string()),
    );
    inner.insert(
        "arr".to_string(),
        serde_json::Value::Array(vec![
            serde_json::Value::from(0i64),
            serde_json::Value::String("s".to_string()),
            serde_json::Value::Array(vec![]),
            serde_json::Value::Object(serde_json::Map::new()),
        ]),
    );
    serde_json::Value::Object(inner)
}

#[test]
fn test_json_serializer_output_parses_to_same_document() {
    // serde_json's default map sorts keys, ours keeps insertion
    // order, so compare the parsed documents rather than the bytes.
    let ours = to_json_bytes(&sample_doc());
    let parsed: serde_json::Value = serde_json::from_slice(&ours).unwrap();
    assert_eq!(parsed, serde_doc());
}

#[test]
fn test_json_string_escaping_matches_serde_json() {
    let tricky = "line1\nline2\ttab \\ quote \" ctrl \u{1} del \u{1f} acc\u{e9}nt \u{4e16}";
    let ours = to_json_bytes(&JsonValue::Str(tricky.to_string()));
    let theirs = serde_json::to_vec(&serde_json::Value::String(tricky.to_string())).unwrap();
    assert_eq!(String::from_utf8(ours).unwrap(), String::from_utf8(theirs).unwrap());
}

#[test]
fn test_event_type_constants() {
    assert_eq!(vortex_sdk::webhook_event_type::INVITATION_ACCEPTED, "invitation.accepted");
    assert_eq!(vortex_sdk::webhook_event_type::INVITATION_CREATED, "invitation.created");
    assert_eq!(vortex_sdk::webhook_event_type::GROUP_MEMBER_ADDED, "group.member.added");
    assert_eq!(vortex_sdk::analytics_event_type::WIDGET_LOADED, "widget_loaded");
    assert_eq!(vortex_sdk::analytics_event_type::SHARE_TRIGGERED, "share_triggered");
}

#[test]
fn test_json_integer_rendering() {
    assert_eq!(to_json_bytes(&JsonValue::Int(0)), b"0".to_vec());
    assert_eq!(to_json_bytes(&JsonValue::Int(-1)), b"-1".to_vec());
    assert_eq!(
        to_json_bytes(&JsonValue::Int(i64::MIN)),
        b"-9223372036854775808".to_vec()
    );
    assert_eq!(
        to_json_bytes(&JsonValue::Int(i64::MAX)),
        b"9223372036854775807".to_vec()
    );
}
