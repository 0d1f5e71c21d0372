use vortex_sdk::json::to_json_bytes;
use vortex_sdk::{plan_acceptances, AcceptTargets, AcceptUser, InvitationTarget};

#[test]
fn test_accept_user_with_email_only() {
    let user = AcceptUser::new().with_email("email@example.com");
    assert_eq!(user.email, Some("email@example.com".to_string()));
    assert_eq!(user.phone, None);
    assert_eq!(user.name, None);
}

#[test]
fn test_accept_user_with_email_and_name() {
    let user = AcceptUser::new()
        .with_email("user@example.com")
        .with_name("John Doe");
    assert_eq!(user.email, Some("user@example.com".to_string()));
    assert_eq!(user.name, Some("John Doe".to_string()));
    assert_eq!(user.phone, None);
}

#[test]
fn test_accept_user_with_all_fields() {
    let user = AcceptUser::new()
        .with_email("test@example.com")
        .with_phone("+1234567890")
        .with_name("Test User");
    assert_eq!(user.email, Some("test@example.com".to_string()));
    assert_eq!(user.phone, Some("+1234567890".to_string()));
    assert_eq!(user.name, Some("Test User".to_string()));
}

#[test]
fn test_plan_rejects_user_without_email_or_phone() {
    let ids = vec!["test-inv".to_string()];
    let user = AcceptUser::new().with_name("Just a Name");
    let err = plan_acceptances(&ids, &AcceptTargets::User(user)).unwrap_err();
    let msg = err.message();
    assert!(msg.contains("email or phone"), "message should mention the requirement: {msg}");
}

#[test]
fn test_plan_rejects_empty_targets() {
    let ids = vec!["test-inv".to_string()];
    let err = plan_acceptances(&ids, &AcceptTargets::Targets(vec![])).unwrap_err();
    let msg = err.message();
    assert!(msg.contains("No targets provided"), "message should mention empty targets: {msg}");
}

#[test]
fn test_plan_user_body_exact() {
    let ids = vec!["inv-1".to_string(), "inv-2".to_string()];
    let user = AcceptUser::new().with_email("a@b.c").with_name("A B");
    let bodies = plan_acceptances(&ids, &AcceptTargets::User(user)).unwrap();
    assert_eq!(bodies.len(), 1);
    assert_eq!(
        String::from_utf8(to_json_bytes(&bodies[0])).unwrap(),
        r#"{"invitationIds":["inv-1","inv-2"],"user":{"email":"a@b.c","name":"A B"}}"#
    );
}

#[test]
fn test_plan_single_target_body_exact() {
    let ids = vec!["inv-1".to_string()];
    let target = InvitationTarget::email("legacy@example.com");
    let bodies = plan_acceptances(&ids, &AcceptTargets::Target(target)).unwrap();
    assert_eq!(bodies.len(), 1);
    assert_eq!(
        String::from_utf8(to_json_bytes(&bodies[0])).unwrap(),
        r#"{"invitationIds":["inv-1"],"target":{"type":"email","value":"legacy@example.com"}}"#
    );
}

#[test]
fn test_plan_legacy_targets_one_body_per_element_in_order() {
    let ids = vec!["inv-1".to_string()];
    let targets = vec![
        InvitationTarget::email("user1@example.com"),
        InvitationTarget::sms("+15550100"),
    ];
    let bodies = plan_acceptances(&ids, &AcceptTargets::Targets(targets)).unwrap();
    assert_eq!(bodies.len(), 2);
    assert_eq!(
        String::from_utf8(to_json_bytes(&bodies[0])).unwrap(),
        r#"{"invitationIds":["inv-1"],"target":{"type":"email","value":"user1@example.com"}}"#
    );
    assert_eq!(
        String::from_utf8(to_json_bytes(&bodies[1])).unwrap(),
        r#"{"invitationIds":["inv-1"],"target":{"type":"sms","value":"+15550100"}}"#
    );
}
