use budget_lib::stripe::{
    hex_lower, verify_signature, CompletedCheckoutSession, StripeError, SubscriptionLifecycle,
};
use budget_lib::http::{
    outcome_status, rejection_status, webhook_gate, webhook_gate_at, WebhookOutcome, WebhookRejection,
};
use budget_lib::types::{RecordCheckoutError, SyncSubscriptionError};
use hmac::Mac;

// Signature fixture from Stripe's own webhook-signing documentation.
const SECRET: &str = "whsec_test_secret";

fn sign(payload: &[u8], timestamp: i64) -> String {
    let mut signed = timestamp.to_string().into_bytes();
    signed.push(b'.');
    signed.extend_from_slice(payload);
    let mut mac = hmac::Hmac::<sha2::Sha256>::new_from_slice(SECRET.as_bytes()).unwrap();
    mac.update(&signed);
    let tag = mac.finalize().into_bytes();
    let sig = hex_lower(&tag);
    format!("t={timestamp},v1={sig}")
}

fn text(v: &serde_json::Value, key: &str) -> Option<String> {
    v.get(key).and_then(|x| x.as_str()).map(|s| s.to_string())
}

/// Reads a subscription object the way the webhook handler does.
fn lifecycle(json: &str) -> SubscriptionLifecycle {
    let v: serde_json::Value = serde_json::from_str(json).unwrap();
    let metadata = match v.get("metadata").and_then(|m| m.as_object()) {
        Some(m) => m
            .iter()
            .filter_map(|(k, x)| x.as_str().map(|s| (k.clone(), s.to_string())))
            .collect(),
        None => Vec::new(),
    };
    SubscriptionLifecycle {
        id: text(&v, "id").unwrap(),
        status: text(&v, "status"),
        cancel_at_period_end: v
            .get("cancel_at_period_end")
            .and_then(|b| b.as_bool())
            .unwrap_or(false),
        current_period_end: v.get("current_period_end").and_then(|x| x.as_i64()),
        item_period_end: v
            .get("items")
            .and_then(|i| i.get("data"))
            .and_then(|d| d.get(0))
            .and_then(|d| d.get("current_period_end"))
            .and_then(|x| x.as_i64()),
        metadata,
    }
}

fn expected_period_end() -> String {
    chrono::DateTime::from_timestamp(1_800_000_000, 0)
        .unwrap()
        .format("%Y-%m-%dT%H:%M:%SZ")
        .to_string()
}

#[test]
fn accepts_a_correctly_signed_recent_payload() {
    let payload = br#"{"id":"evt_1","type":"checkout.session.completed","data":{"object":{"id":"cs_1"}}}"#;
    let header = sign(payload, chrono::Utc::now().timestamp());
    verify_signature(payload, &header, SECRET).expect("should verify");
    let event: serde_json::Value = serde_json::from_slice(payload).unwrap();
    assert_eq!(text(&event, "id").as_deref(), Some("evt_1"));
    assert_eq!(text(&event, "type").as_deref(), Some("checkout.session.completed"));
}

#[test]
fn rejects_a_tampered_payload() {
    let payload = br#"{"id":"evt_1","type":"checkout.session.completed","data":{"object":{}}}"#;
    let header = sign(payload, chrono::Utc::now().timestamp());
    let tampered = br#"{"id":"evt_2","type":"checkout.session.completed","data":{"object":{}}}"#;
    assert!(matches!(
        verify_signature(tampered, &header, SECRET),
        Err(StripeError::BadSignature(_))
    ));
}

#[test]
fn rejects_a_stale_timestamp() {
    let payload = br#"{"id":"evt_1","type":"x","data":{"object":{}}}"#;
    let header = sign(payload, chrono::Utc::now().timestamp() - 10_000);
    assert!(matches!(
        verify_signature(payload, &header, SECRET),
        Err(StripeError::BadSignature(_))
    ));
}

#[test]
fn rejects_the_wrong_secret() {
    let payload = br#"{"id":"evt_1","type":"x","data":{"object":{}}}"#;
    let header = sign(payload, chrono::Utc::now().timestamp());
    assert!(matches!(
        verify_signature(payload, &header, "whsec_not_it"),
        Err(StripeError::BadSignature(_))
    ));
}

#[test]
fn parses_the_completed_session_object() {
    let v: serde_json::Value = serde_json::from_str(
        r#"{"id":"cs_test_123","client_reference_id":"abc123hash","customer":"cus_123","subscription":"sub_123","payment_intent":null}"#,
    )
    .unwrap();
    let session = CompletedCheckoutSession {
        id: text(&v, "id").unwrap(),
        client_reference_id: text(&v, "client_reference_id"),
        customer: text(&v, "customer"),
        subscription: text(&v, "subscription"),
        payment_intent: text(&v, "payment_intent"),
    };
    assert_eq!(session.client_reference_id.as_deref(), Some("abc123hash"));
    assert_eq!(session.subscription.as_deref(), Some("sub_123"));
    assert_eq!(session.payment_intent, None);
}

#[test]
fn parses_a_subscription_lifecycle_object() {
    let sub = lifecycle(
        r#"{"id":"sub_123","status":"active","cancel_at_period_end":true,"metadata":{"hashed_email":"abc123hash"},"items":{"data":[{"current_period_end":1800000000}]}}"#,
    );
    assert_eq!(sub.id, "sub_123");
    assert!(sub.cancel_at_period_end);
    assert!(!sub.has_ended());
    assert_eq!(sub.hashed_email(), Some("abc123hash"));
    assert_eq!(sub.period_end_rfc3339(), Some(expected_period_end()));
}

#[test]
fn subscription_lifecycle_reads_top_level_period_end_and_detects_end() {
    let sub = lifecycle(r#"{"id":"sub_9","status":"canceled","current_period_end":1800000000}"#);
    assert!(sub.has_ended());
    assert!(!sub.cancel_at_period_end);
    assert_eq!(sub.hashed_email(), None);
    assert_eq!(sub.period_end_rfc3339(), Some(expected_period_end()));
}

#[test]
fn the_webhook_gate_turns_deliveries_away_in_order() {
    let payload = br#"{"id":"evt_1","type":"invoice.paid","data":{"object":{}}}"#;
    let good = sign(payload, 1_700_000_000);
    let r = webhook_gate_at(payload, Some(&good), None, 1_700_000_000);
    assert!(matches!(r, Err(WebhookRejection::NoSecret)));
    assert_eq!(rejection_status(&r.unwrap_err()), 500);
    let r = webhook_gate_at(payload, None, Some(SECRET), 1_700_000_000);
    assert!(matches!(r, Err(WebhookRejection::NoSignature)));
    assert_eq!(rejection_status(&r.unwrap_err()), 400);
    let r = webhook_gate_at(payload, Some(&good), Some("whsec_not_it"), 1_700_000_000);
    match r {
        Err(WebhookRejection::BadSignature(StripeError::BadSignature(m))) => assert_eq!(m, "no signature matched"),
        _ => panic!("expected a bad signature"),
    }
    assert!(webhook_gate_at(payload, Some(&good), Some(SECRET), 1_700_000_000).is_ok());
    let now = sign(payload, chrono::Utc::now().timestamp());
    assert!(webhook_gate(payload, Some(&now), Some(SECRET)).is_ok());
    assert!(matches!(
        webhook_gate(payload, Some(&good), Some(SECRET)),
        Err(WebhookRejection::BadSignature(_))
    ));
}

#[test]
fn verified_events_are_answered_by_their_outcome() {
    assert_eq!(outcome_status(&WebhookOutcome::Malformed), 400);
    assert_eq!(outcome_status(&WebhookOutcome::Ignored), 200);
    assert_eq!(outcome_status(&WebhookOutcome::Checkout(Ok(()))), 200);
    assert_eq!(outcome_status(&WebhookOutcome::Checkout(Err(RecordCheckoutError::NoAccountReference()))), 200);
    assert_eq!(outcome_status(&WebhookOutcome::Checkout(Err(RecordCheckoutError::Internal("db".to_string())))), 500);
    assert_eq!(outcome_status(&WebhookOutcome::Lifecycle(Err(SyncSubscriptionError::UserDoesntExists()))), 200);
    assert_eq!(outcome_status(&WebhookOutcome::Lifecycle(Err(SyncSubscriptionError::Internal("db".to_string())))), 500);
}
