use budget_lib::stripe::{
    api_url, cancel_at_period_end_form, cancel_now_outcome, check_reply_status,
    checkout_session_form, constant_time_eq, hex_lower, period_end_text, subscription_path,
    subscription_product_form, verify_signature, verify_signature_at, StripeError,
    SubscriptionLifecycle,
};
use hmac::Mac;

const SECRET: &str = "whsec_test_secret";

fn sign_with(secret: &str, payload: &[u8], timestamp: i64) -> String {
    let mut signed = timestamp.to_string().into_bytes();
    signed.push(b'.');
    signed.extend_from_slice(payload);
    let mut mac = hmac::Hmac::<sha2::Sha256>::new_from_slice(secret.as_bytes()).unwrap();
    mac.update(&signed);
    let tag = mac.finalize().into_bytes();
    let hex: String = tag.iter().map(|b| format!("{:02x}", b)).collect();
    format!("t={timestamp},v1={hex}")
}

fn bad_signature(r: Result<(), StripeError>) -> String {
    match r {
        Err(StripeError::BadSignature(m)) => m,
        Ok(()) => panic!("accepted"),
        Err(_) => panic!("wrong error"),
    }
}

fn now_secs() -> i64 {
    std::time::SystemTime::now()
        .duration_since(std::time::UNIX_EPOCH)
        .unwrap()
        .as_secs() as i64
}

#[test]
fn accepts_a_correctly_signed_payload_at_a_fixed_time() {
    let payload = br#"{"id":"evt_1","type":"checkout.session.completed","data":{"object":{"id":"cs_1"}}}"#;
    let header = sign_with(SECRET, payload, 1_700_000_000);
    assert!(verify_signature_at(payload, &header, SECRET, 1_700_000_000).is_ok());
    assert!(verify_signature_at(payload, &header, SECRET, 1_700_000_300).is_ok());
    assert!(verify_signature_at(payload, &header, SECRET, 1_699_999_700).is_ok());
}

#[test]
fn accepts_a_correctly_signed_recent_payload_now() {
    let payload = br#"{"id":"evt_1","type":"checkout.session.completed","data":{"object":{"id":"cs_1"}}}"#;
    let header = sign_with(SECRET, payload, now_secs());
    assert!(verify_signature(payload, &header, SECRET).is_ok());
}

#[test]
fn rejects_a_tampered_payload_at_a_fixed_time() {
    let payload = br#"{"id":"evt_1","type":"checkout.session.completed","data":{"object":{}}}"#;
    let header = sign_with(SECRET, payload, 1_700_000_000);
    let tampered = br#"{"id":"evt_2","type":"checkout.session.completed","data":{"object":{}}}"#;
    assert_eq!(
        bad_signature(verify_signature_at(tampered, &header, SECRET, 1_700_000_000)),
        "no signature matched"
    );
}

#[test]
fn rejects_a_stale_timestamp_with_its_age() {
    let payload = br#"{"id":"evt_1","type":"x","data":{"object":{}}}"#;
    let header = sign_with(SECRET, payload, 1_700_000_000 - 10_000);
    assert_eq!(
        bad_signature(verify_signature_at(payload, &header, SECRET, 1_700_000_000)),
        "timestamp outside tolerance (10000s)"
    );
    let header = sign_with(SECRET, payload, 1_700_000_301);
    assert_eq!(
        bad_signature(verify_signature_at(payload, &header, SECRET, 1_700_000_000)),
        "timestamp outside tolerance (301s)"
    );
    let header = sign_with(SECRET, payload, now_secs() - 10_000);
    assert!(matches!(
        verify_signature(payload, &header, SECRET),
        Err(StripeError::BadSignature(_))
    ));
}

#[test]
fn rejects_the_wrong_secret_at_a_fixed_time() {
    let payload = br#"{"id":"evt_1","type":"x","data":{"object":{}}}"#;
    let header = sign_with(SECRET, payload, 1_700_000_000);
    assert_eq!(
        bad_signature(verify_signature_at(payload, &header, "whsec_not_it", 1_700_000_000)),
        "no signature matched"
    );
}

#[test]
fn header_shape_errors_are_reported() {
    let payload = b"{}";
    assert_eq!(
        bad_signature(verify_signature_at(payload, "", SECRET, 0)),
        "malformed header"
    );
    assert_eq!(
        bad_signature(verify_signature_at(payload, "t=1,garbage", SECRET, 1)),
        "malformed header"
    );
    assert_eq!(
        bad_signature(verify_signature_at(payload, "v1=abc", SECRET, 1)),
        "no timestamp in header"
    );
    assert_eq!(
        bad_signature(verify_signature_at(payload, "t=12x,v1=abc", SECRET, 1)),
        "no timestamp in header"
    );
    assert_eq!(
        bad_signature(verify_signature_at(payload, "t=5", SECRET, 5)),
        "no v1 signatures in header"
    );
    assert_eq!(
        bad_signature(verify_signature_at(payload, "t=5,v0=abc", SECRET, 5)),
        "no v1 signatures in header"
    );
}

#[test]
fn header_parts_are_trimmed_and_any_v1_may_match() {
    let payload = br#"{"id":"evt_9"}"#;
    let good = sign_with(SECRET, payload, 1_700_000_000);
    let sig = good.split("v1=").nth(1).unwrap().to_string();
    let header = format!(" t = +1700000000 , v1 = deadbeef ,v0=x, v1= {sig} ");
    assert!(verify_signature_at(payload, &header, SECRET, 1_700_000_000).is_ok());
    let later_timestamp_wins = format!("t=1,t=1700000000,v1={sig}");
    assert!(verify_signature_at(payload, &later_timestamp_wins, SECRET, 1_700_000_000).is_ok());
    let bad_timestamp_last = format!("t=1700000000,t=oops,v1={sig}");
    assert_eq!(
        bad_signature(verify_signature_at(payload, &bad_timestamp_last, SECRET, 1_700_000_000)),
        "no timestamp in header"
    );
}

#[test]
fn negative_timestamps_are_signed_with_their_sign() {
    let payload = b"x";
    let header = sign_with(SECRET, payload, -5);
    assert!(verify_signature_at(payload, &header, SECRET, 0).is_ok());
}

#[test]
fn constant_time_eq_compares_whole_strings() {
    assert!(constant_time_eq(b"abc", b"abc"));
    assert!(!constant_time_eq(b"abc", b"abd"));
    assert!(!constant_time_eq(b"abc", b"ab"));
    assert!(constant_time_eq(b"", b""));
}

#[test]
fn hex_lower_encodes_two_digits_per_byte() {
    assert_eq!(hex_lower(&[0x00, 0x0f, 0xa5, 0xff]), "000fa5ff");
    assert_eq!(hex_lower(&[]), "");
}

#[test]
fn parses_a_subscription_lifecycle_object_without_json() {
    let sub = SubscriptionLifecycle {
        id: "sub_123".to_string(),
        status: Some("active".to_string()),
        cancel_at_period_end: true,
        current_period_end: None,
        item_period_end: Some(1_800_000_000),
        metadata: vec![("hashed_email".to_string(), "abc123hash".to_string())],
    };
    assert!(sub.cancel_at_period_end);
    assert!(!sub.has_ended());
    assert_eq!(sub.hashed_email(), Some("abc123hash"));
    assert_eq!(sub.period_end_rfc3339(), Some("2027-01-15T08:00:00Z".to_string()));
}

#[test]
fn lifecycle_reads_top_level_period_end_and_detects_end() {
    let mut sub = SubscriptionLifecycle {
        id: "sub_9".to_string(),
        status: Some("canceled".to_string()),
        cancel_at_period_end: false,
        current_period_end: Some(1_800_000_000),
        item_period_end: Some(0),
        metadata: vec![],
    };
    assert!(sub.has_ended());
    assert_eq!(sub.hashed_email(), None);
    assert_eq!(sub.period_end_rfc3339(), Some("2027-01-15T08:00:00Z".to_string()));
    sub.status = Some("incomplete_expired".to_string());
    assert!(sub.has_ended());
    sub.status = Some("past_due".to_string());
    assert!(!sub.has_ended());
    sub.status = None;
    assert!(!sub.has_ended());
}

#[test]
fn period_end_text_prefers_the_top_level_field() {
    assert_eq!(period_end_text(None, None), None);
    assert_eq!(period_end_text(Some(0), Some(1_800_000_000)), Some("1970-01-01T00:00:00Z".to_string()));
    assert_eq!(period_end_text(None, Some(1_800_000_000)), Some("2027-01-15T08:00:00Z".to_string()));
    assert_eq!(period_end_text(Some(i64::MAX), None), None);
}

#[test]
fn forms_carry_the_documented_fields() {
    let form = checkout_session_form("price_1", "acct", "https://s", "https://c");
    let expected = vec![
        ("mode", "subscription"),
        ("line_items[0][price]", "price_1"),
        ("line_items[0][quantity]", "1"),
        ("managed_payments[enabled]", "true"),
        ("client_reference_id", "acct"),
        ("subscription_data[metadata][hashed_email]", "acct"),
        ("success_url", "https://s"),
        ("cancel_url", "https://c"),
    ];
    assert_eq!(form.len(), expected.len());
    for (got, want) in form.iter().zip(expected.iter()) {
        assert_eq!(got.0, want.0);
        assert_eq!(got.1, want.1);
    }
    let product = subscription_product_form();
    assert_eq!(product[3], ("default_price_data[unit_amount]".to_string(), "500".to_string()));
    assert_eq!(product.len(), 6);
    assert_eq!(product[0], ("name".to_string(), "Basic subscription".to_string()));
    assert_eq!(product[2], ("tax_code".to_string(), "txcd_10103100".to_string()));
    assert_eq!(cancel_at_period_end_form(), vec![("cancel_at_period_end".to_string(), "true".to_string())]);
    assert_eq!(subscription_path("sub_1"), "/v1/subscriptions/sub_1");
    assert_eq!(api_url("/v1/products"), "https://api.stripe.com/v1/products");
}

#[test]
fn reply_statuses_and_cancel_outcomes() {
    assert_eq!(check_reply_status(200, "{}".to_string()).ok(), Some("{}".to_string()));
    assert_eq!(check_reply_status(299, "x".to_string()).ok(), Some("x".to_string()));
    match check_reply_status(402, "nope".to_string()) {
        Err(StripeError::Api { status, body }) => {
            assert_eq!(status, 402);
            assert_eq!(body, "nope");
        }
        _ => panic!("expected an API error"),
    }
    assert!(cancel_now_outcome(Ok(())).is_ok());
    assert!(cancel_now_outcome(Err(StripeError::Api { status: 404, body: String::new() })).is_ok());
    assert!(cancel_now_outcome(Err(StripeError::Api { status: 400, body: String::new() })).is_ok());
    assert!(matches!(
        cancel_now_outcome(Err(StripeError::Api { status: 500, body: String::new() })),
        Err(StripeError::Api { status: 500, .. })
    ));
    assert!(matches!(
        cancel_now_outcome(Err(StripeError::Transport("down".to_string()))),
        Err(StripeError::Transport(_))
    ));
}

#[test]
fn stripe_error_messages() {
    assert_eq!(StripeError::MissingApiKey.message(), "STRIPE_SECRET_KEY is not set");
    assert_eq!(
        StripeError::Api { status: 404, body: "gone".to_string() }.message(),
        "Stripe returned 404: gone"
    );
    assert_eq!(
        StripeError::BadSignature("no signature matched".to_string()).message(),
        "Webhook signature verification failed: no signature matched"
    );
    assert_eq!(StripeError::Transport("x".to_string()).message(), "Could not reach Stripe: x");
    assert_eq!(StripeError::Decode("y".to_string()).message(), "Could not understand Stripe's response: y");
}

fn decode_message<T>(r: Result<T, StripeError>) -> String {
    match r {
        Err(StripeError::Decode(m)) => m,
        Ok(_) => panic!("decoded"),
        Err(_) => panic!("wrong error"),
    }
}

#[test]
fn product_replies_are_read_for_both_identifiers() {
    let p = budget_lib::stripe::subscription_product_from_reply(
        r#"{"id":"prod_1","object":"product","default_price":"price_1"}"#,
    )
    .ok()
    .unwrap();
    assert_eq!(p.product_id, "prod_1");
    assert_eq!(p.price_id, "price_1");
    assert_eq!(
        decode_message(budget_lib::stripe::subscription_product_from_reply(r#"{"id":"prod_1"}"#)),
        "product response had no default_price"
    );
    assert_eq!(
        decode_message(budget_lib::stripe::subscription_product_from_reply(r#"{"id":5,"default_price":"p"}"#)),
        "product response had no id"
    );
    let m = decode_message(budget_lib::stripe::subscription_product_from_reply("not json"));
    assert!(m.contains("line 1"));
}

#[test]
fn checkout_replies_are_read_for_id_and_url() {
    let s = budget_lib::stripe::checkout_session_from_reply(
        r#"{"id":"cs_1","url":"https://checkout.stripe.com/c/pay/cs_1"}"#,
    )
    .ok()
    .unwrap();
    assert_eq!(s.id, "cs_1");
    assert_eq!(s.url, "https://checkout.stripe.com/c/pay/cs_1");
    assert_eq!(
        decode_message(budget_lib::stripe::checkout_session_from_reply(r#"{"url":"u"}"#)),
        "session response had no id"
    );
    assert_eq!(
        decode_message(budget_lib::stripe::checkout_session_from_reply(r#"{"id":"cs_1","url":null}"#)),
        "session response had no url"
    );
    assert!(!decode_message(budget_lib::stripe::checkout_session_from_reply("[")).is_empty());
}

#[test]
fn period_end_replies_read_the_top_level_then_the_first_item() {
    assert_eq!(
        budget_lib::stripe::period_end_from_reply(r#"{"id":"sub_1","current_period_end":1800000000}"#),
        Some("2027-01-15T08:00:00Z".to_string())
    );
    assert_eq!(
        budget_lib::stripe::period_end_from_reply(
            r#"{"current_period_end":null,"items":{"data":[{"current_period_end":1800000000},{"current_period_end":0}]}}"#
        ),
        Some("2027-01-15T08:00:00Z".to_string())
    );
    assert_eq!(
        budget_lib::stripe::period_end_from_reply(r#"{"current_period_end":0,"items":{"data":[{"current_period_end":1800000000}]}}"#),
        Some("1970-01-01T00:00:00Z".to_string())
    );
    assert_eq!(budget_lib::stripe::period_end_from_reply(r#"{"items":{"data":[]}}"#), None);
    assert_eq!(budget_lib::stripe::period_end_from_reply("{"), None);
}

#[test]
fn reply_members_must_all_be_present() {
    let p = budget_lib::stripe::product_from_members(Some("prod".to_string()), Some("price".to_string()))
        .ok()
        .unwrap();
    assert_eq!((p.product_id.as_str(), p.price_id.as_str()), ("prod", "price"));
    assert_eq!(
        decode_message(budget_lib::stripe::product_from_members(None, None)),
        "product response had no id"
    );
    assert_eq!(
        decode_message(budget_lib::stripe::product_from_members(Some("prod".to_string()), None)),
        "product response had no default_price"
    );
    let s = budget_lib::stripe::session_from_members(Some("cs".to_string()), Some("u".to_string()))
        .ok()
        .unwrap();
    assert_eq!((s.id.as_str(), s.url.as_str()), ("cs", "u"));
    assert_eq!(
        decode_message(budget_lib::stripe::session_from_members(None, Some("u".to_string()))),
        "session response had no id"
    );
    assert_eq!(
        decode_message(budget_lib::stripe::session_from_members(Some("cs".to_string()), None)),
        "session response had no url"
    );
}
