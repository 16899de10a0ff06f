use budget_lib::billing::{
    activation_request, cancel_call_error, cancel_lookup_error, cancel_mirror_error,
    cancel_setup_error, cancellation_record, checkout_call_error, checkout_lookup_error,
    checkout_return_urls, checkout_setup_error, sync_request,
};
use budget_lib::stripe::{CompletedCheckoutSession, StripeError, SubscriptionLifecycle};
use budget_lib::types::{
    ActivateSubscriptionRequest, CancelSubscriptionError, Entitlement, GetSubscriptionError,
    RecordCheckoutError, StartCheckoutError, Subscription, SubscriptionStatus,
    SyncSubscriptionError, SyncSubscriptionRequest,
};

const LATER: (i64, u32) = (1_900_000_000, 0);

fn row(status: SubscriptionStatus, subscription: Option<&str>) -> Subscription {
    Subscription {
        status,
        trial_started_at: "2026-01-01T00:00:00Z".to_string(),
        trial_ends_at: "2026-02-01T00:00:00Z".to_string(),
        current_period_end: Some("2026-03-01T00:00:00Z".to_string()),
        cancel_at_period_end: true,
        stripe_customer_id: Some("cus_old".to_string()),
        stripe_subscription_id: subscription.map(|s| s.to_string()),
        stripe_payment_intent_id: None,
        updated_at: "2026-01-01T00:00:00Z".to_string(),
    }
}

fn activation(period_end: Option<&str>) -> ActivateSubscriptionRequest {
    ActivateSubscriptionRequest {
        hashed_email: "acct".to_string(),
        stripe_customer_id: None,
        stripe_subscription_id: Some("sub_new".to_string()),
        stripe_payment_intent_id: Some("pi_1".to_string()),
        current_period_end: period_end.map(|s| s.to_string()),
    }
}

fn event(id: &str, ended: bool, cancel: bool, period_end: Option<&str>) -> SyncSubscriptionRequest {
    SyncSubscriptionRequest {
        hashed_email: "acct".to_string(),
        stripe_subscription_id: id.to_string(),
        ended,
        cancel_at_period_end: cancel,
        current_period_end: period_end.map(|s| s.to_string()),
    }
}

#[test]
fn a_completed_checkout_activates_the_row() {
    let s = row(SubscriptionStatus::FreeTrial, None).activate(activation(None), "2026-02-10T00:00:00Z".to_string());
    assert_eq!(s.status, SubscriptionStatus::Active);
    assert!(!s.cancel_at_period_end);
    assert_eq!(s.stripe_customer_id.as_deref(), Some("cus_old"));
    assert_eq!(s.stripe_subscription_id.as_deref(), Some("sub_new"));
    assert_eq!(s.stripe_payment_intent_id.as_deref(), Some("pi_1"));
    assert_eq!(s.current_period_end.as_deref(), Some("2026-03-01T00:00:00Z"));
    assert_eq!(s.updated_at, "2026-02-10T00:00:00Z");
    assert_eq!(s.trial_ends_at, "2026-02-01T00:00:00Z");
    assert_eq!(s.entitlement_at(LATER), Entitlement::Entitled);

    let s = row(SubscriptionStatus::Inactive, None)
        .activate(activation(Some("2026-04-01T00:00:00Z")), "t".to_string());
    assert_eq!(s.current_period_end.as_deref(), Some("2026-04-01T00:00:00Z"));
}

#[test]
fn a_lifetime_row_ignores_checkouts_and_events() {
    let s = row(SubscriptionStatus::Lifetime, Some("sub_1")).activate(activation(None), "t".to_string());
    assert_eq!(s.status, SubscriptionStatus::Lifetime);
    assert!(s.cancel_at_period_end);
    assert_eq!(s.updated_at, "2026-01-01T00:00:00Z");
    let s = s.sync(event("sub_1", true, false, None), "t".to_string());
    assert_eq!(s.status, SubscriptionStatus::Lifetime);
    assert_eq!(s.updated_at, "2026-01-01T00:00:00Z");
}

#[test]
fn events_apply_only_to_the_stored_subscription() {
    let s = row(SubscriptionStatus::Active, Some("sub_1")).sync(event("sub_2", true, false, None), "t".to_string());
    assert_eq!(s.status, SubscriptionStatus::Active);
    assert_eq!(s.updated_at, "2026-01-01T00:00:00Z");
    let s = row(SubscriptionStatus::Active, None).sync(event("sub_2", true, false, None), "t".to_string());
    assert_eq!(s.status, SubscriptionStatus::Active);
}

#[test]
fn a_renewal_mirrors_the_flag_and_period() {
    let s = row(SubscriptionStatus::Active, Some("sub_1"))
        .sync(event("sub_1", false, false, Some("2026-04-01T00:00:00Z")), "now".to_string());
    assert_eq!(s.status, SubscriptionStatus::Active);
    assert!(!s.cancel_at_period_end);
    assert_eq!(s.current_period_end.as_deref(), Some("2026-04-01T00:00:00Z"));
    assert_eq!(s.updated_at, "now");
    let s = s.sync(event("sub_1", false, true, None), "later".to_string());
    assert!(s.cancel_at_period_end);
    assert_eq!(s.current_period_end.as_deref(), Some("2026-04-01T00:00:00Z"));
}

#[test]
fn an_ended_subscription_leaves_no_access() {
    let s = row(SubscriptionStatus::Active, Some("sub_1")).sync(event("sub_1", true, false, None), "t".to_string());
    assert_eq!(s.status, SubscriptionStatus::Inactive);
    assert_eq!(s.entitlement_at((0, 0)), Entitlement::Expired);
}

#[test]
fn only_an_active_paid_row_can_be_cancelled() {
    assert_eq!(
        row(SubscriptionStatus::Active, Some("sub_1")).cancelable_subscription_id().ok(),
        Some("sub_1".to_string())
    );
    for (status, sub) in [
        (SubscriptionStatus::Active, None),
        (SubscriptionStatus::FreeTrial, Some("sub_1")),
        (SubscriptionStatus::Lifetime, Some("sub_1")),
        (SubscriptionStatus::Inactive, Some("sub_1")),
    ] {
        assert!(matches!(
            row(status, sub).cancelable_subscription_id(),
            Err(CancelSubscriptionError::NotCancelable())
        ));
    }
}

fn session(account: Option<&str>) -> CompletedCheckoutSession {
    CompletedCheckoutSession {
        id: "cs_1".to_string(),
        client_reference_id: account.map(|s| s.to_string()),
        customer: Some("cus_1".to_string()),
        subscription: Some("sub_1".to_string()),
        payment_intent: None,
    }
}

#[test]
fn a_checkout_is_recorded_against_its_account_reference() {
    let req = activation_request(session(Some("acct")), Some("2027-01-15T08:00:00Z".to_string())).ok().unwrap();
    assert_eq!(req.hashed_email, "acct");
    assert_eq!(req.stripe_customer_id.as_deref(), Some("cus_1"));
    assert_eq!(req.stripe_subscription_id.as_deref(), Some("sub_1"));
    assert_eq!(req.stripe_payment_intent_id, None);
    assert_eq!(req.current_period_end.as_deref(), Some("2027-01-15T08:00:00Z"));
    assert!(matches!(
        activation_request(session(None), None),
        Err(RecordCheckoutError::NoAccountReference())
    ));
}

fn lifecycle(status: &str, metadata: Vec<(&str, &str)>) -> SubscriptionLifecycle {
    SubscriptionLifecycle {
        id: "sub_1".to_string(),
        status: Some(status.to_string()),
        cancel_at_period_end: true,
        current_period_end: None,
        item_period_end: Some(1_800_000_000),
        metadata: metadata.into_iter().map(|(k, v)| (k.to_string(), v.to_string())).collect(),
    }
}

#[test]
fn lifecycle_events_are_routed_by_metadata() {
    let l = lifecycle("active", vec![("plan", "basic"), ("hashed_email", "acct")]);
    let req = sync_request(&l, false).ok().unwrap();
    assert_eq!(req.hashed_email, "acct");
    assert_eq!(req.stripe_subscription_id, "sub_1");
    assert!(!req.ended);
    assert!(req.cancel_at_period_end);
    assert_eq!(req.current_period_end.as_deref(), Some("2027-01-15T08:00:00Z"));
    assert!(sync_request(&l, true).ok().unwrap().ended);
    assert!(sync_request(&lifecycle("canceled", vec![("hashed_email", "acct")]), false).ok().unwrap().ended);
    assert!(matches!(
        sync_request(&lifecycle("active", vec![("plan", "basic")]), false),
        Err(SyncSubscriptionError::NoAccountReference())
    ));
}

#[test]
fn a_cancel_reply_reports_the_paid_through_date() {
    let (req, resp) = cancellation_record("acct".to_string(), &lifecycle("active", vec![]));
    assert_eq!(req.hashed_email, "acct");
    assert_eq!(req.stripe_subscription_id, "sub_1");
    assert!(!req.ended);
    assert!(req.cancel_at_period_end);
    assert_eq!(resp.current_period_end.as_deref(), Some("2027-01-15T08:00:00Z"));
    assert!(resp.cancel_at_period_end);
}

#[test]
fn checkout_returns_to_the_public_base_url() {
    let (ok, cancel) = checkout_return_urls("http://localhost:5173");
    assert_eq!(ok, "http://localhost:5173/?checkout=success&session_id={CHECKOUT_SESSION_ID}");
    assert_eq!(cancel, "http://localhost:5173/?checkout=cancelled");
}

#[test]
fn checkout_errors_map_to_their_kinds() {
    assert!(matches!(
        checkout_lookup_error(GetSubscriptionError::SubscriptionDoesntExists()),
        StartCheckoutError::UserDoesntExists()
    ));
    assert!(matches!(
        checkout_lookup_error(GetSubscriptionError::UserDoesntExists()),
        StartCheckoutError::UserDoesntExists()
    ));
    assert!(matches!(
        checkout_lookup_error(GetSubscriptionError::Internal("db".to_string())),
        StartCheckoutError::Internal(m) if m == "db"
    ));
    assert!(matches!(checkout_setup_error(StripeError::MissingApiKey), StartCheckoutError::StripeNotConfigured()));
    assert!(matches!(
        checkout_setup_error(StripeError::Transport("down".to_string())),
        StartCheckoutError::Stripe(m) if m == "Could not reach Stripe: down"
    ));
    assert!(matches!(
        checkout_call_error(StripeError::Decode("session response had no url".to_string())),
        StartCheckoutError::Stripe(m) if m == "Could not understand Stripe's response: session response had no url"
    ));
}

#[test]
fn cancel_errors_map_to_their_kinds() {
    assert!(matches!(
        cancel_lookup_error(GetSubscriptionError::UserDoesntExists()),
        CancelSubscriptionError::UserDoesntExists()
    ));
    assert!(matches!(
        cancel_lookup_error(GetSubscriptionError::Internal("x".to_string())),
        CancelSubscriptionError::Internal(m) if m == "x"
    ));
    assert!(matches!(cancel_setup_error(StripeError::MissingApiKey), CancelSubscriptionError::StripeNotConfigured()));
    assert!(matches!(
        cancel_call_error(StripeError::Api { status: 400, body: "no".to_string() }),
        CancelSubscriptionError::Stripe(m) if m == "Stripe returned 400: no"
    ));
    assert!(matches!(
        cancel_mirror_error(SyncSubscriptionError::UserDoesntExists()),
        CancelSubscriptionError::UserDoesntExists()
    ));
    assert!(matches!(
        cancel_mirror_error(SyncSubscriptionError::NoAccountReference()),
        CancelSubscriptionError::Internal(m) if m == "Subscription event is not tied to an account"
    ));
    assert!(matches!(
        cancel_mirror_error(SyncSubscriptionError::Internal("disk".to_string())),
        CancelSubscriptionError::Internal(m) if m == "disk"
    ));
}
