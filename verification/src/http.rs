//! The HTTP answers of the budget service: which status each outcome gets,
//! how the Stripe webhook is routed, and the entitlement gate.

use vstd::prelude::*;
use vstd::string::*;
use crate::text::str_eq;
use crate::stripe::{
    reports_verdict, verify_signature, verify_signature_at, webhook_signature_check, StripeError,
};
use crate::types::{
    AddCategoryError, AddLineItemError, CancelSubscriptionError, CloneMonthError, CreateUserError,
    DeleteLineItemError, DeleteUserError, EditLineItemError, Entitlement, GetBudgetError,
    GetSubscriptionError, Instant, RecordCheckoutError, StartCheckoutError, Subscription,
    SyncSubscriptionError,
};

verus! {

pub const OK: u16 = 200;
pub const CREATED: u16 = 201;
pub const NO_CONTENT: u16 = 204;
pub const BAD_REQUEST: u16 = 400;
pub const UNAUTHORIZED: u16 = 401;
pub const PAYMENT_REQUIRED: u16 = 402;
pub const NOT_FOUND: u16 = 404;
pub const CONFLICT: u16 = 409;
pub const INTERNAL_SERVER_ERROR: u16 = 500;
pub const BAD_GATEWAY: u16 = 502;
pub const SERVICE_UNAVAILABLE: u16 = 503;

/// The status of a failed budget read: a missing account or budget is 404,
/// a bad date 400, anything else 500.
pub fn budget_error_status(e: &GetBudgetError) -> (s: u16)
    ensures
        s == match e {
            GetBudgetError::UserDoesntExists() => NOT_FOUND,
            GetBudgetError::BudgetDoesntExists() => NOT_FOUND,
            GetBudgetError::DateError(_) => BAD_REQUEST,
            GetBudgetError::Internal(_) => INTERNAL_SERVER_ERROR,
        },
{
    match e {
        GetBudgetError::UserDoesntExists() => NOT_FOUND,
        GetBudgetError::BudgetDoesntExists() => NOT_FOUND,
        GetBudgetError::DateError(_) => BAD_REQUEST,
        GetBudgetError::Internal(_) => INTERNAL_SERVER_ERROR,
    }
}

/// The status of an account creation: 201, or 409 when it exists already.
pub fn create_user_status(r: &Result<(), CreateUserError>) -> (s: u16)
    ensures
        s == match r {
            Ok(()) => CREATED,
            Err(CreateUserError::UserAlreadyExists()) => CONFLICT,
            Err(CreateUserError::Internal(_)) => INTERNAL_SERVER_ERROR,
        },
{
    match r {
        Ok(()) => CREATED,
        Err(CreateUserError::UserAlreadyExists()) => CONFLICT,
        Err(CreateUserError::Internal(_)) => INTERNAL_SERVER_ERROR,
    }
}

/// The status of an account deletion: 204, or 500 on any failure.
pub fn delete_user_status(r: &Result<(), DeleteUserError>) -> (s: u16)
    ensures
        s == match r {
            Ok(()) => NO_CONTENT,
            Err(_) => INTERNAL_SERVER_ERROR,
        },
{
    match r {
        Ok(()) => NO_CONTENT,
        Err(_) => INTERNAL_SERVER_ERROR,
    }
}

/// The status of a line-item deletion: 204; 404 for a missing account or
/// item; 500 otherwise.
pub fn delete_line_item_status(r: &Result<(), DeleteLineItemError>) -> (s: u16)
    ensures
        s == match r {
            Ok(()) => NO_CONTENT,
            Err(DeleteLineItemError::UserDoesntExists()) => NOT_FOUND,
            Err(DeleteLineItemError::LineItemDoesntExist()) => NOT_FOUND,
            Err(DeleteLineItemError::Internal(_)) => INTERNAL_SERVER_ERROR,
        },
{
    match r {
        Ok(()) => NO_CONTENT,
        Err(DeleteLineItemError::UserDoesntExists()) => NOT_FOUND,
        Err(DeleteLineItemError::LineItemDoesntExist()) => NOT_FOUND,
        Err(DeleteLineItemError::Internal(_)) => INTERNAL_SERVER_ERROR,
    }
}

/// The status of adding a line item: 201; 404 for a missing account; 500
/// otherwise.
pub fn add_line_item_status(r: &Result<(), AddLineItemError>) -> (s: u16)
    ensures
        s == match r {
            Ok(()) => CREATED,
            Err(AddLineItemError::UserDoesntExists()) => NOT_FOUND,
            Err(AddLineItemError::Internal(_)) => INTERNAL_SERVER_ERROR,
        },
{
    match r {
        Ok(()) => CREATED,
        Err(AddLineItemError::UserDoesntExists()) => NOT_FOUND,
        Err(AddLineItemError::Internal(_)) => INTERNAL_SERVER_ERROR,
    }
}

/// The status of editing a line item: 200; 404 for a missing account or
/// item; 500 otherwise.
pub fn edit_line_item_status(r: &Result<(), EditLineItemError>) -> (s: u16)
    ensures
        s == match r {
            Ok(()) => OK,
            Err(EditLineItemError::UserDoesntExists()) => NOT_FOUND,
            Err(EditLineItemError::LineItemDoesntExist()) => NOT_FOUND,
            Err(EditLineItemError::Internal(_)) => INTERNAL_SERVER_ERROR,
        },
{
    match r {
        Ok(()) => OK,
        Err(EditLineItemError::UserDoesntExists()) => NOT_FOUND,
        Err(EditLineItemError::LineItemDoesntExist()) => NOT_FOUND,
        Err(EditLineItemError::Internal(_)) => INTERNAL_SERVER_ERROR,
    }
}

/// The status of adding a category: 201; 404 for a missing account; 500
/// otherwise.
pub fn add_category_status(r: &Result<(), AddCategoryError>) -> (s: u16)
    ensures
        s == match r {
            Ok(()) => CREATED,
            Err(AddCategoryError::UserDoesntExists()) => NOT_FOUND,
            Err(AddCategoryError::Internal(_)) => INTERNAL_SERVER_ERROR,
        },
{
    match r {
        Ok(()) => CREATED,
        Err(AddCategoryError::UserDoesntExists()) => NOT_FOUND,
        Err(AddCategoryError::Internal(_)) => INTERNAL_SERVER_ERROR,
    }
}

/// The status of copying a month: 201; 404 for a missing account or source
/// month; 500 otherwise.
pub fn clone_month_status(r: &Result<(), CloneMonthError>) -> (s: u16)
    ensures
        s == match r {
            Ok(()) => CREATED,
            Err(CloneMonthError::UserDoesntExists()) => NOT_FOUND,
            Err(CloneMonthError::SourceMonthDoesntExist()) => NOT_FOUND,
            Err(CloneMonthError::Internal(_)) => INTERNAL_SERVER_ERROR,
        },
{
    match r {
        Ok(()) => CREATED,
        Err(CloneMonthError::UserDoesntExists()) => NOT_FOUND,
        Err(CloneMonthError::SourceMonthDoesntExist()) => NOT_FOUND,
        Err(CloneMonthError::Internal(_)) => INTERNAL_SERVER_ERROR,
    }
}

/// The status of a failed subscription lookup: 404 for a missing account or
/// row, 500 otherwise.
pub fn subscription_lookup_status(e: &GetSubscriptionError) -> (s: u16)
    ensures
        s == match e {
            GetSubscriptionError::Internal(_) => INTERNAL_SERVER_ERROR,
            _ => NOT_FOUND,
        },
{
    match e {
        GetSubscriptionError::UserDoesntExists() => NOT_FOUND,
        GetSubscriptionError::SubscriptionDoesntExists() => NOT_FOUND,
        GetSubscriptionError::Internal(_) => INTERNAL_SERVER_ERROR,
    }
}

/// The status of a failed checkout: 404 for a missing account, 503 when
/// Stripe is not configured, 502 when Stripe failed, 500 otherwise.
pub fn checkout_error_status(e: &StartCheckoutError) -> (s: u16)
    ensures
        s == match e {
            StartCheckoutError::UserDoesntExists() => NOT_FOUND,
            StartCheckoutError::StripeNotConfigured() => SERVICE_UNAVAILABLE,
            StartCheckoutError::Stripe(_) => BAD_GATEWAY,
            StartCheckoutError::Internal(_) => INTERNAL_SERVER_ERROR,
        },
{
    match e {
        StartCheckoutError::UserDoesntExists() => NOT_FOUND,
        StartCheckoutError::StripeNotConfigured() => SERVICE_UNAVAILABLE,
        StartCheckoutError::Stripe(_) => BAD_GATEWAY,
        StartCheckoutError::Internal(_) => INTERNAL_SERVER_ERROR,
    }
}

/// The status of a failed cancel: 404 for a missing account, 409 when there
/// is nothing to cancel, 503 when Stripe is not configured, 502 when Stripe
/// failed, 500 otherwise.
pub fn cancel_error_status(e: &CancelSubscriptionError) -> (s: u16)
    ensures
        s == match e {
            CancelSubscriptionError::UserDoesntExists() => NOT_FOUND,
            CancelSubscriptionError::NotCancelable() => CONFLICT,
            CancelSubscriptionError::StripeNotConfigured() => SERVICE_UNAVAILABLE,
            CancelSubscriptionError::Stripe(_) => BAD_GATEWAY,
            CancelSubscriptionError::Internal(_) => INTERNAL_SERVER_ERROR,
        },
{
    match e {
        CancelSubscriptionError::UserDoesntExists() => NOT_FOUND,
        CancelSubscriptionError::NotCancelable() => CONFLICT,
        CancelSubscriptionError::StripeNotConfigured() => SERVICE_UNAVAILABLE,
        CancelSubscriptionError::Stripe(_) => BAD_GATEWAY,
        CancelSubscriptionError::Internal(_) => INTERNAL_SERVER_ERROR,
    }
}

/// The status a completed-checkout webhook is acknowledged with: 200 when it
/// was recorded or can never be (no account to match), 500 so that Stripe
/// retries when recording failed.
pub fn record_checkout_status(r: &Result<(), RecordCheckoutError>) -> (s: u16)
    ensures
        s == match r {
            Err(RecordCheckoutError::Internal(_)) => INTERNAL_SERVER_ERROR,
            _ => OK,
        },
{
    match r {
        Ok(()) => OK,
        Err(RecordCheckoutError::NoAccountReference()) => OK,
        Err(RecordCheckoutError::UserDoesntExists()) => OK,
        Err(RecordCheckoutError::Internal(_)) => INTERNAL_SERVER_ERROR,
    }
}

/// The status a subscription-lifecycle webhook is acknowledged with: 200
/// when it was applied or can never be (no account to route to), 500 so that
/// Stripe retries when applying it failed.
pub fn sync_status(r: &Result<(), SyncSubscriptionError>) -> (s: u16)
    ensures
        s == match r {
            Err(SyncSubscriptionError::Internal(_)) => INTERNAL_SERVER_ERROR,
            _ => OK,
        },
{
    match r {
        Ok(()) => OK,
        Err(SyncSubscriptionError::NoAccountReference()) => OK,
        Err(SyncSubscriptionError::UserDoesntExists()) => OK,
        Err(SyncSubscriptionError::Internal(_)) => INTERNAL_SERVER_ERROR,
    }
}

/// What the service does with a verified Stripe webhook event.
#[derive(Debug, Clone, Copy, PartialEq, Eq, Structural)]
pub enum WebhookAction {
    /// `checkout.session.completed`: record the paid checkout.
    RecordCheckout,
    /// `customer.subscription.updated` or `.deleted`: mirror the
    /// subscription, which has ended for `.deleted`.
    SyncSubscription { ended: bool },
    /// Any other event: acknowledged, not acted on.
    Acknowledge,
}

/// The action an event type calls for.
pub open spec fn webhook_action_for(event_type: Seq<char>) -> WebhookAction {
    if event_type == "checkout.session.completed"@ {
        WebhookAction::RecordCheckout
    } else if event_type == "customer.subscription.updated"@ {
        WebhookAction::SyncSubscription { ended: false }
    } else if event_type == "customer.subscription.deleted"@ {
        WebhookAction::SyncSubscription { ended: true }
    } else {
        WebhookAction::Acknowledge
    }
}

/// Routes a verified webhook by its event type.
pub fn webhook_action(event_type: &str) -> (a: WebhookAction)
    ensures
        a == webhook_action_for(event_type@),
{
    if str_eq(event_type, "checkout.session.completed") {
        WebhookAction::RecordCheckout
    } else if str_eq(event_type, "customer.subscription.updated") {
        WebhookAction::SyncSubscription { ended: false }
    } else if str_eq(event_type, "customer.subscription.deleted") {
        WebhookAction::SyncSubscription { ended: true }
    } else {
        WebhookAction::Acknowledge
    }
}

/// Why a webhook delivery is turned away before its event is read.
#[derive(Debug)]
pub enum WebhookRejection {
    /// No webhook signing secret is configured.
    NoSecret,
    /// The delivery carries no readable `Stripe-Signature` header.
    NoSignature,
    /// The signature did not verify; the error says why.
    BadSignature(StripeError),
}

/// Whether `r` is how a delivery of `payload` with header
/// `header` is screened when the configured secret is `secret`, at `now`: no
/// secret turns it away first, then a missing header, then a signature that
/// fails [`webhook_signature_check`] (reported with its reason).
pub open spec fn gate_answer(
    r: Result<(), WebhookRejection>,
    payload: Seq<u8>,
    header: Option<Seq<char>>,
    secret: Option<Seq<u8>>,
    now: i64,
) -> bool {
    match (secret, header) {
        (None, _) => r matches Err(WebhookRejection::NoSecret),
        (Some(_), None) => r matches Err(WebhookRejection::NoSignature),
        (Some(k), Some(h)) => match webhook_signature_check(payload, h, k, now) {
            Ok(()) => r is Ok,
            Err(reason) => r matches Err(WebhookRejection::BadSignature(StripeError::BadSignature(m)))
                && m@ == reason,
        },
    }
}

/// The views of an optional header.
pub open spec fn header_view(h: Option<&str>) -> Option<Seq<char>> {
    match h {
        Some(t) => Some(t@),
        None => None,
    }
}

/// The bytes of an optional secret.
pub open spec fn secret_bytes(s: Option<&str>) -> Option<Seq<u8>> {
    match s {
        Some(t) => Some(t.spec_bytes()),
        None => None,
    }
}

/// The webhook gate at time `now` (Unix seconds).
pub fn webhook_gate_at(payload: &[u8], header: Option<&str>, secret: Option<&str>, now: i64) -> (r: Result<
    (),
    WebhookRejection,
>)
    ensures
        gate_answer(r, payload@, header_view(header), secret_bytes(secret), now),
{
    match secret {
        None => Err(WebhookRejection::NoSecret),
        Some(k) => match header {
            None => Err(WebhookRejection::NoSignature),
            Some(h) => match verify_signature_at(payload, h, k, now) {
                Ok(()) => Ok(()),
                Err(e) => Err(WebhookRejection::BadSignature(e)),
            },
        },
    }
}

/// The webhook gate at the moment the clock is read.
pub fn webhook_gate(payload: &[u8], header: Option<&str>, secret: Option<&str>) -> (r: Result<
    (),
    WebhookRejection,
>)
    ensures
        exists|now: i64| now >= 0 && #[trigger] gate_answer(r, payload@, header_view(header), secret_bytes(secret), now),
{
    match secret {
        None => {
            assert(gate_answer(Err(WebhookRejection::NoSecret), payload@, header_view(header), secret_bytes(secret), 0));
            Err(WebhookRejection::NoSecret)
        },
        Some(k) => match header {
            None => {
                assert(gate_answer(Err(WebhookRejection::NoSignature), payload@, header_view(header), secret_bytes(secret), 0));
                Err(WebhookRejection::NoSignature)
            },
            Some(h) => {
                let v = verify_signature(payload, h, k);
                let ghost now = choose|now: i64| now >= 0 && reports_verdict(
                    v,
                    #[trigger] webhook_signature_check(payload@, h@, k.spec_bytes(), now),
                );
                let r = match v {
                    Ok(()) => Ok(()),
                    Err(e) => Err(WebhookRejection::BadSignature(e)),
                };
                assert(gate_answer(r, payload@, header_view(header), secret_bytes(secret), now));
                r
            },
        },
    }
}

/// The status a turned-away delivery is answered with: 500 when no secret
/// is configured (Stripe retries once it is), 400 otherwise.
pub open spec fn rejection_code(r: WebhookRejection) -> u16 {
    match r {
        WebhookRejection::NoSecret => INTERNAL_SERVER_ERROR,
        _ => BAD_REQUEST,
    }
}

/// The status a turned-away delivery is answered with.
pub fn rejection_status(r: &WebhookRejection) -> (s: u16)
    ensures
        s == rejection_code(*r),
{
    match r {
        WebhookRejection::NoSecret => INTERNAL_SERVER_ERROR,
        _ => BAD_REQUEST,
    }
}

/// What became of a delivery whose signature verified.
#[derive(Debug)]
pub enum WebhookOutcome {
    /// The event, or its object, did not have the expected shape.
    Malformed,
    /// A completed checkout, recorded or not.
    Checkout(Result<(), RecordCheckoutError>),
    /// A subscription-lifecycle event, applied or not.
    Lifecycle(Result<(), SyncSubscriptionError>),
    /// An event type the service does not act on.
    Ignored,
}

/// The status a verified delivery is answered with: 400 for a malformed
/// event; for a checkout or lifecycle event the acknowledgement of
/// [`record_checkout_status`] / [`sync_status`]; 200 for other events.
pub open spec fn outcome_code(o: WebhookOutcome) -> u16 {
    match o {
        WebhookOutcome::Malformed => BAD_REQUEST,
        WebhookOutcome::Checkout(r) => match r {
            Err(RecordCheckoutError::Internal(_)) => INTERNAL_SERVER_ERROR,
            _ => OK,
        },
        WebhookOutcome::Lifecycle(r) => match r {
            Err(SyncSubscriptionError::Internal(_)) => INTERNAL_SERVER_ERROR,
            _ => OK,
        },
        WebhookOutcome::Ignored => OK,
    }
}

/// The status a verified delivery is answered with.
pub fn outcome_status(o: &WebhookOutcome) -> (s: u16)
    ensures
        s == outcome_code(*o),
{
    match o {
        WebhookOutcome::Malformed => BAD_REQUEST,
        WebhookOutcome::Checkout(r) => record_checkout_status(r),
        WebhookOutcome::Lifecycle(r) => sync_status(r),
        WebhookOutcome::Ignored => OK,
    }
}

/// The status a whole delivery is answered with: its rejection, or the
/// outcome's status once its signature verified.
pub open spec fn webhook_answer(
    payload: Seq<u8>,
    header: Option<Seq<char>>,
    secret: Option<Seq<u8>>,
    now: i64,
    outcome: WebhookOutcome,
) -> u16 {
    match (secret, header) {
        (None, _) => INTERNAL_SERVER_ERROR,
        (Some(_), None) => BAD_REQUEST,
        (Some(k), Some(h)) => if webhook_signature_check(payload, h, k, now) is Err {
            BAD_REQUEST
        } else {
            outcome_code(outcome)
        },
    }
}

/// How a Stripe webhook delivery is answered: a signature that does not
/// verify is a 400 whatever the event; a verified event the service does not
/// act on is a 200 and is routed to no store operation; a checkout or
/// lifecycle event is a 200 when it was applied or can never be (no account
/// to match), and a 500, so that Stripe retries, when applying it failed.
/// The rejection and outcome statuses are exactly these answers.
pub proof fn lemma_webhook_answers(
    payload: Seq<u8>,
    header: Seq<char>,
    secret: Seq<u8>,
    now: i64,
    event_type: Seq<char>,
    outcome: WebhookOutcome,
    r: Result<(), WebhookRejection>,
)
    requires
        gate_answer(r, payload, Some(header), Some(secret), now),
    ensures
        webhook_signature_check(payload, header, secret, now) is Err ==> r is Err
            && rejection_code(r->Err_0) == BAD_REQUEST
            && webhook_answer(payload, Some(header), Some(secret), now, outcome) == BAD_REQUEST,
        webhook_signature_check(payload, header, secret, now) is Ok ==> r is Ok
            && webhook_answer(payload, Some(header), Some(secret), now, outcome) == outcome_code(outcome),
        webhook_action_for(event_type) == WebhookAction::Acknowledge ==> outcome_code(WebhookOutcome::Ignored) == OK,
        outcome_code(WebhookOutcome::Checkout(Err(RecordCheckoutError::NoAccountReference()))) == OK,
        outcome_code(WebhookOutcome::Checkout(Err(RecordCheckoutError::UserDoesntExists()))) == OK,
        outcome_code(WebhookOutcome::Checkout(Ok(()))) == OK,
        forall|m: String| outcome_code(WebhookOutcome::Checkout(Err(RecordCheckoutError::Internal(m)))) == INTERNAL_SERVER_ERROR,
        outcome_code(WebhookOutcome::Lifecycle(Err(SyncSubscriptionError::NoAccountReference()))) == OK,
        outcome_code(WebhookOutcome::Lifecycle(Err(SyncSubscriptionError::UserDoesntExists()))) == OK,
        outcome_code(WebhookOutcome::Lifecycle(Ok(()))) == OK,
        forall|m: String| outcome_code(WebhookOutcome::Lifecycle(Err(SyncSubscriptionError::Internal(m)))) == INTERNAL_SERVER_ERROR,
{
}

/// The verdict of the entitlement gate on a subscription lookup at `now`:
/// pass when the user has access; 402 when the lookup worked but access ran
/// out; otherwise the lookup's own failure status.
pub open spec fn gate_verdict(lookup: Result<Subscription, GetSubscriptionError>, now: Instant) -> Result<(), u16> {
    match lookup {
        Ok(sub) => if sub.entitlement_spec(now) != Entitlement::Expired {
            Ok(())
        } else {
            Err(PAYMENT_REQUIRED)
        },
        Err(GetSubscriptionError::Internal(_)) => Err(INTERNAL_SERVER_ERROR),
        Err(_) => Err(NOT_FOUND),
    }
}

/// The entitlement gate at the instant `now`.
pub fn entitlement_gate_at(lookup: &Result<Subscription, GetSubscriptionError>, now: Instant) -> (r: Result<(), u16>)
    ensures
        r == gate_verdict(*lookup, now),
{
    match lookup {
        Ok(sub) => if sub.has_access_at(now) {
            Ok(())
        } else {
            Err(PAYMENT_REQUIRED)
        },
        Err(e) => Err(subscription_lookup_status(e)),
    }
}

/// The entitlement gate at the moment the clock is read.
pub fn entitlement_gate(lookup: &Result<Subscription, GetSubscriptionError>) -> (r: Result<(), u16>)
    ensures
        exists|now: Instant| now.1 < 1_000_000_000 && r == #[trigger] gate_verdict(*lookup, now),
{
    let clock = crate::clock::utc_now();
    let now: Instant = (clock.secs, clock.nanos);
    let r = entitlement_gate_at(lookup, now);
    assert(now.1 < 1_000_000_000 && r == gate_verdict(*lookup, now));
    r
}

} // verus!
