//! The subscription row's life: checkout completion, Stripe lifecycle events,
//! cancellation, and the requests and errors that carry them.

use vstd::prelude::*;
use vstd::string::*;
use crate::stripe::{
    opt_view, period_end_view, status_has_ended, metadata_value, stripe_error_message,
    CompletedCheckoutSession, StripeError, SubscriptionLifecycle,
};
use crate::types::{
    before, rfc3339_instant_of, Entitlement, Instant,
    ActivateSubscriptionRequest, CancelSubscriptionError, CancelSubscriptionResponse,
    GetSubscriptionError, RecordCheckoutError, StartCheckoutError, Subscription,
    SubscriptionStatus, SyncSubscriptionError, SyncSubscriptionRequest,
};

verus! {

/// A freshly reported value if there is one, else the stored one.
pub open spec fn fresh_or_stored(fresh: Option<String>, stored: Option<String>) -> Option<String> {
    match fresh {
        Some(v) => Some(v),
        None => stored,
    }
}

fn take_fresh_or_stored(fresh: Option<String>, stored: Option<String>) -> (r: Option<String>)
    ensures
        r == fresh_or_stored(fresh, stored),
{
    match fresh {
        Some(v) => Some(v),
        None => stored,
    }
}

/// Whether the row's stored Stripe subscription is the one named `id`.
pub open spec fn stored_subscription_is(stored: Option<String>, id: Seq<char>) -> bool {
    match stored {
        Some(s) => s@ == id,
        None => false,
    }
}

impl Subscription {
    /// The row after a completed Checkout Session: a `lifetime` row is left
    /// untouched; any other row becomes `active`, no longer set to cancel,
    /// with the Stripe identifiers and paid-through date the session reported
    /// (values it did not report stay as stored), stamped `at`.
    pub open spec fn activated(self, req: ActivateSubscriptionRequest, at: String) -> Subscription {
        if self.status == SubscriptionStatus::Lifetime {
            self
        } else {
            Subscription {
                status: SubscriptionStatus::Active,
                cancel_at_period_end: false,
                current_period_end: fresh_or_stored(req.current_period_end, self.current_period_end),
                stripe_customer_id: fresh_or_stored(req.stripe_customer_id, self.stripe_customer_id),
                stripe_subscription_id: fresh_or_stored(
                    req.stripe_subscription_id,
                    self.stripe_subscription_id,
                ),
                stripe_payment_intent_id: fresh_or_stored(
                    req.stripe_payment_intent_id,
                    self.stripe_payment_intent_id,
                ),
                updated_at: at,
                ..self
            }
        }
    }

    /// Applies a completed Checkout Session to the row (see [`Self::activated`]).
    pub fn activate(self, req: ActivateSubscriptionRequest, at: String) -> (s: Subscription)
        ensures
            s == self.activated(req, at),
            self.status == SubscriptionStatus::Lifetime ==> s == self,
            self.status != SubscriptionStatus::Lifetime ==> s.status == SubscriptionStatus::Active
                && s.stripe_subscription_id == (match req.stripe_subscription_id {
                    Some(id) => Some(id),
                    None => self.stripe_subscription_id,
                }) && s.stripe_customer_id == (match req.stripe_customer_id {
                    Some(id) => Some(id),
                    None => self.stripe_customer_id,
                }) && s.stripe_payment_intent_id == (match req.stripe_payment_intent_id {
                    Some(id) => Some(id),
                    None => self.stripe_payment_intent_id,
                }) && s.current_period_end == (match req.current_period_end {
                    Some(end) => Some(end),
                    None => self.current_period_end,
                }),
    {
        if self.status == SubscriptionStatus::Lifetime {
            return self;
        }
        Subscription {
            status: SubscriptionStatus::Active,
            trial_started_at: self.trial_started_at,
            trial_ends_at: self.trial_ends_at,
            current_period_end: take_fresh_or_stored(req.current_period_end, self.current_period_end),
            cancel_at_period_end: false,
            stripe_customer_id: take_fresh_or_stored(req.stripe_customer_id, self.stripe_customer_id),
            stripe_subscription_id: take_fresh_or_stored(
                req.stripe_subscription_id,
                self.stripe_subscription_id,
            ),
            stripe_payment_intent_id: take_fresh_or_stored(
                req.stripe_payment_intent_id,
                self.stripe_payment_intent_id,
            ),
            updated_at: at,
        }
    }

    /// The row after a Stripe subscription-lifecycle event: left untouched
    /// when it is `lifetime` or when the event is about a subscription other
    /// than the stored one; otherwise an ended subscription moves the row to
    /// `inactive`, the cancel flag is mirrored, a reported paid-through date
    /// replaces the stored one, and the row is stamped `at`.
    pub open spec fn synced(self, req: SyncSubscriptionRequest, at: String) -> Subscription {
        if self.status == SubscriptionStatus::Lifetime || !stored_subscription_is(
            self.stripe_subscription_id,
            req.stripe_subscription_id@,
        ) {
            self
        } else {
            Subscription {
                status: if req.ended {
                    SubscriptionStatus::Inactive
                } else {
                    self.status
                },
                cancel_at_period_end: req.cancel_at_period_end,
                current_period_end: fresh_or_stored(req.current_period_end, self.current_period_end),
                updated_at: at,
                ..self
            }
        }
    }

    /// Applies a Stripe subscription-lifecycle event to the row (see
    /// [`Self::synced`]).
    pub fn sync(self, req: SyncSubscriptionRequest, at: String) -> (s: Subscription)
        ensures
            s == self.synced(req, at),
    {
        if self.status == SubscriptionStatus::Lifetime {
            return self;
        }
        let matches = match &self.stripe_subscription_id {
            Some(stored) => *stored == req.stripe_subscription_id,
            None => false,
        };
        if !matches {
            return self;
        }
        Subscription {
            status: if req.ended {
                SubscriptionStatus::Inactive
            } else {
                self.status
            },
            trial_started_at: self.trial_started_at,
            trial_ends_at: self.trial_ends_at,
            current_period_end: take_fresh_or_stored(req.current_period_end, self.current_period_end),
            cancel_at_period_end: req.cancel_at_period_end,
            stripe_customer_id: self.stripe_customer_id,
            stripe_subscription_id: self.stripe_subscription_id,
            stripe_payment_intent_id: self.stripe_payment_intent_id,
            updated_at: at,
        }
    }

    /// The Stripe subscription a cancel request should stop renewing: only an
    /// `active` row with a stored Stripe subscription has one; a trial,
    /// lifetime or lapsed row has nothing to cancel.
    pub fn cancelable_subscription_id(&self) -> (r: Result<String, CancelSubscriptionError>)
        ensures
            match (self.status, self.stripe_subscription_id) {
                (SubscriptionStatus::Active, Some(id)) => r matches Ok(s) && s@ == id@,
                _ => r matches Err(CancelSubscriptionError::NotCancelable()),
            },
    {
        match self.status {
            SubscriptionStatus::Active => match &self.stripe_subscription_id {
                Some(id) => Ok(id.clone()),
                None => Err(CancelSubscriptionError::NotCancelable()),
            },
            _ => Err(CancelSubscriptionError::NotCancelable()),
        }
    }
}

/// What a completed Checkout Session asks of the `subscription` table: the
/// account named by `client_reference_id`, the Stripe identifiers, and the
/// paid-through date if it could be fetched. A session without an account
/// reference cannot be recorded.
pub fn activation_request(session: CompletedCheckoutSession, current_period_end: Option<String>) -> (r:
    Result<ActivateSubscriptionRequest, RecordCheckoutError>)
    ensures
        match session.client_reference_id {
            None => r matches Err(RecordCheckoutError::NoAccountReference()),
            Some(account) => r == Ok::<ActivateSubscriptionRequest, RecordCheckoutError>(
                ActivateSubscriptionRequest {
                    hashed_email: account,
                    stripe_customer_id: session.customer,
                    stripe_subscription_id: session.subscription,
                    stripe_payment_intent_id: session.payment_intent,
                    current_period_end,
                },
            ),
        },
{
    match session.client_reference_id {
        None => Err(RecordCheckoutError::NoAccountReference()),
        Some(account) => Ok(
            ActivateSubscriptionRequest {
                hashed_email: account,
                stripe_customer_id: session.customer,
                stripe_subscription_id: session.subscription,
                stripe_payment_intent_id: session.payment_intent,
                current_period_end,
            },
        ),
    }
}

/// Whether `req` is what a subscription-lifecycle object asks of the row of
/// account `account`: the subscription's id, `ended` when the event says so
/// or the status is terminal, the cancel flag, and the paid-through date.
pub open spec fn sync_request_for(
    req: SyncSubscriptionRequest,
    account: Seq<char>,
    lifecycle: SubscriptionLifecycle,
    ended: bool,
) -> bool {
    &&& req.hashed_email@ == account
    &&& req.stripe_subscription_id@ == lifecycle.id@
    &&& req.ended == (ended || status_has_ended(opt_view(lifecycle.status)))
    &&& req.cancel_at_period_end == lifecycle.cancel_at_period_end
    &&& opt_view(req.current_period_end) == period_end_view(
        lifecycle.current_period_end,
        lifecycle.item_period_end,
    )
}

/// What a `customer.subscription.*` event asks of the `subscription` table,
/// routed by the `hashed_email` stamped into the subscription's metadata;
/// `ended` is set for a `customer.subscription.deleted` event. An event with
/// no account in its metadata cannot be routed.
pub fn sync_request(lifecycle: &SubscriptionLifecycle, ended: bool) -> (r: Result<
    SyncSubscriptionRequest,
    SyncSubscriptionError,
>)
    ensures
        match metadata_value(lifecycle.metadata@, "hashed_email"@) {
            None => r matches Err(SyncSubscriptionError::NoAccountReference()),
            Some(account) => r matches Ok(req) && sync_request_for(req, account, *lifecycle, ended),
        },
{
    let account = match lifecycle.hashed_email() {
        None => {
            return Err(SyncSubscriptionError::NoAccountReference());
        },
        Some(a) => String::from_str(a),
    };
    let is_over = lifecycle.has_ended();
    Ok(
        SyncSubscriptionRequest {
            hashed_email: account,
            stripe_subscription_id: lifecycle.id.clone(),
            ended: ended || is_over,
            cancel_at_period_end: lifecycle.cancel_at_period_end,
            current_period_end: lifecycle.period_end_rfc3339(),
        },
    )
}

/// After Stripe accepted a cancel of account `account`'s subscription: the
/// change to mirror into the row (the returned subscription's state), and the
/// reply, which reports the paid-through date and that the subscription will
/// stop renewing.
pub fn cancellation_record(account: String, lifecycle: &SubscriptionLifecycle) -> (r: (
    SyncSubscriptionRequest,
    CancelSubscriptionResponse,
))
    ensures
        sync_request_for(r.0, account@, *lifecycle, false),
        opt_view(r.1.current_period_end) == period_end_view(
            lifecycle.current_period_end,
            lifecycle.item_period_end,
        ),
        r.1.cancel_at_period_end,
{
    let is_over = lifecycle.has_ended();
    let req = SyncSubscriptionRequest {
        hashed_email: account,
        stripe_subscription_id: lifecycle.id.clone(),
        ended: is_over,
        cancel_at_period_end: lifecycle.cancel_at_period_end,
        current_period_end: lifecycle.period_end_rfc3339(),
    };
    let resp = CancelSubscriptionResponse {
        current_period_end: lifecycle.period_end_rfc3339(),
        cancel_at_period_end: true,
    };
    (req, resp)
}

/// Where Stripe Checkout sends the customer back to, on success and on
/// cancel, under the public base URL `base`.
pub fn checkout_return_urls(base: &str) -> (r: (String, String))
    ensures
        r.0@ == base@ + "/?checkout=success&session_id={CHECKOUT_SESSION_ID}"@,
        r.1@ == base@ + "/?checkout=cancelled"@,
{
    let mut success = String::from_str(base);
    success.append("/?checkout=success&session_id={CHECKOUT_SESSION_ID}");
    let mut cancel = String::from_str(base);
    cancel.append("/?checkout=cancelled");
    (success, cancel)
}

/// A failed account lookup before checkout: a missing account or row is
/// reported as a missing user.
pub fn checkout_lookup_error(e: GetSubscriptionError) -> (r: StartCheckoutError)
    ensures
        match e {
            GetSubscriptionError::Internal(m) => r == StartCheckoutError::Internal(m),
            _ => r matches StartCheckoutError::UserDoesntExists(),
        },
{
    match e {
        GetSubscriptionError::UserDoesntExists() => StartCheckoutError::UserDoesntExists(),
        GetSubscriptionError::SubscriptionDoesntExists() => StartCheckoutError::UserDoesntExists(),
        GetSubscriptionError::Internal(m) => StartCheckoutError::Internal(m),
    }
}

/// A Stripe client that could not be set up for checkout: a missing secret
/// key means Stripe is not configured.
pub fn checkout_setup_error(e: StripeError) -> (r: StartCheckoutError)
    ensures
        match e {
            StripeError::MissingApiKey => r matches StartCheckoutError::StripeNotConfigured(),
            _ => r matches StartCheckoutError::Stripe(m) && m@ == stripe_error_message(e),
        },
{
    match e {
        StripeError::MissingApiKey => StartCheckoutError::StripeNotConfigured(),
        other => StartCheckoutError::Stripe(other.message()),
    }
}

/// A Checkout Session Stripe would not open.
pub fn checkout_call_error(e: StripeError) -> (r: StartCheckoutError)
    ensures
        r matches StartCheckoutError::Stripe(m) && m@ == stripe_error_message(e),
{
    StartCheckoutError::Stripe(e.message())
}

/// A failed account lookup before cancelling: a missing account or row is
/// reported as a missing user.
pub fn cancel_lookup_error(e: GetSubscriptionError) -> (r: CancelSubscriptionError)
    ensures
        match e {
            GetSubscriptionError::Internal(m) => r == CancelSubscriptionError::Internal(m),
            _ => r matches CancelSubscriptionError::UserDoesntExists(),
        },
{
    match e {
        GetSubscriptionError::UserDoesntExists() => CancelSubscriptionError::UserDoesntExists(),
        GetSubscriptionError::SubscriptionDoesntExists() => CancelSubscriptionError::UserDoesntExists(),
        GetSubscriptionError::Internal(m) => CancelSubscriptionError::Internal(m),
    }
}

/// A Stripe client that could not be set up for cancelling: a missing secret
/// key means Stripe is not configured.
pub fn cancel_setup_error(e: StripeError) -> (r: CancelSubscriptionError)
    ensures
        match e {
            StripeError::MissingApiKey => r matches CancelSubscriptionError::StripeNotConfigured(),
            _ => r matches CancelSubscriptionError::Stripe(m) && m@ == stripe_error_message(e),
        },
{
    match e {
        StripeError::MissingApiKey => CancelSubscriptionError::StripeNotConfigured(),
        other => CancelSubscriptionError::Stripe(other.message()),
    }
}

/// A cancel Stripe refused.
pub fn cancel_call_error(e: StripeError) -> (r: CancelSubscriptionError)
    ensures
        r matches CancelSubscriptionError::Stripe(m) && m@ == stripe_error_message(e),
{
    CancelSubscriptionError::Stripe(e.message())
}

/// A cancel Stripe accepted but the row could not mirror: a vanished account
/// is a missing user, anything else an internal error.
pub fn cancel_mirror_error(e: SyncSubscriptionError) -> (r: CancelSubscriptionError)
    ensures
        match e {
            SyncSubscriptionError::UserDoesntExists() => r matches CancelSubscriptionError::UserDoesntExists(),
            SyncSubscriptionError::Internal(m) => r == CancelSubscriptionError::Internal(m),
            SyncSubscriptionError::NoAccountReference() => r matches CancelSubscriptionError::Internal(
                m,
            ) && m@ == "Subscription event is not tied to an account"@,
        },
{
    match e {
        SyncSubscriptionError::UserDoesntExists() => CancelSubscriptionError::UserDoesntExists(),
        SyncSubscriptionError::Internal(m) => CancelSubscriptionError::Internal(m),
        SyncSubscriptionError::NoAccountReference() => CancelSubscriptionError::Internal(
            String::from_str("Subscription event is not tied to an account"),
        ),
    }
}

/// Whether instant `a` is not after instant `b`.
pub open spec fn not_after(a: Instant, b: Instant) -> bool {
    before(a, b) || a == b
}

/// Access that has run out is not regained by waiting: a row that is
/// `Expired` at one instant is `Expired` at every later instant.
pub proof fn lemma_expiry_is_permanent(sub: Subscription, t1: Instant, t2: Instant)
    requires
        sub.entitlement_spec(t1) == Entitlement::Expired,
        not_after(t1, t2),
    ensures
        sub.entitlement_spec(t2) == Entitlement::Expired,
{
}

/// A subscription set to cancel keeps full access exactly while its
/// paid-through date is still ahead.
pub proof fn lemma_canceled_access_lasts_until_period_end(sub: Subscription, now: Instant, end: Instant)
    requires
        sub.status == SubscriptionStatus::Active,
        sub.cancel_at_period_end,
        sub.current_period_end matches Some(text) && rfc3339_instant_of(text) == Some(end),
    ensures
        (sub.entitlement_spec(now) == Entitlement::Entitled) == before(now, end),
        (sub.entitlement_spec(now) == Entitlement::Expired) == !before(now, end),
{
}

/// Recording the same completed checkout twice, at `first` and then at
/// `second`, leaves the row as recording it once at `second`: apart from
/// the `updated_at` stamp, the row is the one the first recording made.
pub proof fn lemma_activation_idempotent(
    sub: Subscription,
    req: ActivateSubscriptionRequest,
    first: String,
    second: String,
)
    ensures
        sub.activated(req, first).activated(req, second) == sub.activated(req, second),
        sub.status != SubscriptionStatus::Lifetime ==> sub.activated(req, second) == (Subscription {
            updated_at: second,
            ..sub.activated(req, first)
        }),
        sub.status == SubscriptionStatus::Lifetime ==> sub.activated(req, second) == sub.activated(req, first),
{
}

/// A completed checkout on a non-lifetime row records what the session
/// reported: the row becomes `active` and no longer set to cancel, each
/// Stripe identifier and the paid-through date the session reported replace
/// the stored ones (whatever was stored, e.g. a lapsed earlier
/// subscription), a value the session did not report stays as stored, the
/// trial dates are kept and the row is stamped `at`.
pub proof fn lemma_activation_records_session(sub: Subscription, req: ActivateSubscriptionRequest, at: String)
    requires
        sub.status != SubscriptionStatus::Lifetime,
    ensures
        ({
            let s = sub.activated(req, at);
            &&& s.status == SubscriptionStatus::Active
            &&& !s.cancel_at_period_end
            &&& (req.stripe_subscription_id matches Some(id) ==> s.stripe_subscription_id == Some(id))
            &&& (req.stripe_subscription_id is None ==> s.stripe_subscription_id == sub.stripe_subscription_id)
            &&& (req.stripe_customer_id matches Some(id) ==> s.stripe_customer_id == Some(id))
            &&& (req.stripe_customer_id is None ==> s.stripe_customer_id == sub.stripe_customer_id)
            &&& (req.stripe_payment_intent_id matches Some(id) ==> s.stripe_payment_intent_id == Some(id))
            &&& (req.stripe_payment_intent_id is None ==> s.stripe_payment_intent_id
                == sub.stripe_payment_intent_id)
            &&& (req.current_period_end matches Some(end) ==> s.current_period_end == Some(end))
            &&& (req.current_period_end is None ==> s.current_period_end == sub.current_period_end)
            &&& s.trial_started_at == sub.trial_started_at
            &&& s.trial_ends_at == sub.trial_ends_at
            &&& s.updated_at == at
        }),
{
}

/// A lifecycle event about the row's stored subscription, on a non-lifetime
/// row, mirrors what the event reported: an ended subscription makes the row
/// `inactive` (otherwise the status is kept), the cancel flag is Stripe's,
/// a reported paid-through date replaces the stored one, the Stripe
/// identifiers and trial dates are kept and the row is stamped `at`.
pub proof fn lemma_sync_mirrors_event(sub: Subscription, event: SyncSubscriptionRequest, at: String)
    requires
        sub.status != SubscriptionStatus::Lifetime,
        sub.stripe_subscription_id matches Some(id) && id@ == event.stripe_subscription_id@,
    ensures
        ({
            let s = sub.synced(event, at);
            &&& (event.ended ==> s.status == SubscriptionStatus::Inactive)
            &&& (!event.ended ==> s.status == sub.status)
            &&& s.cancel_at_period_end == event.cancel_at_period_end
            &&& (event.current_period_end matches Some(end) ==> s.current_period_end == Some(end))
            &&& (event.current_period_end is None ==> s.current_period_end == sub.current_period_end)
            &&& s.stripe_subscription_id == sub.stripe_subscription_id
            &&& s.stripe_customer_id == sub.stripe_customer_id
            &&& s.stripe_payment_intent_id == sub.stripe_payment_intent_id
            &&& s.trial_started_at == sub.trial_started_at
            &&& s.trial_ends_at == sub.trial_ends_at
            &&& s.updated_at == at
        }),
{
}

/// After a completed checkout the account has full access, at every instant.
pub proof fn lemma_activation_entitles(sub: Subscription, req: ActivateSubscriptionRequest, at: String, now: Instant)
    ensures
        sub.activated(req, at).entitlement_spec(now) == Entitlement::Entitled,
{
}

/// A `lifetime` row is never changed by checkouts or subscription events.
pub proof fn lemma_lifetime_row_untouched(
    sub: Subscription,
    activation: ActivateSubscriptionRequest,
    event: SyncSubscriptionRequest,
    at: String,
)
    requires
        sub.status == SubscriptionStatus::Lifetime,
    ensures
        sub.activated(activation, at) == sub,
        sub.synced(event, at) == sub,
{
}

/// An event about a subscription other than the stored one changes nothing.
pub proof fn lemma_foreign_event_ignored(sub: Subscription, event: SyncSubscriptionRequest, at: String)
    requires
        !stored_subscription_is(sub.stripe_subscription_id, event.stripe_subscription_id@),
    ensures
        sub.synced(event, at) == sub,
{
}

/// Once the stored subscription has ended, a non-lifetime row has no access,
/// at every instant.
pub proof fn lemma_ended_subscription_expires(sub: Subscription, event: SyncSubscriptionRequest, at: String, now: Instant)
    requires
        sub.status != SubscriptionStatus::Lifetime,
        stored_subscription_is(sub.stripe_subscription_id, event.stripe_subscription_id@),
        event.ended,
    ensures
        sub.synced(event, at).status == SubscriptionStatus::Inactive,
        sub.synced(event, at).entitlement_spec(now) == Entitlement::Expired,
{
}

/// Applying the same subscription event twice, at `first` and then at
/// `second` (Stripe may deliver a webhook more than once), leaves the row as
/// applying it once at `second`: apart from the `updated_at` stamp, the row
/// is the one the first delivery made.
pub proof fn lemma_sync_idempotent(sub: Subscription, event: SyncSubscriptionRequest, first: String, second: String)
    ensures
        sub.synced(event, first).synced(event, second) == sub.synced(event, second),
        sub.status != SubscriptionStatus::Lifetime && stored_subscription_is(
            sub.stripe_subscription_id,
            event.stripe_subscription_id@,
        ) ==> sub.synced(event, second) == (Subscription {
            updated_at: second,
            ..sub.synced(event, first)
        }),
{
}

} // verus!
