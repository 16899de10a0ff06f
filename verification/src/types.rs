//! Requests, replies, errors and the records of budgets and subscriptions.

use vstd::prelude::*;
use vstd::string::*;
use crate::clock::{parse_rfc3339, rfc3339_instant, utc_now};
use crate::text::str_eq;

verus! {

/// Creating an account failed.
#[derive(Debug)]
pub enum CreateUserError {
    UserAlreadyExists(),
    Internal(String),
}

/// Deleting an account failed.
#[derive(Debug)]
pub enum DeleteUserError {
    UserDoesntExists(),
    Internal(String),
}

/// Reading a budget failed.
#[derive(Debug)]
pub enum GetBudgetError {
    UserDoesntExists(),
    BudgetDoesntExists(),
    DateError(DateError),
    Internal(String),
}

/// Deleting a line item failed.
#[derive(Debug)]
pub enum DeleteLineItemError {
    UserDoesntExists(),
    LineItemDoesntExist(),
    Internal(String),
}

/// Adding a line item failed.
#[derive(Debug)]
pub enum AddLineItemError {
    UserDoesntExists(),
    Internal(String),
}

/// Editing a line item failed.
#[derive(Debug)]
pub enum EditLineItemError {
    UserDoesntExists(),
    LineItemDoesntExist(),
    Internal(String),
}

/// Adding a category failed.
#[derive(Debug)]
pub enum AddCategoryError {
    UserDoesntExists(),
    Internal(String),
}

/// Copying a month's line items failed.
#[derive(Debug)]
pub enum CloneMonthError {
    UserDoesntExists(),
    SourceMonthDoesntExist(),
    Internal(String),
}

/// Reading the subscription row failed.
#[derive(Debug)]
pub enum GetSubscriptionError {
    UserDoesntExists(),
    SubscriptionDoesntExists(),
    Internal(String),
}

/// Opening a Stripe Checkout Session failed.
#[derive(Debug)]
pub enum StartCheckoutError {
    UserDoesntExists(),
    StripeNotConfigured(),
    Stripe(String),
    Internal(String),
}

/// Recording a completed checkout failed.
#[derive(Debug)]
pub enum RecordCheckoutError {
    /// The Checkout Session had no `client_reference_id`, so there is no
    /// account to attach the subscription to.
    NoAccountReference(),
    UserDoesntExists(),
    Internal(String),
}

/// Cancelling a subscription failed.
#[derive(Debug)]
pub enum CancelSubscriptionError {
    UserDoesntExists(),
    /// The account has no active paid subscription (still on trial, lifetime,
    /// or already lapsed), so there is nothing to cancel.
    NotCancelable(),
    StripeNotConfigured(),
    Stripe(String),
    Internal(String),
}

/// Applying a subscription-lifecycle event failed.
#[derive(Debug)]
pub enum SyncSubscriptionError {
    /// The event had no `hashed_email` in its metadata, so it cannot be routed
    /// to an account.
    NoAccountReference(),
    UserDoesntExists(),
    Internal(String),
}

/// A year or month outside what the budget accepts.
#[derive(Debug, Clone, Copy, PartialEq, Eq, Structural)]
pub enum DateError {
    InvalidYear(),
    InvalidMonth(),
}

pub struct CreateUserRequest {
    pub hashed_email: String,
}

pub struct DeleteUserRequest {
    pub hashed_email: String,
}

pub struct DeleteLineItemRequest {
    pub item_id: u64,
    pub hashed_email: String,
    pub year: u32,
    pub month: u32,
}

pub struct AddLineItemRequest {
    pub hashed_email: String,
    pub year: u32,
    pub month: u32,
    pub category_id: u64,
    pub description: String,
    pub amount: u64,
}

pub struct EditLineItemRequest {
    pub hashed_email: String,
    pub item_id: u64,
    pub description: String,
    pub amount: u64,
}

pub struct GetFullBudgetRequest {
    pub hashed_email: String,
}

pub struct GetAllLineItemsRequest {
    pub hashed_email: String,
}

pub struct GetAllCategoriesRequest {
    pub hashed_email: String,
}

pub struct GetBudgetRequest {
    pub hashed_email: String,
    pub year: u32,
    pub month: Month,
}

/// The earliest budget year the service accepts.
pub const FIRST_BUDGET_YEAR: u32 = 2026;

/// How many years past the current one a budget may be opened for.
pub const YEARS_AHEAD: u32 = 3;

impl GetBudgetRequest {
    /// Whether the requested year is accepted when the current calendar year
    /// is `current_year`: from 2026 up to three years past the current one.
    pub open spec fn year_is_valid(&self, current_year: i32) -> bool {
        self.year >= FIRST_BUDGET_YEAR && self.year <= (current_year as u32) + YEARS_AHEAD
    }

    /// Checks the requested year against the given current calendar year.
    pub fn validate_at(&self, current_year: i32) -> (r: Result<(), GetBudgetError>)
        ensures
            r is Ok <==> self.year_is_valid(current_year),
            r is Err ==> r == Err::<(), GetBudgetError>(GetBudgetError::DateError(DateError::InvalidYear())),
    {
        let cy: u32 = current_year as u32;
        if self.year < FIRST_BUDGET_YEAR || (self.year as u64) > (cy as u64) + (YEARS_AHEAD as u64) {
            Err(GetBudgetError::DateError(DateError::InvalidYear()))
        } else {
            Ok(())
        }
    }

    /// Checks the requested year against the calendar year the clock reads.
    pub fn validate(&self) -> (r: Result<(), GetBudgetError>)
        ensures
            exists|current_year: i32| (r is Ok <==> self.year_is_valid(current_year)),
            self.year < FIRST_BUDGET_YEAR ==> r is Err,
            r is Err ==> r == Err::<(), GetBudgetError>(GetBudgetError::DateError(DateError::InvalidYear())),
    {
        let now = utc_now();
        let r = self.validate_at(now.year);
        assert(r is Ok <==> self.year_is_valid(now.year));
        r
    }
}

pub struct AddCategoryRequest {
    pub hashed_email: String,
    pub category: String,
    pub is_expense: bool,
}

pub struct CloneMonthRequest {
    pub hashed_email: String,
    pub source_year: u32,
    pub source_month: Month,
    pub target_year: u32,
    pub target_month: Month,
}

pub struct GetSubscriptionRequest {
    pub hashed_email: String,
}

pub struct StartCheckoutRequest {
    pub hashed_email: String,
}

pub struct CheckoutSessionResponse {
    /// Stripe-hosted Checkout URL the client should redirect the browser to.
    pub url: String,
}

pub struct CancelSubscriptionRequest {
    pub hashed_email: String,
}

pub struct CancelSubscriptionResponse {
    /// Date the user keeps access through, mirrored from Stripe.
    pub current_period_end: Option<String>,
    /// Always `true` after a successful cancel: the subscription stops
    /// renewing but stays usable until `current_period_end`.
    pub cancel_at_period_end: bool,
}

/// A Stripe `customer.subscription.updated` / `.deleted` webhook reduced to
/// what the `subscription` row needs. Applied only when
/// `stripe_subscription_id` matches the stored row, so stray events for other
/// subscriptions are ignored.
pub struct SyncSubscriptionRequest {
    pub hashed_email: String,
    pub stripe_subscription_id: String,
    /// `true` for `customer.subscription.deleted` (or a `canceled` status):
    /// the paid period is over, so move the row to `inactive`.
    pub ended: bool,
    /// Whether Stripe currently has the subscription set to stop renewing.
    pub cancel_at_period_end: bool,
    /// Paid-through date mirrored from Stripe, if the event carried one.
    pub current_period_end: Option<String>,
}

/// Everything the webhook learned from a completed Checkout Session that
/// needs to land in the `subscription` table.
pub struct ActivateSubscriptionRequest {
    pub hashed_email: String,
    pub stripe_customer_id: Option<String>,
    pub stripe_subscription_id: Option<String>,
    pub stripe_payment_intent_id: Option<String>,
    /// Paid-through date mirrored from Stripe, if it could be fetched.
    pub current_period_end: Option<String>,
}

/// Whether a category holds income or expenses.
#[derive(Debug, Clone, Copy, PartialEq, Eq, Structural)]
pub enum CategoryType {
    Income,
    Expense,
}

/// A budget category.
pub struct Category {
    pub id: u64,
    pub name: String,
    pub category_type: CategoryType,
}

impl Category {
    /// A copy of this category.
    pub fn duplicate(&self) -> (c: Category)
        ensures
            c == *self,
    {
        Category { id: self.id, name: self.name.clone(), category_type: self.category_type }
    }
}

/// One line item of a month's budget.
pub struct LineItem {
    pub id: u64,
    pub description: String,
    pub amount: u64,
    pub category: u64,
}

/// A line item together with the month it belongs to.
pub struct FullLineItem {
    pub month: u8,
    pub year: u32,
    pub id: u64,
    pub description: String,
    pub amount: u64,
    pub category: u64,
}

/// The state of an account's subscription.
#[derive(Debug, Clone, Copy, PartialEq, Eq, Structural)]
pub enum SubscriptionStatus {
    /// One free month, starting when the account was created.
    FreeTrial,
    /// Paying $5/month through Stripe.
    Active,
    /// Trial ended (or a paid subscription lapsed) with nothing active.
    Inactive,
    /// One-time $100 lifetime license, or the early-adopter grant.
    Lifetime,
}

/// The status a `status` column value names, if any.
pub open spec fn status_from_text(raw: Seq<char>) -> Option<SubscriptionStatus> {
    if raw == "free_trial"@ {
        Some(SubscriptionStatus::FreeTrial)
    } else if raw == "active"@ {
        Some(SubscriptionStatus::Active)
    } else if raw == "inactive"@ {
        Some(SubscriptionStatus::Inactive)
    } else if raw == "lifetime"@ {
        Some(SubscriptionStatus::Lifetime)
    } else {
        None
    }
}

impl SubscriptionStatus {
    /// Parses the `status` column of the `subscription` table. The column has
    /// a CHECK constraint, so an unrecognised value means the row is corrupt
    /// and the caller should treat it as "no access".
    pub fn from_db(raw: &str) -> (r: Option<SubscriptionStatus>)
        ensures
            r == status_from_text(raw@),
    {
        if str_eq(raw, "free_trial") {
            Some(SubscriptionStatus::FreeTrial)
        } else if str_eq(raw, "active") {
            Some(SubscriptionStatus::Active)
        } else if str_eq(raw, "inactive") {
            Some(SubscriptionStatus::Inactive)
        } else if str_eq(raw, "lifetime") {
            Some(SubscriptionStatus::Lifetime)
        } else {
            None
        }
    }

    /// The `status` column value for this status.
    pub fn as_db(&self) -> (s: &'static str)
        ensures
            status_from_text(s@) == Some(*self),
    {
        proof {
            reveal_strlit("free_trial");
            reveal_strlit("active");
            reveal_strlit("inactive");
            reveal_strlit("lifetime");
            assert("active"@[0] != "free_trial"@[0]);
            assert("inactive"@[0] != "free_trial"@[0]);
            assert("inactive"@.len() != "active"@.len());
            assert("lifetime"@[0] != "free_trial"@[0]);
            assert("lifetime"@[0] != "active"@[0]);
            assert("lifetime"@[0] != "inactive"@[0]);
        }
        let s = match self {
            SubscriptionStatus::FreeTrial => "free_trial",
            SubscriptionStatus::Active => "active",
            SubscriptionStatus::Inactive => "inactive",
            SubscriptionStatus::Lifetime => "lifetime",
        };
        s
    }
}

/// Whether the user may currently use the budget.
#[derive(Debug, Clone, Copy, PartialEq, Eq, Structural)]
pub enum Entitlement {
    /// Full access: lifetime license or an active paid subscription.
    Entitled,
    /// Full access, but on the clock: still inside the free trial window.
    Trialing,
    /// No access: the trial expired or the subscription lapsed without
    /// renewal.
    Expired,
}

/// A UTC instant: whole seconds since the Unix epoch and nanoseconds into
/// that second.
pub type Instant = (i64, u32);

/// Whether instant `a` comes strictly before instant `b`.
pub open spec fn before(a: Instant, b: Instant) -> bool {
    a.0 < b.0 || (a.0 == b.0 && a.1 < b.1)
}

/// The instant an RFC 3339 text denotes, if it parses.
pub open spec fn rfc3339_instant_of(text: String) -> Option<Instant> {
    rfc3339_instant(text@)
}

/// Whether the RFC 3339 date `end` is still in the future at `now`. A date
/// that does not parse counts as past (fails closed).
pub open spec fn still_ahead(end: Seq<char>, now: Instant) -> bool {
    ahead_of(rfc3339_instant(end), now)
}

/// Whether a parsed date is still in the future at `now`; `None`, a date
/// that did not parse, counts as past.
pub open spec fn ahead_of(end: Option<Instant>, now: Instant) -> bool {
    match end {
        Some(e) => before(now, e),
        None => false,
    }
}

/// The entitlement at `now` of a row with status `status` and cancel flag
/// `cancel_at_period_end`, whose trial end parsed to `trial_end` and whose
/// paid-through date is `period_end`: `None` when none is stored, else what
/// the stored date parsed to.
pub open spec fn entitlement_of_dates(
    status: SubscriptionStatus,
    cancel_at_period_end: bool,
    trial_end: Option<Instant>,
    period_end: Option<Option<Instant>>,
    now: Instant,
) -> Entitlement {
    match status {
        SubscriptionStatus::Lifetime => Entitlement::Entitled,
        SubscriptionStatus::Active => {
            let paid_up = match period_end {
                None => true,
                Some(end) => ahead_of(end, now),
            };
            if cancel_at_period_end && !paid_up {
                Entitlement::Expired
            } else {
                Entitlement::Entitled
            }
        },
        SubscriptionStatus::Inactive => Entitlement::Expired,
        SubscriptionStatus::FreeTrial => {
            if ahead_of(trial_end, now) {
                Entitlement::Trialing
            } else {
                Entitlement::Expired
            }
        },
    }
}

/// The entitlement at `now` given a row's parsed dates (see
/// [`entitlement_of_dates`]).
pub fn entitlement_from_dates(
    status: SubscriptionStatus,
    cancel_at_period_end: bool,
    trial_end: Option<Instant>,
    period_end: Option<Option<Instant>>,
    now: Instant,
) -> (e: Entitlement)
    ensures
        e == entitlement_of_dates(status, cancel_at_period_end, trial_end, period_end, now),
{
    match status {
        SubscriptionStatus::Lifetime => Entitlement::Entitled,
        SubscriptionStatus::Active => {
            let paid_up = match period_end {
                None => true,
                Some(end) => is_ahead_of(end, now),
            };
            if cancel_at_period_end && !paid_up {
                Entitlement::Expired
            } else {
                Entitlement::Entitled
            }
        },
        SubscriptionStatus::Inactive => Entitlement::Expired,
        SubscriptionStatus::FreeTrial => {
            if is_ahead_of(trial_end, now) {
                Entitlement::Trialing
            } else {
                Entitlement::Expired
            }
        },
    }
}

fn is_ahead_of(end: Option<Instant>, now: Instant) -> (r: bool)
    ensures
        r == ahead_of(end, now),
{
    match end {
        Some(e) => is_before(now, e),
        None => false,
    }
}

fn is_before(a: Instant, b: Instant) -> (r: bool)
    ensures
        r == before(a, b),
{
    a.0 < b.0 || (a.0 == b.0 && a.1 < b.1)
}

/// The `subscription` row of an account.
pub struct Subscription {
    pub status: SubscriptionStatus,
    pub trial_started_at: String,
    pub trial_ends_at: String,
    pub current_period_end: Option<String>,
    /// Stripe has the subscription set to stop renewing at
    /// `current_period_end`. Access continues until that date, so entitlement
    /// stays granted while it is still in the future.
    pub cancel_at_period_end: bool,
    pub stripe_customer_id: Option<String>,
    pub stripe_subscription_id: Option<String>,
    pub stripe_payment_intent_id: Option<String>,
    pub updated_at: String,
}

impl Subscription {
    /// Whether the free trial still runs at `now`.
    pub open spec fn trial_is_current(&self, now: Instant) -> bool {
        still_ahead(self.trial_ends_at@, now)
    }

    /// Whether the already-paid period still covers `now`. A missing
    /// `current_period_end` counts as current, so access is never cut off on
    /// a date that could not be read from Stripe; an unparseable one fails
    /// closed.
    pub open spec fn paid_period_is_current(&self, now: Instant) -> bool {
        match self.current_period_end {
            None => true,
            Some(end) => still_ahead(end@, now),
        }
    }

    /// The entitlement of this row at `now`.
    pub open spec fn entitlement_spec(&self, now: Instant) -> Entitlement {
        match self.status {
            SubscriptionStatus::Lifetime => Entitlement::Entitled,
            SubscriptionStatus::Active => {
                if self.cancel_at_period_end && !self.paid_period_is_current(now) {
                    Entitlement::Expired
                } else {
                    Entitlement::Entitled
                }
            },
            SubscriptionStatus::Inactive => Entitlement::Expired,
            SubscriptionStatus::FreeTrial => {
                if self.trial_is_current(now) {
                    Entitlement::Trialing
                } else {
                    Entitlement::Expired
                }
            },
        }
    }

    /// The entitlement of this row at the instant `now`.
    pub fn entitlement_at(&self, now: Instant) -> (e: Entitlement)
        ensures
            e == self.entitlement_spec(now),
    {
        let trial_end = parse_rfc3339(self.trial_ends_at.as_str());
        let period_end = match &self.current_period_end {
            None => None,
            Some(end) => Some(parse_rfc3339(end.as_str())),
        };
        entitlement_from_dates(self.status, self.cancel_at_period_end, trial_end, period_end, now)
    }

    /// The entitlement of this row at the moment the clock is read.
    pub fn entitlement(&self) -> (e: Entitlement)
        ensures
            exists|now: Instant| now.1 < 1_000_000_000 && e == self.entitlement_spec(now),
            self.status == SubscriptionStatus::Lifetime ==> e == Entitlement::Entitled,
            self.status == SubscriptionStatus::Inactive ==> e == Entitlement::Expired,
            self.status == SubscriptionStatus::Active && !self.cancel_at_period_end ==> e
                == Entitlement::Entitled,
    {
        let clock = utc_now();
        let now: Instant = (clock.secs, clock.nanos);
        let e = self.entitlement_at(now);
        assert(now.1 < 1_000_000_000 && e == self.entitlement_spec(now));
        e
    }

    /// True at `now` unless the user has run out of access.
    pub fn has_access_at(&self, now: Instant) -> (b: bool)
        ensures
            b == (self.entitlement_spec(now) != Entitlement::Expired),
    {
        match self.entitlement_at(now) {
            Entitlement::Expired => false,
            _ => true,
        }
    }

    /// True unless the user has run out of access, at the moment the clock
    /// is read.
    pub fn has_access(&self) -> (b: bool)
        ensures
            exists|now: Instant| now.1 < 1_000_000_000 && b == (self.entitlement_spec(now) != Entitlement::Expired),
            self.status == SubscriptionStatus::Lifetime ==> b,
            self.status == SubscriptionStatus::Inactive ==> !b,
    {
        let clock = utc_now();
        let now: Instant = (clock.secs, clock.nanos);
        let b = self.has_access_at(now);
        assert(now.1 < 1_000_000_000 && b == (self.entitlement_spec(now) != Entitlement::Expired));
        b
    }
}

/// A calendar month, 1 through 12.
pub struct Month(u8);

impl Month {
    #[verifier::type_invariant]
    spec fn in_range(self) -> bool {
        1 <= self.0 <= 12
    }

    /// The month number this value holds.
    pub closed spec fn number(self) -> u8 {
        self.0
    }

    /// Makes a month from its number, refusing numbers outside 1..=12.
    pub fn new(raw: u8) -> (r: Result<Month, DateError>)
        ensures
            match r {
                Ok(m) => 1 <= raw <= 12 && m.number() == raw,
                Err(e) => !(1 <= raw <= 12) && e == DateError::InvalidMonth(),
            },
    {
        if raw < 1 || raw > 12 {
            Err(DateError::InvalidMonth())
        } else {
            Ok(Month(raw))
        }
    }

    /// The month number, 1 through 12.
    pub fn inner(&self) -> (m: u8)
        ensures
            m == self.number(),
            1 <= m <= 12,
    {
        proof {
            use_type_invariant(self);
        }
        self.0
    }
}

impl TryFrom<u8> for Month {
    type Error = DateError;

    /// Makes a month from its number, refusing numbers outside 1..=12.
    fn try_from(raw: u8) -> (r: Result<Month, DateError>)
        ensures
            match r {
                Ok(m) => 1 <= raw <= 12 && m.number() == raw,
                Err(e) => !(1 <= raw <= 12) && e == DateError::InvalidMonth(),
            },
    {
        Month::new(raw)
    }
}

impl vstd::std_specs::convert::TryFromSpecImpl<u8> for Month {
    open spec fn obeys_try_from_spec() -> bool {
        true
    }

    closed spec fn try_from_spec(raw: u8) -> Result<Month, DateError> {
        if 1 <= raw <= 12 {
            Ok(Month(raw))
        } else {
            Err(DateError::InvalidMonth())
        }
    }
}

/// The message of a date error, as its `Display` renders it.
pub open spec fn date_error_message(e: DateError) -> Seq<char> {
    match e {
        DateError::InvalidYear() => "Invalid year"@,
        DateError::InvalidMonth() => "Invalid month"@,
    }
}

/// The message of a budget-read error, as its `Display` renders it.
pub open spec fn budget_error_message(e: GetBudgetError) -> Seq<char> {
    match e {
        GetBudgetError::UserDoesntExists() => "User doesn't exists"@,
        GetBudgetError::BudgetDoesntExists() => "Budget doesn't exists"@,
        GetBudgetError::DateError(d) => "Date Error: "@ + date_error_message(d),
        GetBudgetError::Internal(m) => "Internal Error: "@ + m@,
    }
}

impl DateError {
    /// The text of this error.
    pub fn message(&self) -> (m: String)
        ensures
            m@ == date_error_message(*self),
    {
        match self {
            DateError::InvalidYear() => String::from_str("Invalid year"),
            DateError::InvalidMonth() => String::from_str("Invalid month"),
        }
    }
}

impl GetBudgetError {
    /// The text of this error.
    pub fn message(&self) -> (m: String)
        ensures
            m@ == budget_error_message(*self),
    {
        match self {
            GetBudgetError::UserDoesntExists() => String::from_str("User doesn't exists"),
            GetBudgetError::BudgetDoesntExists() => String::from_str("Budget doesn't exists"),
            GetBudgetError::DateError(d) => {
                let mut m = String::from_str("Date Error: ");
                let inner = d.message();
                m.append(inner.as_str());
                m
            },
            GetBudgetError::Internal(e) => {
                let mut m = String::from_str("Internal Error: ");
                m.append(e.as_str());
                m
            },
        }
    }
}

} // verus!
