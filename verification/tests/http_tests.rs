use budget_lib::dao::{create_user_failure, delete_user_failure, DaoError};
use budget_lib::http::{
    add_category_status, add_line_item_status, budget_error_status, cancel_error_status,
    checkout_error_status, clone_month_status, create_user_status, delete_line_item_status,
    delete_user_status, edit_line_item_status, entitlement_gate, entitlement_gate_at,
    record_checkout_status, subscription_lookup_status, sync_status, webhook_action,
    WebhookAction,
};
use budget_lib::types::{
    AddCategoryError, AddLineItemError, CancelSubscriptionError, CloneMonthError, CreateUserError,
    DateError, DeleteLineItemError, DeleteUserError, EditLineItemError, GetBudgetError,
    GetSubscriptionError, RecordCheckoutError, StartCheckoutError, Subscription,
    SubscriptionStatus, SyncSubscriptionError,
};

fn internal() -> String {
    "boom".to_string()
}

#[test]
fn budget_and_account_statuses() {
    assert_eq!(budget_error_status(&GetBudgetError::UserDoesntExists()), 404);
    assert_eq!(budget_error_status(&GetBudgetError::BudgetDoesntExists()), 404);
    assert_eq!(budget_error_status(&GetBudgetError::DateError(DateError::InvalidYear())), 400);
    assert_eq!(budget_error_status(&GetBudgetError::Internal(internal())), 500);
    assert_eq!(create_user_status(&Ok(())), 201);
    assert_eq!(create_user_status(&Err(CreateUserError::UserAlreadyExists())), 409);
    assert_eq!(create_user_status(&Err(CreateUserError::Internal(internal()))), 500);
    assert_eq!(delete_user_status(&Ok(())), 204);
    assert_eq!(delete_user_status(&Err(DeleteUserError::UserDoesntExists())), 500);
}

#[test]
fn line_item_and_category_statuses() {
    assert_eq!(delete_line_item_status(&Ok(())), 204);
    assert_eq!(delete_line_item_status(&Err(DeleteLineItemError::LineItemDoesntExist())), 404);
    assert_eq!(delete_line_item_status(&Err(DeleteLineItemError::Internal(internal()))), 500);
    assert_eq!(add_line_item_status(&Ok(())), 201);
    assert_eq!(add_line_item_status(&Err(AddLineItemError::UserDoesntExists())), 404);
    assert_eq!(edit_line_item_status(&Ok(())), 200);
    assert_eq!(edit_line_item_status(&Err(EditLineItemError::LineItemDoesntExist())), 404);
    assert_eq!(edit_line_item_status(&Err(EditLineItemError::Internal(internal()))), 500);
    assert_eq!(add_category_status(&Ok(())), 201);
    assert_eq!(add_category_status(&Err(AddCategoryError::UserDoesntExists())), 404);
    assert_eq!(clone_month_status(&Ok(())), 201);
    assert_eq!(clone_month_status(&Err(CloneMonthError::SourceMonthDoesntExist())), 404);
    assert_eq!(clone_month_status(&Err(CloneMonthError::Internal(internal()))), 500);
}

#[test]
fn subscription_statuses() {
    assert_eq!(subscription_lookup_status(&GetSubscriptionError::SubscriptionDoesntExists()), 404);
    assert_eq!(subscription_lookup_status(&GetSubscriptionError::Internal(internal())), 500);
    assert_eq!(checkout_error_status(&StartCheckoutError::UserDoesntExists()), 404);
    assert_eq!(checkout_error_status(&StartCheckoutError::StripeNotConfigured()), 503);
    assert_eq!(checkout_error_status(&StartCheckoutError::Stripe(internal())), 502);
    assert_eq!(checkout_error_status(&StartCheckoutError::Internal(internal())), 500);
    assert_eq!(cancel_error_status(&CancelSubscriptionError::NotCancelable()), 409);
    assert_eq!(cancel_error_status(&CancelSubscriptionError::StripeNotConfigured()), 503);
    assert_eq!(cancel_error_status(&CancelSubscriptionError::Stripe(internal())), 502);
    assert_eq!(cancel_error_status(&CancelSubscriptionError::UserDoesntExists()), 404);
    assert_eq!(cancel_error_status(&CancelSubscriptionError::Internal(internal())), 500);
}

#[test]
fn webhooks_are_acknowledged_unless_retrying_could_help() {
    assert_eq!(record_checkout_status(&Ok(())), 200);
    assert_eq!(record_checkout_status(&Err(RecordCheckoutError::NoAccountReference())), 200);
    assert_eq!(record_checkout_status(&Err(RecordCheckoutError::UserDoesntExists())), 200);
    assert_eq!(record_checkout_status(&Err(RecordCheckoutError::Internal(internal()))), 500);
    assert_eq!(sync_status(&Ok(())), 200);
    assert_eq!(sync_status(&Err(SyncSubscriptionError::NoAccountReference())), 200);
    assert_eq!(sync_status(&Err(SyncSubscriptionError::Internal(internal()))), 500);
}

#[test]
fn webhook_events_are_routed_by_type() {
    assert_eq!(webhook_action("checkout.session.completed"), WebhookAction::RecordCheckout);
    assert_eq!(
        webhook_action("customer.subscription.updated"),
        WebhookAction::SyncSubscription { ended: false }
    );
    assert_eq!(
        webhook_action("customer.subscription.deleted"),
        WebhookAction::SyncSubscription { ended: true }
    );
    assert_eq!(webhook_action("invoice.paid"), WebhookAction::Acknowledge);
    assert_eq!(webhook_action(""), WebhookAction::Acknowledge);
}

fn trial(ends: &str) -> Subscription {
    Subscription {
        status: SubscriptionStatus::FreeTrial,
        trial_started_at: "2026-01-01T00:00:00Z".to_string(),
        trial_ends_at: ends.to_string(),
        current_period_end: None,
        cancel_at_period_end: false,
        stripe_customer_id: None,
        stripe_subscription_id: None,
        stripe_payment_intent_id: None,
        updated_at: "2026-01-01T00:00:00Z".to_string(),
    }
}

#[test]
fn the_entitlement_gate() {
    // 2026-02-01T00:00:00Z is 1769904000.
    let now = (1_769_904_000, 0);
    assert_eq!(entitlement_gate_at(&Ok(trial("2026-02-01T00:00:01Z")), now), Ok(()));
    assert_eq!(entitlement_gate_at(&Ok(trial("2026-02-01T00:00:00Z")), now), Err(402));
    assert_eq!(entitlement_gate_at(&Err(GetSubscriptionError::UserDoesntExists()), now), Err(404));
    assert_eq!(entitlement_gate_at(&Err(GetSubscriptionError::Internal(internal())), now), Err(500));
    assert_eq!(entitlement_gate(&Ok(trial("2999-01-01T00:00:00Z"))), Ok(()));
    assert_eq!(entitlement_gate(&Ok(trial("2000-01-01T00:00:00Z"))), Err(402));
}

#[test]
fn database_failures_map_to_account_errors() {
    assert!(matches!(
        create_user_failure(DaoError::DbAlreadyExists()),
        CreateUserError::UserAlreadyExists()
    ));
    assert!(matches!(
        create_user_failure(DaoError::FailedToCreate("DDL sql is missing".to_string())),
        CreateUserError::Internal(m) if m == "Failed to create DB"
    ));
    assert!(matches!(
        delete_user_failure(DaoError::FailedToDelete()),
        DeleteUserError::Internal(m) if m == "Failed to delete user"
    ));
    assert_eq!(DaoError::FailedToCreate("x".to_string()).message(), "Failed to insantiate DAO: x");
    assert_eq!(DaoError::DbDoesntExist().message(), "DB doesn't exists");
    assert_eq!(DaoError::DbAlreadyExists().message(), "DB already exists");
    assert_eq!(DaoError::FailedToDelete().message(), "Failed to Delete DB");
}
