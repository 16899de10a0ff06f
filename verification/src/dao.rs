//! Storage of each account's budget: the operations a store offers, and how
//! its failures are reported.

use vstd::prelude::*;
use vstd::string::*;
use std::collections::HashMap;
use crate::budget::GetBudgetResponse;
use crate::types::{
    ActivateSubscriptionRequest, AddCategoryRequest, AddCategoryError, AddLineItemError,
    AddLineItemRequest, Category, CloneMonthError, CloneMonthRequest, CreateUserError,
    CreateUserRequest, DeleteLineItemError, DeleteLineItemRequest, DeleteUserError,
    DeleteUserRequest, EditLineItemError, EditLineItemRequest, FullLineItem,
    GetAllCategoriesRequest, GetAllLineItemsRequest, GetBudgetError, GetBudgetRequest,
    GetSubscriptionError, GetSubscriptionRequest, RecordCheckoutError, Subscription,
    SyncSubscriptionError, SyncSubscriptionRequest,
};

verus! {

/// The operations an account store offers.
pub trait Dao {
    fn create_user(&self, req: &CreateUserRequest) -> Result<(), CreateUserError>;

    fn delete_user(&self, req: &DeleteUserRequest) -> Result<(), DeleteUserError>;

    fn add_line_item(&self, req: &AddLineItemRequest) -> Result<(), AddLineItemError>;

    fn edit_line_item(&self, req: &EditLineItemRequest) -> Result<(), EditLineItemError>;

    fn delete_line_item(&self, req: &DeleteLineItemRequest) -> Result<(), DeleteLineItemError>;

    fn get_all_categories(&self, req: &GetAllCategoriesRequest) -> Result<
        HashMap<u64, Category>,
        GetBudgetError,
    >;

    fn get_all_line_items(&self, req: &GetAllLineItemsRequest) -> Result<
        Vec<FullLineItem>,
        GetBudgetError,
    >;

    fn get_budget(&self, req: &GetBudgetRequest) -> Result<GetBudgetResponse, GetBudgetError>;

    fn clone_month(&self, req: &CloneMonthRequest) -> Result<(), CloneMonthError>;

    fn add_category(&self, req: &AddCategoryRequest) -> Result<(), AddCategoryError>;

    fn get_subscription(&self, req: &GetSubscriptionRequest) -> Result<
        Subscription,
        GetSubscriptionError,
    >;

    /// Marks the subscription `active` and records the Stripe identifiers
    /// from a completed Checkout Session. A `lifetime` row is left untouched.
    fn activate_subscription(&self, req: &ActivateSubscriptionRequest) -> Result<
        (),
        RecordCheckoutError,
    >;

    /// Applies a Stripe subscription-lifecycle change (a cancel, a renewal,
    /// or the subscription ending) to the row, but only when the stored
    /// `stripe_subscription_id` matches. A `lifetime` row is left untouched.
    fn sync_subscription(&self, req: &SyncSubscriptionRequest) -> Result<
        (),
        SyncSubscriptionError,
    >;
}

/// What can go wrong opening, creating or deleting an account's database.
#[derive(Debug)]
pub enum DaoError {
    FailedToCreate(String),
    FailedToDelete(),
    DbDoesntExist(),
    DbAlreadyExists(),
}

/// A failed database creation: an existing database means the account
/// exists already; anything else is internal.
pub fn create_user_failure(e: DaoError) -> (r: CreateUserError)
    ensures
        match e {
            DaoError::DbAlreadyExists() => r matches CreateUserError::UserAlreadyExists(),
            _ => r matches CreateUserError::Internal(m) && m@ == "Failed to create DB"@,
        },
{
    match e {
        DaoError::DbAlreadyExists() => CreateUserError::UserAlreadyExists(),
        _ => CreateUserError::Internal(String::from_str("Failed to create DB")),
    }
}

/// A failed database deletion is internal.
pub fn delete_user_failure(e: DaoError) -> (r: DeleteUserError)
    ensures
        r matches DeleteUserError::Internal(m) && m@ == "Failed to delete user"@,
{
    DeleteUserError::Internal(String::from_str("Failed to delete user"))
}

/// The message of a `DaoError`, as its `Display` renders it.
pub open spec fn dao_error_message(e: DaoError) -> Seq<char> {
    match e {
        DaoError::FailedToCreate(m) => "Failed to insantiate DAO: "@ + m@,
        DaoError::FailedToDelete() => "Failed to Delete DB"@,
        DaoError::DbDoesntExist() => "DB doesn't exists"@,
        DaoError::DbAlreadyExists() => "DB already exists"@,
    }
}

impl DaoError {
    /// The text of this error.
    pub fn message(&self) -> (m: String)
        ensures
            m@ == dao_error_message(*self),
    {
        match self {
            DaoError::FailedToCreate(e) => {
                let mut m = String::from_str("Failed to insantiate DAO: ");
                m.append(e.as_str());
                m
            },
            DaoError::FailedToDelete() => String::from_str("Failed to Delete DB"),
            DaoError::DbDoesntExist() => String::from_str("DB doesn't exists"),
            DaoError::DbAlreadyExists() => String::from_str("DB already exists"),
        }
    }
}

} // verus!
