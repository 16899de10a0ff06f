//! Budget service library: budgets, subscriptions and entitlement, Stripe
//! webhook verification and the login-code / session-token stores.

pub mod text;
pub mod clock;
pub mod crypto;
pub mod json;
pub mod stripe;
pub mod types;
pub mod billing;
pub mod budget;
pub mod auth;
pub mod http;
pub mod dao;
