//! Per-account contact permissions: each account owner decides whether they
//! take part in filtering, whether unsolicited contact is allowed by default,
//! and which accounts may contact them regardless of that default.
//!
//! The store is a plain owned value. The identity of the caller is handed to
//! every mutating request, and opt-in notifications are queued in the store
//! for the host to take and publish.
//!
//! Policy: changing the global filter or the allow-list needs both the owner
//! and an account that has opted in; the ownership check comes first.
mod account;
mod filter;
mod laws;
mod model;

pub use account::AccountId;
pub use filter::UkeAccountFilter;
pub use laws::{
    lemma_allow_list_appends, lemma_fresh_store_defaults, lemma_non_owner_rejected, lemma_optin_idempotent,
    lemma_request_isolated, lemma_requests_isolated, Request,
};
pub use model::{is_owner, AccountState, Error, FilterModel, OptIn};
