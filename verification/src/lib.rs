//! The run-lifecycle and access-control core of a test-management backend:
//! the status machine a run moves through, the role rules gating every
//! mutation, and the ledger binding run items to their results.

pub mod access;
pub mod auth;
pub mod details;
pub mod errors;
pub mod ext;
pub mod ledger;
pub mod members;
pub mod projects;
pub mod runs;
pub mod text;
pub mod users;
