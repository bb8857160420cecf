//! The business rules, each run inside a unit of work.

pub mod auth;
pub mod checkout;
pub mod user;
