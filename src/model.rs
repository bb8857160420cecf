//! Entities and the events that change them.

pub mod book;
pub mod checkout;
pub mod user;
