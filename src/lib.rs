//! A library-lending core: a transactional in-memory store with a unit-of-work
//! scope, the checkout state machine that keeps a single holder per book, and a
//! time-bounded token store for authentication.

pub mod error;
pub mod ids;
pub mod value;
pub mod model;
pub mod store;
pub mod unit_of_work;
pub mod use_case;
pub mod auth;
pub mod password;
pub mod laws;
pub mod row;
pub mod api;
