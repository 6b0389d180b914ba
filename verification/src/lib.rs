//! A habit and task tracking library.
//!
//! Clients mark or unmark daily habits, create, update and delete users, and
//! record tasks with time-bounded instances. The whole relational state lives
//! in a [`store::Store`] value; every operation on it is specified by a
//! transition function over the store's mathematical view and verified
//! against it.

pub mod api;
pub mod error;
pub mod routes;
pub mod habit;
pub mod instance;
pub mod laws;
pub mod search;
pub mod store;
pub mod task;
pub mod user;
