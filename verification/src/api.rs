//! Tagged request/response handlers for the user and task endpoints.

pub mod task;
pub mod user;
