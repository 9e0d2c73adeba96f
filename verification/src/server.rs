//! The operator's HTTP endpoints.
pub mod health;
pub mod webhook;
