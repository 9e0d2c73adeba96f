//! The Ingress controller: a proxy for every Ingress of class `headmaster`.
pub mod apply;
pub mod auth_key;
pub mod class;
pub mod cleanup;
pub mod connect;
pub mod names;
pub mod reconcile;
