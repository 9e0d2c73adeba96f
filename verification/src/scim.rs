//! The SCIM service: it takes users and groups from an identity provider, keeps
//! them in a mapping of its own, and writes the groups into the policy of a
//! headscale server.
pub mod auth;
pub mod config;
pub mod flow;
pub mod policy;
pub mod routes;
pub mod services;
pub mod storage;
pub mod types;
