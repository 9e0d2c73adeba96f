//! The HeadscaleInstance controller.
pub mod bootstrap;
pub mod builders;
pub mod cleanup;
pub mod policy;
pub mod reconcile;
pub mod scim;
