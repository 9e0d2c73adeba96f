//! The resources that the operator reads and the state it reports.
pub mod condition;
pub mod headscale_instance;
pub mod ingress_annotations;
