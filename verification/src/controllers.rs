//! The decisions of the operator's controllers.
pub mod applier;
pub mod headscale_instance;
pub mod ingress;
pub mod manifest;
pub mod outcome;
pub mod recorder;
