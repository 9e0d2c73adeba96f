//! What the endpoints of the service make of requests.
pub mod discovery;
pub mod groups;
pub mod internal;
pub mod users;
