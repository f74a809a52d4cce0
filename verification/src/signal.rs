//! The messaging backend's wire shapes and the reduction of what it sends to
//! domain events.

pub mod client;
pub mod json;
pub mod types;
