//! signal-tui: the core of a terminal client for Signal on top of
//! signal-cli.
//!
//! The backend answers requests and pushes notifications on one channel,
//! in no particular order relative to each other. This library tells
//! replies from notifications ([`signal::client::PendingRequests`]), reduces
//! each line to one event ([`signal::client::normalize`]), and keeps a
//! deduplicated timeline per conversation whose delivery states never
//! regress ([`app::Reconciler`]). [`app::laws`] states what holds of it
//! whatever the backend sends.
//!
//! Around that core stands what the terminal application computes between
//! keyboard and screen ([`app::App`]). Nothing in the library reads or
//! writes anything: what is to be written or sent is handed to the caller.

pub mod app;
pub mod cli;
pub mod clock;
pub mod config;
pub mod image_render;
pub mod input;
pub mod link;
pub mod model;
pub mod setup;
pub mod signal;
pub mod strmap;
pub mod text;
pub mod ui;
