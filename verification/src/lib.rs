//! Verified core of the deposit graph relay service: configuration, the HTTP API's
//! decisions, the per-chain event listener, withdrawal payouts and event records.
pub mod text;
pub mod eth;
pub mod config;
pub mod registry;
pub mod api;
pub mod events;
pub mod listener;
pub mod withdrawal;
pub mod contracts;
pub mod envfile;
