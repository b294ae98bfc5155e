//! Client-side logic: configuration, command helpers, forwarding rules and
//! the local inspector's bookkeeping.
pub mod api_client;
pub mod auth;
pub mod cmd;
pub mod config;
pub mod forwarder;
pub mod humanize;
pub mod inspector;
pub mod tunnel;
pub mod whoami;
