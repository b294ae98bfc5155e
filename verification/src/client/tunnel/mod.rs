//! The tunnel client: handshake decisions, forwarding rules, reconnection
//! policy and terminal display helpers.
pub mod client;
pub mod display;
pub mod forwarder;
pub mod runner;
