//! Tunnel identifiers.
pub mod id;
