//! Command-line commands: their arguments and the pure parts of their work.
pub mod config;
pub mod context;
pub mod http;
pub mod keys;
pub mod listing;
pub mod sessions;
pub mod status;
pub mod tcp;
pub mod teams;
pub mod users;
