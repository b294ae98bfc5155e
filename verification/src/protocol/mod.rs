//! Wire protocol: error codes, framing, handshake and request metadata.
pub mod error_codes;
pub mod frame;
pub mod handshake;
pub mod message;
pub mod request;
