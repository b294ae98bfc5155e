//! API keys: generation, hashing and display prefixes.
pub mod token;
