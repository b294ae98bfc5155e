//! REST API data types, the response envelope and endpoint descriptions.
pub mod envelope;
pub mod types;
pub mod endpoint;
