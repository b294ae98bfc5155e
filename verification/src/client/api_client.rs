//! Addresses and credentials of calls to the server's management API.
use vstd::prelude::*;
use crate::protocol::handshake::PROTOCOL_VERSION;
use crate::text::{decimal, push_decimal, push_str, string_of, trim_end_char, trim_trailing};

verus! {

/// A server URL without its trailing slashes, the base of API addresses.
pub fn api_base(server_url: &str) -> (r: String)
    ensures
        r@ == trim_end_char(server_url@, '/'),
{
    trim_trailing(server_url, '/')
}

/// The address of an API path on a server: `<base>/api/v<version><path>`.
pub fn api_url(base: &str, path: &str) -> (r: String)
    ensures
        r@ == base@ + "/api/v"@ + decimal(PROTOCOL_VERSION as nat) + path@,
{
    let mut s = string_of(base);
    push_str(&mut s, "/api/v");
    push_decimal(&mut s, PROTOCOL_VERSION as u64);
    push_str(&mut s, path);
    s
}

/// The `Authorization` header value for a token.
pub fn bearer(token: &str) -> (r: String)
    ensures
        r@ == "Bearer "@ + token@,
{
    let mut s = string_of("Bearer ");
    push_str(&mut s, token);
    s
}

} // verus!
