//! Forwarding of requests that arrive over the WebSocket transport.
use vstd::prelude::*;
use vstd::slice::slice_to_vec;
use vstd::utf8::encode_utf8;
use crate::client::tunnel::forwarder::{is_hop_by_hop_spec, plain_text_header_map, plain_text_headers};
pub use crate::client::tunnel::forwarder::is_hop_by_hop;
use crate::protocol::message::ResponsePayload;
use crate::text::{eq_ignore_ascii_case, push_str, str_eq_ignore_ascii_case, string_of};

verus! {

/// The URL a request for `path` is sent to on the local service.
pub fn local_url(local_addr: &str, path: &str) -> (r: String)
    ensures
        r@ == "http://"@ + local_addr@ + path@,
{
    let mut s = string_of("http://");
    push_str(&mut s, local_addr);
    push_str(&mut s, path);
    s
}

/// Whether a request header is passed on: all but hop-by-hop headers and
/// `Host`, which is set to the local address.
pub open spec fn forwards_header_spec(name: Seq<char>) -> bool {
    !is_hop_by_hop_spec(name) && !eq_ignore_ascii_case(name, "host"@)
}

/// Decides whether a request header is passed on to the local service.
pub fn forwards_header(name: &str) -> (r: bool)
    ensures
        r == forwards_header_spec(name@),
{
    !is_hop_by_hop(name) && !str_eq_ignore_ascii_case(name, "host")
}

/// The answer sent back when the local service fails: the given status, a
/// plain-text content type, and `msg` as the body.
pub fn error_response(status: u16, msg: &str) -> (r: ResponsePayload)
    ensures
        r.status == status,
        plain_text_headers(r.headers@),
        r.body@ == encode_utf8(msg@),
{
    ResponsePayload { status, headers: plain_text_header_map(), body: slice_to_vec(msg.as_bytes()) }
}

} // verus!
