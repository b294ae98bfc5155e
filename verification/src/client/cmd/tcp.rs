//! `funnel tcp`: expose a local TCP port through a stream tunnel.
use vstd::prelude::*;
use crate::text::{decimal, push_decimal, string_of};

verus! {

/// Arguments of `funnel tcp`.
#[derive(Debug)]
pub struct Args {
    /// Local port to forward to.
    pub port: u16,
    /// Tunnel server URL, overriding the configuration.
    pub server: Option<String>,
    /// Tunnel id (subdomain); generated when absent.
    pub id: Option<String>,
    /// Authentication token, overriding the configuration.
    pub token: Option<String>,
    /// QUIC port on the server, overriding discovery.
    pub quic_port: Option<u16>,
    /// Skip TLS certificate verification.
    pub insecure: bool,
    /// Team to associate the tunnel with.
    pub team: Option<String>,
    /// Port requested on the server; 0 lets the server choose.
    pub remote_port: u16,
}

/// The local address a stream tunnel forwards to: `localhost:<port>`.
pub fn local_address(port: u16) -> (r: String)
    ensures
        r@ == "localhost:"@ + decimal(port as nat),
{
    let mut s = string_of("localhost:");
    push_decimal(&mut s, port as u64);
    s
}

/// The server port to ask for: none when the argument is 0.
pub fn requested_remote_port(remote_port: u16) -> (r: Option<u16>)
    ensures
        r == (if remote_port == 0 {
            None
        } else {
            Some(remote_port)
        }),
{
    if remote_port != 0 {
        Some(remote_port)
    } else {
        None
    }
}

} // verus!
