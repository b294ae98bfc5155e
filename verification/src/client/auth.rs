//! `funnel login`: where the browser is sent to sign in.
use vstd::prelude::*;
use crate::text::{decimal, push_decimal, push_str, string_of};

verus! {

/// The sign-in address for a provider: the server's authorize endpoint,
/// told which local port waits for the token.
pub open spec fn login_url_spec(server: Seq<char>, provider: Seq<char>, port: u16) -> Seq<char> {
    server + "/auth/"@ + provider + "/authorize?cli_port="@ + decimal(port as nat)
}

/// Builds the address the browser opens to sign in through `provider`,
/// with the token sent back to the local `port`.
pub fn login_url(server: &str, provider: &str, port: u16) -> (r: String)
    ensures
        r@ == login_url_spec(server@, provider@, port),
{
    let mut s = string_of(server);
    push_str(&mut s, "/auth/");
    push_str(&mut s, provider);
    push_str(&mut s, "/authorize?cli_port=");
    push_decimal(&mut s, port as u64);
    proof {
        assert(s@ =~= login_url_spec(server@, provider@, port));
    }
    s
}

} // verus!
