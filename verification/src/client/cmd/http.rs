//! `funnel http`: expose a local HTTP service through a tunnel.
use vstd::prelude::*;
use crate::text::{chars_contain, chars_of, contains_char, push_str, str_contains_char, string_of};

verus! {

/// Arguments of `funnel http`.
#[derive(Debug)]
pub struct Args {
    /// Local address or port to forward to, such as `3000` or `localhost:3000`.
    pub address: String,
    /// Tunnel server URL, overriding the configuration.
    pub server: Option<String>,
    /// Tunnel id (subdomain); generated when absent.
    pub id: Option<String>,
    /// Authentication token, overriding the configuration.
    pub token: Option<String>,
    /// QUIC port on the server, overriding discovery.
    pub quic_port: Option<u16>,
    /// Skip TLS certificate verification.
    pub insecure: bool,
    /// Team to associate the tunnel with.
    pub team: Option<String>,
    /// Enable the local inspector.
    pub inspect: bool,
    /// Disable the local inspector, overriding the configuration.
    pub no_inspect: bool,
    /// Local address of the inspector.
    pub inspect_addr: Option<String>,
}

/// The address a tunnel forwards to: a bare port means a port on `localhost`.
pub open spec fn normalized_address(addr: Seq<char>) -> Seq<char> {
    if contains_char(addr, ':') {
        addr
    } else {
        "localhost:"@ + addr
    }
}

/// Turns a bare port into `localhost:<port>`; anything with a colon is kept.
pub fn normalize_address(addr: &str) -> (r: String)
    ensures
        r@ == normalized_address(addr@),
{
    if str_contains_char(addr, ':') {
        string_of(addr)
    } else {
        let mut s = string_of("localhost:");
        push_str(&mut s, addr);
        s
    }
}

/// The server URL a tunnel uses: the `--server` argument, else the resolved
/// context's server; empty values count as absent, and a URL without a
/// scheme gets `http://`.
pub open spec fn chosen_server_url(arg: Option<Seq<char>>, resolved: Option<Seq<char>>) -> Option<Seq<char>> {
    let picked = match arg {
        Some(s) => Some(s),
        None => resolved,
    };
    match picked {
        Some(s) => if s.len() == 0 {
            None
        } else if crate::text::contains_seq(s, "://"@) {
            Some(s)
        } else {
            Some("http://"@ + s)
        },
        None => None,
    }
}

/// Whether `needle` occurs in `hay`.
fn str_contains(hay: &str, needle: &str) -> (r: bool)
    ensures
        r == crate::text::contains_seq(hay@, needle@),
{
    let h = chars_of(hay);
    let n = chars_of(needle);
    chars_contain(h.as_slice(), n.as_slice())
}

/// Picks the server URL for a tunnel; see `chosen_server_url`.
pub fn choose_server_url(arg: Option<String>, resolved: Option<String>) -> (r: Option<String>)
    ensures
        crate::client::config::opt_view(r) == chosen_server_url(
            crate::client::config::opt_view(arg),
            crate::client::config::opt_view(resolved),
        ),
{
    let picked = match arg {
        Some(s) => Some(s),
        None => resolved,
    };
    match picked {
        Some(s) => {
            if s.as_str().is_empty() {
                None
            } else if str_contains(s.as_str(), "://") {
                Some(s)
            } else {
                let mut u = string_of("http://");
                push_str(&mut u, s.as_str());
                Some(u)
            }
        },
        None => None,
    }
}

/// Whether the inspector runs, from `--inspect`, `--no-inspect` and the
/// configured default; giving both flags is an error.
pub fn inspector_enabled(inspect: bool, no_inspect: bool, config_enabled: bool) -> (r: Result<
    bool,
    String,
>)
    ensures
        inspect && no_inspect ==> r is Err && r->Err_0@
            == "--inspect and --no-inspect cannot be used together"@,
        !(inspect && no_inspect) ==> r == Ok::<bool, String>(inspect || (config_enabled && !no_inspect)),
{
    if inspect && no_inspect {
        return Err(string_of("--inspect and --no-inspect cannot be used together"));
    }
    Ok(inspect || (config_enabled && !no_inspect))
}

} // verus!
