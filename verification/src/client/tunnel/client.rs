//! Registering a tunnel with the server: the handshake the client sends and
//! how the server's answer is read.
use vstd::prelude::*;
use crate::protocol::error_codes::{AppCode, app_code_name};
use crate::protocol::handshake::{
    AccessControl, Handshake, HandshakeResult, TunnelResult, TunnelSpec, TunnelStatus, TunnelType,
    PROTOCOL_VERSION,
};
use crate::tunnel::id::TunnelId;
use crate::text::{push_str, string_of, str_eq};

verus! {

/// A refusal by the server that reconnecting cannot change.
#[derive(Debug)]
pub struct PermanentError {
    pub code: String,
    pub message: String,
}

impl PermanentError {
    /// `[code] message`.
    pub fn to_string(&self) -> (r: String)
        ensures
            r@ == "["@ + self.code@ + "] "@ + self.message@,
    {
        let mut s = string_of("[");
        push_str(&mut s, self.code.as_str());
        push_str(&mut s, "] ");
        push_str(&mut s, self.message.as_str());
        s
    }
}

/// Why connecting failed, as the runner needs to know it: a refusal for
/// good, or a failure that may pass (with its description).
#[derive(Debug)]
pub enum ConnectError {
    Permanent(PermanentError),
    Transient(String),
}

impl ConnectError {
    /// The failure as shown to the user.
    pub fn to_string(&self) -> (r: String)
        ensures
            match self {
                ConnectError::Permanent(e) => r@ == "["@ + e.code@ + "] "@ + e.message@,
                ConnectError::Transient(m) => r@ == m@,
            },
    {
        match self {
            ConnectError::Permanent(e) => e.to_string(),
            ConnectError::Transient(m) => m.clone(),
        }
    }
}

impl From<PermanentError> for ConnectError {
    fn from(e: PermanentError) -> (r: Self) {
        ConnectError::Permanent(e)
    }
}

impl vstd::std_specs::convert::FromSpecImpl<PermanentError> for ConnectError {
    open spec fn obeys_from_spec() -> bool {
        true
    }

    open spec fn from_spec(e: PermanentError) -> Self {
        ConnectError::Permanent(e)
    }
}

/// Everything one tunnel connection is configured with.
#[derive(Debug)]
pub struct TunnelOptions {
    pub tunnel_id: TunnelId,
    pub local_addr: String,
    pub tunnel_type: TunnelType,
    pub token: Option<String>,
    pub quic_port: u16,
    pub insecure: bool,
    pub team: Option<String>,
    pub remote_port: Option<u16>,
    pub access: Option<AccessControl>,
}

fn clone_opt_string(s: &Option<String>) -> (r: Option<String>)
    ensures
        r == *s,
{
    match s {
        Some(t) => Some(t.clone()),
        None => None,
    }
}

/// Whether two optional access settings are both absent or restrict the same way.
pub open spec fn same_access(a: Option<AccessControl>, b: Option<AccessControl>) -> bool {
    match (a, b) {
        (None, None) => true,
        (Some(x), Some(y)) => x.same_as(y),
        _ => false,
    }
}

fn clone_opt_access(a: &Option<AccessControl>) -> (r: Option<AccessControl>)
    ensures
        same_access(r, *a),
{
    match a {
        Some(x) => Some(x.clone()),
        None => None,
    }
}

impl TunnelOptions {
    /// The handshake that registers this tunnel: the protocol version, the
    /// token, and one tunnel with this configuration, with no local port and
    /// no routing preference.
    pub fn handshake(&self) -> (r: Handshake)
        ensures
            r.version == PROTOCOL_VERSION,
            r.token == self.token,
            r.tunnels@.len() == 1,
            r.tunnels@[0].id@ == self.tunnel_id@,
            r.tunnels@[0].tunnel_type == self.tunnel_type,
            r.tunnels@[0].team == self.team,
            r.tunnels@[0].local_port is None,
            r.tunnels@[0].routing is None,
            r.tunnels@[0].remote_port == self.remote_port,
            same_access(r.tunnels@[0].access, self.access),
    {
        let spec = TunnelSpec {
            id: self.tunnel_id.clone(),
            tunnel_type: self.tunnel_type,
            team: clone_opt_string(&self.team),
            local_port: None,
            routing: None,
            remote_port: self.remote_port,
            access: clone_opt_access(&self.access),
        };
        let mut tunnels = Vec::new();
        tunnels.push(spec);
        Handshake { version: PROTOCOL_VERSION, token: clone_opt_string(&self.token), tunnels }
    }
}

/// The first answer in `ts` about tunnel `id`.
pub open spec fn find_result(ts: Seq<TunnelResult>, id: Seq<char>) -> Option<TunnelResult>
    decreases ts.len(),
{
    if ts.len() == 0 {
        None
    } else if ts[0].id@ == id {
        Some(ts[0])
    } else {
        find_result(ts.drop_first(), id)
    }
}

/// The code shown for a refusal: the error code's name, or `unknown`.
pub open spec fn refusal_code(c: Option<AppCode>) -> Seq<char> {
    match c {
        Some(c) => app_code_name(c),
        None => "unknown"@,
    }
}

/// The message shown for a refusal: the server's, or `unknown error`.
pub open spec fn refusal_message(m: Option<String>) -> Seq<char> {
    match m {
        Some(m) => m@,
        None => "unknown error"@,
    }
}

/// Reads the server's answer to the handshake for tunnel `id`. The first
/// answer about the tunnel decides: an error is a permanent refusal with its
/// code and message; success gives the port the server allocated, if any.
/// No answer about the tunnel is a transient failure.
pub fn registration_outcome(result: &HandshakeResult, id: &TunnelId) -> (r: Result<
    Option<u16>,
    ConnectError,
>)
    ensures
        match find_result(result.tunnels@, id@) {
            None => r matches Err(ConnectError::Transient(m)) && m@
                == "server did not return result for tunnel "@ + id@,
            Some(t) => if t.status == TunnelStatus::Error {
                r matches Err(ConnectError::Permanent(e)) && e.code@ == refusal_code(t.error_code)
                    && e.message@ == refusal_message(t.error_message)
            } else {
                r matches Ok(p) && p == t.remote_port
            },
        },
{
    let ghost ts = result.tunnels@;
    let n = result.tunnels.len();
    let mut i: usize = 0;
    proof {
        assert(ts.skip(0) =~= ts);
    }
    while i < n
        invariant
            n == ts.len(),
            ts == result.tunnels@,
            0 <= i <= n,
            find_result(ts, id@) == find_result(ts.skip(i as int), id@),
        decreases n - i,
    {
        proof {
            assert(ts.skip(i as int)[0] == ts[i as int]);
            assert(ts.skip(i as int).drop_first() =~= ts.skip(i + 1));
        }
        let t = &result.tunnels[i];
        if str_eq(t.id.as_ref(), id.as_ref()) {
            return match t.status {
                TunnelStatus::Error => {
                    let code = match t.error_code {
                        Some(c) => string_of(c.as_str()),
                        None => string_of("unknown"),
                    };
                    let message = match &t.error_message {
                        Some(m) => m.clone(),
                        None => string_of("unknown error"),
                    };
                    Err(ConnectError::Permanent(PermanentError { code, message }))
                },
                TunnelStatus::Success => Ok(t.remote_port),
            };
        }
        i = i + 1;
    }
    proof {
        assert(ts.skip(n as int).len() == 0);
    }
    let mut m = string_of("server did not return result for tunnel ");
    push_str(&mut m, id.as_ref());
    Err(ConnectError::Transient(m))
}

/// Whether the server runs on this machine, judged by its host name or by
/// the address it resolved to; certificate checks are skipped for it.
pub open spec fn is_loopback_spec(host: Seq<char>, addr_is_loopback: bool) -> bool {
    host == "localhost"@ || host == "127.0.0.1"@ || host == "::1"@ || addr_is_loopback
}

/// Decides whether the server is local.
pub fn is_loopback(host: &str, addr_is_loopback: bool) -> (r: bool)
    ensures
        r == is_loopback_spec(host@, addr_is_loopback),
{
    str_eq(host, "localhost") || str_eq(host, "127.0.0.1") || str_eq(host, "::1") || addr_is_loopback
}

} // verus!
