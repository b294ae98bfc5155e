//! Messages exchanged when a client registers its tunnels with the server.
use vstd::prelude::*;
use crate::protocol::error_codes::AppCode;
use crate::tunnel::id::TunnelId;
use crate::text::string_of;

verus! {

/// Version of the wire protocol spoken by this library.
pub const PROTOCOL_VERSION: u32 = 1;

/// The ALPN protocol name used for QUIC connections.
pub fn quic_alpn() -> (r: Vec<u8>)
    ensures
        r@ == seq![0x66u8, 0x75, 0x6e, 0x6e, 0x65, 0x6c],
{
    vec![0x66u8, 0x75, 0x6e, 0x6e, 0x65, 0x6c]
}

/// First message on the control stream: the client's credentials and tunnels.
#[derive(Debug, Clone)]
pub struct Handshake {
    pub version: u32,
    pub token: Option<String>,
    pub tunnels: Vec<TunnelSpec>,
}

/// One tunnel the client asks the server to open.
#[derive(Debug, Clone)]
pub struct TunnelSpec {
    pub id: TunnelId,
    pub tunnel_type: TunnelType,
    pub team: Option<String>,
    pub local_port: Option<u16>,
    pub routing: Option<RoutingMode>,
    pub remote_port: Option<u16>,
    pub access: Option<AccessControl>,
}

/// Which HTTP authentication scheme the server uses to gate a tunnel.
#[derive(Debug, Clone, Copy, PartialEq, Eq, Structural)]
pub enum AuthScheme {
    /// `Proxy-Authorization` with status 407: the application's own
    /// `Authorization` header passes through untouched.
    Proxy,
    /// `Authorization` with status 401: browsers show their login prompt,
    /// and the server keeps the header from the application.
    Basic,
}

impl AuthScheme {
    /// Whether this is the default scheme, `Proxy`.
    pub fn is_default(&self) -> (r: bool)
        ensures
            r == (*self == AuthScheme::Proxy),
    {
        match self {
            AuthScheme::Proxy => true,
            AuthScheme::Basic => false,
        }
    }
}

impl Default for AuthScheme {
    fn default() -> (r: Self)
        ensures
            r == AuthScheme::Proxy,
    {
        AuthScheme::Proxy
    }
}

/// Access control enforced by the server at the tunnel's edge.
#[derive(Debug)]
pub struct AccessControl {
    /// `user:password` required from visitors, if any.
    pub basic_auth: Option<String>,
    pub auth_scheme: AuthScheme,
    /// Networks allowed to connect; empty means no restriction.
    pub allow_ip: Vec<String>,
    /// Lifetime of the tunnel in seconds, if limited.
    pub expires_secs: Option<u64>,
}

impl AccessControl {
    /// Whether two settings restrict the same way: equal fields, the networks
    /// compared as sequences.
    pub open spec fn same_as(self, other: Self) -> bool {
        &&& self.basic_auth == other.basic_auth
        &&& self.auth_scheme == other.auth_scheme
        &&& self.allow_ip@ == other.allow_ip@
        &&& self.expires_secs == other.expires_secs
    }
}

impl Clone for AccessControl {
    fn clone(&self) -> (r: Self)
        ensures
            r.same_as(*self),
    {
        let basic_auth = match &self.basic_auth {
            Some(b) => Some(b.clone()),
            None => None,
        };
        let allow_ip = self.allow_ip.clone();
        proof {
            assert(allow_ip@ =~= self.allow_ip@);
        }
        AccessControl {
            basic_auth,
            auth_scheme: self.auth_scheme,
            allow_ip,
            expires_secs: self.expires_secs,
        }
    }
}

impl Default for AccessControl {
    fn default() -> (r: Self)
        ensures
            r.basic_auth is None,
            r.auth_scheme == AuthScheme::Proxy,
            r.allow_ip@.len() == 0,
            r.expires_secs is None,
    {
        AccessControl {
            basic_auth: None,
            auth_scheme: AuthScheme::Proxy,
            allow_ip: Vec::new(),
            expires_secs: None,
        }
    }
}

impl AccessControl {
    /// Whether no restriction is configured. The scheme alone restricts nothing.
    pub fn is_empty(&self) -> (r: bool)
        ensures
            r == (self.basic_auth is None && self.allow_ip@.len() == 0 && self.expires_secs is None),
    {
        self.basic_auth.is_none() && self.allow_ip.len() == 0 && self.expires_secs.is_none()
    }
}

/// Kinds of traffic a tunnel carries.
#[derive(Debug, Clone, Copy, PartialEq, Eq, Structural)]
pub enum TunnelType {
    Http,
    Stream,
    Dgram,
}

/// The lowercase name of a tunnel type.
pub open spec fn tunnel_type_name(t: TunnelType) -> Seq<char> {
    match t {
        TunnelType::Http => "http"@,
        TunnelType::Stream => "stream"@,
        TunnelType::Dgram => "dgram"@,
    }
}

impl TunnelType {
    /// The type's lowercase name, as displayed.
    pub fn to_string(&self) -> (r: String)
        ensures
            r@ == tunnel_type_name(*self),
    {
        match self {
            TunnelType::Http => string_of("http"),
            TunnelType::Stream => string_of("stream"),
            TunnelType::Dgram => string_of("dgram"),
        }
    }
}

/// How stream tunnels are routed on the server.
#[derive(Debug, Clone, Copy, PartialEq, Eq, Structural)]
pub enum RoutingMode {
    Port,
    Sni,
}

/// The server's answer to a handshake.
#[derive(Debug, Clone)]
pub struct HandshakeResult {
    pub version: u32,
    pub server_id: String,
    pub tunnels: Vec<TunnelResult>,
    pub limits: ServerLimits,
}

/// The server's answer for one requested tunnel.
#[derive(Debug, Clone)]
pub struct TunnelResult {
    pub id: TunnelId,
    pub status: TunnelStatus,
    pub remote_port: Option<u16>,
    pub public_url: Option<String>,
    pub error_code: Option<AppCode>,
    pub error_message: Option<String>,
}

/// Whether a tunnel was opened.
#[derive(Debug, Clone, Copy, PartialEq, Eq, Structural)]
pub enum TunnelStatus {
    Success,
    Error,
}

/// Limits the server applies to a connection.
#[derive(Debug, Clone)]
pub struct ServerLimits {
    pub max_streams: u32,
    pub max_request_body: u64,
    pub dgram_mtu: Option<u16>,
    pub allowed_tunnel_types: Vec<TunnelType>,
}

impl Default for ServerLimits {
    fn default() -> (r: Self)
        ensures
            r.max_streams == 128,
            r.max_request_body == 64 * 1024 * 1024,
            r.dgram_mtu is None,
            r.allowed_tunnel_types@ == seq![TunnelType::Http],
    {
        let mut types: Vec<TunnelType> = Vec::new();
        types.push(TunnelType::Http);
        ServerLimits {
            max_streams: 128,
            max_request_body: 64 * 1024 * 1024,
            dgram_mtu: None,
            allowed_tunnel_types: types,
        }
    }
}

impl ServerLimits {
    /// The same limits, allowing exactly the given tunnel types.
    pub fn with_tunnel_types(self, types: Vec<TunnelType>) -> (r: Self)
        ensures
            r.max_streams == self.max_streams,
            r.max_request_body == self.max_request_body,
            r.dgram_mtu == self.dgram_mtu,
            r.allowed_tunnel_types@ == types@,
    {
        let mut limits = self;
        limits.allowed_tunnel_types = types;
        limits
    }
}

impl TunnelResult {
    /// A successful result carrying no port or URL.
    pub fn ok(id: TunnelId) -> (r: Self)
        ensures
            r.id@ == id@,
            r.status == TunnelStatus::Success,
            r.remote_port is None,
            r.public_url is None,
            r.error_code is None,
            r.error_message is None,
    {
        TunnelResult {
            id,
            status: TunnelStatus::Success,
            remote_port: None,
            public_url: None,
            error_code: None,
            error_message: None,
        }
    }

    /// A successful result announcing the tunnel's public URL.
    pub fn ok_with_url(id: TunnelId, url: String) -> (r: Self)
        ensures
            r.id@ == id@,
            r.status == TunnelStatus::Success,
            r.remote_port is None,
            r.public_url == Some(url),
            r.error_code is None,
            r.error_message is None,
    {
        let mut r = Self::ok(id);
        r.public_url = Some(url);
        r
    }

    /// A successful result announcing the port allocated on the server.
    pub fn ok_with_port(id: TunnelId, port: u16) -> (r: Self)
        ensures
            r.id@ == id@,
            r.status == TunnelStatus::Success,
            r.remote_port == Some(port),
            r.public_url is None,
            r.error_code is None,
            r.error_message is None,
    {
        let mut r = Self::ok(id);
        r.remote_port = Some(port);
        r
    }

    /// A refusal with its code and message.
    pub fn error(id: TunnelId, code: AppCode, message: String) -> (r: Self)
        ensures
            r.id@ == id@,
            r.status == TunnelStatus::Error,
            r.remote_port is None,
            r.public_url is None,
            r.error_code == Some(code),
            r.error_message == Some(message),
    {
        TunnelResult {
            id,
            status: TunnelStatus::Error,
            remote_port: None,
            public_url: None,
            error_code: Some(code),
            error_message: Some(message),
        }
    }

    /// Whether the tunnel was opened.
    pub fn is_ok(&self) -> (r: bool)
        ensures
            r == (self.status == TunnelStatus::Success),
    {
        self.status == TunnelStatus::Success
    }
}

} // verus!
