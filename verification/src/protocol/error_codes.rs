//! Error codes shared by the QUIC transport, the REST API and the CLI.
use vstd::prelude::*;

verus! {

/// QUIC connection level error codes, used when closing a connection.
/// Fatal: every tunnel on the connection is torn down.
#[derive(Debug, Clone, Copy, PartialEq, Eq, Structural)]
pub enum ConnectionCode {
    NoError,
    ProtocolError,
    AuthFailed,
    VersionMismatch,
    InternalError,
    ShuttingDown,
}

/// The numeric wire value of a connection code.
pub open spec fn connection_code_value(c: ConnectionCode) -> u32 {
    match c {
        ConnectionCode::NoError => 0x00,
        ConnectionCode::ProtocolError => 0x01,
        ConnectionCode::AuthFailed => 0x02,
        ConnectionCode::VersionMismatch => 0x03,
        ConnectionCode::InternalError => 0x04,
        ConnectionCode::ShuttingDown => 0x05,
    }
}

impl ConnectionCode {
    pub fn as_u32(self) -> (r: u32)
        ensures
            r == connection_code_value(self),
    {
        match self {
            ConnectionCode::NoError => 0x00,
            ConnectionCode::ProtocolError => 0x01,
            ConnectionCode::AuthFailed => 0x02,
            ConnectionCode::VersionMismatch => 0x03,
            ConnectionCode::InternalError => 0x04,
            ConnectionCode::ShuttingDown => 0x05,
        }
    }
}

} // verus!

verus! {

/// QUIC stream level error codes, used when resetting a single stream.
#[derive(Debug, Clone, Copy, PartialEq, Eq, Structural)]
pub enum StreamCode {
    NoError,
    TunnelGone,
    RateLimited,
    AccessDenied,
    Timeout,
    LocalUnreachable,
    BodyTooLarge,
}

/// The numeric wire value of a stream code.
pub open spec fn stream_code_value(c: StreamCode) -> u32 {
    match c {
        StreamCode::NoError => 0x00,
        StreamCode::TunnelGone => 0x01,
        StreamCode::RateLimited => 0x02,
        StreamCode::AccessDenied => 0x03,
        StreamCode::Timeout => 0x04,
        StreamCode::LocalUnreachable => 0x05,
        StreamCode::BodyTooLarge => 0x06,
    }
}

impl StreamCode {
    pub fn as_u32(self) -> (r: u32)
        ensures
            r == stream_code_value(self),
    {
        match self {
            StreamCode::NoError => 0x00,
            StreamCode::TunnelGone => 0x01,
            StreamCode::RateLimited => 0x02,
            StreamCode::AccessDenied => 0x03,
            StreamCode::Timeout => 0x04,
            StreamCode::LocalUnreachable => 0x05,
            StreamCode::BodyTooLarge => 0x06,
        }
    }
}

/// Application level error codes shared across the wire protocol,
/// the REST API and the CLI's JSON output.
#[derive(Debug, Clone, Copy, PartialEq, Eq, Structural)]
pub enum AppCode {
    TunnelIdConflict,
    TunnelIdInvalid,
    UnsupportedTunnelType,
    PortUnavailable,
    AuthRequired,
    AuthInvalid,
    ScopeInsufficient,
    UserDeactivated,
    TeamNotFound,
    TeamMembershipRequired,
    TunnelLimitExceeded,
    RateLimitExceeded,
    BadRequest,
    NotFound,
    InternalError,
}

/// The snake_case name of an application code, as used on the wire.
pub open spec fn app_code_name(c: AppCode) -> Seq<char> {
    match c {
        AppCode::TunnelIdConflict => "tunnel_id_conflict"@,
        AppCode::TunnelIdInvalid => "tunnel_id_invalid"@,
        AppCode::UnsupportedTunnelType => "unsupported_tunnel_type"@,
        AppCode::PortUnavailable => "port_unavailable"@,
        AppCode::AuthRequired => "auth_required"@,
        AppCode::AuthInvalid => "auth_invalid"@,
        AppCode::ScopeInsufficient => "scope_insufficient"@,
        AppCode::UserDeactivated => "user_deactivated"@,
        AppCode::TeamNotFound => "team_not_found"@,
        AppCode::TeamMembershipRequired => "team_membership_required"@,
        AppCode::TunnelLimitExceeded => "tunnel_limit_exceeded"@,
        AppCode::RateLimitExceeded => "rate_limit_exceeded"@,
        AppCode::BadRequest => "bad_request"@,
        AppCode::NotFound => "not_found"@,
        AppCode::InternalError => "internal_error"@,
    }
}

impl AppCode {
    pub fn as_str(self) -> (r: &'static str)
        ensures
            r@ == app_code_name(self),
    {
        match self {
            AppCode::TunnelIdConflict => "tunnel_id_conflict",
            AppCode::TunnelIdInvalid => "tunnel_id_invalid",
            AppCode::UnsupportedTunnelType => "unsupported_tunnel_type",
            AppCode::PortUnavailable => "port_unavailable",
            AppCode::AuthRequired => "auth_required",
            AppCode::AuthInvalid => "auth_invalid",
            AppCode::ScopeInsufficient => "scope_insufficient",
            AppCode::UserDeactivated => "user_deactivated",
            AppCode::TeamNotFound => "team_not_found",
            AppCode::TeamMembershipRequired => "team_membership_required",
            AppCode::TunnelLimitExceeded => "tunnel_limit_exceeded",
            AppCode::RateLimitExceeded => "rate_limit_exceeded",
            AppCode::BadRequest => "bad_request",
            AppCode::NotFound => "not_found",
            AppCode::InternalError => "internal_error",
        }
    }

    /// The text shown when the code is displayed: its snake_case name.
    pub fn to_string(self) -> (r: String)
        ensures
            r@ == app_code_name(self),
    {
        self.as_str().to_string()
    }
}

/// A character allowed in a snake_case identifier.
pub open spec fn is_snake_char(c: char) -> bool {
    ('a' <= c && c <= 'z') || c == '_'
}

/// Every application code has a non-empty snake_case name: what `as_str`
/// and `to_string` give is made of `a`..`z` and `_` only.
pub proof fn lemma_app_code_names_are_snake_case(c: AppCode)
    ensures
        app_code_name(c).len() > 0,
        forall|i: int| 0 <= i < app_code_name(c).len() ==> is_snake_char(#[trigger] app_code_name(c)[i]),
{
    reveal_strlit("tunnel_id_conflict");
    reveal_strlit("tunnel_id_invalid");
    reveal_strlit("unsupported_tunnel_type");
    reveal_strlit("port_unavailable");
    reveal_strlit("auth_required");
    reveal_strlit("auth_invalid");
    reveal_strlit("scope_insufficient");
    reveal_strlit("user_deactivated");
    reveal_strlit("team_not_found");
    reveal_strlit("team_membership_required");
    reveal_strlit("tunnel_limit_exceeded");
    reveal_strlit("rate_limit_exceeded");
    reveal_strlit("bad_request");
    reveal_strlit("not_found");
    reveal_strlit("internal_error");
}

/// Distinct application codes have distinct names: `as_str` (and
/// `to_string`) of two different codes differ, so a name identifies its code.
pub proof fn lemma_app_code_names_are_distinct(a: AppCode, b: AppCode)
    requires
        a != b,
    ensures
        app_code_name(a) != app_code_name(b),
{
    reveal_strlit("tunnel_id_conflict");
    reveal_strlit("tunnel_id_invalid");
    reveal_strlit("unsupported_tunnel_type");
    reveal_strlit("port_unavailable");
    reveal_strlit("auth_required");
    reveal_strlit("auth_invalid");
    reveal_strlit("scope_insufficient");
    reveal_strlit("user_deactivated");
    reveal_strlit("team_not_found");
    reveal_strlit("team_membership_required");
    reveal_strlit("tunnel_limit_exceeded");
    reveal_strlit("rate_limit_exceeded");
    reveal_strlit("bad_request");
    reveal_strlit("not_found");
    reveal_strlit("internal_error");
    assert(app_code_name(a).len() != app_code_name(b).len() || app_code_name(a)[0] != app_code_name(
        b,
    )[0]);
}

/// Connection and stream codes share only the value of `NoError`.
pub proof fn lemma_no_error_codes_agree()
    ensures
        connection_code_value(ConnectionCode::NoError) == stream_code_value(StreamCode::NoError),
{
}

} // verus!
