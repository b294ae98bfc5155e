//! Data exchanged with the REST API.
use vstd::prelude::*;
use crate::text::string_of;
use crate::api::envelope::Enveloped;

verus! {

/// A user's role on the server.
#[derive(Debug, Clone, Copy, PartialEq, Eq, Structural)]
pub enum Role {
    Admin,
    Member,
}

/// The lowercase name of a role, as used on the wire and on the command line.
pub open spec fn role_name(r: Role) -> Seq<char> {
    match r {
        Role::Admin => "admin"@,
        Role::Member => "member"@,
    }
}

/// A user account as the API describes it. Identifiers, timestamps (RFC 3339)
/// and the free-form metadata (JSON) are kept as their text.
#[derive(Debug, Clone)]
pub struct User {
    pub id: String,
    pub email: String,
    pub name: Option<String>,
    pub avatar_url: Option<String>,
    pub role: Role,
    pub metadata: String,
    pub created_at: String,
    pub updated_at: String,
    pub deactivated_at: Option<String>,
}

impl User {
    /// Whether the user administers the server.
    pub fn is_admin(&self) -> (r: bool)
        ensures
            r == (self.role == Role::Admin),
    {
        match self.role {
            Role::Admin => true,
            Role::Member => false,
        }
    }

    /// Whether the user has not been deactivated.
    pub fn is_active(&self) -> (r: bool)
        ensures
            r == self.deactivated_at is None,
    {
        self.deactivated_at.is_none()
    }
}

/// A sign-in provider linked to a user.
#[derive(Debug, Clone)]
pub struct AccountView {
    pub id: String,
    pub provider: String,
    pub created_at: String,
}

impl Role {
    pub fn as_str(self) -> (r: &'static str)
        ensures
            r@ == role_name(self),
    {
        match self {
            Role::Admin => "admin",
            Role::Member => "member",
        }
    }

    /// The role as displayed: its lowercase name.
    pub fn to_string(self) -> (r: String)
        ensures
            r@ == role_name(self),
    {
        string_of(self.as_str())
    }
}

/// A user's role within a team.
#[derive(Debug, Clone, Copy, PartialEq, Eq, Structural)]
pub enum TeamRole {
    Owner,
    Member,
}

/// The lowercase name of a team role.
pub open spec fn team_role_name(r: TeamRole) -> Seq<char> {
    match r {
        TeamRole::Owner => "owner"@,
        TeamRole::Member => "member"@,
    }
}

impl TeamRole {
    pub fn as_str(self) -> (r: &'static str)
        ensures
            r@ == team_role_name(self),
    {
        match self {
            TeamRole::Owner => "owner",
            TeamRole::Member => "member",
        }
    }

    /// The role as displayed: its lowercase name.
    pub fn to_string(self) -> (r: String)
        ensures
            r@ == team_role_name(self),
    {
        string_of(self.as_str())
    }
}

/// What an API key may be used for.
#[derive(Debug, Clone, Copy, PartialEq, Eq, Structural)]
pub enum ApiScope {
    Management,
    Tunnels,
}

/// The lowercase name of a scope.
pub open spec fn api_scope_name(s: ApiScope) -> Seq<char> {
    match s {
        ApiScope::Management => "management"@,
        ApiScope::Tunnels => "tunnels"@,
    }
}

impl ApiScope {
    /// The scope as displayed: its lowercase name.
    pub fn to_string(self) -> (r: String)
        ensures
            r@ == api_scope_name(self),
    {
        match self {
            ApiScope::Management => string_of("management"),
            ApiScope::Tunnels => string_of("tunnels"),
        }
    }
}

/// The role named by `s`, if it names one exactly (lowercase).
pub open spec fn role_from_name(s: Seq<char>) -> Option<Role> {
    if s == "admin"@ {
        Some(Role::Admin)
    } else if s == "member"@ {
        Some(Role::Member)
    } else {
        None
    }
}

/// The team role named by `s`, if it names one exactly (lowercase).
pub open spec fn team_role_from_name(s: Seq<char>) -> Option<TeamRole> {
    if s == "owner"@ {
        Some(TeamRole::Owner)
    } else if s == "member"@ {
        Some(TeamRole::Member)
    } else {
        None
    }
}

/// The scope named by `s`, if it names one exactly (lowercase).
pub open spec fn api_scope_from_name(s: Seq<char>) -> Option<ApiScope> {
    if s == "management"@ {
        Some(ApiScope::Management)
    } else if s == "tunnels"@ {
        Some(ApiScope::Tunnels)
    } else {
        None
    }
}

/// Reading a role's name gives the role back.
pub proof fn lemma_role_name_roundtrip(r: Role)
    ensures
        role_from_name(role_name(r)) == Some(r),
{
    reveal_strlit("admin");
    reveal_strlit("member");
    assert("member"@.len() != "admin"@.len());
}

/// Reading a team role's name gives the team role back.
pub proof fn lemma_team_role_name_roundtrip(r: TeamRole)
    ensures
        team_role_from_name(team_role_name(r)) == Some(r),
{
    reveal_strlit("owner");
    reveal_strlit("member");
    assert("member"@.len() != "owner"@.len());
}

/// Reading a scope's name gives the scope back.
pub proof fn lemma_api_scope_name_roundtrip(s: ApiScope)
    ensures
        api_scope_from_name(api_scope_name(s)) == Some(s),
{
    reveal_strlit("management");
    reveal_strlit("tunnels");
    assert("tunnels"@.len() != "management"@.len());
}

/// Request body for changing a user's role.
#[derive(Debug, Clone, Copy, PartialEq, Eq, Structural)]
pub struct SetUserRoleRequest {
    pub role: Role,
}

/// Request body for changing a team member's role.
#[derive(Debug, Clone, Copy, PartialEq, Eq, Structural)]
pub struct SetMemberRoleRequest {
    pub role: TeamRole,
}

/// Traffic counters of a tunnel.
#[derive(Debug, Clone, Copy, PartialEq, Eq, Structural)]
pub struct TunnelStatsSnapshot {
    pub bytes_in: u64,
    pub bytes_out: u64,
    pub requests: u64,
}

/// The server's health report.
#[derive(Debug)]
pub struct HealthResponse {
    pub status: String,
    pub uptime_secs: u64,
}

/// Static facts about the server.
#[derive(Debug, Clone, Copy, PartialEq, Eq, Structural)]
pub struct ServerInfo {
    pub version: u32,
    pub quic_port: u16,
}

impl Enveloped for TunnelStatsSnapshot {
    open spec fn kind_name() -> Seq<char> {
        "tunnel_stats_snapshot"@
    }

    fn kind() -> (r: String) {
        string_of("tunnel_stats_snapshot")
    }
}

impl Enveloped for HealthResponse {
    open spec fn kind_name() -> Seq<char> {
        "health"@
    }

    fn kind() -> (r: String) {
        string_of("health")
    }
}

impl Enveloped for ServerInfo {
    open spec fn kind_name() -> Seq<char> {
        "server_info"@
    }

    fn kind() -> (r: String) {
        string_of("server_info")
    }
}

} // verus!
