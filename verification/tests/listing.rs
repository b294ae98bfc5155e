use funnel::api::types::{ApiScope, Role, TeamRole};
use funnel::client::api_client::{api_base, api_url, bearer};
use funnel::client::cmd::listing::{
    created_key_message, key_block, listing, member_block, session_block, team_block, tunnel_block,
    user_block,
};
use funnel::client::whoami::{me_url, no_profile_message, user_summary};

#[test]
fn lists_separate_records_and_count_them() {
    let blocks = vec![team_block("backend", "t1"), team_block("frontend", "t2")];
    assert_eq!(
        listing(&blocks, true, "no teams", "teams"),
        "backend\n  id: t1\n\nfrontend\n  id: t2\n\n2 teams\n"
    );
    assert_eq!(listing(&blocks[..1].to_vec(), true, "no teams", "teams"), "backend\n  id: t1\n");
    assert_eq!(listing(&Vec::new(), true, "no teams", "teams"), "no teams\n");
    let members = vec![
        member_block("u1", TeamRole::Owner, "2025-01-15T10:30:00"),
        member_block("u2", TeamRole::Member, "2025-01-16T10:30:00"),
    ];
    assert_eq!(
        listing(&members, false, "no members", "members"),
        "u1 (owner)\n  joined: 2025-01-15T10:30:00\nu2 (member)\n  joined: 2025-01-16T10:30:00\n\n2 members\n"
    );
}

#[test]
fn record_blocks() {
    assert_eq!(
        key_block("deploy", "k1", "sk_abcdefg", &[ApiScope::Management, ApiScope::Tunnels], "2025-01-15T10:30:00"),
        "deploy\n  id:      k1\n  prefix:  sk_abcdefg...\n  scopes:  management, tunnels\n  created: 2025-01-15T10:30:00\n"
    );
    assert_eq!(
        created_key_message("ci", "sk_secret", &[ApiScope::Tunnels]),
        "created key 'ci'\n  token:  sk_secret\n  scopes: tunnels\n\nsave this token, it will not be shown again.\n"
    );
    assert_eq!(
        user_block("a@example.com", Role::Admin, true, "u1", None),
        "a@example.com (admin) [deactivated]\n  id:   u1\n  name: (no name)\n"
    );
    assert_eq!(
        user_block("b@example.com", Role::Member, false, "u2", Some("Bee")),
        "b@example.com (member)\n  id:   u2\n  name: Bee\n"
    );
    assert_eq!(
        session_block("my-app", "s1", "2025-01-15T10:30:00", Some("2025-01-15T11:00:00"), 12, 2048, 500),
        "my-app (closed)\n  id:       s1\n  started:  2025-01-15T10:30:00\n  ended:    2025-01-15T11:00:00\n  requests: 12\n  traffic:  2.0 KiB in / 500 B out\n"
    );
    assert_eq!(
        session_block("db", "s2", "2025-01-15T10:30:00", None, -1, -5, 0),
        "db (active)\n  id:       s2\n  started:  2025-01-15T10:30:00\n  requests: -1\n  traffic:  -5 B in / 0 B out\n"
    );
    assert_eq!(
        tunnel_block("my-app", 3661, 7, 5 * 1024 * 1024, 10, "owner-1", Some("team-1")),
        "my-app\n  uptime:   1h01m01s\n  requests: 7\n  traffic:  5.0 MiB in / 10 B out\n  owner:    owner-1\n  team:     team-1\n"
    );
}

#[test]
fn api_addresses() {
    assert_eq!(api_base("https://tunnel.example.com//"), "https://tunnel.example.com");
    assert_eq!(api_url("https://tunnel.example.com", "/info"), "https://tunnel.example.com/api/v1/info");
    assert_eq!(bearer("tok"), "Bearer tok");
    assert_eq!(me_url("https://s"), "https://s/api/me");
}

#[test]
fn whoami_output() {
    assert_eq!(
        user_summary("a@example.com", Some("Ann"), "admin", "default", "https://s"),
        "Ann <a@example.com>\n  role:    admin\n  context: default (https://s)"
    );
    assert_eq!(
        user_summary("a@example.com", None, "member", "dev", "https://d"),
        "a@example.com\n  role:    member\n  context: dev (https://d)"
    );
    assert_eq!(
        no_profile_message("default", "https://s"),
        "no user profile found (api key without linked user)\n  context: default (https://s)"
    );
}
