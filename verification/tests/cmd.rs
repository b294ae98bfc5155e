use funnel::api::types::{ApiScope, Role, TeamRole};
use funnel::client::cmd::context::context_listing;
use funnel::client::cmd::http::{choose_server_url, inspector_enabled, normalize_address};
use funnel::client::cmd::keys::{format_scopes, parse_scopes};
use funnel::client::cmd::sessions;
use funnel::client::cmd::status::{format_bytes, format_duration};
use funnel::client::cmd::tcp::{local_address, requested_remote_port};
use funnel::client::cmd::teams::parse_team_role;
use funnel::client::cmd::users::parse_role;
use funnel::client::config::Context;

#[test]
fn normalize_port_only() {
    assert_eq!(normalize_address("3000"), "localhost:3000");
}

#[test]
fn normalize_full_address() {
    assert_eq!(normalize_address("127.0.0.1:8080"), "127.0.0.1:8080");
}

#[test]
fn format_scopes_array() {
    let scopes = vec![ApiScope::Management, ApiScope::Tunnels];
    assert_eq!(format_scopes(&scopes), "management, tunnels");
}

#[test]
fn format_scopes_empty() {
    let scopes: Vec<ApiScope> = vec![];
    assert_eq!(format_scopes(&scopes), "");
}

#[test]
fn parse_scopes_valid() {
    let scopes = parse_scopes("management,tunnels").unwrap();
    assert_eq!(scopes, vec![ApiScope::Management, ApiScope::Tunnels]);
}

#[test]
fn parse_scopes_single() {
    assert_eq!(parse_scopes("tunnels").unwrap(), vec![ApiScope::Tunnels]);
}

#[test]
fn parse_scopes_with_whitespace() {
    let scopes = parse_scopes("management , tunnels").unwrap();
    assert_eq!(scopes, vec![ApiScope::Management, ApiScope::Tunnels]);
}

#[test]
fn parse_scopes_rejects_invalid() {
    let msg = parse_scopes("management,invalid,tunnels").unwrap_err();
    assert!(msg.contains("invalid"), "error should name the bad scope: {msg}");
}

#[test]
fn parse_scopes_rejects_all_invalid() {
    assert!(parse_scopes("admin,read,write").is_err());
}

#[test]
fn parse_scopes_empty_string_returns_empty() {
    assert!(parse_scopes("").unwrap().is_empty());
}

#[test]
fn parse_scopes_rejects_wrong_case() {
    assert!(parse_scopes("Management,TUNNELS").is_err());
}

#[test]
fn parse_scopes_handles_trailing_comma() {
    let scopes = parse_scopes("management,").unwrap();
    assert_eq!(scopes, vec![ApiScope::Management]);
}

#[test]
fn parse_scopes_handles_leading_comma() {
    let scopes = parse_scopes(",tunnels").unwrap();
    assert_eq!(scopes, vec![ApiScope::Tunnels]);
}

#[test]
fn parse_scopes_deduplication_not_enforced() {
    let scopes = parse_scopes("tunnels,tunnels").unwrap();
    assert_eq!(scopes, vec![ApiScope::Tunnels, ApiScope::Tunnels]);
}

#[test]
fn parse_scopes_error_message_includes_scope_and_hints() {
    let msg = parse_scopes("bogus").unwrap_err();
    assert!(msg.contains("bogus"), "error should include input: {msg}");
    assert!(msg.contains("management"), "error should hint valid values: {msg}");
}

#[test]
fn parse_scopes_reports_first_bad_entry_trimmed() {
    assert_eq!(
        parse_scopes("tunnels, nope ,alsobad").unwrap_err(),
        "invalid scope 'nope', must be 'management' or 'tunnels'"
    );
}

#[test]
fn status_format_duration_seconds() {
    assert_eq!(format_duration(45.0_f64 as u64), "45s");
}

#[test]
fn format_duration_minutes() {
    assert_eq!(format_duration(125), "2m05s");
}

#[test]
fn format_duration_hours() {
    assert_eq!(format_duration(3661), "1h01m01s");
}

#[test]
fn format_bytes_small() {
    assert_eq!(format_bytes(500), "500 B");
}

#[test]
fn format_bytes_kib() {
    assert_eq!(format_bytes(2048), "2.0 KiB");
}

#[test]
fn format_bytes_mib() {
    assert_eq!(format_bytes(5 * 1024 * 1024), "5.0 MiB");
}

#[test]
fn format_bytes_gib() {
    assert_eq!(format_bytes(3 * 1024 * 1024 * 1024), "3.0 GiB");
}

#[test]
fn format_bytes_rounds_like_float_formatting() {
    for n in [0u64, 1023, 1024, 1075, 1126, 1280, 1536, 10 * 1024 - 1, 1048575, 1048576, 1572864, 5 * 1024 * 1024 * 1024 + 7] {
        let expected = if n >= 1 << 30 {
            format!("{:.1} GiB", n as f64 / (1u64 << 30) as f64)
        } else if n >= 1 << 20 {
            format!("{:.1} MiB", n as f64 / (1u64 << 20) as f64)
        } else if n >= 1024 {
            format!("{:.1} KiB", n as f64 / 1024.0)
        } else {
            format!("{n} B")
        };
        assert_eq!(format_bytes(n), expected, "for {n}");
    }
}

#[test]
fn session_format_bytes_handles_negative_and_large() {
    assert_eq!(sessions::format_bytes(-5), "-5 B");
    assert_eq!(sessions::format_bytes(2048), "2.0 KiB");
    assert_eq!(sessions::format_bytes(3 * 1024 * 1024 * 1024), "3.0 GiB");
}

#[test]
fn parse_team_role_accepts_owner() {
    assert_eq!(parse_team_role("owner").unwrap(), TeamRole::Owner);
}

#[test]
fn parse_team_role_accepts_member() {
    assert_eq!(parse_team_role("member").unwrap(), TeamRole::Member);
}

#[test]
fn parse_team_role_rejects_invalid() {
    assert!(parse_team_role("admin").is_err());
    assert!(parse_team_role("manager").is_err());
}

#[test]
fn parse_team_role_rejects_empty() {
    assert!(parse_team_role("").is_err());
}

#[test]
fn parse_team_role_rejects_wrong_case() {
    assert!(parse_team_role("Owner").is_err());
    assert!(parse_team_role("MEMBER").is_err());
}

#[test]
fn parse_team_role_error_message_includes_input() {
    let msg = parse_team_role("admin").unwrap_err();
    assert!(msg.contains("admin"), "error should include input: {msg}");
    assert!(msg.contains("owner"), "error should hint valid values: {msg}");
}

#[test]
fn parse_role_accepts_admin() {
    assert_eq!(parse_role("admin").unwrap(), Role::Admin);
}

#[test]
fn parse_role_accepts_member() {
    assert_eq!(parse_role("member").unwrap(), Role::Member);
}

#[test]
fn parse_role_rejects_invalid() {
    assert!(parse_role("moderator").is_err());
    assert!(parse_role("superadmin").is_err());
    assert!(parse_role("user").is_err());
}

#[test]
fn parse_role_rejects_empty() {
    assert!(parse_role("").is_err());
}

#[test]
fn parse_role_rejects_wrong_case() {
    assert!(parse_role("Admin").is_err());
    assert!(parse_role("ADMIN").is_err());
    assert!(parse_role("Member").is_err());
}

#[test]
fn parse_role_error_message_includes_input() {
    let msg = parse_role("bogus").unwrap_err();
    assert!(msg.contains("bogus"), "error should include input: {msg}");
    assert!(msg.contains("admin"), "error should hint valid values: {msg}");
}

#[test]
fn tcp_forwards_to_localhost_port() {
    assert_eq!(local_address(5432), "localhost:5432");
    assert_eq!(requested_remote_port(0), None);
    assert_eq!(requested_remote_port(2222), Some(2222));
}

#[test]
fn server_url_prefers_argument_and_adds_scheme() {
    assert_eq!(
        choose_server_url(Some("tunnel.example.com".to_string()), Some("https://ctx.example.com".to_string())),
        Some("http://tunnel.example.com".to_string())
    );
    assert_eq!(
        choose_server_url(None, Some("https://ctx.example.com".to_string())),
        Some("https://ctx.example.com".to_string())
    );
    assert_eq!(choose_server_url(Some(String::new()), Some("x".to_string())), None);
    assert_eq!(choose_server_url(None, None), None);
}

#[test]
fn inspector_flags_conflict() {
    assert!(inspector_enabled(true, true, false).is_err());
    assert_eq!(inspector_enabled(true, false, false), Ok(true));
    assert_eq!(inspector_enabled(false, true, true), Ok(false));
    assert_eq!(inspector_enabled(false, false, true), Ok(true));
}

#[test]
fn context_listing_marks_current_and_token() {
    let ctx = Context { server: "https://a.example.com".to_string(), token: Some("t".to_string()) };
    assert_eq!(
        context_listing("prod", &ctx, "prod"),
        "prod *\n  server: https://a.example.com\n  status: authenticated\n\n"
    );
    let bare = Context { server: "https://b.example.com".to_string(), token: None };
    assert_eq!(
        context_listing("dev", &bare, "prod"),
        "dev\n  server: https://b.example.com\n  status: no token\n\n"
    );
}

#[test]
fn login_url_names_provider_and_port() {
    assert_eq!(
        funnel::client::auth::login_url("https://tunnel.example.com", "github", 54321),
        "https://tunnel.example.com/auth/github/authorize?cli_port=54321"
    );
    assert_eq!(funnel::client::auth::login_url("http://s", "oidc", 0), "http://s/auth/oidc/authorize?cli_port=0");
}

#[test]
fn format_timestamp_strips_subsecond() {
    assert_eq!(funnel::client::humanize::format_timestamp("2025-01-15T10:30:00.123456Z"), "2025-01-15T10:30:00");
}

#[test]
fn format_timestamp_converts_to_utc_and_keeps_other_text() {
    assert_eq!(funnel::client::humanize::format_timestamp("2025-01-15T12:30:00+02:00"), "2025-01-15T10:30:00");
    assert_eq!(funnel::client::humanize::format_timestamp("yesterday"), "yesterday");
}
