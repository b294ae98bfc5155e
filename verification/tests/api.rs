use funnel::api::envelope::{Envelope, EnvelopeMeta, ErrorData};
use funnel::api::types::{ApiScope, HealthResponse, Role, ServerInfo, TeamRole};
use funnel::protocol::error_codes::AppCode;

fn health(status: &str) -> HealthResponse {
    HealthResponse { status: status.to_string(), uptime_secs: 7 }
}

#[test]
fn role_display_matches_serialization() {
    assert_eq!(Role::Admin.to_string(), "admin");
    assert_eq!(Role::Member.to_string(), "member");
}

#[test]
fn role_as_str_matches_display() {
    assert_eq!(Role::Admin.as_str(), Role::Admin.to_string());
    assert_eq!(Role::Member.as_str(), Role::Member.to_string());
}

#[test]
fn team_role_display_matches_serialization() {
    assert_eq!(TeamRole::Owner.to_string(), "owner");
    assert_eq!(TeamRole::Member.to_string(), "member");
}

#[test]
fn api_scope_display_matches_serialization() {
    assert_eq!(ApiScope::Management.to_string(), "management");
    assert_eq!(ApiScope::Tunnels.to_string(), "tunnels");
}

#[test]
fn ok_infers_kind_from_type() {
    let envelope = Envelope::ok(health("ok"));
    assert_eq!(envelope.kind, "health");
    assert_eq!(envelope.data.status, "ok");
    assert!(envelope.meta.is_none());
}

#[test]
fn list_infers_kind_and_total() {
    let envelope = Envelope::list(vec![health("a"), health("b")]);
    assert_eq!(envelope.kind, "health_list");
    assert_eq!(envelope.meta.as_ref().and_then(|m| m.total), Some(2));
}

#[test]
fn error_without_detail() {
    let envelope = Envelope::<ErrorData>::error("not_found", "not found", None, 404);
    assert_eq!(envelope.kind, "error");
    assert_eq!(envelope.data.error_type, "not_found");
    assert_eq!(envelope.data.status, 404);
    assert!(envelope.data.detail.is_none());
}

#[test]
fn error_with_detail() {
    let envelope = Envelope::<ErrorData>::error(
        "tunnel_id_conflict",
        "conflict",
        Some("tunnel 'foo' already in use".into()),
        409,
    );
    assert_eq!(envelope.data.detail.as_deref(), Some("tunnel 'foo' already in use"));
}

#[test]
fn error_accepts_app_code_enum() {
    let envelope = Envelope::<ErrorData>::error(AppCode::AuthRequired.as_str(), "unauthorized", None, 401);
    assert_eq!(envelope.data.error_type, "auth_required");
    assert_eq!(envelope.data.status, 401);
}

#[test]
fn error_app_code_with_detail() {
    let envelope = Envelope::<ErrorData>::error(
        AppCode::TunnelIdConflict.as_str(),
        "conflict",
        Some("tunnel 'abc' in use".into()),
        409,
    );
    assert_eq!(envelope.data.error_type, "tunnel_id_conflict");
    assert_eq!(envelope.data.detail.as_deref(), Some("tunnel 'abc' in use"));
}

#[test]
fn empty_list_has_zero_total() {
    let items: Vec<HealthResponse> = vec![];
    let envelope = Envelope::list(items);
    assert_eq!(envelope.kind, "health_list");
    assert_eq!(envelope.meta.as_ref().and_then(|m| m.total), Some(0));
    assert_eq!(envelope.data.len(), 0);
}

#[test]
fn with_meta_adds_metadata() {
    let envelope = Envelope::ok(ServerInfo { version: 1, quic_port: 4433 }).with_meta(EnvelopeMeta {
        request_id: Some("req-123".into()),
        timestamp: Some("2025-01-01T00:00:00Z".into()),
        total: None,
        cursor: None,
    });
    assert_eq!(envelope.kind, "server_info");
    let meta = envelope.meta.expect("meta");
    assert_eq!(meta.request_id.as_deref(), Some("req-123"));
    assert_eq!(meta.timestamp.as_deref(), Some("2025-01-01T00:00:00Z"));
    assert!(meta.total.is_none());
    assert!(meta.cursor.is_none());
}

#[test]
fn user_admin_and_active() {
    let mut user = funnel::api::types::User {
        id: "0192f1e0-0000-7000-8000-000000000001".to_string(),
        email: "a@example.com".to_string(),
        name: None,
        avatar_url: None,
        role: funnel::api::types::Role::Admin,
        metadata: "{}".to_string(),
        created_at: "2024-01-01T00:00:00Z".to_string(),
        updated_at: "2024-01-01T00:00:00Z".to_string(),
        deactivated_at: None,
    };
    assert!(user.is_admin());
    assert!(user.is_active());
    user.role = funnel::api::types::Role::Member;
    user.deactivated_at = Some("2024-02-01T00:00:00Z".to_string());
    assert!(!user.is_admin());
    assert!(!user.is_active());
}
