use funnel::client::forwarder as ws_forwarder;
use funnel::client::tunnel::client::{
    is_loopback, registration_outcome, ConnectError, PermanentError, TunnelOptions,
};
use funnel::client::tunnel::display::{format_uptime, request_style, RequestStyle};
use funnel::client::tunnel::forwarder::{
    collect_header_entries, collect_response_headers, error_response, forwards_request_header,
    local_error_response,
    is_hop_by_hop, keeps_response_header, IdlePool, MAX_IDLE_CONNECTIONS,
};
use funnel::client::tunnel::runner::{
    backoff_delay, build_public_url, next_step, reconnect_message, server_host, RunOutcome, RunnerAction,
    ServerUrlError,
    MAX_BACKOFF_SECS,
};
use funnel::protocol::error_codes::AppCode;
use funnel::protocol::handshake::{
    AccessControl, HandshakeResult, ServerLimits, TunnelResult, TunnelType, PROTOCOL_VERSION,
};
use funnel::tunnel::id::TunnelId;

fn id(s: &str) -> TunnelId {
    TunnelId::new(s.to_string()).unwrap()
}

#[test]
fn backoff_increases_exponentially() {
    assert_eq!(backoff_delay(0), 1);
    assert_eq!(backoff_delay(1), 2);
    assert_eq!(backoff_delay(2), 4);
    assert_eq!(backoff_delay(3), 8);
}

#[test]
fn backoff_caps_at_max() {
    assert_eq!(backoff_delay(10), MAX_BACKOFF_SECS);
    assert_eq!(backoff_delay(20), MAX_BACKOFF_SECS);
}

#[test]
fn backoff_never_decreases() {
    let mut last = 0;
    for attempt in 0..40u32 {
        let d = backoff_delay(attempt);
        assert!(d >= last && (1..=30).contains(&d));
        last = d;
    }
    assert_eq!(backoff_delay(4), 16);
    assert_eq!(backoff_delay(5), 30);
    assert_eq!(backoff_delay(u32::MAX), 30);
}

#[test]
fn runner_steps() {
    assert_eq!(next_step(3, RunOutcome::Refused), (RunnerAction::Stop, 3));
    assert_eq!(next_step(3, RunOutcome::Failed), (RunnerAction::RetryAfter(8), 4));
    assert_eq!(next_step(7, RunOutcome::Disconnected), (RunnerAction::RetryAfter(1), 1));
    assert_eq!(next_step(u32::MAX, RunOutcome::Failed), (RunnerAction::RetryAfter(30), u32::MAX));
    assert_eq!(reconnect_message(8), "reconnecting in 8s...");
}

#[test]
fn public_url_http() {
    let url = build_public_url("http://tunnel.example.com", &id("my-tunnel"));
    assert_eq!(url.as_deref(), Some("http://my-tunnel.tunnel.example.com"));
}

#[test]
fn public_url_https() {
    let url = build_public_url("https://tunnel.example.com", &id("my-tunnel"));
    assert_eq!(url.as_deref(), Some("https://my-tunnel.tunnel.example.com"));
}

#[test]
fn public_url_with_port() {
    let url = build_public_url("http://localhost:8080", &id("abc"));
    assert_eq!(url.as_deref(), Some("http://abc.localhost:8080"));
}

#[test]
fn public_url_edge_cases() {
    assert_eq!(build_public_url("not a url", &id("abc")), None);
    assert_eq!(
        build_public_url("https://tunnel.example.com:443", &id("abc")).as_deref(),
        Some("https://abc.tunnel.example.com")
    );
    assert_eq!(
        build_public_url("ftp://files.example.com:21/x", &id("abc")).as_deref(),
        Some("http://abc.files.example.com")
    );
}

#[test]
fn format_uptime_units() {
    assert_eq!(format_uptime(45), "45s");
    assert_eq!(format_uptime(125), "2m 5s");
    assert_eq!(format_uptime(3661), "1h 1m 1s");
}

#[test]
fn request_styles_by_status() {
    assert_eq!(request_style(0), RequestStyle::Stream);
    assert_eq!(request_style(204), RequestStyle::Success);
    assert_eq!(request_style(302), RequestStyle::Warning);
    assert_eq!(request_style(404), RequestStyle::Warning);
    assert_eq!(request_style(500), RequestStyle::Failure);
    assert_eq!(request_style(101), RequestStyle::Failure);
}

#[test]
fn forwarder_hop_by_hop_detection() {
    assert!(is_hop_by_hop("Connection"));
    assert!(is_hop_by_hop("transfer-encoding"));
    assert!(is_hop_by_hop("Keep-Alive"));
    assert!(!is_hop_by_hop("Content-Type"));
    assert!(!is_hop_by_hop("Authorization"));
}

#[test]
fn forwarder_error_response_has_correct_status() {
    let (meta, body) = error_response(502, "test error");
    assert_eq!(meta.status, 502);
    assert_eq!(body, b"test error");
    assert!(meta.headers.contains_key("content-type"));
    assert_eq!(meta.headers.get("content-type"), Some(&vec!["text/plain".to_string()]));
}

#[test]
fn hop_by_hop_detection() {
    assert!(ws_forwarder::is_hop_by_hop("Connection"));
    assert!(ws_forwarder::is_hop_by_hop("transfer-encoding"));
    assert!(ws_forwarder::is_hop_by_hop("Keep-Alive"));
    assert!(!ws_forwarder::is_hop_by_hop("Content-Type"));
    assert!(!ws_forwarder::is_hop_by_hop("Authorization"));
}

#[test]
fn error_response_has_correct_status() {
    let resp = ws_forwarder::error_response(502, "test error");
    assert_eq!(resp.status, 502);
    assert_eq!(resp.body, b"test error");
    assert!(resp.headers.contains_key("content-type"));
}

#[test]
fn websocket_forwarder_error_response() {
    let resp = ws_forwarder::error_response(502, "test error");
    assert_eq!(resp.status, 502);
    assert_eq!(resp.body, b"test error");
    assert!(resp.headers.contains_key("content-type"));
    assert!(ws_forwarder::forwards_header("X-Test"));
    assert!(!ws_forwarder::forwards_header("Host"));
    assert!(!ws_forwarder::forwards_header("Upgrade"));
    assert_eq!(ws_forwarder::local_url("127.0.0.1:3000", "/a?b=c"), "http://127.0.0.1:3000/a?b=c");
}

#[test]
fn request_headers_that_cross() {
    assert!(forwards_request_header("x-test", false));
    assert!(!forwards_request_header("Accept-Encoding", false));
    assert!(forwards_request_header("Accept-Encoding", true));
    assert!(!forwards_request_header("connection", false));
    assert!(forwards_request_header("connection", true));
    assert!(!forwards_request_header("HOST", true));
    assert!(keeps_response_header("upgrade", true));
    assert!(!keeps_response_header("upgrade", false));
}

#[test]
fn response_headers_are_gathered_by_name() {
    let mut map = http::HeaderMap::new();
    map.append("x-custom", http::HeaderValue::from_static("a"));
    map.append("connection", http::HeaderValue::from_static("keep-alive"));
    map.append("x-custom", http::HeaderValue::from_static("b"));
    map.append("x-real", http::HeaderValue::from_static("value"));
    let collected = collect_response_headers(&map, false);
    assert_eq!(collected.get("x-custom"), Some(&vec!["a".to_string(), "b".to_string()]));
    assert!(!collected.contains_key("connection"));
    assert!(collected.contains_key("x-real"));
    let kept = collect_response_headers(&map, true);
    assert_eq!(kept.get("connection"), Some(&vec!["keep-alive".to_string()]));
}

#[test]
fn header_pairs_are_gathered_in_order() {
    let entries = vec![
        ("a".to_string(), "1".to_string()),
        ("te".to_string(), "x".to_string()),
        ("a".to_string(), "2".to_string()),
    ];
    let h = collect_header_entries(&entries, false);
    assert_eq!(h.get("a"), Some(&vec!["1".to_string(), "2".to_string()]));
    assert_eq!(h.len(), 1);
}

#[test]
fn idle_pool_keeps_at_most_eight_ready_connections() {
    let mut pool: IdlePool<u32> = IdlePool::new();
    pool.release(1, false);
    assert_eq!(pool.len(), 0);
    for i in 0..10 {
        pool.release(i, true);
    }
    assert_eq!(pool.len(), MAX_IDLE_CONNECTIONS);
    assert_eq!(pool.take(), Some(7));
    assert_eq!(pool.len(), 7);
    let mut empty: IdlePool<u32> = IdlePool::new();
    assert_eq!(empty.take(), None);
}

#[test]
fn loopback_hosts_skip_verification() {
    assert!(is_loopback("localhost", false));
    assert!(is_loopback("127.0.0.1", false));
    assert!(is_loopback("::1", false));
    assert!(is_loopback("tunnel.example.com", true));
    assert!(!is_loopback("tunnel.example.com", false));
}

fn options() -> TunnelOptions {
    TunnelOptions {
        tunnel_id: id("my-app"),
        local_addr: "localhost:3000".into(),
        tunnel_type: TunnelType::Http,
        token: Some("tok".into()),
        quic_port: 4433,
        insecure: false,
        team: Some("backend".into()),
        remote_port: None,
        access: Some(AccessControl { basic_auth: Some("u:p".into()), ..Default::default() }),
    }
}

#[test]
fn handshake_registers_one_tunnel() {
    let h = options().handshake();
    assert_eq!(h.version, PROTOCOL_VERSION);
    assert_eq!(h.token.as_deref(), Some("tok"));
    assert_eq!(h.tunnels.len(), 1);
    let spec = &h.tunnels[0];
    assert_eq!(spec.id.as_ref(), "my-app");
    assert_eq!(spec.team.as_deref(), Some("backend"));
    assert!(spec.local_port.is_none() && spec.routing.is_none());
    assert_eq!(spec.access.as_ref().and_then(|a| a.basic_auth.as_deref()), Some("u:p"));
}

fn result_with(tunnels: Vec<TunnelResult>) -> HandshakeResult {
    HandshakeResult { version: 1, server_id: "srv".into(), tunnels, limits: ServerLimits::default() }
}

#[test]
fn registration_success_gives_port() {
    let r = result_with(vec![TunnelResult::ok(id("other")), TunnelResult::ok_with_port(id("my-app"), 2222)]);
    assert!(matches!(registration_outcome(&r, &id("my-app")), Ok(Some(2222))));
}

#[test]
fn registration_refusal_is_permanent() {
    let r = result_with(vec![TunnelResult::error(id("my-app"), AppCode::TunnelIdConflict, "taken".into())]);
    match registration_outcome(&r, &id("my-app")) {
        Err(ConnectError::Permanent(e)) => {
            assert_eq!(e.code, "tunnel_id_conflict");
            assert_eq!(e.message, "taken");
            assert_eq!(e.to_string(), "[tunnel_id_conflict] taken");
        }
        other => panic!("unexpected {other:?}"),
    }
}

#[test]
fn registration_without_answer_is_transient() {
    let r = result_with(vec![TunnelResult::ok(id("other"))]);
    match registration_outcome(&r, &id("my-app")) {
        Err(e @ ConnectError::Transient(_)) => {
            assert_eq!(e.to_string(), "server did not return result for tunnel my-app");
        }
        other => panic!("unexpected {other:?}"),
    }
}

#[test]
fn refusal_without_details_says_unknown() {
    let mut t = TunnelResult::error(id("my-app"), AppCode::TunnelIdConflict, "x".into());
    t.error_code = None;
    t.error_message = None;
    match registration_outcome(&result_with(vec![t]), &id("my-app")) {
        Err(ConnectError::Permanent(e)) => assert_eq!(e.to_string(), "[unknown] unknown error"),
        other => panic!("unexpected {other:?}"),
    }
}

#[test]
fn permanent_error_converts() {
    let e: ConnectError = PermanentError { code: "c".into(), message: "m".into() }.into();
    assert!(matches!(e, ConnectError::Permanent(_)));
}

#[test]
fn reconnect_rounds_follow_backoff_and_stop_on_refusal() {
    let outcomes = [
        RunOutcome::Failed,
        RunOutcome::Failed,
        RunOutcome::Failed,
        RunOutcome::Disconnected,
        RunOutcome::Failed,
        RunOutcome::Failed,
        RunOutcome::Refused,
    ];
    let mut attempt = 0u32;
    let mut actions = Vec::new();
    for outcome in outcomes {
        let (action, next) = next_step(attempt, outcome);
        attempt = next;
        actions.push(action);
    }
    assert_eq!(
        actions,
        vec![
            RunnerAction::RetryAfter(1),
            RunnerAction::RetryAfter(2),
            RunnerAction::RetryAfter(4),
            RunnerAction::RetryAfter(1),
            RunnerAction::RetryAfter(2),
            RunnerAction::RetryAfter(4),
            RunnerAction::Stop,
        ]
    );
    let mut attempt = 0u32;
    let mut last = RunnerAction::Stop;
    for _ in 0..10 {
        let (action, next) = next_step(attempt, RunOutcome::Failed);
        attempt = next;
        last = action;
    }
    assert_eq!(last, RunnerAction::RetryAfter(30));
}

#[test]
fn local_error_response_is_bad_gateway_with_detail() {
    let (meta, body) = local_error_response("connection refused");
    assert_eq!(meta.status, 502);
    assert_eq!(String::from_utf8(body).unwrap(), "local service error: connection refused");
    assert_eq!(meta.headers.get("content-type").map(|v| v.clone()), Some(vec!["text/plain".to_string()]));
}

#[test]
fn server_host_reads_the_url() {
    assert_eq!(server_host("https://tunnel.example.com:8443/x"), Ok("tunnel.example.com".to_string()));
    assert_eq!(server_host("http://127.0.0.1"), Ok("127.0.0.1".to_string()));
    assert_eq!(server_host("not a url"), Err(ServerUrlError::Invalid));
    assert_eq!(server_host("mailto:me@example.com"), Err(ServerUrlError::NoHost));
}

#[test]
fn forwarded_request_headers_drop_what_is_not_passed_on() {
    let mut h: funnel::protocol::request::Headers = funnel::strmap::StrMap::new();
    for (name, value) in [
        ("Host", "public.example.com"),
        ("Connection", "keep-alive"),
        ("Accept-Encoding", "gzip"),
        ("X-Custom", "a"),
        ("Upgrade", "websocket"),
    ] {
        h.insert(name.to_string(), vec![value.to_string()]);
    }
    let plain = funnel::client::tunnel::forwarder::forwarded_request_headers(&h, false);
    assert_eq!(plain.len(), 1);
    assert_eq!(plain.get("X-Custom"), Some(&vec!["a".to_string()]));
    let upgrade = funnel::client::tunnel::forwarder::forwarded_request_headers(&h, true);
    assert_eq!(upgrade.len(), 4);
    assert!(upgrade.get("Host").is_none());
    assert_eq!(upgrade.get("Upgrade"), Some(&vec!["websocket".to_string()]));
}

#[test]
fn format_duration_millis() {
    let label = |d: std::time::Duration| funnel::client::tunnel::display::millis_label(d.as_millis());
    assert_eq!(label(std::time::Duration::from_millis(12)).as_deref(), Some("12ms"));
    assert_eq!(label(std::time::Duration::from_millis(999)).as_deref(), Some("999ms"));
    assert_eq!(label(std::time::Duration::from_millis(1000)), None);
}
