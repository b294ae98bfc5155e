use funnel::protocol::error_codes::AppCode;
use funnel::protocol::handshake::{
    AccessControl, AuthScheme, HandshakeResult, ServerLimits, TunnelResult, TunnelType,
};
use funnel::protocol::message::{RequestPayload, ResponsePayload, TunnelMessage};
use funnel::protocol::request::{to_header_map, Headers, RequestMeta, ResponseMeta};
use funnel::relay::{relay_outcome, RelayStats};
use funnel::strmap::StrMap;
use funnel::tunnel::id::TunnelId;

fn headers(entries: &[(&str, &[&str])]) -> Headers {
    let mut h: Headers = StrMap::new();
    for (name, values) in entries {
        h.insert(name.to_string(), values.iter().map(|v| v.to_string()).collect());
    }
    h
}

fn request(method: &str) -> RequestMeta {
    RequestMeta { method: method.into(), path: "/".into(), headers: StrMap::new() }
}

fn response(status: u16) -> ResponseMeta {
    ResponseMeta { status, headers: StrMap::new() }
}

#[test]
fn valid_http_method() {
    assert_eq!(request("GET").http_method().ok(), Some(http::Method::GET));
}

#[test]
fn invalid_http_method() {
    assert!(request("").http_method().is_err());
}

#[test]
fn custom_http_method_token_is_accepted() {
    assert_eq!(request("PURGE").http_method().ok().map(|m| m.to_string()), Some("PURGE".to_string()));
    assert!(request("GE T").http_method().is_err());
}

#[test]
fn valid_http_status() {
    assert_eq!(response(404).http_status().ok(), Some(http::StatusCode::NOT_FOUND));
}

#[test]
fn invalid_http_status() {
    assert!(response(9999).http_status().is_err());
    assert!(response(99).http_status().is_err());
    assert!(response(100).http_status().is_ok());
    assert!(response(999).http_status().is_ok());
}

#[test]
fn to_header_map_converts_valid_entries() {
    let h = headers(&[("content-type", &["text/html"]), ("x-custom", &["a", "b"])]);
    let map = to_header_map(&h);
    assert_eq!(map.get("content-type").and_then(|v| v.to_str().ok()), Some("text/html"));
    assert_eq!(map.get_all("x-custom").iter().count(), 2);
    assert_eq!(map.len(), 3);
}

#[test]
fn to_header_map_skips_invalid() {
    let h = headers(&[("valid", &["ok"]), ("", &["bad name"])]);
    let map = to_header_map(&h);
    assert_eq!(map.len(), 1);
}

#[test]
fn access_control_is_empty() {
    assert!(AccessControl::default().is_empty());
    assert!(!AccessControl { basic_auth: Some("user:pass".into()), ..Default::default() }.is_empty());
}

#[test]
fn access_control_scheme_alone_restricts_nothing() {
    let access = AccessControl { auth_scheme: AuthScheme::Basic, ..Default::default() };
    assert!(access.is_empty());
    assert!(!AccessControl { allow_ip: vec!["10.0.0.0/8".into()], ..Default::default() }.is_empty());
    assert!(!AccessControl { expires_secs: Some(60), ..Default::default() }.is_empty());
}

#[test]
fn tunnel_results_carry_what_they_announce() {
    let id = TunnelId::new("abc".to_string()).unwrap();
    let ok = TunnelResult::ok_with_port(id.clone(), 2222);
    assert!(ok.is_ok());
    assert_eq!(ok.remote_port, Some(2222));
    let with_url = TunnelResult::ok_with_url(id.clone(), "https://abc.example.com".to_string());
    assert!(with_url.is_ok());
    assert_eq!(with_url.public_url.as_deref(), Some("https://abc.example.com"));
    assert_eq!(with_url.remote_port, None);
    assert!(with_url.error_code.is_none());
    let err = TunnelResult::error(id, AppCode::TunnelIdConflict, "taken".into());
    assert!(!err.is_ok());
    assert_eq!(err.error_message.as_deref(), Some("taken"));
}

#[test]
fn tunnel_type_names() {
    assert_eq!(TunnelType::Http.to_string(), "http");
    assert_eq!(TunnelType::Stream.to_string(), "stream");
    assert_eq!(TunnelType::Dgram.to_string(), "dgram");
}

#[test]
fn server_limits_keep_other_fields() {
    let limits = ServerLimits::default().with_tunnel_types(vec![TunnelType::Stream]);
    assert_eq!(limits.allowed_tunnel_types, vec![TunnelType::Stream]);
    assert_eq!(limits.max_streams, ServerLimits::default().max_streams);
}

#[test]
fn serialize_ping_pong_tags() {
    assert_eq!(TunnelMessage::Ping.kind(), "ping");
    assert_eq!(TunnelMessage::Pong.kind(), "pong");
    assert_eq!(TunnelMessage::RequestCancel { request_id: 0 }.kind(), "request_cancel");
}

#[test]
fn message_tags_of_request_and_response() {
    let request = TunnelMessage::Request {
        tunnel_id: TunnelId::new("my-tunnel".to_string()).unwrap(),
        request_id: 0,
        payload: RequestPayload { method: "GET".into(), path: "/hello".into(), headers: StrMap::new(), body: vec![] },
    };
    assert_eq!(request.kind(), "request");
    let response = TunnelMessage::Response {
        request_id: 0,
        payload: ResponsePayload { status: 200, headers: StrMap::new(), body: b"hello world".to_vec() },
    };
    assert_eq!(response.kind(), "response");
}

#[test]
fn relay_reports_first_error_or_both_counts() {
    assert_eq!(relay_outcome::<&str>(Ok(3), Ok(4)), Ok(RelayStats { a_to_b: 3, b_to_a: 4 }));
    assert_eq!(relay_outcome::<&str>(Err("a"), Err("b")), Err("a"));
    assert_eq!(relay_outcome::<&str>(Ok(3), Err("b")), Err("b"));
}

#[test]
fn handshake_result_lists_tunnels() {
    let result = HandshakeResult {
        version: 1,
        server_id: "s".into(),
        tunnels: vec![TunnelResult::ok(TunnelId::new("abc".to_string()).unwrap())],
        limits: ServerLimits::default(),
    };
    assert_eq!(result.tunnels.len(), 1);
}

#[test]
fn to_header_map_keeps_each_names_value_order() {
    let h = headers(&[("X-Custom", &["a", "b", "c"]), ("content-type", &["text/html"])]);
    let map = to_header_map(&h);
    let values: Vec<&str> = map.get_all("x-custom").iter().map(|v| v.to_str().unwrap()).collect();
    assert_eq!(values, vec!["a", "b", "c"]);
    assert_eq!(map.len(), 4);

    let many: Vec<String> = (0..5000).map(|i| i.to_string()).collect();
    let refs: Vec<&str> = many.iter().map(|s| s.as_str()).collect();
    let big = to_header_map(&headers(&[("x-many", &refs)]));
    assert_eq!(big.len(), 5000);
    assert_eq!(big.get_all("x-many").iter().last().and_then(|v| v.to_str().ok()), Some("4999"));
}
