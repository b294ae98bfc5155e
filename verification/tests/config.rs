use funnel::client::config::{
    clear_token, create_context, delete_context, resolve, resolve_authenticated, set_current_context,
    set_token, ConfigErrorKind, Context, FunnelConfig,
};

fn with_context(name: &str, server: &str, token: Option<&str>) -> FunnelConfig {
    let mut config = FunnelConfig::default();
    config.contexts.insert(
        name.to_string(),
        Context { server: server.to_string(), token: token.map(|t| t.to_string()) },
    );
    config
}

#[test]
fn default_config_has_no_contexts() {
    let config = FunnelConfig::default();
    assert!(config.contexts.is_empty());
    assert_eq!(config.current_context, "default");
    assert!(!config.inspector.enabled);
    assert_eq!(config.inspector.addr, "127.0.0.1:4040");
}

#[test]
fn resolve_missing_context_errors() {
    let config = FunnelConfig::default();
    assert!(resolve(&config, None, None, None).is_err());
}

#[test]
fn resolve_uses_current_context() {
    let config = with_context("default", "https://example.com", Some("tok"));
    let resolved = resolve(&config, None, None, None).expect("resolve");
    assert_eq!(resolved.name, "default");
    assert_eq!(resolved.server, "https://example.com");
}

#[test]
fn resolve_override_context() {
    let config = with_context("staging", "https://staging.example.com", None);
    let resolved = resolve(&config, Some("staging"), None, None).expect("resolve");
    assert_eq!(resolved.name, "staging");
    assert_eq!(resolved.server, "https://staging.example.com");
}

#[test]
fn resolve_authenticated_requires_token() {
    let config = with_context("default", "https://example.com", None);
    assert!(resolve_authenticated(&config, None, None, None).is_err());
}

#[test]
fn resolve_applies_environment_overrides() {
    let config = with_context("default", "https://example.com", Some("ctx-token"));
    let resolved = resolve(
        &config,
        None,
        Some("https://env.example.com".to_string()),
        Some("env-token".to_string()),
    )
    .expect("resolve");
    assert_eq!(resolved.server, "https://env.example.com");
    assert_eq!(resolved.token.as_deref(), Some("env-token"));
}

#[test]
fn resolve_rejects_empty_server() {
    let config = with_context("default", "", Some("t"));
    let err = resolve(&config, None, None, None).unwrap_err();
    assert_eq!(err.kind, ConfigErrorKind::ServerNotConfigured);
    assert_eq!(err.context, "default");
    assert_eq!(err.to_string(), "server not configured for context 'default'");
}

#[test]
fn resolve_missing_context_message() {
    let config = FunnelConfig::default();
    let err = resolve(&config, Some("prod"), None, None).unwrap_err();
    assert_eq!(err.kind, ConfigErrorKind::ContextNotFound);
    assert_eq!(
        err.to_string(),
        "context 'prod' not found, run: funnel context create prod --server <url>"
    );
}

#[test]
fn set_token_then_resolve_authenticated_returns_it() {
    let mut config = with_context("default", "https://example.com", None);
    set_token(&mut config, "default", "fresh");
    let (resolved, token) = resolve_authenticated(&config, None, None, None).expect("resolve");
    assert_eq!(token, "fresh");
    assert_eq!(resolved.server, "https://example.com");
}

#[test]
fn set_token_creates_missing_context() {
    let mut config = FunnelConfig::default();
    set_token(&mut config, "new", "tok");
    let ctx = config.contexts.get("new").expect("created");
    assert_eq!(ctx.server, "");
    assert_eq!(ctx.token.as_deref(), Some("tok"));
}

#[test]
fn clear_token_needs_context() {
    let mut config = with_context("default", "https://example.com", Some("tok"));
    assert!(clear_token(&mut config, "default").is_ok());
    assert!(config.contexts.get("default").unwrap().token.is_none());
    let err = clear_token(&mut config, "other").unwrap_err();
    assert_eq!(err.kind, ConfigErrorKind::UnknownContext);
}

#[test]
fn first_context_becomes_current() {
    let mut config = FunnelConfig::default();
    config.current_context = "none".to_string();
    create_context(&mut config, "prod", "https://prod.example.com").expect("create");
    assert_eq!(config.current_context, "prod");
    create_context(&mut config, "dev", "https://dev.example.com").expect("create");
    assert_eq!(config.current_context, "prod");
    let err = create_context(&mut config, "dev", "x").unwrap_err();
    assert_eq!(err.kind, ConfigErrorKind::ContextExists);
}

#[test]
fn switching_needs_an_existing_context() {
    let mut config = with_context("a", "https://a", None);
    assert!(set_current_context(&mut config, "b").is_err());
    assert!(set_current_context(&mut config, "a").is_ok());
    assert_eq!(config.current_context, "a");
}

#[test]
fn deleting_current_context_picks_another() {
    let mut config = FunnelConfig::default();
    create_context(&mut config, "a", "https://a").unwrap();
    create_context(&mut config, "b", "https://b").unwrap();
    assert_eq!(config.current_context, "a");
    delete_context(&mut config, "a").unwrap();
    assert_eq!(config.current_context, "b");
    delete_context(&mut config, "b").unwrap();
    assert_eq!(config.current_context, "default");
    assert_eq!(delete_context(&mut config, "b").unwrap_err().kind, ConfigErrorKind::ContextDoesNotExist);
}

#[test]
fn logout_then_resolve_has_no_token() {
    let mut config = with_context("default", "https://example.com", Some("tok"));
    clear_token(&mut config, "default").expect("clear");
    let resolved = resolve(&config, Some("default"), None, None).expect("resolve");
    assert_eq!(resolved.server, "https://example.com");
    assert!(resolved.token.is_none());
    assert!(resolve_authenticated(&config, Some("default"), None, None).is_err());
}

#[test]
fn set_token_leaves_other_contexts_alone() {
    let mut config = with_context("default", "https://example.com", Some("old"));
    config.contexts.insert(
        "work".to_string(),
        Context { server: "https://work.example.com".to_string(), token: Some("w".to_string()) },
    );
    set_token(&mut config, "default", "new");
    let work = resolve(&config, Some("work"), None, None).expect("resolve");
    assert_eq!(work.server, "https://work.example.com");
    assert_eq!(work.token.as_deref(), Some("w"));
}
