use gateway::resolve::{resolve, service_path_query, GatewayConfig, UpstreamId};

fn config() -> GatewayConfig {
    GatewayConfig::new(false, None, None)
}

#[test]
fn defaults_point_at_localhost() {
    let c = config();
    assert!(!c.prod);
    assert_eq!(c.crud_uri, "http://127.0.0.1:8080");
    assert_eq!(c.payments_uri, "http://127.0.0.1:6000");
}

#[test]
fn overrides_win_over_defaults() {
    let c = GatewayConfig::new(
        true,
        Some("http://crud:1".to_string()),
        Some("http://pay:2".to_string()),
    );
    assert!(c.prod);
    assert_eq!(c.crud_uri, "http://crud:1");
    assert_eq!(c.payments_uri, "http://pay:2");
}

#[test]
fn payments_prefix_is_stripped() {
    let t = resolve(&config(), "/payments/webhooks", None).unwrap();
    assert_eq!(t.service, UpstreamId::Payments);
    assert_eq!(t.base_uri, "http://127.0.0.1:6000");
    assert_eq!(t.path_query, "/webhooks");
}

#[test]
fn bare_payments_prefix_becomes_root() {
    let t = resolve(&config(), "/payments", None).unwrap();
    assert_eq!(t.service, UpstreamId::Payments);
    assert_eq!(t.path_query, "/");
}

#[test]
fn crud_paths_pass_unchanged() {
    let t = resolve(&config(), "/users", None).unwrap();
    assert_eq!(t.service, UpstreamId::Crud);
    assert_eq!(t.base_uri, "http://127.0.0.1:8080");
    assert_eq!(t.path_query, "/users");
}

#[test]
fn query_strings_are_reattached() {
    let t = resolve(&config(), "/users", Some("active=true")).unwrap();
    assert_eq!(t.path_query, "/users?active=true");
    let t = resolve(&config(), "/payments/webhooks", Some("a=1&b=2")).unwrap();
    assert_eq!(t.path_query, "/webhooks?a=1&b=2");
}

#[test]
fn pathless_requests_resolve_nowhere() {
    assert!(resolve(&config(), "", None).is_none());
    assert!(resolve(&config(), "widgets", None).is_none());
    assert!(resolve(&config(), "*", None).is_none());
}

#[test]
fn service_path_query_strips_and_substitutes() {
    assert_eq!(service_path_query("/payments", "/payments/webhooks", None), "/webhooks");
    assert_eq!(service_path_query("/payments", "/payments", None), "/");
    assert_eq!(
        service_path_query("/payments", "/payments", Some("x=1")),
        "/?x=1"
    );
    assert_eq!(service_path_query("", "/login", Some("next=%2F")), "/login?next=%2F");
}
