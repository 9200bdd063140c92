use edgee::config::{RoutingConfiguration, RoutingRulesConfiguration, BackendConfiguration, StaticConfiguration, Validate, init_test_config, with_security, SecurityConfiguration};
use edgee::routing::RoutingContext;
use edgee::providers::{Provider, Endpoint, Backend};

fn backend(name: &str, default: bool) -> BackendConfiguration {
    BackendConfiguration { name: name.to_string(), default, address: format!("{}.internal", name), enable_ssl: false }
}

fn rule(path: Option<&str>, prefix: Option<&str>, regexp: Option<&str>, rewrite: Option<&str>, backend: Option<&str>) -> RoutingRulesConfiguration {
    RoutingRulesConfiguration {
        path: path.map(String::from),
        path_prefix: prefix.map(String::from),
        path_regexp: regexp.map(String::from),
        rewrite: rewrite.map(String::from),
        backend: backend.map(String::from),
        max_compressed_body_size: None,
        max_decompressed_body_size: None,
    }
}

fn routing() -> Vec<RoutingConfiguration> {
    vec![RoutingConfiguration {
        domain: "example.com".to_string(),
        rules: vec![
            rule(Some("/exact"), None, None, Some("/rewritten"), Some("api")),
            rule(None, Some("/api/"), None, Some("/v2/"), Some("api")),
            rule(None, None, Some("^/img/(.*)$"), Some("/images/$1"), None),
            rule(None, Some("/missing"), None, None, Some("nope")),
        ],
        backends: vec![backend("web", true), backend("api", false)],
    }]
}

#[test]
fn routing_rules_choose_backend_and_path() {
    let r = routing();
    let c = RoutingContext::from_request(&r, "example.com", "/exact").unwrap();
    assert_eq!((c.backend.name.as_str(), c.path.as_str()), ("api", "/rewritten"));
    let c = RoutingContext::from_request(&r, "example.com", "/api/users?x=1").unwrap();
    assert_eq!((c.backend.name.as_str(), c.path.as_str()), ("api", "/v2/users?x=1"));
    let c = RoutingContext::from_request(&r, "example.com", "/img/a.png").unwrap();
    assert_eq!((c.backend.name.as_str(), c.path.as_str()), ("web", "/images/a.png"));
    let c = RoutingContext::from_request(&r, "example.com", "/missing/x").unwrap();
    assert_eq!((c.backend.name.as_str(), c.path.as_str()), ("web", "/missing/x"));
    let c = RoutingContext::from_request(&r, "example.com", "/other").unwrap();
    assert_eq!((c.backend.name.as_str(), c.path.as_str()), ("web", "/other"));
    assert!(RoutingContext::from_request(&r, "unknown.com", "/").is_none());
}

#[test]
fn routing_with_an_invalid_pattern_has_no_answer() {
    let mut r = routing();
    r[0].rules.insert(0, rule(None, None, Some("("), None, None));
    assert!(RoutingContext::from_request_checked(&r, "example.com", "/x").is_none());
    assert!(RoutingContext::from_request_checked(&routing(), "example.com", "/x").unwrap().is_some());
}

#[test]
fn an_invalid_pattern_after_the_matching_rule_is_not_reached() {
    let mut r = routing();
    r[0].rules.push(rule(None, None, Some("("), None, None));
    let c = RoutingContext::from_request_checked(&r, "example.com", "/api/users").unwrap().unwrap();
    assert_eq!((c.backend.name.as_str(), c.path.as_str()), ("api", "/v2/users"));
    let c = RoutingContext::from_request(&r, "example.com", "/exact").unwrap();
    assert_eq!(c.path.as_str(), "/rewritten");
    assert!(RoutingContext::from_request_checked(&r, "example.com", "/nowhere").is_none());
}

#[test]
fn default_rule_matches_everything() {
    let r = RoutingRulesConfiguration::default();
    assert_eq!(r.path_prefix.as_deref(), Some("/"));
    assert!(r.path.is_none() && r.path_regexp.is_none());
}

#[test]
fn duplicate_domains_are_refused() {
    let mut cfg: StaticConfiguration = init_test_config();
    assert!(cfg.validate().is_ok());
    cfg.routing = routing();
    cfg.routing.push(routing().remove(0));
    assert!(cfg.validate_no_duplicate_domains().is_err());
    let errors = cfg.validate().unwrap_err();
    assert_eq!(errors.len(), 1);
    assert!(errors[0].starts_with("duplicate domains found: "));
    assert_eq!(errors[0], "duplicate domains found: {\"example.com\"}");
    let mut other = routing().remove(0);
    other.domain = "other.com".to_string();
    cfg.routing.push(other);
    let mut other = routing().remove(0);
    other.domain = "other.com".to_string();
    cfg.routing.push(other);
    cfg.routing.push(routing().remove(0));
    assert_eq!(
        cfg.validate_no_duplicate_domains(),
        Err("duplicate domains found: {\"example.com\", \"other.com\"}".to_string())
    );
}

#[test]
fn security_settings_from_the_environment() {
    let d = SecurityConfiguration::default();
    assert_eq!((d.cookie_name.as_str(), d.aes_key.as_str(), d.aes_iv.as_str()), ("edgee", "_key.edgee.cloud", "__iv.edgee.cloud"));
    let c = with_security(init_test_config(), Some("0123456789abcdef".to_string()), None);
    assert_eq!(c.security.aes_key, "0123456789abcdef");
    assert_eq!(c.security.aes_iv, "__iv.edgee.cloud");
}

#[test]
fn provider_finds_endpoint_and_default_backend() {
    let e = |host: &str| Endpoint {
        id: host.to_string(),
        hostname: host.to_string(),
        routing: vec![],
        backend: vec![
            Backend { name: "a".into(), location: "a:1".into(), override_host: "".into(), default: false },
            Backend { name: "b".into(), location: "b:2".into(), override_host: "".into(), default: true },
        ],
    };
    let p = Provider::new(vec![e("x.com"), e("y.com")]);
    let found = p.get("y.com".to_string()).unwrap();
    assert_eq!(found.id, "y.com");
    assert_eq!(found.get_backend("/".to_string()).unwrap().name, "b");
    assert!(p.get("z.com".to_string()).is_none());
}
