//! Router matching: patterns, methods, precedence and declaration order.

use janus::config::BackendServer;
use janus::config::JanusConfig;
use janus::config::LoadBalancing;
use janus::config::RouteConfig;
use janus::config::StaticFileConfig;
use janus::config::UpstreamConfig;
use janus::config::UpstreamEntry;
use janus::content::guess_content_type;
use janus::router::RouteOutcome;
use janus::router::eq_nocase;
use janus::router::match_request;
use janus::router::matches_route;
use janus::router::method_is_allowed;

fn pool(addrs: &[&str]) -> UpstreamConfig {
    UpstreamConfig {
        servers: addrs
            .iter()
            .map(|a| BackendServer { address: a.to_string(), weight: 1, backup: false })
            .collect(),
        load_balancing: LoadBalancing::RoundRobin,
        health_check: None,
    }
}

fn route_for(path: &str, methods: &[&str], upstream: &str) -> RouteConfig {
    RouteConfig {
        path: path.to_string(),
        methods: methods.iter().map(|m| m.to_string()).collect(),
        upstream: upstream.to_string(),
        rewrite: None,
        headers: Vec::new(),
        timeout: 30,
    }
}

fn config_with_routes(routes: Vec<RouteConfig>) -> JanusConfig {
    let mut config = JanusConfig::default();
    config.upstreams.push(UpstreamEntry {
        name: "backend".to_string(),
        config: pool(&["localhost:8001"]),
    });
    config.routes = routes;
    config
}

#[test]
fn exact_pattern_requires_equality() {
    assert!(matches_route("/health", "/health"));
    assert!(!matches_route("/health/x", "/health"));
    assert!(!matches_route("/healt", "/health"));
}

#[test]
fn wildcard_pattern_matches_prefix() {
    assert!(matches_route("/api/v1/x", "/api/*"));
    assert!(matches_route("/api", "/api/*"));
    assert!(matches_route("/apiary", "/api*"));
    assert!(!matches_route("/v1/api", "/api/*"));
    assert!(matches_route("/anything", "*"));
}

#[test]
fn method_list_is_case_insensitive_and_empty_allows_all() {
    assert!(eq_nocase("get", "GET"));
    assert!(!eq_nocase("get", "PUT"));
    let methods: Vec<String> = vec!["get".to_string(), "Post".to_string()];
    assert!(method_is_allowed(&methods, "GET"));
    assert!(method_is_allowed(&methods, "POST"));
    assert!(!method_is_allowed(&methods, "DELETE"));
    let empty: Vec<String> = Vec::new();
    assert!(method_is_allowed(&empty, "DELETE"));
}

#[test]
fn overlapping_patterns_resolve_by_declaration_order() {
    // The more specific pattern is declared second and must lose.
    let config = config_with_routes(vec![
        route_for("/api/*", &[], "backend"),
        route_for("/api/v1/*", &[], "backend"),
    ]);
    match match_request(&config, "GET", "/api/v1/x") {
        RouteOutcome::ProxyHit(route, _) => assert_eq!(route.path, "/api/*"),
        _ => panic!("expected a proxy hit"),
    }
}

#[test]
fn method_mismatch_falls_through_to_later_routes() {
    let config = config_with_routes(vec![
        route_for("/api/*", &["POST"], "backend"),
        route_for("/api/*", &[], "backend"),
    ]);
    match match_request(&config, "GET", "/api/x") {
        RouteOutcome::ProxyHit(route, _) => assert!(route.methods.is_empty()),
        _ => panic!("expected a proxy hit"),
    }
}

#[test]
fn static_rules_take_precedence_over_routes() {
    let mut config = config_with_routes(vec![route_for("/*", &[], "backend")]);
    config.static_files.push(StaticFileConfig {
        path: "/assets/".to_string(),
        root: "/var/www".to_string(),
        index: "index.html".to_string(),
        directory_listing: false,
    });
    match match_request(&config, "GET", "/assets/logo.png") {
        RouteOutcome::StaticHit(rule) => assert_eq!(rule.root, "/var/www"),
        _ => panic!("expected a static hit"),
    }
    match match_request(&config, "GET", "/api/x") {
        RouteOutcome::ProxyHit(route, up) => {
            assert_eq!(route.path, "/*");
            assert_eq!(up.servers[0].address, "localhost:8001");
        },
        _ => panic!("expected a proxy hit"),
    }
}

#[test]
fn unmatched_path_yields_no_match() {
    let config = config_with_routes(vec![route_for("/api/*", &[], "backend")]);
    assert!(matches!(match_request(&config, "GET", "/missing"), RouteOutcome::NoMatch));
}

#[test]
fn content_types_follow_the_extension() {
    assert_eq!(guess_content_type("html"), "text/html");
    assert_eq!(guess_content_type("htm"), "text/html");
    assert_eq!(guess_content_type("css"), "text/css");
    assert_eq!(guess_content_type("js"), "application/javascript");
    assert_eq!(guess_content_type("jpeg"), "image/jpeg");
    assert_eq!(guess_content_type("weird"), "application/octet-stream");
}
