//! Configuration defaults, validation rules and upstream lookup.

use janus::config::BackendServer;
use janus::config::ConfigError;
use janus::config::JanusConfig;
use janus::config::LoadBalancing;
use janus::config::RouteConfig;
use janus::config::UpstreamConfig;
use janus::config::UpstreamEntry;
use janus::config::default_health_interval;
use janus::config::default_health_path;
use janus::config::default_health_timeout;
use janus::config::default_index;
use janus::config::default_timeout;
use janus::config::default_true;
use janus::config::default_weight;
use janus::config::lookup_upstream;
use janus::config::validate_config;

fn backend(addr: &str) -> BackendServer {
    BackendServer { address: addr.to_string(), weight: 1, backup: false }
}

fn pool(addrs: &[&str]) -> UpstreamConfig {
    UpstreamConfig {
        servers: addrs.iter().map(|a| backend(a)).collect(),
        load_balancing: LoadBalancing::RoundRobin,
        health_check: None,
    }
}

fn route(path: &str, upstream: &str) -> RouteConfig {
    RouteConfig {
        path: path.to_string(),
        methods: Vec::new(),
        upstream: upstream.to_string(),
        rewrite: None,
        headers: Vec::new(),
        timeout: 30,
    }
}

fn sample_config() -> JanusConfig {
    let mut config = JanusConfig::default();
    config.upstreams.push(UpstreamEntry {
        name: "backend".to_string(),
        config: pool(&["localhost:8001", "localhost:8002"]),
    });
    config.routes.push(route("/api/*", "backend"));
    config
}

#[test]
fn test_default_config() {
    let config = JanusConfig::default();
    assert_eq!(config.server.port, 8080);
    assert_eq!(config.server.bind_address, "0.0.0.0");
    assert!(config.management.enabled);
}

#[test]
fn default_values_match_documentation() {
    assert!(default_true());
    assert_eq!(default_weight(), 1);
    assert_eq!(default_health_interval(), 30);
    assert_eq!(default_health_timeout(), 5);
    assert_eq!(default_health_path(), "/health");
    assert_eq!(default_timeout(), 60);
    assert_eq!(default_index(), "index.html");
    let config = JanusConfig::default();
    assert_eq!(config.management.address, "127.0.0.1");
    assert_eq!(config.management.port, 9090);
    assert!(config.upstreams.is_empty());
    assert!(config.routes.is_empty());
    assert!(config.static_files.is_empty());
}

#[test]
fn valid_config_passes_validation() {
    let config = sample_config();
    assert!(validate_config(&config).is_ok());
}

#[test]
fn zero_server_port_is_rejected() {
    let mut config = sample_config();
    config.server.port = 0;
    let err = validate_config(&config).unwrap_err();
    assert!(matches!(err, ConfigError::ValidationError(m) if m == "Server port cannot be 0"));
}

#[test]
fn zero_management_port_is_rejected_when_enabled() {
    let mut config = sample_config();
    config.management.port = 0;
    let err = validate_config(&config).unwrap_err();
    assert!(matches!(err, ConfigError::ValidationError(m) if m == "Management port cannot be 0"));

    let mut disabled = sample_config();
    disabled.management.port = 0;
    disabled.management.enabled = false;
    assert!(validate_config(&disabled).is_ok());
}

#[test]
fn route_with_unknown_upstream_is_rejected() {
    let mut config = sample_config();
    config.routes.push(route("/other/*", "missing"));
    let err = validate_config(&config).unwrap_err();
    assert!(matches!(
        err,
        ConfigError::ValidationError(m)
            if m == "Route '/other/*' references non-existent upstream 'missing'"
    ));
}

#[test]
fn upstream_without_servers_is_rejected() {
    let mut config = sample_config();
    config.upstreams.push(UpstreamEntry { name: "empty".to_string(), config: pool(&[]) });
    let err = validate_config(&config).unwrap_err();
    assert!(matches!(
        err,
        ConfigError::ValidationError(m) if m == "Upstream 'empty' has no servers configured"
    ));
}

#[test]
fn lookup_finds_first_matching_entry() {
    let config = sample_config();
    let found = lookup_upstream(&config.upstreams, "backend").unwrap();
    assert_eq!(found.servers.len(), 2);
    assert_eq!(found.servers[0].address, "localhost:8001");
    assert!(lookup_upstream(&config.upstreams, "nope").is_none());
}

#[test]
fn clone_preserves_the_rendered_configuration() {
    let config = sample_config();
    let copy = config.clone();
    assert_eq!(copy.server.port, config.server.port);
    assert_eq!(copy.routes.len(), config.routes.len());
    assert_eq!(copy.routes[0].path, config.routes[0].path);
    assert_eq!(copy.upstreams.len(), config.upstreams.len());
    assert_eq!(copy.upstreams[0].name, config.upstreams[0].name);
    assert_eq!(
        copy.upstreams[0].config.servers[1].address,
        config.upstreams[0].config.servers[1].address
    );
}
