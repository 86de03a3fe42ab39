//! The configuration store and the control-plane command handler.

use janus::config::BackendServer;
use janus::config::ConfigError;
use janus::config::JanusConfig;
use janus::config::LoadBalancing;
use janus::config::RouteConfig;
use janus::config::UpstreamConfig;
use janus::config::UpstreamEntry;
use janus::control::ClientMessage;
use janus::control::ControlEffect;
use janus::control::ServerMessage;
use janus::control::handle_message;
use janus::reload::apply_reload;
use janus::stats::Stats;
use janus::store::ConfigStore;

fn pool(addrs: &[&str]) -> UpstreamConfig {
    UpstreamConfig {
        servers: addrs
            .iter()
            .map(|a| BackendServer { address: a.to_string(), weight: 1, backup: false })
            .collect(),
        load_balancing: LoadBalancing::RoundRobin,
        health_check: None,
    }
}

fn route(path: &str, upstream: &str) -> RouteConfig {
    RouteConfig {
        path: path.to_string(),
        methods: Vec::new(),
        upstream: upstream.to_string(),
        rewrite: None,
        headers: Vec::new(),
        timeout: 30,
    }
}

fn sample_config() -> JanusConfig {
    let mut config = JanusConfig::default();
    config.upstreams.push(UpstreamEntry {
        name: "backend".to_string(),
        config: pool(&["localhost:8001", "localhost:8002"]),
    });
    config.routes.push(route("/api/*", "backend"));
    config
}

fn sample_store() -> ConfigStore {
    ConfigStore::new(sample_config()).unwrap()
}

fn success_text(reply: Option<ServerMessage>) -> String {
    match reply {
        Some(ServerMessage::Success(m)) => m,
        _ => panic!("expected a success reply"),
    }
}

fn error_text(reply: Option<ServerMessage>) -> String {
    match reply {
        Some(ServerMessage::Error(m)) => m,
        _ => panic!("expected an error reply"),
    }
}

#[test]
fn publish_then_read_returns_the_published_config() {
    let mut store = sample_store();
    let mut next = sample_config();
    next.server.port = 9000;
    assert!(store.publish(next).is_ok());
    assert_eq!(store.read().server.port, 9000);
}

#[test]
fn invalid_candidate_leaves_the_store_unchanged() {
    let mut store = sample_store();
    let mut bad = sample_config();
    bad.server.port = 0;
    let err = store.publish(bad).unwrap_err();
    assert!(matches!(err, ConfigError::ValidationError(m) if m == "Server port cannot be 0"));
    assert_eq!(store.read().server.port, 8080);
    assert_eq!(store.read().routes.len(), 1);
}

#[test]
fn store_rejects_an_invalid_initial_config() {
    let mut bad = sample_config();
    bad.routes.push(route("/x", "ghost"));
    assert!(ConfigStore::new(bad).is_err());
}

#[test]
fn status_reply_reports_the_snapshot_shape() {
    let mut store = sample_store();
    let stats = Stats { total_requests: 17, ..Default::default() };
    let outcome = handle_message(&mut store, &stats, 42, "1.2.3", ClientMessage::GetStatus);
    assert_eq!(outcome.effect, ControlEffect::NoEffect);
    match outcome.reply {
        Some(ServerMessage::Status(st)) => {
            assert!(st.running);
            assert_eq!(st.uptime_secs, 42);
            assert_eq!(st.active_connections, 17);
            assert_eq!(st.route_count, 1);
            assert_eq!(st.upstream_count, 1);
            assert_eq!(st.version, "1.2.3");
            assert_eq!(st.listen_address, "0.0.0.0:8080");
        },
        _ => panic!("expected a status reply"),
    }
}

#[test]
fn config_reply_mirrors_the_snapshot() {
    let mut store = sample_store();
    let stats = Stats::default();
    let outcome = handle_message(&mut store, &stats, 0, "1.0.0", ClientMessage::GetConfig);
    match outcome.reply {
        Some(ServerMessage::Config(c)) => {
            assert_eq!(c.routes.len(), 1);
            assert_eq!(c.routes[0].path, "/api/*");
            assert_eq!(c.upstreams[0].name, "backend");
        },
        _ => panic!("expected a config reply"),
    }
}

#[test]
fn stats_reply_echoes_the_counters() {
    let mut store = sample_store();
    let mut stats = Stats::default();
    stats.record_request();
    stats.record_transfer(100, 250);
    stats.update_status_stats(200);
    stats.update_status_stats(503);
    let outcome = handle_message(&mut store, &stats, 0, "1.0.0", ClientMessage::GetStats);
    match outcome.reply {
        Some(ServerMessage::Stats(s)) => {
            assert_eq!(s.total_requests, 1);
            assert_eq!(s.bytes_received, 100);
            assert_eq!(s.bytes_sent, 250);
            assert_eq!(s.status_codes.success, 1);
            assert_eq!(s.status_codes.server_error, 1);
            assert_eq!(s.status_codes.redirect, 0);
        },
        _ => panic!("expected a stats reply"),
    }
}

#[test]
fn update_config_replaces_wholesale_or_reports_the_first_violation() {
    let mut store = sample_store();
    let stats = Stats::default();
    let mut next = sample_config();
    next.server.port = 3000;
    let ok = handle_message(&mut store, &stats, 0, "1.0.0", ClientMessage::UpdateConfig(next));
    assert_eq!(ok.effect, ControlEffect::PersistConfig);
    assert_eq!(success_text(ok.reply), "Configuration updated");
    assert_eq!(store.read().server.port, 3000);

    let mut bad = sample_config();
    bad.routes.push(route("/y", "ghost"));
    let failed = handle_message(&mut store, &stats, 0, "1.0.0", ClientMessage::UpdateConfig(bad));
    assert_eq!(failed.effect, ControlEffect::NoEffect);
    assert_eq!(
        error_text(failed.reply),
        "Route '/y' references non-existent upstream 'ghost'"
    );
    assert_eq!(store.read().server.port, 3000);
}

#[test]
fn add_route_appends_after_checks() {
    let mut store = sample_store();
    let stats = Stats::default();
    let added = handle_message(
        &mut store,
        &stats,
        0,
        "1.0.0",
        ClientMessage::AddRoute(route("/v2/*", "backend")),
    );
    assert_eq!(added.effect, ControlEffect::PersistConfig);
    assert_eq!(success_text(added.reply), "Route added");
    assert_eq!(store.read().routes.len(), 2);
    assert_eq!(store.read().routes[1].path, "/v2/*");

    let unknown = handle_message(
        &mut store,
        &stats,
        0,
        "1.0.0",
        ClientMessage::AddRoute(route("/v3/*", "ghost")),
    );
    assert_eq!(unknown.effect, ControlEffect::NoEffect);
    assert_eq!(error_text(unknown.reply), "Upstream 'ghost' not found");

    let duplicate = handle_message(
        &mut store,
        &stats,
        0,
        "1.0.0",
        ClientMessage::AddRoute(route("/v2/*", "backend")),
    );
    assert_eq!(duplicate.effect, ControlEffect::NoEffect);
    assert_eq!(error_text(duplicate.reply), "Route '/v2/*' already exists");
    assert_eq!(store.read().routes.len(), 2);
}

#[test]
fn remove_route_deletes_by_path() {
    let mut store = sample_store();
    let stats = Stats::default();
    let missing = handle_message(
        &mut store,
        &stats,
        0,
        "1.0.0",
        ClientMessage::RemoveRoute("/nope".to_string()),
    );
    assert_eq!(missing.effect, ControlEffect::NoEffect);
    assert_eq!(error_text(missing.reply), "Route '/nope' not found");

    let removed = handle_message(
        &mut store,
        &stats,
        0,
        "1.0.0",
        ClientMessage::RemoveRoute("/api/*".to_string()),
    );
    assert_eq!(removed.effect, ControlEffect::PersistConfig);
    assert_eq!(success_text(removed.reply), "Route removed");
    assert!(store.read().routes.is_empty());
}

#[test]
fn update_upstream_creates_replaces_and_validates() {
    let mut store = sample_store();
    let stats = Stats::default();
    let created = handle_message(
        &mut store,
        &stats,
        0,
        "1.0.0",
        ClientMessage::UpdateUpstream {
            name: "cache".to_string(),
            config: pool(&["localhost:9001"]),
        },
    );
    assert_eq!(created.effect, ControlEffect::PersistConfig);
    assert_eq!(success_text(created.reply), "Upstream 'cache' updated");
    assert_eq!(store.read().upstreams.len(), 2);

    let replaced = handle_message(
        &mut store,
        &stats,
        0,
        "1.0.0",
        ClientMessage::UpdateUpstream {
            name: "backend".to_string(),
            config: pool(&["localhost:8003"]),
        },
    );
    assert_eq!(success_text(replaced.reply), "Upstream 'backend' updated");
    assert_eq!(store.read().upstreams.len(), 2);
    assert_eq!(store.read().upstreams[0].config.servers[0].address, "localhost:8003");

    let empty = handle_message(
        &mut store,
        &stats,
        0,
        "1.0.0",
        ClientMessage::UpdateUpstream { name: "backend".to_string(), config: pool(&[]) },
    );
    assert_eq!(empty.effect, ControlEffect::NoEffect);
    assert_eq!(error_text(empty.reply), "Upstream 'backend' has no servers configured");
    assert_eq!(store.read().upstreams[0].config.servers.len(), 1);
}

#[test]
fn remove_upstream_refuses_while_referenced_and_leaves_config_unchanged() {
    let mut store = sample_store();
    let stats = Stats::default();
    let in_use = handle_message(
        &mut store,
        &stats,
        0,
        "1.0.0",
        ClientMessage::RemoveUpstream("backend".to_string()),
    );
    assert_eq!(in_use.effect, ControlEffect::NoEffect);
    assert_eq!(
        error_text(in_use.reply),
        "Cannot remove upstream 'backend': still in use by routes"
    );
    assert_eq!(store.read().upstreams.len(), 1);
    assert_eq!(store.read().routes.len(), 1);

    let missing = handle_message(
        &mut store,
        &stats,
        0,
        "1.0.0",
        ClientMessage::RemoveUpstream("ghost".to_string()),
    );
    assert_eq!(error_text(missing.reply), "Upstream 'ghost' not found");

    // Once the route is gone the pool can be removed.
    let _ = handle_message(
        &mut store,
        &stats,
        0,
        "1.0.0",
        ClientMessage::RemoveRoute("/api/*".to_string()),
    );
    let removed = handle_message(
        &mut store,
        &stats,
        0,
        "1.0.0",
        ClientMessage::RemoveUpstream("backend".to_string()),
    );
    assert_eq!(removed.effect, ControlEffect::PersistConfig);
    assert_eq!(success_text(removed.reply), "Upstream 'backend' removed");
    assert!(store.read().upstreams.is_empty());
}

#[test]
fn reload_and_shutdown_produce_their_effects() {
    let mut store = sample_store();
    let stats = Stats::default();
    let reload = handle_message(&mut store, &stats, 0, "1.0.0", ClientMessage::ReloadConfig);
    assert!(reload.reply.is_none());
    assert_eq!(reload.effect, ControlEffect::ReloadFromFile);

    let shutdown = handle_message(&mut store, &stats, 0, "1.0.0", ClientMessage::Shutdown);
    assert!(matches!(shutdown.reply, Some(ServerMessage::ShuttingDown)));
    assert_eq!(shutdown.effect, ControlEffect::ShutdownRequested);
}

#[test]
fn reload_applies_a_valid_file_and_keeps_the_old_snapshot_otherwise() {
    let mut store = sample_store();
    let mut next = sample_config();
    next.server.port = 8181;
    assert!(apply_reload(&mut store, Ok(next)).is_ok());
    assert_eq!(store.read().server.port, 8181);

    let parse_failure: Result<JanusConfig, ConfigError> =
        Err(ConfigError::ParseError("unexpected token".to_string()));
    let err = apply_reload(&mut store, parse_failure).unwrap_err();
    assert!(matches!(err, ConfigError::ParseError(m) if m == "unexpected token"));
    assert_eq!(store.read().server.port, 8181);

    let mut bad = sample_config();
    bad.upstreams[0].config.servers.clear();
    let err2 = apply_reload(&mut store, Ok(bad)).unwrap_err();
    assert!(matches!(
        err2,
        ConfigError::ValidationError(m) if m == "Upstream 'backend' has no servers configured"
    ));
    assert_eq!(store.read().server.port, 8181);
}

#[test]
fn error_messages_carry_their_category() {
    assert_eq!(
        ConfigError::IoError("disk gone".to_string()).message(),
        "IO error: disk gone"
    );
    assert_eq!(
        ConfigError::ParseError("bad toml".to_string()).message(),
        "Parse error: bad toml"
    );
    assert_eq!(
        ConfigError::SerializeError("bad value".to_string()).message(),
        "Serialize error: bad value"
    );
    assert_eq!(
        ConfigError::ValidationError("bad rule".to_string()).message(),
        "Validation error: bad rule"
    );
}

#[test]
fn status_counters_classify_codes() {
    let mut stats = Stats::default();
    stats.update_status_stats(204);
    stats.update_status_stats(301);
    stats.update_status_stats(404);
    stats.update_status_stats(502);
    stats.update_status_stats(101);
    assert_eq!(stats.status_codes.success, 1);
    assert_eq!(stats.status_codes.redirect, 1);
    assert_eq!(stats.status_codes.client_error, 1);
    assert_eq!(stats.status_codes.server_error, 1);
}
