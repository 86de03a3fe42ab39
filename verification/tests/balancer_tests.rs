//! Backend selection policies and the per-pool selection state.

use janus::balancer::ProxyHandler;
use janus::balancer::SelectError;
use janus::balancer::SelectorState;
use janus::balancer::fnv1a_hash;
use janus::config::BackendServer;
use janus::config::JanusConfig;
use janus::config::LoadBalancing;
use janus::config::RouteConfig;
use janus::config::UpstreamConfig;
use janus::config::UpstreamEntry;
use janus::router::RouteOutcome;
use janus::router::match_request;

fn server(addr: &str, backup: bool) -> BackendServer {
    BackendServer { address: addr.to_string(), weight: 1, backup }
}

fn pool_with(policy: LoadBalancing, servers: Vec<BackendServer>) -> UpstreamConfig {
    UpstreamConfig { servers, load_balancing: policy, health_check: None }
}

fn api_route() -> RouteConfig {
    RouteConfig {
        path: "/api/*".to_string(),
        methods: Vec::new(),
        upstream: "backend".to_string(),
        rewrite: None,
        headers: Vec::new(),
        timeout: 30,
    }
}

#[test]
fn round_robin_cycles_through_primaries() {
    let pool = pool_with(
        LoadBalancing::RoundRobin,
        vec![server("a:1", false), server("b:1", false)],
    );
    let mut handler = ProxyHandler::new(pool, api_route());
    assert_eq!(handler.select_backend("10.0.0.1").unwrap(), "a:1");
    assert_eq!(handler.select_backend("10.0.0.1").unwrap(), "b:1");
    assert_eq!(handler.select_backend("10.0.0.1").unwrap(), "a:1");
    assert_eq!(handler.select_backend("10.0.0.1").unwrap(), "b:1");
}

#[test]
fn round_robin_visits_each_of_three_backends_once_per_cycle() {
    let pool = pool_with(
        LoadBalancing::RoundRobin,
        vec![server("a:1", false), server("b:1", false), server("c:1", false)],
    );
    let mut handler = ProxyHandler::new(pool, api_route());
    let mut seen: Vec<String> = Vec::new();
    for _ in 0..3 {
        seen.push(handler.select_backend("10.0.0.1").unwrap());
    }
    let mut sorted = seen.clone();
    sorted.sort();
    assert_eq!(sorted, vec!["a:1".to_string(), "b:1".to_string(), "c:1".to_string()]);
}

#[test]
fn backups_are_skipped_while_a_primary_exists() {
    let pool = pool_with(
        LoadBalancing::RoundRobin,
        vec![server("backup:1", true), server("primary:1", false)],
    );
    let mut handler = ProxyHandler::new(pool, api_route());
    assert_eq!(handler.select_backend("10.0.0.1").unwrap(), "primary:1");
    assert_eq!(handler.select_backend("10.0.0.1").unwrap(), "primary:1");
}

#[test]
fn first_backup_serves_when_no_primary_exists() {
    let pool = pool_with(
        LoadBalancing::RoundRobin,
        vec![server("backup1:1", true), server("backup2:1", true)],
    );
    let mut handler = ProxyHandler::new(pool, api_route());
    assert_eq!(handler.select_backend("10.0.0.1").unwrap(), "backup1:1");
}

#[test]
fn empty_pool_reports_no_backend() {
    let pool = pool_with(LoadBalancing::RoundRobin, Vec::new());
    let mut handler = ProxyHandler::new(pool, api_route());
    assert_eq!(handler.select_backend("10.0.0.1").unwrap_err(), SelectError::NoBackendAvailable);
}

#[test]
fn ip_hash_is_deterministic_per_client() {
    let pool = pool_with(
        LoadBalancing::IpHash,
        vec![server("a:1", false), server("b:1", false), server("c:1", false)],
    );
    let mut handler = ProxyHandler::new(pool, api_route());
    let first = handler.select_backend("203.0.113.7").unwrap();
    for _ in 0..5 {
        assert_eq!(handler.select_backend("203.0.113.7").unwrap(), first);
    }
    // The hash reads only the address bytes, so two handlers agree.
    let pool2 = pool_with(
        LoadBalancing::IpHash,
        vec![server("a:1", false), server("b:1", false), server("c:1", false)],
    );
    let mut other = ProxyHandler::new(pool2, api_route());
    assert_eq!(other.select_backend("203.0.113.7").unwrap(), first);
}

#[test]
fn fnv_hash_depends_only_on_the_bytes() {
    assert_eq!(fnv1a_hash("203.0.113.7"), fnv1a_hash("203.0.113.7"));
    assert_ne!(fnv1a_hash("203.0.113.7"), fnv1a_hash("203.0.113.8"));
}

#[test]
fn random_policy_picks_a_primary() {
    let pool = pool_with(
        LoadBalancing::Random,
        vec![server("a:1", false), server("b:1", false), server("backup:1", true)],
    );
    let mut handler = ProxyHandler::new(pool, api_route());
    for _ in 0..10 {
        let picked = handler.select_backend("10.0.0.1").unwrap();
        assert!(picked == "a:1" || picked == "b:1");
    }
}

#[test]
fn least_connections_prefers_the_idle_backend() {
    let pool = pool_with(
        LoadBalancing::LeastConnections,
        vec![server("a:1", false), server("b:1", false)],
    );
    let mut selector = SelectorState::new(1);
    // First selection: both idle, the first primary wins.
    let first = selector.select("backend", &pool, "10.0.0.1").unwrap().address.clone();
    assert_eq!(first, "a:1");
    // One request in flight on the first backend: the second wins.
    selector.dispatch_started("backend", 0);
    let second = selector.select("backend", &pool, "10.0.0.1").unwrap().address.clone();
    assert_eq!(second, "b:1");
    // It finished: ties go to the first again.
    selector.dispatch_finished("backend", 0);
    let third = selector.select("backend", &pool, "10.0.0.1").unwrap().address.clone();
    assert_eq!(third, "a:1");
}

#[test]
fn selector_keeps_the_cursor_of_a_pool_across_snapshots() {
    let pool = pool_with(
        LoadBalancing::RoundRobin,
        vec![server("a:1", false), server("b:1", false)],
    );
    let mut selector = SelectorState::new(7);
    assert_eq!(selector.select("backend", &pool, "10.0.0.1").unwrap().address, "a:1");
    // A reload republishes an equal pool under the same name: the cursor
    // carries on instead of restarting.
    let reloaded = pool_with(
        LoadBalancing::RoundRobin,
        vec![server("a:1", false), server("b:1", false)],
    );
    assert_eq!(selector.select("backend", &reloaded, "10.0.0.1").unwrap().address, "b:1");
    // A different pool name gets its own cursor.
    assert_eq!(selector.select("other", &reloaded, "10.0.0.1").unwrap().address, "a:1");
}

#[test]
fn matched_route_dispatches_round_robin_across_requests() {
    // Upstream `backend` holds two primaries A and B; route `/api/*`
    // targets it. Three sequential requests reach A, B, A.
    let mut config = JanusConfig::default();
    config.upstreams.push(UpstreamEntry {
        name: "backend".to_string(),
        config: pool_with(
            LoadBalancing::RoundRobin,
            vec![server("A:1", false), server("B:1", false)],
        ),
    });
    config.routes.push(api_route());

    let mut selector = SelectorState::new(0);
    let mut picked: Vec<String> = Vec::new();
    for _ in 0..3 {
        match match_request(&config, "GET", "/api/x") {
            RouteOutcome::ProxyHit(route, pool) => {
                let backend = selector.select(&route.upstream, pool, "10.0.0.9").unwrap();
                picked.push(backend.address.clone());
            },
            _ => panic!("expected a proxy hit"),
        }
    }
    assert_eq!(picked, vec!["A:1".to_string(), "B:1".to_string(), "A:1".to_string()]);
}

#[test]
fn round_robin_cursor_wraps_at_the_limit() {
    let pool = pool_with(
        LoadBalancing::RoundRobin,
        vec![server("a:1", false), server("b:1", false)],
    );
    let mut handler = ProxyHandler::new(pool, api_route());
    handler.state.counter = u64::MAX;
    let _ = handler.select_backend("10.0.0.1").unwrap();
    assert_eq!(handler.state.counter, 0);
}
