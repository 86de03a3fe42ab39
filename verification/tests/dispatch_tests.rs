//! Path rewriting, outbound headers, error pages, debounce and text
//! helpers.

use janus::config::HeaderPair;
use janus::config::RouteConfig;
use janus::dispatch::DispatchOutcome;
use janus::dispatch::apply_rewrite;
use janus::dispatch::build_outbound_path;
use janus::dispatch::dispatch_message;
use janus::dispatch::dispatch_status;
use janus::dispatch::error_response;
use janus::dispatch::host_of_address;
use janus::dispatch::outbound_headers;
use janus::reload::ReloadDebounce;
use janus::text::str_eq;
use janus::text::str_starts_with;
use janus::text::u64_to_dec;
use janus::tui::Tab;
use janus::tui::format_duration;

fn header(name: &str, value: &str) -> HeaderPair {
    HeaderPair { name: name.to_string(), value: value.to_string() }
}

fn rewriting_route(pattern: &str, rewrite: Option<&str>) -> RouteConfig {
    RouteConfig {
        path: pattern.to_string(),
        methods: Vec::new(),
        upstream: "backend".to_string(),
        rewrite: rewrite.map(|r| r.to_string()),
        headers: vec![header("X-Forwarded-Proto", "http")],
        timeout: 30,
    }
}

#[test]
fn rewrite_replaces_the_pattern_prefix() {
    assert_eq!(apply_rewrite("/api/v1/users", "/api/*", "/backend"), "/backend/v1/users");
    assert_eq!(apply_rewrite("/api/v1/users", "/api/*", "/backend/"), "/backend/v1/users");
    assert_eq!(apply_rewrite("/api", "/api/*", "/x"), "/x");
    // A path that does not carry the prefix is appended unchanged.
    assert_eq!(apply_rewrite("/other", "/api/*", "/x"), "/x/other");
    // A plain pattern is its own literal prefix.
    assert_eq!(apply_rewrite("/health", "/health", "/status"), "/status");
    // Every trailing slash of the rewrite string is normalized away.
    assert_eq!(apply_rewrite("/api/x", "/api/*", "/y///"), "/y/x");
    // A bare-star pattern keeps the whole path.
    assert_eq!(apply_rewrite("/any/where", "*", "/base"), "/base/any/where");
}

#[test]
fn outbound_path_appends_the_query_verbatim() {
    let route = rewriting_route("/api/*", Some("/backend"));
    assert_eq!(build_outbound_path("/api/list", Some("page=2&x=%20"), &route), "/backend/list?page=2&x=%20");
    let plain = rewriting_route("/api/*", None);
    assert_eq!(build_outbound_path("/api/list", None, &plain), "/api/list");
    assert_eq!(build_outbound_path("/api/list", Some("q"), &plain), "/api/list?q");
}

#[test]
fn outbound_headers_drop_host_and_append_extras() {
    let route = rewriting_route("/api/*", None);
    let inbound = vec![
        header("Accept", "*/*"),
        header("Host", "proxy.example"),
        header("X-Trace", "abc"),
    ];
    let out = outbound_headers(&inbound, &route, "backend.internal");
    assert_eq!(out.len(), 4);
    assert_eq!(out[0].name, "Accept");
    assert_eq!(out[1].name, "X-Trace");
    assert_eq!(out[2].name, "X-Forwarded-Proto");
    assert_eq!(out[2].value, "http");
    assert_eq!(out[3].name, "Host");
    assert_eq!(out[3].value, "backend.internal");
}

#[test]
fn host_is_the_part_before_the_port() {
    assert_eq!(host_of_address("localhost:8001"), "localhost");
    assert_eq!(host_of_address("backend.internal"), "backend.internal");
    assert_eq!(host_of_address("10.0.0.5:80"), "10.0.0.5");
}

#[test]
fn error_pages_share_one_template() {
    let page = error_response(404, "Not Found");
    assert_eq!(page.status, 404);
    assert_eq!(page.content_type, "text/html");
    assert_eq!(
        page.body,
        "<!DOCTYPE html>\n<html>\n<head><title>404 Not Found</title></head>\n<body>\n    <h1>404 Not Found</h1>\n    <hr>\n    <p>Janus Server</p>\n</body>\n</html>"
    );
}

#[test]
fn failed_round_trips_map_to_gateway_statuses() {
    assert_eq!(dispatch_status(DispatchOutcome::Completed(200)), 200);
    assert_eq!(dispatch_status(DispatchOutcome::Completed(418)), 418);
    assert_eq!(dispatch_status(DispatchOutcome::TimedOut), 504);
    assert_eq!(dispatch_status(DispatchOutcome::TransportFailed), 502);
    assert_eq!(dispatch_status(DispatchOutcome::NoBackend), 502);
    assert_eq!(dispatch_message(DispatchOutcome::TimedOut), "Gateway Timeout");
    assert_eq!(dispatch_message(DispatchOutcome::TransportFailed), "Bad Gateway");
    assert_eq!(dispatch_message(DispatchOutcome::NoBackend), "Bad Gateway");
}

#[test]
fn three_events_inside_one_window_reload_at_most_once() {
    let mut debounce = ReloadDebounce::new(0);
    assert!(debounce.on_event(600));
    assert!(!debounce.on_event(700));
    assert!(!debounce.on_event(900));
    // The next window opens 500ms after the accepted event.
    assert!(debounce.on_event(1100));
}

#[test]
fn events_in_the_first_window_after_start_are_discarded() {
    let mut debounce = ReloadDebounce::new(1000);
    assert!(!debounce.on_event(1100));
    assert!(!debounce.on_event(1499));
    assert!(debounce.on_event(1500));
}

#[test]
fn durations_render_like_clocks() {
    assert_eq!(format_duration(0), "0s");
    assert_eq!(format_duration(59), "59s");
    assert_eq!(format_duration(61), "1m 1s");
    assert_eq!(format_duration(3661), "1h 1m 1s");
    assert_eq!(format_duration(90061), "1d 1h 1m 1s");
}

#[test]
fn decimal_rendering_matches_the_standard_one() {
    assert_eq!(u64_to_dec(0), "0");
    assert_eq!(u64_to_dec(8080), "8080");
    assert_eq!(u64_to_dec(u64::MAX), u64::MAX.to_string());
}

#[test]
fn text_helpers_compare_views() {
    assert!(str_eq("abc", "abc"));
    assert!(!str_eq("abc", "abd"));
    assert!(str_starts_with("/api/v1", "/api"));
    assert!(!str_starts_with("/api", "/api/v1"));
}

#[test]
fn tabs_expose_their_names_in_order() {
    let tabs = Tab::all();
    assert_eq!(tabs.len(), 6);
    assert_eq!(tabs[0].name(), "Status");
    assert_eq!(tabs[1].name(), "Routes");
    assert_eq!(tabs[2].name(), "Upstreams");
    assert_eq!(tabs[3].name(), "Config");
    assert_eq!(tabs[4].name(), "Stats");
    assert_eq!(tabs[5].name(), "Help");
}
