//! The control plane: the closed command and reply types of the
//! operator channel, and the handler that maps each command to exactly
//! one reply and, for mutating commands, to a validated store update.
//!
//! The process around the library decodes one command per inbound
//! message, calls `handle_message`, sends the reply, and performs the
//! returned effect: persisting the new snapshot, reloading from the
//! file (through `reload::apply_reload`), or shutting down.

use vstd::prelude::*;

use crate::config::ConfigError;
use crate::config::JanusConfig;
use crate::config::RouteConfig;
use crate::config::UpstreamConfig;
use crate::config::UpstreamEntry;
use crate::config::config_eqv;
use crate::config::entry_named;
use crate::config::entry_not_named;
use crate::config::lemma_config_eqv_valid;
use crate::config::lemma_upstreams_eqv_contain;
use crate::config::lookup_upstream;
use crate::config::route_eqv;
use crate::config::routes_eqv;
use crate::config::upstream_entry_eqv;
use crate::config::upstream_index;
use crate::config::upstreams_contain;
use crate::config::upstreams_eqv;
use crate::config::valid_config;
use crate::config::validation_message;
use crate::seq_search::first_where;
use crate::seq_search::lemma_first_where_is;
use crate::seq_search::lemma_first_where_none;
use crate::stats::Stats;
use crate::stats::StatusCodeStats;
use crate::store::ConfigStore;
use crate::store::publish_result;
use crate::text::dec_chars;
use crate::text::str_eq;
use crate::text::u64_to_dec;

verus! {

// ------------------------------------------------------------------
// The wire-level command and reply types.
// ------------------------------------------------------------------

/// Commands a control-channel client can send. Every command maps to
/// exactly one reply.
pub enum ClientMessage {
    /// Request current server status.
    GetStatus,
    /// Request the current configuration snapshot.
    GetConfig,
    /// Replace the entire configuration (validated, then published).
    UpdateConfig(JanusConfig),
    /// Add a new route.
    AddRoute(RouteConfig),
    /// Remove every route with this path.
    RemoveRoute(String),
    /// Create or replace an upstream pool by name.
    UpdateUpstream {
        /// The pool's name.
        name: String,
        /// The pool bound to that name.
        config: UpstreamConfig,
    },
    /// Remove an upstream (fails while routes still reference it).
    RemoveUpstream(String),
    /// Re-read, validate and publish the configuration file.
    ReloadConfig,
    /// Request accumulated statistics.
    GetStats,
    /// Request graceful shutdown.
    Shutdown,
}

/// Replies and notifications the server sends.
pub enum ServerMessage {
    /// Status reply.
    Status(ServerStatus),
    /// Configuration snapshot reply.
    Config(JanusConfig),
    /// Statistics reply.
    Stats(ServerStats),
    /// The command succeeded.
    Success(String),
    /// The command failed; the connection stays open.
    Error(String),
    /// Broadcast after a successful full-config replace or reload.
    ConfigReloaded,
    /// The server is shutting down.
    ShuttingDown,
}

/// A status snapshot for operators.
pub struct ServerStatus {
    /// The server is running.
    pub running: bool,
    /// Seconds since the process started.
    pub uptime_secs: u64,
    /// Number of active connections.
    pub active_connections: u64,
    /// Number of configured routes.
    pub route_count: usize,
    /// Number of configured upstream pools.
    pub upstream_count: usize,
    /// Server version.
    pub version: String,
    /// The data-plane listening address, `host:port`.
    pub listen_address: String,
}

/// Accumulated counters for operators.
pub struct ServerStats {
    /// Total requests handled.
    pub total_requests: u64,
    /// Total bytes received.
    pub bytes_received: u64,
    /// Total bytes sent.
    pub bytes_sent: u64,
    /// Response status code counts.
    pub status_codes: StatusCodeStats,
}

/// What the process must do after sending the reply.
#[derive(Clone, Copy, Debug, PartialEq, Eq, Structural)]
pub enum ControlEffect {
    /// Nothing beyond the reply.
    NoEffect,
    /// Persist the freshly-published snapshot to the origin file before
    /// reporting success durably, and notify other clients.
    PersistConfig,
    /// Read and parse the origin file and feed it to the store.
    ReloadFromFile,
    /// Begin graceful shutdown.
    ShutdownRequested,
}

/// One handled command: the reply to send (absent only for the reload
/// command, whose reply depends on the file the process then reads) and
/// the effect to perform.
pub struct ControlOutcome {
    /// The reply, ready to encode.
    pub reply: Option<ServerMessage>,
    /// What to do after replying.
    pub effect: ControlEffect,
}

// ------------------------------------------------------------------
// Spec helpers over routes.
// ------------------------------------------------------------------

/// The predicate "this route's pattern is exactly `path`".
pub open spec fn route_path_is(path: Seq<char>) -> spec_fn(RouteConfig) -> bool {
    |r: RouteConfig| r.path@ == path
}

/// The predicate "this route's pattern is not `path`".
pub open spec fn route_path_differs(path: Seq<char>) -> spec_fn(RouteConfig) -> bool {
    |r: RouteConfig| r.path@ != path
}

/// True when some route's pattern is exactly `path`.
pub open spec fn routes_contain_path(routes: Seq<RouteConfig>, path: Seq<char>) -> bool {
    exists|i: int| 0 <= i < routes.len() && routes[i].path@ == path
}

/// True when some route targets the upstream called `name`.
pub open spec fn any_route_uses(routes: Seq<RouteConfig>, name: Seq<char>) -> bool {
    exists|i: int| 0 <= i < routes.len() && routes[i].upstream@ == name
}

/// Finds the position of the first route with pattern `path`.
pub fn route_index(routes: &Vec<RouteConfig>, path: &str) -> (r: Option<usize>)
    ensures
        (r is Some) == routes_contain_path(routes@, path@),
        match first_where(routes@, route_path_is(path@)) {
            Some(i) => r matches Some(x) && x as int == i && i < routes@.len(),
            None => r is None,
        },
{
    let mut i: usize = 0;
    while i < routes.len()
        invariant
            0 <= i <= routes@.len(),
            forall|k: int| 0 <= k < i ==> (#[trigger] routes@[k]).path@ != path@,
        decreases routes@.len() - i,
    {
        if str_eq(routes[i].path.as_str(), path) {
            proof {
                lemma_first_where_is(routes@, route_path_is(path@), i as int);
            }
            return Some(i);
        }
        i += 1;
    }
    proof {
        lemma_first_where_none(routes@, route_path_is(path@));
    }
    None
}

// ------------------------------------------------------------------
// What each command promises.
// ------------------------------------------------------------------

/// The parts a route mutation leaves untouched.
pub open spec fn same_but_routes(now: JanusConfig, cfg0: JanusConfig) -> bool {
    &&& now.server == cfg0.server
    &&& now.management == cfg0.management
    &&& upstreams_eqv(now.upstreams@, cfg0.upstreams@)
    &&& now.static_files@ == cfg0.static_files@
}

/// The parts an upstream mutation leaves untouched.
pub open spec fn same_but_upstreams(now: JanusConfig, cfg0: JanusConfig) -> bool {
    &&& now.server == cfg0.server
    &&& now.management == cfg0.management
    &&& routes_eqv(now.routes@, cfg0.routes@)
    &&& now.static_files@ == cfg0.static_files@
}

/// A status query reports the live counters and the snapshot's shape and
/// changes nothing.
pub open spec fn get_status_post(
    cfg0: JanusConfig,
    total_requests: u64,
    uptime_secs: u64,
    version: Seq<char>,
    r: ControlOutcome,
) -> bool {
    &&& r.effect is NoEffect
    &&& r.reply matches Some(ServerMessage::Status(st)) && {
        &&& st.running
        &&& st.uptime_secs == uptime_secs
        &&& st.active_connections == total_requests
        &&& st.route_count == cfg0.routes@.len()
        &&& st.upstream_count == cfg0.upstreams@.len()
        &&& st.version@ == version
        &&& st.listen_address@ == cfg0.server.bind_address@ + ":"@ + dec_chars(
            cfg0.server.port as nat,
        )
    }
}

/// A config query replies with the published snapshot and changes
/// nothing.
pub open spec fn get_config_post(cfg0: JanusConfig, r: ControlOutcome) -> bool {
    &&& r.effect is NoEffect
    &&& r.reply matches Some(ServerMessage::Config(c)) && config_eqv(c, cfg0)
}

/// A stats query reports the counters as they stand and changes nothing.
pub open spec fn get_stats_post(stats: Stats, r: ControlOutcome) -> bool {
    &&& r.effect is NoEffect
    &&& r.reply matches Some(ServerMessage::Stats(s)) && {
        &&& s.total_requests == stats.total_requests
        &&& s.bytes_received == stats.bytes_received
        &&& s.bytes_sent == stats.bytes_sent
        &&& s.status_codes == stats.status_codes
    }
}

/// A full replace behaves exactly like a publish: a valid candidate
/// becomes the snapshot and is persisted; an invalid one changes nothing
/// and the reply carries the first violated rule's reason.
pub open spec fn update_config_post(
    cfg0: JanusConfig,
    c: JanusConfig,
    now: JanusConfig,
    r: ControlOutcome,
) -> bool {
    &&& now == publish_result(cfg0, c)
    &&& if valid_config(c) {
        (r.reply matches Some(ServerMessage::Success(m)) && m@ == "Configuration updated"@)
            && r.effect is PersistConfig
    } else {
        (r.reply matches Some(ServerMessage::Error(m)) && m@ == validation_message(c))
            && r.effect is NoEffect
    }
}

/// Adding a route fails when its upstream is unknown or its path
/// duplicates an existing route, leaving the snapshot unchanged;
/// otherwise the route is appended after the existing ones and the new
/// snapshot is persisted.
pub open spec fn add_route_post(
    cfg0: JanusConfig,
    route: RouteConfig,
    now: JanusConfig,
    r: ControlOutcome,
) -> bool {
    if !upstreams_contain(cfg0.upstreams@, route.upstream@) {
        &&& now == cfg0
        &&& r.effect is NoEffect
        &&& r.reply matches Some(ServerMessage::Error(m)) && m@ == "Upstream '"@ + route.upstream@
            + "' not found"@
    } else if routes_contain_path(cfg0.routes@, route.path@) {
        &&& now == cfg0
        &&& r.effect is NoEffect
        &&& r.reply matches Some(ServerMessage::Error(m)) && m@ == "Route '"@ + route.path@
            + "' already exists"@
    } else {
        &&& same_but_routes(now, cfg0)
        &&& now.routes@.len() == cfg0.routes@.len() + 1
        &&& routes_eqv(now.routes@.take(cfg0.routes@.len() as int), cfg0.routes@)
        &&& now.routes@.last() == route
        &&& r.effect is PersistConfig
        &&& r.reply matches Some(ServerMessage::Success(m)) && m@ == "Route added"@
    }
}

/// Removing a route fails when no route has the given path; otherwise
/// every route with that path is removed, in-order, and the new snapshot
/// is persisted.
pub open spec fn remove_route_post(
    cfg0: JanusConfig,
    path: Seq<char>,
    now: JanusConfig,
    r: ControlOutcome,
) -> bool {
    if !routes_contain_path(cfg0.routes@, path) {
        &&& now == cfg0
        &&& r.effect is NoEffect
        &&& r.reply matches Some(ServerMessage::Error(m)) && m@ == "Route '"@ + path
            + "' not found"@
    } else {
        &&& same_but_routes(now, cfg0)
        &&& routes_eqv(now.routes@, cfg0.routes@.filter(route_path_differs(path)))
        &&& r.effect is PersistConfig
        &&& r.reply matches Some(ServerMessage::Success(m)) && m@ == "Route removed"@
    }
}

/// Upserting a pool validates the result (the pool must have at least
/// one backend); on success the entry for `name` is replaced in place,
/// or appended when the name is new, and the new snapshot is persisted.
pub open spec fn update_upstream_post(
    cfg0: JanusConfig,
    name: String,
    config: UpstreamConfig,
    now: JanusConfig,
    r: ControlOutcome,
) -> bool {
    if config.servers@.len() == 0 {
        &&& now == cfg0
        &&& r.effect is NoEffect
        &&& r.reply matches Some(ServerMessage::Error(m)) && m@ == "Upstream '"@ + name@
            + "' has no servers configured"@
    } else {
        &&& same_but_upstreams(now, cfg0)
        &&& (match first_where(cfg0.upstreams@, entry_named(name@)) {
            Some(i) => {
                &&& now.upstreams@.len() == cfg0.upstreams@.len()
                &&& (forall|k: int|
                    0 <= k < cfg0.upstreams@.len() && k != i ==> upstream_entry_eqv(
                        #[trigger] now.upstreams@[k],
                        cfg0.upstreams@[k],
                    ))
                &&& now.upstreams@[i].name == name
                &&& now.upstreams@[i].config == config
            },
            None => {
                &&& now.upstreams@.len() == cfg0.upstreams@.len() + 1
                &&& (forall|k: int|
                    0 <= k < cfg0.upstreams@.len() ==> upstream_entry_eqv(
                        #[trigger] now.upstreams@[k],
                        cfg0.upstreams@[k],
                    ))
                &&& now.upstreams@.last().name == name
                &&& now.upstreams@.last().config == config
            },
        })
        &&& r.effect is PersistConfig
        &&& r.reply matches Some(ServerMessage::Success(m)) && m@ == "Upstream '"@ + name@
            + "' updated"@
    }
}

/// Removing an upstream fails while any route still references it, and
/// when no pool has that name; otherwise every entry with that name is
/// removed and the new snapshot is persisted.
pub open spec fn remove_upstream_post(
    cfg0: JanusConfig,
    name: Seq<char>,
    now: JanusConfig,
    r: ControlOutcome,
) -> bool {
    if any_route_uses(cfg0.routes@, name) {
        &&& now == cfg0
        &&& r.effect is NoEffect
        &&& r.reply matches Some(ServerMessage::Error(m)) && m@ == "Cannot remove upstream '"@
            + name + "': still in use by routes"@
    } else if !upstreams_contain(cfg0.upstreams@, name) {
        &&& now == cfg0
        &&& r.effect is NoEffect
        &&& r.reply matches Some(ServerMessage::Error(m)) && m@ == "Upstream '"@ + name
            + "' not found"@
    } else {
        &&& same_but_upstreams(now, cfg0)
        &&& upstreams_eqv(now.upstreams@, cfg0.upstreams@.filter(entry_not_named(name)))
        &&& r.effect is PersistConfig
        &&& r.reply matches Some(ServerMessage::Success(m)) && m@ == "Upstream '"@ + name
            + "' removed"@
    }
}

// ------------------------------------------------------------------
// The handler.
// ------------------------------------------------------------------

/// Builds `prefix + middle + suffix` as one owned string.
fn quoted_message(prefix: &str, middle: &str, suffix: &str) -> (r: String)
    ensures
        r@ == prefix@ + middle@ + suffix@,
{
    let mut m = prefix.to_owned();
    m.append(middle);
    m.append(suffix);
    m
}

/// Handles one decoded control command against the store and the live
/// counters. Each command yields exactly one outcome; mutating commands
/// validate a full candidate and publish it atomically, so a failed
/// command never changes what readers observe. Only the reload command
/// defers its reply, because it depends on the file the process reads
/// next.
pub fn handle_message(
    store: &mut ConfigStore,
    stats: &Stats,
    uptime_secs: u64,
    version: &str,
    msg: ClientMessage,
) -> (r: ControlOutcome)
    ensures
        (r.reply is None) == (msg is ReloadConfig),
        msg matches ClientMessage::GetStatus ==> final(store).snapshot() == old(store).snapshot()
            && get_status_post(
            old(store).snapshot(),
            stats.total_requests,
            uptime_secs,
            version@,
            r,
        ),
        msg matches ClientMessage::GetConfig ==> final(store).snapshot() == old(store).snapshot()
            && get_config_post(old(store).snapshot(), r),
        msg matches ClientMessage::GetStats ==> final(store).snapshot() == old(store).snapshot()
            && get_stats_post(*stats, r),
        msg matches ClientMessage::UpdateConfig(c) ==> update_config_post(
            old(store).snapshot(),
            c,
            final(store).snapshot(),
            r,
        ),
        msg matches ClientMessage::AddRoute(route) ==> add_route_post(
            old(store).snapshot(),
            route,
            final(store).snapshot(),
            r,
        ),
        msg matches ClientMessage::RemoveRoute(path) ==> remove_route_post(
            old(store).snapshot(),
            path@,
            final(store).snapshot(),
            r,
        ),
        msg matches ClientMessage::UpdateUpstream { name, config } ==> update_upstream_post(
            old(store).snapshot(),
            name,
            config,
            final(store).snapshot(),
            r,
        ),
        msg matches ClientMessage::RemoveUpstream(name) ==> remove_upstream_post(
            old(store).snapshot(),
            name@,
            final(store).snapshot(),
            r,
        ),
        msg is ReloadConfig ==> final(store).snapshot() == old(store).snapshot() && r.effect is
            ReloadFromFile,
        msg is Shutdown ==> final(store).snapshot() == old(store).snapshot() && (
        r.reply matches Some(ServerMessage::ShuttingDown)) && r.effect is ShutdownRequested,
{
    match msg {
        ClientMessage::GetStatus => {
            let current = store.read();
            let mut addr = current.server.bind_address.clone();
            addr.append(":");
            let port_text = u64_to_dec(current.server.port as u64);
            addr.append(port_text.as_str());
            let st = ServerStatus {
                running: true,
                uptime_secs,
                active_connections: stats.total_requests,
                route_count: current.routes.len(),
                upstream_count: current.upstreams.len(),
                version: version.to_owned(),
                listen_address: addr,
            };
            ControlOutcome {
                reply: Some(ServerMessage::Status(st)),
                effect: ControlEffect::NoEffect,
            }
        },
        ClientMessage::GetConfig => {
            let current = store.read();
            ControlOutcome {
                reply: Some(ServerMessage::Config(current.clone())),
                effect: ControlEffect::NoEffect,
            }
        },
        ClientMessage::GetStats => {
            let s = ServerStats {
                total_requests: stats.total_requests,
                bytes_received: stats.bytes_received,
                bytes_sent: stats.bytes_sent,
                status_codes: stats.status_codes,
            };
            ControlOutcome { reply: Some(ServerMessage::Stats(s)), effect: ControlEffect::NoEffect }
        },
        ClientMessage::UpdateConfig(c) => do_update_config(store, c),
        ClientMessage::AddRoute(route) => do_add_route(store, route),
        ClientMessage::RemoveRoute(path) => do_remove_route(store, path),
        ClientMessage::UpdateUpstream { name, config } => do_update_upstream(store, name, config),
        ClientMessage::RemoveUpstream(name) => do_remove_upstream(store, name),
        ClientMessage::ReloadConfig => ControlOutcome {
            reply: None,
            effect: ControlEffect::ReloadFromFile,
        },
        ClientMessage::Shutdown => ControlOutcome {
            reply: Some(ServerMessage::ShuttingDown),
            effect: ControlEffect::ShutdownRequested,
        },
    }
}

/// Replaces the whole configuration through a validated publish.
fn do_update_config(store: &mut ConfigStore, c: JanusConfig) -> (r: ControlOutcome)
    ensures
        update_config_post(old(store).snapshot(), c, final(store).snapshot(), r),
{
    match store.publish(c) {
        Ok(()) => ControlOutcome {
            reply: Some(ServerMessage::Success(String::from_str("Configuration updated"))),
            effect: ControlEffect::PersistConfig,
        },
        Err(e) => {
            let m = match e {
                ConfigError::ValidationError(m) => m,
                _ => {
                    proof {
                        assert(false);
                    }
                    String::new()
                },
            };
            ControlOutcome {
                reply: Some(ServerMessage::Error(m)),
                effect: ControlEffect::NoEffect,
            }
        },
    }
}

/// Appends a route after checking its upstream exists and its path is
/// new.
fn do_add_route(store: &mut ConfigStore, route: RouteConfig) -> (r: ControlOutcome)
    ensures
        add_route_post(old(store).snapshot(), route, final(store).snapshot(), r),
{
    let current = store.read();
    let ghost cfg = *current;
    if lookup_upstream(&current.upstreams, route.upstream.as_str()).is_none() {
        let m = quoted_message("Upstream '", route.upstream.as_str(), "' not found");
        return ControlOutcome {
            reply: Some(ServerMessage::Error(m)),
            effect: ControlEffect::NoEffect,
        };
    }
    if route_index(&current.routes, route.path.as_str()).is_some() {
        let m = quoted_message("Route '", route.path.as_str(), "' already exists");
        return ControlOutcome {
            reply: Some(ServerMessage::Error(m)),
            effect: ControlEffect::NoEffect,
        };
    }
    let mut candidate = current.clone();
    let ghost base = candidate;
    let ghost route_g = route;
    candidate.routes.push(route);
    proof {
        lemma_config_eqv_valid(base, cfg);
        assert forall|i: int| 0 <= i < candidate.routes@.len() implies upstreams_contain(
            candidate.upstreams@,
            (#[trigger] candidate.routes@[i]).upstream@,
        ) by {
            if i < base.routes@.len() {
                assert(candidate.routes@[i] == base.routes@[i]);
                assert(upstreams_contain(base.upstreams@, base.routes@[i].upstream@));
            } else {
                assert(candidate.routes@[i] == route_g);
                lemma_upstreams_eqv_contain(base.upstreams@, cfg.upstreams@, route_g.upstream@);
            }
        }
        assert(valid_config(candidate));
    }
    let ghost cand = candidate;
    match store.publish(candidate) {
        Ok(()) => {
            proof {
                assert(cand.routes@.take(cfg.routes@.len() as int) =~= base.routes@);
            }
            ControlOutcome {
                reply: Some(ServerMessage::Success(String::from_str("Route added"))),
                effect: ControlEffect::PersistConfig,
            }
        },
        Err(_) => {
            proof {
                assert(false);
            }
            ControlOutcome { reply: None, effect: ControlEffect::NoEffect }
        },
    }
}

/// Removes every route with the given path, after checking one exists.
fn do_remove_route(store: &mut ConfigStore, path: String) -> (r: ControlOutcome)
    ensures
        remove_route_post(old(store).snapshot(), path@, final(store).snapshot(), r),
{
    let current = store.read();
    let ghost cfg = *current;
    if route_index(&current.routes, path.as_str()).is_none() {
        let m = quoted_message("Route '", path.as_str(), "' not found");
        return ControlOutcome {
            reply: Some(ServerMessage::Error(m)),
            effect: ControlEffect::NoEffect,
        };
    }
    let mut kept: Vec<RouteConfig> = Vec::new();
    let mut i: usize = 0;
    proof {
        reveal(Seq::filter);
        assert(cfg.routes@.take(0) =~= Seq::<RouteConfig>::empty());
    }
    while i < current.routes.len()
        invariant
            0 <= i <= current.routes@.len(),
            *current == cfg,
            valid_config(cfg),
            routes_eqv(kept@, cfg.routes@.take(i as int).filter(route_path_differs(path@))),
            forall|k: int|
                0 <= k < kept@.len() ==> upstreams_contain(
                    cfg.upstreams@,
                    (#[trigger] kept@[k]).upstream@,
                ),
        decreases current.routes@.len() - i,
    {
        let ghost pre = kept@;
        let ghost step_filter = cfg.routes@.take(i + 1).filter(route_path_differs(path@));
        proof {
            reveal(Seq::filter);
            assert(cfg.routes@.take(i + 1).drop_last() =~= cfg.routes@.take(i as int));
            assert(cfg.routes@.take(i + 1).last() == cfg.routes@[i as int]);
        }
        if !str_eq(current.routes[i].path.as_str(), path.as_str()) {
            kept.push(current.routes[i].clone());
            proof {
                assert(kept@.len() == step_filter.len());
                assert forall|k: int| 0 <= k < kept@.len() implies route_eqv(
                    #[trigger] kept@[k],
                    step_filter[k],
                ) by {
                    if k < pre.len() {
                        assert(kept@[k] == pre[k]);
                        assert(step_filter[k] == cfg.routes@.take(i as int).filter(
                            route_path_differs(path@),
                        )[k]);
                    } else {
                        assert(step_filter[k] == cfg.routes@[i as int]);
                        assert(route_eqv(kept@[k], cfg.routes@[i as int]));
                    }
                }
                assert(upstreams_contain(cfg.upstreams@, kept@[kept@.len() - 1].upstream@));
            }
        }
        i += 1;
    }
    proof {
        assert(cfg.routes@.take(cfg.routes@.len() as int) =~= cfg.routes@);
    }
    let mut candidate = current.clone();
    let ghost base = candidate;
    let ghost kept_g = kept@;
    candidate.routes = kept;
    proof {
        lemma_config_eqv_valid(base, cfg);
        assert forall|j: int| 0 <= j < candidate.routes@.len() implies upstreams_contain(
            candidate.upstreams@,
            (#[trigger] candidate.routes@[j]).upstream@,
        ) by {
            assert(upstreams_contain(cfg.upstreams@, kept_g[j].upstream@));
            lemma_upstreams_eqv_contain(base.upstreams@, cfg.upstreams@, kept_g[j].upstream@);
        }
        assert(valid_config(candidate));
    }
    match store.publish(candidate) {
        Ok(()) => ControlOutcome {
            reply: Some(ServerMessage::Success(String::from_str("Route removed"))),
            effect: ControlEffect::PersistConfig,
        },
        Err(_) => {
            proof {
                assert(false);
            }
            ControlOutcome { reply: None, effect: ControlEffect::NoEffect }
        },
    }
}

/// Creates or replaces the pool bound to `name`, validating the result.
fn do_update_upstream(store: &mut ConfigStore, name: String, config: UpstreamConfig) -> (r:
    ControlOutcome)
    ensures
        update_upstream_post(old(store).snapshot(), name, config, final(store).snapshot(), r),
{
    if config.servers.len() == 0 {
        let m = quoted_message("Upstream '", name.as_str(), "' has no servers configured");
        return ControlOutcome {
            reply: Some(ServerMessage::Error(m)),
            effect: ControlEffect::NoEffect,
        };
    }
    let current = store.read();
    let ghost cfg = *current;
    let m = quoted_message("Upstream '", name.as_str(), "' updated");
    let found = upstream_index(&current.upstreams, name.as_str());
    let mut candidate = current.clone();
    let ghost base = candidate;
    let ghost name_g = name;
    let ghost config_g = config;
    let entry = UpstreamEntry { name, config };
    match found {
        Some(i) => {
            candidate.upstreams.set(i, entry);
            proof {
                lemma_config_eqv_valid(base, cfg);
                assert(cfg.upstreams@[i as int].name@ == name_g@);
                assert(upstream_entry_eqv(base.upstreams@[i as int], cfg.upstreams@[i as int]));
                assert forall|j: int| 0 <= j < candidate.routes@.len() implies upstreams_contain(
                    candidate.upstreams@,
                    (#[trigger] candidate.routes@[j]).upstream@,
                ) by {
                    let u = candidate.routes@[j].upstream@;
                    assert(upstreams_contain(base.upstreams@, u));
                    let w = choose|w: int|
                        0 <= w < base.upstreams@.len() && base.upstreams@[w].name@ == u;
                    if w == i {
                        assert(candidate.upstreams@[w].name@ == name_g@);
                        assert(base.upstreams@[i as int].name@ == name_g@);
                    } else {
                        assert(candidate.upstreams@[w] == base.upstreams@[w]);
                    }
                }
                assert(valid_config(candidate));
            }
        },
        None => {
            candidate.upstreams.push(entry);
            proof {
                lemma_config_eqv_valid(base, cfg);
                assert forall|j: int| 0 <= j < candidate.routes@.len() implies upstreams_contain(
                    candidate.upstreams@,
                    (#[trigger] candidate.routes@[j]).upstream@,
                ) by {
                    let u = candidate.routes@[j].upstream@;
                    assert(upstreams_contain(base.upstreams@, u));
                    let w = choose|w: int|
                        0 <= w < base.upstreams@.len() && base.upstreams@[w].name@ == u;
                    assert(candidate.upstreams@[w] == base.upstreams@[w]);
                }
                assert(valid_config(candidate));
            }
        },
    }
    match store.publish(candidate) {
        Ok(()) => ControlOutcome {
            reply: Some(ServerMessage::Success(m)),
            effect: ControlEffect::PersistConfig,
        },
        Err(_) => {
            proof {
                assert(false);
            }
            ControlOutcome { reply: None, effect: ControlEffect::NoEffect }
        },
    }
}

/// Removes the pool bound to `name`, after checking it exists and no
/// route still references it.
fn do_remove_upstream(store: &mut ConfigStore, name: String) -> (r: ControlOutcome)
    ensures
        remove_upstream_post(old(store).snapshot(), name@, final(store).snapshot(), r),
{
    let current = store.read();
    let ghost cfg = *current;
    let mut i: usize = 0;
    while i < current.routes.len()
        invariant
            0 <= i <= current.routes@.len(),
            *current == cfg,
            cfg == old(store).snapshot(),
            forall|k: int| 0 <= k < i ==> (#[trigger] cfg.routes@[k]).upstream@ != name@,
        decreases current.routes@.len() - i,
    {
        if str_eq(current.routes[i].upstream.as_str(), name.as_str()) {
            proof {
                assert(cfg.routes@[i as int].upstream@ == name@);
                assert(any_route_uses(cfg.routes@, name@));
            }
            let m = quoted_message(
                "Cannot remove upstream '",
                name.as_str(),
                "': still in use by routes",
            );
            return ControlOutcome {
                reply: Some(ServerMessage::Error(m)),
                effect: ControlEffect::NoEffect,
            };
        }
        i += 1;
    }
    proof {
        if any_route_uses(cfg.routes@, name@) {
            let w = choose|k: int| 0 <= k < cfg.routes@.len() && cfg.routes@[k].upstream@ == name@;
            assert(cfg.routes@[w].upstream@ != name@);
        }
    }
    if upstream_index(&current.upstreams, name.as_str()).is_none() {
        proof {
            crate::config::lemma_upstream_lookup_contains(cfg.upstreams@, name@);
        }
        let m = quoted_message("Upstream '", name.as_str(), "' not found");
        return ControlOutcome {
            reply: Some(ServerMessage::Error(m)),
            effect: ControlEffect::NoEffect,
        };
    }
    let mut kept: Vec<UpstreamEntry> = Vec::new();
    let mut j: usize = 0;
    proof {
        reveal(Seq::filter);
        assert(cfg.upstreams@.take(0) =~= Seq::<UpstreamEntry>::empty());
    }
    while j < current.upstreams.len()
        invariant
            0 <= j <= current.upstreams@.len(),
            *current == cfg,
            valid_config(cfg),
            upstreams_eqv(kept@, cfg.upstreams@.take(j as int).filter(entry_not_named(name@))),
            forall|k: int| 0 <= k < kept@.len() ==> (#[trigger] kept@[k]).config.servers@.len() > 0,
            forall|k: int|
                0 <= k < j ==> ((#[trigger] cfg.upstreams@[k]).name@ == name@ || upstreams_contain(
                    kept@,
                    cfg.upstreams@[k].name@,
                )),
        decreases current.upstreams@.len() - j,
    {
        let ghost pre = kept@;
        let ghost step_filter = cfg.upstreams@.take(j + 1).filter(entry_not_named(name@));
        proof {
            reveal(Seq::filter);
            assert(cfg.upstreams@.take(j + 1).drop_last() =~= cfg.upstreams@.take(j as int));
            assert(cfg.upstreams@.take(j + 1).last() == cfg.upstreams@[j as int]);
        }
        if !str_eq(current.upstreams[j].name.as_str(), name.as_str()) {
            kept.push(current.upstreams[j].clone());
            proof {
                assert(kept@.len() == step_filter.len());
                assert forall|k: int| 0 <= k < kept@.len() implies upstream_entry_eqv(
                    #[trigger] kept@[k],
                    step_filter[k],
                ) by {
                    if k < pre.len() {
                        assert(kept@[k] == pre[k]);
                        assert(step_filter[k] == cfg.upstreams@.take(j as int).filter(
                            entry_not_named(name@),
                        )[k]);
                    } else {
                        assert(step_filter[k] == cfg.upstreams@[j as int]);
                        assert(upstream_entry_eqv(kept@[k], cfg.upstreams@[j as int]));
                    }
                }
                assert(kept@[kept@.len() - 1].name@ == cfg.upstreams@[j as int].name@);
                assert forall|k: int|
                    0 <= k < j + 1 implies ((#[trigger] cfg.upstreams@[k]).name@ == name@
                    || upstreams_contain(kept@, cfg.upstreams@[k].name@)) by {
                    if k < j && cfg.upstreams@[k].name@ != name@ {
                        let w = choose|w: int|
                            0 <= w < pre.len() && pre[w].name@ == cfg.upstreams@[k].name@;
                        assert(kept@[w].name@ == cfg.upstreams@[k].name@);
                    }
                    if k == j {
                        assert(kept@[kept@.len() - 1].name@ == cfg.upstreams@[k].name@);
                    }
                }
            }
        }
        j += 1;
    }
    proof {
        assert(cfg.upstreams@.take(cfg.upstreams@.len() as int) =~= cfg.upstreams@);
    }
    let mut candidate = current.clone();
    let ghost base = candidate;
    let ghost kept_g = kept@;
    candidate.upstreams = kept;
    proof {
        lemma_config_eqv_valid(base, cfg);
        assert forall|t: int| 0 <= t < candidate.routes@.len() implies upstreams_contain(
            candidate.upstreams@,
            (#[trigger] candidate.routes@[t]).upstream@,
        ) by {
            let u = candidate.routes@[t].upstream@;
            assert(route_eqv(base.routes@[t], cfg.routes@[t]));
            assert(cfg.routes@[t].upstream@ == u);
            assert(u != name@);
            lemma_upstreams_eqv_contain(base.upstreams@, cfg.upstreams@, u);
            assert(upstreams_contain(cfg.upstreams@, u));
            let w = choose|w: int|
                0 <= w < cfg.upstreams@.len() && cfg.upstreams@[w].name@ == u;
            assert(upstreams_contain(kept_g, cfg.upstreams@[w].name@));
        }
        assert(valid_config(candidate));
    }
    let m = quoted_message("Upstream '", name.as_str(), "' removed");
    match store.publish(candidate) {
        Ok(()) => ControlOutcome {
            reply: Some(ServerMessage::Success(m)),
            effect: ControlEffect::PersistConfig,
        },
        Err(_) => {
            proof {
                assert(false);
            }
            ControlOutcome { reply: None, effect: ControlEffect::NoEffect }
        },
    }
}

} // verus!
