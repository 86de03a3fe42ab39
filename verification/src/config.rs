//! The routing configuration: data types, defaults, deep equality and
//! validation.
//!
//! A configuration is an immutable snapshot once published. Upstream pools
//! are kept as an ordered association list keyed by name; lookups take the
//! first entry with a matching name.

use vstd::prelude::*;

use crate::seq_search::first_where;
use crate::seq_search::lemma_first_where;
use crate::seq_search::lemma_first_where_is;
use crate::seq_search::lemma_first_where_none;
use crate::text::str_eq;

verus! {

/// Listening settings of the proxy itself.
pub struct ServerConfig {
    /// Address to bind to.
    pub bind_address: String,
    /// Port to listen on.
    pub port: u16,
    /// Number of worker threads (0 = auto).
    pub workers: usize,
    /// Enable access logging.
    pub access_log: bool,
}

/// Control-channel settings.
pub struct ManagementConfig {
    /// Enable the control channel.
    pub enabled: bool,
    /// Address the control channel binds to.
    pub address: String,
    /// Control-channel port.
    pub port: u16,
}

/// One concrete server address within an upstream pool.
pub struct BackendServer {
    /// Server address (host:port or URL).
    pub address: String,
    /// Weight for weighted load balancing (declared, not a selection input).
    pub weight: u32,
    /// Whether this server is a backup.
    pub backup: bool,
}

/// Load-balancing policy of an upstream pool.
#[derive(Clone, Copy, Debug, PartialEq, Eq, Structural)]
pub enum LoadBalancing {
    /// Requests are distributed sequentially across the primary servers.
    RoundRobin,
    /// Requests go to the primary server with the fewest in-flight requests.
    LeastConnections,
    /// Requests are distributed by a process-level source of randomness.
    Random,
    /// The same client address always reaches the same primary server.
    IpHash,
}

/// Health-check settings of an upstream pool.
pub struct HealthCheckConfig {
    /// Interval between health checks in seconds.
    pub interval: u64,
    /// Health-check timeout in seconds.
    pub timeout: u64,
    /// Path to check.
    pub path: String,
}

/// A named set of backend servers that routes can target.
pub struct UpstreamConfig {
    /// The backend servers, in declaration order.
    pub servers: Vec<BackendServer>,
    /// Load-balancing policy.
    pub load_balancing: LoadBalancing,
    /// Optional health-check settings.
    pub health_check: Option<HealthCheckConfig>,
}

/// One name-to-pool binding in the ordered upstream list.
pub struct UpstreamEntry {
    /// The upstream name routes refer to.
    pub name: String,
    /// The pool bound to that name.
    pub config: UpstreamConfig,
}

/// One extra header a route adds to outbound requests.
pub struct HeaderPair {
    /// Header name.
    pub name: String,
    /// Header value.
    pub value: String,
}

/// A path (+ method) pattern bound to an upstream pool.
pub struct RouteConfig {
    /// Path pattern: exact, or a prefix when it ends in `*` or `/*`.
    pub path: String,
    /// Methods to match; empty means all methods.
    pub methods: Vec<String>,
    /// Name of the upstream pool to proxy to.
    pub upstream: String,
    /// Optional rewrite prefix replacing the pattern's literal prefix.
    pub rewrite: Option<String>,
    /// Extra headers appended to the outbound request.
    pub headers: Vec<HeaderPair>,
    /// Backend round-trip timeout in seconds.
    pub timeout: u64,
}

/// A static-file rule; the router only reads its URL prefix.
pub struct StaticFileConfig {
    /// URL path prefix.
    pub path: String,
    /// Root directory for static files.
    pub root: String,
    /// Index file name.
    pub index: String,
    /// Enable directory listing.
    pub directory_listing: bool,
}

/// The whole routing configuration published as one snapshot.
pub struct JanusConfig {
    /// Listening settings.
    pub server: ServerConfig,
    /// Control-channel settings.
    pub management: ManagementConfig,
    /// Upstream pools, ordered, keyed by name.
    pub upstreams: Vec<UpstreamEntry>,
    /// Proxy routes, in declaration order.
    pub routes: Vec<RouteConfig>,
    /// Static-file rules, in declaration order.
    pub static_files: Vec<StaticFileConfig>,
}

/// Configuration errors; every variant carries a human-readable reason.
#[derive(Debug)]
pub enum ConfigError {
    /// Reading or writing the file failed.
    IoError(String),
    /// The file did not parse.
    ParseError(String),
    /// The configuration could not be serialized.
    SerializeError(String),
    /// A validation rule was violated; the store is left unchanged.
    ValidationError(String),
}

/// The rendered form of each error: its category and its reason.
pub open spec fn error_text(e: ConfigError) -> Seq<char> {
    match e {
        ConfigError::IoError(m) => "IO error: "@ + m@,
        ConfigError::ParseError(m) => "Parse error: "@ + m@,
        ConfigError::SerializeError(m) => "Serialize error: "@ + m@,
        ConfigError::ValidationError(m) => "Validation error: "@ + m@,
    }
}

impl ConfigError {
    /// The human-readable form of this error.
    pub fn message(&self) -> (r: String)
        ensures
            r@ == error_text(*self),
    {
        match self {
            ConfigError::IoError(m) => {
                let mut out = String::from_str("IO error: ");
                out.append(m.as_str());
                out
            },
            ConfigError::ParseError(m) => {
                let mut out = String::from_str("Parse error: ");
                out.append(m.as_str());
                out
            },
            ConfigError::SerializeError(m) => {
                let mut out = String::from_str("Serialize error: ");
                out.append(m.as_str());
                out
            },
            ConfigError::ValidationError(m) => {
                let mut out = String::from_str("Validation error: ");
                out.append(m.as_str());
                out
            },
        }
    }
}

// ------------------------------------------------------------------
// Clone: each impl states exactly what the copy preserves.
// ------------------------------------------------------------------

impl Clone for ServerConfig {
    fn clone(&self) -> (res: Self)
        ensures
            res == *self,
    {
        ServerConfig {
            bind_address: self.bind_address.clone(),
            port: self.port,
            workers: self.workers,
            access_log: self.access_log,
        }
    }
}

impl Clone for ManagementConfig {
    fn clone(&self) -> (res: Self)
        ensures
            res == *self,
    {
        ManagementConfig { enabled: self.enabled, address: self.address.clone(), port: self.port }
    }
}

impl Clone for BackendServer {
    fn clone(&self) -> (res: Self)
        ensures
            res == *self,
    {
        BackendServer { address: self.address.clone(), weight: self.weight, backup: self.backup }
    }
}

impl Clone for HealthCheckConfig {
    fn clone(&self) -> (res: Self)
        ensures
            res == *self,
    {
        HealthCheckConfig {
            interval: self.interval,
            timeout: self.timeout,
            path: self.path.clone(),
        }
    }
}

impl Clone for HeaderPair {
    fn clone(&self) -> (res: Self)
        ensures
            res == *self,
    {
        HeaderPair { name: self.name.clone(), value: self.value.clone() }
    }
}

impl Clone for StaticFileConfig {
    fn clone(&self) -> (res: Self)
        ensures
            res == *self,
    {
        StaticFileConfig {
            path: self.path.clone(),
            root: self.root.clone(),
            index: self.index.clone(),
            directory_listing: self.directory_listing,
        }
    }
}

impl Clone for ConfigError {
    fn clone(&self) -> (res: Self)
        ensures
            res == *self,
    {
        match self {
            ConfigError::IoError(m) => ConfigError::IoError(m.clone()),
            ConfigError::ParseError(m) => ConfigError::ParseError(m.clone()),
            ConfigError::SerializeError(m) => ConfigError::SerializeError(m.clone()),
            ConfigError::ValidationError(m) => ConfigError::ValidationError(m.clone()),
        }
    }
}

impl Clone for UpstreamConfig {
    fn clone(&self) -> (res: Self)
        ensures
            upstream_config_eqv(res, *self),
    {
        UpstreamConfig {
            servers: self.servers.clone(),
            load_balancing: self.load_balancing,
            health_check: self.health_check.clone(),
        }
    }
}

impl Clone for UpstreamEntry {
    fn clone(&self) -> (res: Self)
        ensures
            upstream_entry_eqv(res, *self),
    {
        UpstreamEntry { name: self.name.clone(), config: self.config.clone() }
    }
}

impl Clone for RouteConfig {
    fn clone(&self) -> (res: Self)
        ensures
            route_eqv(res, *self),
    {
        RouteConfig {
            path: self.path.clone(),
            methods: self.methods.clone(),
            upstream: self.upstream.clone(),
            rewrite: self.rewrite.clone(),
            headers: self.headers.clone(),
            timeout: self.timeout,
        }
    }
}

impl Clone for JanusConfig {
    fn clone(&self) -> (res: Self)
        ensures
            config_eqv(res, *self),
    {
        JanusConfig {
            server: self.server.clone(),
            management: self.management.clone(),
            upstreams: self.upstreams.clone(),
            routes: self.routes.clone(),
            static_files: self.static_files.clone(),
        }
    }
}

// ------------------------------------------------------------------
// Deep equality. Two values are equivalent when they render the same
// configuration; only containers are compared by contents.
// ------------------------------------------------------------------

/// Deep equality of two pools.
pub open spec fn upstream_config_eqv(a: UpstreamConfig, b: UpstreamConfig) -> bool {
    &&& a.servers@ == b.servers@
    &&& a.load_balancing == b.load_balancing
    &&& a.health_check == b.health_check
}

/// Deep equality of two name-to-pool bindings.
pub open spec fn upstream_entry_eqv(a: UpstreamEntry, b: UpstreamEntry) -> bool {
    &&& a.name == b.name
    &&& upstream_config_eqv(a.config, b.config)
}

/// Deep equality of two upstream lists.
pub open spec fn upstreams_eqv(a: Seq<UpstreamEntry>, b: Seq<UpstreamEntry>) -> bool {
    &&& a.len() == b.len()
    &&& forall|i: int| 0 <= i < a.len() ==> upstream_entry_eqv(#[trigger] a[i], b[i])
}

/// Deep equality of two routes.
pub open spec fn route_eqv(a: RouteConfig, b: RouteConfig) -> bool {
    &&& a.path == b.path
    &&& a.methods@ == b.methods@
    &&& a.upstream == b.upstream
    &&& a.rewrite == b.rewrite
    &&& a.headers@ == b.headers@
    &&& a.timeout == b.timeout
}

/// Deep equality of two route lists.
pub open spec fn routes_eqv(a: Seq<RouteConfig>, b: Seq<RouteConfig>) -> bool {
    &&& a.len() == b.len()
    &&& forall|i: int| 0 <= i < a.len() ==> route_eqv(#[trigger] a[i], b[i])
}

/// Deep equality of two whole configurations.
pub open spec fn config_eqv(a: JanusConfig, b: JanusConfig) -> bool {
    &&& a.server == b.server
    &&& a.management == b.management
    &&& upstreams_eqv(a.upstreams@, b.upstreams@)
    &&& routes_eqv(a.routes@, b.routes@)
    &&& a.static_files@ == b.static_files@
}

// ------------------------------------------------------------------
// Defaults.
// ------------------------------------------------------------------

/// Default bind address of the proxy listener.
pub fn default_bind_address() -> (r: String)
    ensures
        r@ == "0.0.0.0"@,
{
    String::from_str("0.0.0.0")
}

/// Default listening port.
pub fn default_port() -> (r: u16)
    ensures
        r == 8080,
{
    8080
}

/// Default control-channel address.
pub fn default_management_address() -> (r: String)
    ensures
        r@ == "127.0.0.1"@,
{
    String::from_str("127.0.0.1")
}

/// Default control-channel port.
pub fn default_management_port() -> (r: u16)
    ensures
        r == 9090,
{
    9090
}

/// Default of the boolean settings that start enabled.
pub fn default_true() -> (r: bool)
    ensures
        r,
{
    true
}

/// Default backend weight.
pub fn default_weight() -> (r: u32)
    ensures
        r == 1,
{
    1
}

/// Default health-check interval in seconds.
pub fn default_health_interval() -> (r: u64)
    ensures
        r == 30,
{
    30
}

/// Default health-check timeout in seconds.
pub fn default_health_timeout() -> (r: u64)
    ensures
        r == 5,
{
    5
}

/// Default health-check path.
pub fn default_health_path() -> (r: String)
    ensures
        r@ == "/health"@,
{
    String::from_str("/health")
}

/// Default route timeout in seconds.
pub fn default_timeout() -> (r: u64)
    ensures
        r == 60,
{
    60
}

/// Default index file name of a static rule.
pub fn default_index() -> (r: String)
    ensures
        r@ == "index.html"@,
{
    String::from_str("index.html")
}

impl Default for ServerConfig {
    /// Listener defaults: `0.0.0.0:8080`, automatic workers, access log on.
    fn default() -> (r: Self)
        ensures
            r.bind_address@ == "0.0.0.0"@,
            r.port == 8080,
            r.workers == 0,
            r.access_log,
    {
        ServerConfig {
            bind_address: default_bind_address(),
            port: default_port(),
            workers: 0,
            access_log: true,
        }
    }
}

impl Default for ManagementConfig {
    /// Control-channel defaults: enabled on `127.0.0.1:9090`.
    fn default() -> (r: Self)
        ensures
            r.enabled,
            r.address@ == "127.0.0.1"@,
            r.port == 9090,
    {
        ManagementConfig {
            enabled: true,
            address: default_management_address(),
            port: default_management_port(),
        }
    }
}

impl Default for LoadBalancing {
    /// Pools balance round-robin unless configured otherwise.
    fn default() -> (r: Self)
        ensures
            r == LoadBalancing::RoundRobin,
    {
        LoadBalancing::RoundRobin
    }
}

impl Default for JanusConfig {
    /// The default configuration: default listener and control channel,
    /// no upstreams, no routes, no static rules.
    fn default() -> (r: Self)
        ensures
            r.server.bind_address@ == "0.0.0.0"@,
            r.server.port == 8080,
            r.server.workers == 0,
            r.server.access_log,
            r.management.enabled,
            r.management.address@ == "127.0.0.1"@,
            r.management.port == 9090,
            r.upstreams@.len() == 0,
            r.routes@.len() == 0,
            r.static_files@.len() == 0,
    {
        JanusConfig {
            server: Default::default(),
            management: Default::default(),
            upstreams: Vec::new(),
            routes: Vec::new(),
            static_files: Vec::new(),
        }
    }
}

// ------------------------------------------------------------------
// Upstream lookup.
// ------------------------------------------------------------------

/// The predicate "this entry binds `name`".
pub open spec fn entry_named(name: Seq<char>) -> spec_fn(UpstreamEntry) -> bool {
    |e: UpstreamEntry| e.name@ == name
}

/// True when some entry binds `name`.
pub open spec fn upstreams_contain(ups: Seq<UpstreamEntry>, name: Seq<char>) -> bool {
    exists|i: int| 0 <= i < ups.len() && ups[i].name@ == name
}

/// The pool bound to `name`: the first entry with that name wins.
pub open spec fn upstream_lookup(ups: Seq<UpstreamEntry>, name: Seq<char>) -> Option<
    UpstreamConfig,
> {
    match first_where(ups, entry_named(name)) {
        Some(i) => Some(ups[i].config),
        None => None,
    }
}

/// The two spec views of lookup agree: a name is contained exactly when
/// the lookup finds a pool.
pub proof fn lemma_upstream_lookup_contains(ups: Seq<UpstreamEntry>, name: Seq<char>)
    ensures
        upstreams_contain(ups, name) <==> upstream_lookup(ups, name) is Some,
{
    let p = entry_named(name);
    lemma_first_where(ups, p);
    if upstreams_contain(ups, name) {
        match first_where(ups, p) {
            Some(i) => {},
            None => {
                let w = choose|i: int| 0 <= i < ups.len() && ups[i].name@ == name;
                assert(!p(ups[w]));
            },
        }
    }
}

/// Finds the pool bound to `name`, scanning entries in order.
pub fn lookup_upstream<'a>(ups: &'a Vec<UpstreamEntry>, name: &str) -> (r: Option<
    &'a UpstreamConfig,
>)
    ensures
        (r is Some) == upstreams_contain(ups@, name@),
        r matches Some(u) ==> upstream_lookup(ups@, name@) == Some(*u),
{
    let mut i: usize = 0;
    while i < ups.len()
        invariant
            0 <= i <= ups@.len(),
            forall|k: int| 0 <= k < i ==> (#[trigger] ups@[k]).name@ != name@,
        decreases ups@.len() - i,
    {
        if str_eq(ups[i].name.as_str(), name) {
            proof {
                lemma_first_where_is(ups@, entry_named(name@), i as int);
            }
            return Some(&ups[i].config);
        }
        i += 1;
    }
    proof {
        lemma_first_where_none(ups@, entry_named(name@));
    }
    None
}

/// Finds the position of the first entry binding `name`.
pub fn upstream_index(ups: &Vec<UpstreamEntry>, name: &str) -> (r: Option<usize>)
    ensures
        match first_where(ups@, entry_named(name@)) {
            Some(i) => r matches Some(x) && x as int == i && i < ups@.len() && ups@[i].name@
                == name@,
            None => r is None,
        },
{
    let mut i: usize = 0;
    while i < ups.len()
        invariant
            0 <= i <= ups@.len(),
            forall|k: int| 0 <= k < i ==> (#[trigger] ups@[k]).name@ != name@,
        decreases ups@.len() - i,
    {
        if str_eq(ups[i].name.as_str(), name) {
            proof {
                lemma_first_where_is(ups@, entry_named(name@), i as int);
            }
            return Some(i);
        }
        i += 1;
    }
    proof {
        lemma_first_where_none(ups@, entry_named(name@));
    }
    None
}

// ------------------------------------------------------------------
// Validation: the rules every writer applies before publishing.
// ------------------------------------------------------------------

/// A configuration is valid when the listener port is set, the control
/// channel (if enabled) has a port, every route's upstream exists, and
/// every pool has at least one backend.
pub open spec fn valid_config(c: JanusConfig) -> bool {
    &&& c.server.port != 0
    &&& c.management.enabled ==> c.management.port != 0
    &&& forall|i: int|
        0 <= i < c.routes@.len() ==> upstreams_contain(
            c.upstreams@,
            (#[trigger] c.routes@[i]).upstream@,
        )
    &&& forall|i: int|
        0 <= i < c.upstreams@.len() ==> (#[trigger] c.upstreams@[i]).config.servers@.len() > 0
}

/// The predicate "this route's upstream is not among `ups`".
pub open spec fn route_upstream_missing(ups: Seq<UpstreamEntry>) -> spec_fn(RouteConfig) -> bool {
    |r: RouteConfig| !upstreams_contain(ups, r.upstream@)
}

/// The predicate "this pool has no backends".
pub open spec fn pool_empty() -> spec_fn(UpstreamEntry) -> bool {
    |e: UpstreamEntry| e.config.servers@.len() == 0
}

/// First route whose upstream is unknown, if any.
pub open spec fn first_route_violation(c: JanusConfig) -> Option<int> {
    first_where(c.routes@, route_upstream_missing(c.upstreams@))
}

/// First pool with no backends, if any.
pub open spec fn first_empty_upstream(c: JanusConfig) -> Option<int> {
    first_where(c.upstreams@, pool_empty())
}

/// The reason the first violated rule reports; meaningful only when the
/// configuration is invalid.
pub open spec fn validation_message(c: JanusConfig) -> Seq<char> {
    if c.server.port == 0 {
        "Server port cannot be 0"@
    } else if c.management.enabled && c.management.port == 0 {
        "Management port cannot be 0"@
    } else if first_route_violation(c) is Some {
        let r = c.routes@[first_route_violation(c)->Some_0];
        "Route '"@ + r.path@ + "' references non-existent upstream '"@ + r.upstream@ + "'"@
    } else {
        let e = c.upstreams@[first_empty_upstream(c)->Some_0];
        "Upstream '"@ + e.name@ + "' has no servers configured"@
    }
}

/// Checks the validation rules in order and reports the first violation.
/// Returns `Ok` exactly on valid configurations; otherwise the error is a
/// `ValidationError` carrying the first violated rule's reason.
pub fn validate_config(config: &JanusConfig) -> (r: Result<(), ConfigError>)
    ensures
        (r is Ok) == valid_config(*config),
        r matches Err(e) ==> (e matches ConfigError::ValidationError(m) && m@
            == validation_message(*config)),
{
    if config.server.port == 0 {
        return Err(ConfigError::ValidationError(String::from_str("Server port cannot be 0")));
    }
    if config.management.enabled && config.management.port == 0 {
        return Err(ConfigError::ValidationError(String::from_str("Management port cannot be 0")));
    }
    let mut i: usize = 0;
    while i < config.routes.len()
        invariant
            0 <= i <= config.routes@.len(),
            config.server.port != 0,
            !(config.management.enabled && config.management.port == 0),
            forall|k: int|
                0 <= k < i ==> upstreams_contain(
                    config.upstreams@,
                    (#[trigger] config.routes@[k]).upstream@,
                ),
        decreases config.routes@.len() - i,
    {
        let route = &config.routes[i];
        if lookup_upstream(&config.upstreams, route.upstream.as_str()).is_none() {
            proof {
                lemma_first_where_is(
                    config.routes@,
                    route_upstream_missing(config.upstreams@),
                    i as int,
                );
            }
            let mut m = String::from_str("Route '");
            m.append(route.path.as_str());
            m.append("' references non-existent upstream '");
            m.append(route.upstream.as_str());
            m.append("'");
            return Err(ConfigError::ValidationError(m));
        }
        i += 1;
    }
    proof {
        lemma_first_where_none(config.routes@, route_upstream_missing(config.upstreams@));
    }
    let mut j: usize = 0;
    while j < config.upstreams.len()
        invariant
            0 <= j <= config.upstreams@.len(),
            config.server.port != 0,
            !(config.management.enabled && config.management.port == 0),
            first_route_violation(*config) is None,
            forall|k: int| 0 <= k < j ==> (#[trigger] config.upstreams@[k]).config.servers@.len()
                > 0,
        decreases config.upstreams@.len() - j,
    {
        let entry = &config.upstreams[j];
        if entry.config.servers.len() == 0 {
            proof {
                lemma_first_where_is(config.upstreams@, pool_empty(), j as int);
            }
            let mut m = String::from_str("Upstream '");
            m.append(entry.name.as_str());
            m.append("' has no servers configured");
            return Err(ConfigError::ValidationError(m));
        }
        j += 1;
    }
    proof {
        lemma_first_where_none(config.upstreams@, pool_empty());
    }
    Ok(())
}

/// The predicate "this entry does not bind `name`".
pub open spec fn entry_not_named(name: Seq<char>) -> spec_fn(UpstreamEntry) -> bool {
    |e: UpstreamEntry| e.name@ != name
}

/// Deeply equal upstream lists bind the same names.
pub proof fn lemma_upstreams_eqv_contain(
    a: Seq<UpstreamEntry>,
    b: Seq<UpstreamEntry>,
    name: Seq<char>,
)
    requires
        upstreams_eqv(a, b),
    ensures
        upstreams_contain(a, name) == upstreams_contain(b, name),
{
    if upstreams_contain(a, name) {
        let w = choose|i: int| 0 <= i < a.len() && a[i].name@ == name;
        assert(upstream_entry_eqv(a[w], b[w]));
        assert(b[w].name@ == name);
    }
    if upstreams_contain(b, name) {
        let w = choose|i: int| 0 <= i < b.len() && b[i].name@ == name;
        assert(upstream_entry_eqv(a[w], b[w]));
        assert(a[w].name@ == name);
    }
}

/// Validity is a property of the rendered configuration: deeply equal
/// configurations are valid together.
pub proof fn lemma_config_eqv_valid(a: JanusConfig, b: JanusConfig)
    requires
        config_eqv(a, b),
    ensures
        valid_config(a) == valid_config(b),
{
    assert forall|n: Seq<char>|
        upstreams_contain(a.upstreams@, n) == upstreams_contain(b.upstreams@, n) by {
        if upstreams_contain(a.upstreams@, n) {
            let w = choose|i: int| 0 <= i < a.upstreams@.len() && a.upstreams@[i].name@ == n;
            assert(upstream_entry_eqv(a.upstreams@[w], b.upstreams@[w]));
            assert(b.upstreams@[w].name@ == n);
        }
        if upstreams_contain(b.upstreams@, n) {
            let w = choose|i: int| 0 <= i < b.upstreams@.len() && b.upstreams@[i].name@ == n;
            assert(upstream_entry_eqv(a.upstreams@[w], b.upstreams@[w]));
            assert(a.upstreams@[w].name@ == n);
        }
    }
    if valid_config(a) {
        assert forall|i: int| 0 <= i < b.routes@.len() implies upstreams_contain(
            b.upstreams@,
            (#[trigger] b.routes@[i]).upstream@,
        ) by {
            assert(route_eqv(a.routes@[i], b.routes@[i]));
            assert(upstreams_contain(a.upstreams@, a.routes@[i].upstream@));
        }
        assert forall|i: int| 0 <= i < b.upstreams@.len() implies (
        #[trigger] b.upstreams@[i]).config.servers@.len() > 0 by {
            assert(upstream_entry_eqv(a.upstreams@[i], b.upstreams@[i]));
            assert(a.upstreams@[i].config.servers@.len() > 0);
        }
        assert(valid_config(b));
    }
    if valid_config(b) {
        assert forall|i: int| 0 <= i < a.routes@.len() implies upstreams_contain(
            a.upstreams@,
            (#[trigger] a.routes@[i]).upstream@,
        ) by {
            assert(route_eqv(a.routes@[i], b.routes@[i]));
            assert(upstreams_contain(b.upstreams@, b.routes@[i].upstream@));
        }
        assert forall|i: int| 0 <= i < a.upstreams@.len() implies (
        #[trigger] a.upstreams@[i]).config.servers@.len() > 0 by {
            assert(upstream_entry_eqv(a.upstreams@[i], b.upstreams@[i]));
            assert(b.upstreams@[i].config.servers@.len() > 0);
        }
        assert(valid_config(a));
    }
}

} // verus!
