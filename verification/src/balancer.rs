//! Backend selection: partitioning a pool into primaries and backups and
//! picking one backend under the pool's load-balancing policy.

use vstd::prelude::*;

use vstd::pervasive::VecAdditionalExecFns;
use vstd::string::StringSliceAdditionalSpecFns;

use crate::config::BackendServer;
use crate::config::LoadBalancing;
use crate::config::RouteConfig;
use crate::config::UpstreamConfig;
use crate::seq_search::first_where;
use crate::seq_search::lemma_first_where_is;
use crate::seq_search::lemma_first_where_none;
use crate::text::str_eq;

verus! {

/// Selection failure: the pool has no backends at all.
#[derive(Clone, Copy, Debug, PartialEq, Eq, Structural)]
pub enum SelectError {
    /// Neither a primary nor a backup server is present.
    NoBackendAvailable,
}

// ------------------------------------------------------------------
// Primaries.
// ------------------------------------------------------------------

/// Indices of the primary (non-backup) servers, in declaration order.
pub open spec fn primary_indices(s: Seq<BackendServer>) -> Seq<int>
    decreases s.len(),
{
    if s.len() == 0 {
        Seq::empty()
    } else if !s.last().backup {
        primary_indices(s.drop_last()).push(s.len() - 1)
    } else {
        primary_indices(s.drop_last())
    }
}

/// What `primary_indices` returns: strictly increasing in-range indices
/// of exactly the non-backup servers.
pub proof fn lemma_primary_indices(s: Seq<BackendServer>)
    ensures
        forall|j: int|
            0 <= j < primary_indices(s).len() ==> 0 <= #[trigger] primary_indices(s)[j] < s.len()
                && !s[primary_indices(s)[j]].backup,
        forall|j1: int, j2: int|
            0 <= j1 < j2 < primary_indices(s).len() ==> #[trigger] primary_indices(s)[j1]
                < #[trigger] primary_indices(s)[j2],
        forall|i: int|
            0 <= i < s.len() && !s[i].backup ==> exists|j: int|
                0 <= j < primary_indices(s).len() && primary_indices(s)[j] == i,
    decreases s.len(),
{
    if s.len() > 0 {
        let t = s.drop_last();
        lemma_primary_indices(t);
        assert(forall|i: int| 0 <= i < t.len() ==> t[i] == s[i]);
        let p = primary_indices(s);
        let pt = primary_indices(t);
        assert forall|i: int| 0 <= i < s.len() && !s[i].backup implies exists|j: int|
            0 <= j < p.len() && p[j] == i by {
            if i < s.len() - 1 {
                let w = choose|j: int| 0 <= j < pt.len() && pt[j] == i;
                assert(p[w] == i);
            } else {
                assert(!s.last().backup);
                assert(p[p.len() - 1] == i);
            }
        }
    }
}

/// Collects the indices of the primary servers.
pub fn collect_primaries(servers: &Vec<BackendServer>) -> (r: Vec<usize>)
    ensures
        r@.map_values(|u: usize| u as int) == primary_indices(servers@),
{
    let mut out: Vec<usize> = Vec::new();
    let mut i: usize = 0;
    while i < servers.len()
        invariant
            0 <= i <= servers@.len(),
            out@.map_values(|u: usize| u as int) == primary_indices(servers@.take(i as int)),
        decreases servers@.len() - i,
    {
        proof {
            assert(servers@.take(i + 1).drop_last() =~= servers@.take(i as int));
            assert(servers@.take(i + 1).last() == servers@[i as int]);
        }
        if !servers[i].backup {
            out.push(i);
            proof {
                assert(out@.map_values(|u: usize| u as int) =~= primary_indices(
                    servers@.take(i + 1),
                ));
            }
        } else {
            proof {
                assert(out@.map_values(|u: usize| u as int) =~= primary_indices(
                    servers@.take(i + 1),
                ));
            }
        }
        i += 1;
    }
    proof {
        assert(servers@.take(servers@.len() as int) =~= servers@);
    }
    out
}

// ------------------------------------------------------------------
// The round-robin cursor and the pseudo-random step.
// ------------------------------------------------------------------

/// The cursor after one selection: one more, wrapping at the integer
/// limit.
pub open spec fn wrap_inc(c: u64) -> u64 {
    if c == u64::MAX {
        0
    } else {
        (c + 1) as u64
    }
}

/// One step of the xorshift pseudo-random sequence.
pub open spec fn xorshift_step(x: u64) -> u64 {
    let a = x ^ (x << 13u64);
    let b = a ^ (a >> 7u64);
    b ^ (b << 17u64)
}

/// Executes one xorshift step.
pub fn xorshift(x: u64) -> (r: u64)
    ensures
        r == xorshift_step(x),
{
    let a = x ^ (x << 13u64);
    let b = a ^ (a >> 7u64);
    b ^ (b << 17u64)
}

// ------------------------------------------------------------------
// The client-address hash.
// ------------------------------------------------------------------

/// Offset basis of the 64-bit FNV-1a hash.
pub const FNV_OFFSET: u64 = 0xcbf29ce484222325;

/// Prime of the 64-bit FNV-1a hash.
pub const FNV_PRIME: u64 = 0x100000001b3;

/// FNV-1a folding of `bytes` onto the accumulator `h`.
pub open spec fn fnv1a_from(h: u64, bytes: Seq<u8>) -> u64
    decreases bytes.len(),
{
    if bytes.len() == 0 {
        h
    } else {
        fnv1a_from((h ^ bytes[0] as u64).wrapping_mul(FNV_PRIME), bytes.drop_first())
    }
}

/// The 64-bit FNV-1a hash of `bytes`: a pure function of the bytes, so
/// equal addresses always hash alike.
pub open spec fn fnv1a(bytes: Seq<u8>) -> u64 {
    fnv1a_from(FNV_OFFSET, bytes)
}

/// Computes the FNV-1a hash of a string's bytes.
pub fn fnv1a_hash(s: &str) -> (r: u64)
    ensures
        r == fnv1a(s.spec_bytes()),
{
    let bytes = s.as_bytes();
    let mut h: u64 = FNV_OFFSET;
    let mut i: usize = 0;
    proof {
        assert(bytes@.skip(0) =~= bytes@);
    }
    while i < bytes.len()
        invariant
            0 <= i <= bytes@.len(),
            fnv1a_from(h, bytes@.skip(i as int)) == fnv1a(bytes@),
        decreases bytes@.len() - i,
    {
        let b = *vstd::slice::slice_index_get(bytes, i);
        proof {
            assert(bytes@.skip(i as int)[0] == bytes@[i as int]);
            assert(bytes@.skip(i as int).drop_first() =~= bytes@.skip(i + 1));
        }
        h = (h ^ (b as u64)).wrapping_mul(FNV_PRIME);
        i += 1;
    }
    proof {
        assert(bytes@.skip(bytes@.len() as int) =~= Seq::<u8>::empty());
    }
    h
}

// ------------------------------------------------------------------
// The first-minimum choice for least-connections.
// ------------------------------------------------------------------

/// Index of the first minimal value of a non-empty sequence.
pub open spec fn argmin_first(vals: Seq<u64>) -> int
    decreases vals.len(),
{
    if vals.len() <= 1 {
        0
    } else {
        let rest = argmin_first(vals.drop_first()) + 1;
        if vals[0] <= vals[rest] {
            0
        } else {
            rest
        }
    }
}

/// What `argmin_first` returns: a minimal value preceded only by
/// strictly larger ones.
pub proof fn lemma_argmin_first(vals: Seq<u64>)
    requires
        vals.len() > 0,
    ensures
        0 <= argmin_first(vals) < vals.len(),
        forall|j: int| 0 <= j < vals.len() ==> vals[argmin_first(vals)] <= #[trigger] vals[j],
        forall|j: int| 0 <= j < argmin_first(vals) ==> #[trigger] vals[j] > vals[argmin_first(vals)],
    decreases vals.len(),
{
    if vals.len() > 1 {
        let t = vals.drop_first();
        lemma_argmin_first(t);
        assert(forall|k: int| 0 <= k < t.len() ==> t[k] == vals[k + 1]);
        let a = argmin_first(vals);
        assert forall|j: int| 0 <= j < vals.len() implies vals[a] <= #[trigger] vals[j] by {
            if j >= 1 {
                assert(vals[j] == t[j - 1]);
                assert(t[argmin_first(t)] <= t[j - 1]);
            }
        }
        assert forall|j: int| 0 <= j < a implies #[trigger] vals[j] > vals[a] by {
            if j >= 1 {
                assert(vals[j] == t[j - 1]);
                assert(t[j - 1] > t[argmin_first(t)]);
            }
        }
    }
}

/// Converse direction: a minimal value preceded only by strictly larger
/// ones is the first minimum.
pub proof fn lemma_argmin_first_is(vals: Seq<u64>, i: int)
    requires
        0 <= i < vals.len(),
        forall|j: int| 0 <= j < vals.len() ==> vals[i] <= #[trigger] vals[j],
        forall|j: int| 0 <= j < i ==> #[trigger] vals[j] > vals[i],
    ensures
        argmin_first(vals) == i,
{
    lemma_argmin_first(vals);
    let a = argmin_first(vals);
    if a < i {
        assert(vals[a] > vals[i]);
        assert(vals[i] <= vals[a]);
    } else if a > i {
        assert(vals[i] > vals[a]);
        assert(vals[a] <= vals[i]);
    }
}

// ------------------------------------------------------------------
// Per-pool selection state and the selection itself.
// ------------------------------------------------------------------

/// Mutable selection state of one pool: the round-robin cursor, the
/// pseudo-random word, and one in-flight request counter per backend.
pub struct PoolState {
    /// Monotonic round-robin cursor; wraps at the integer limit.
    pub counter: u64,
    /// Current word of the pseudo-random sequence.
    pub rng: u64,
    /// In-flight request count per backend index.
    pub inflight: Vec<u64>,
}

/// Deep equality of two pool states.
pub open spec fn pool_state_eqv(a: PoolState, b: PoolState) -> bool {
    &&& a.counter == b.counter
    &&& a.rng == b.rng
    &&& a.inflight@ == b.inflight@
}

impl Clone for PoolState {
    fn clone(&self) -> (res: Self)
        ensures
            pool_state_eqv(res, *self),
    {
        PoolState { counter: self.counter, rng: self.rng, inflight: self.inflight.clone() }
    }
}

impl PoolState {
    /// A fresh pool state: cursor at zero, the given random seed, no
    /// requests in flight.
    pub fn new(seed: u64) -> (r: Self)
        ensures
            r.counter == 0,
            r.rng == seed,
            r.inflight@.len() == 0,
    {
        PoolState { counter: 0, rng: seed, inflight: Vec::new() }
    }
}

/// `s` grown with zeroes to length `n`, or unchanged if already as long.
pub open spec fn padded_to(s: Seq<u64>, n: int) -> Seq<u64> {
    if s.len() >= n {
        s
    } else {
        s + Seq::new((n - s.len()) as nat, |j: int| 0u64)
    }
}

/// The in-flight counts of the primary servers, in primary order.
pub open spec fn primary_loads(servers: Seq<BackendServer>, inflight: Seq<u64>) -> Seq<u64> {
    Seq::new(primary_indices(servers).len(), |j: int| inflight[primary_indices(servers)[j]])
}

/// Which primary (by position among the primaries) the policy picks.
/// Meaningful only when the pool has at least one primary.
pub open spec fn selection_ordinal(pool: UpstreamConfig, st: PoolState, ip_bytes: Seq<u8>) -> int {
    let p = primary_indices(pool.servers@);
    match pool.load_balancing {
        LoadBalancing::RoundRobin => st.counter as int % (p.len() as int),
        LoadBalancing::Random => xorshift_step(st.rng) as int % (p.len() as int),
        LoadBalancing::LeastConnections => argmin_first(
            primary_loads(pool.servers@, padded_to(st.inflight@, pool.servers@.len() as int)),
        ),
        LoadBalancing::IpHash => fnv1a(ip_bytes) as int % (p.len() as int),
    }
}

/// The server index a selection returns: none when the pool is empty,
/// the first server when only backups remain, otherwise the primary the
/// policy picks.
pub open spec fn selection_index(pool: UpstreamConfig, st: PoolState, ip_bytes: Seq<u8>) -> Option<
    int,
> {
    if pool.servers@.len() == 0 {
        None
    } else if primary_indices(pool.servers@).len() == 0 {
        Some(0int)
    } else {
        Some(primary_indices(pool.servers@)[selection_ordinal(pool, st, ip_bytes)])
    }
}

/// How one selection changes the pool state: round-robin advances the
/// cursor, random advances the pseudo-random word, least-connections
/// grows the in-flight table to the pool size, IP-hash changes nothing.
/// Selections that found no primary change nothing.
pub open spec fn pool_state_steps(pool: UpstreamConfig, pre: PoolState, post: PoolState) -> bool {
    if pool.servers@.len() == 0 || primary_indices(pool.servers@).len() == 0 {
        pool_state_eqv(post, pre)
    } else {
        match pool.load_balancing {
            LoadBalancing::RoundRobin => post.counter == wrap_inc(pre.counter) && post.rng
                == pre.rng && post.inflight@ == pre.inflight@,
            LoadBalancing::Random => post.counter == pre.counter && post.rng == xorshift_step(
                pre.rng,
            ) && post.inflight@ == pre.inflight@,
            LoadBalancing::LeastConnections => post.counter == pre.counter && post.rng == pre.rng
                && post.inflight@ == padded_to(pre.inflight@, pool.servers@.len() as int),
            LoadBalancing::IpHash => pool_state_eqv(post, pre),
        }
    }
}

/// Selects one backend from the pool under its policy.
///
/// Primaries are preferred; with no primaries the first backup (the
/// first server) is returned; an empty pool fails. The chosen backend
/// and the state change are pinned exactly by `selection_index` and
/// `pool_state_steps`.
pub fn select_from_pool<'a>(pool: &'a UpstreamConfig, client_ip: &str, st: &mut PoolState) -> (r:
    Result<&'a BackendServer, SelectError>)
    ensures
        match selection_index(*pool, *old(st), client_ip.spec_bytes()) {
            Some(i) => r matches Ok(b) && *b == pool.servers@[i],
            None => r is Err,
        },
        (r is Err) == (pool.servers@.len() == 0),
        pool_state_steps(*pool, *old(st), *final(st)),
{
    let ghost ip_bytes = client_ip.spec_bytes();
    let prims = collect_primaries(&pool.servers);
    proof {
        lemma_primary_indices(pool.servers@);
    }
    if prims.len() == 0 {
        if pool.servers.len() == 0 {
            return Err(SelectError::NoBackendAvailable);
        }
        return Ok(&pool.servers[0]);
    }
    let ghost p = primary_indices(pool.servers@);
    let n = prims.len();
    let k: usize = match pool.load_balancing {
        LoadBalancing::RoundRobin => {
            let c = st.counter;
            st.counter = if c == u64::MAX {
                0
            } else {
                c + 1
            };
            (c % (n as u64)) as usize
        },
        LoadBalancing::Random => {
            let w = xorshift(st.rng);
            st.rng = w;
            (w % (n as u64)) as usize
        },
        LoadBalancing::LeastConnections => {
            if st.inflight.len() < pool.servers.len() {
                st.inflight.resize(pool.servers.len(), 0u64);
                proof {
                    assert(st.inflight@ =~= padded_to(
                        old(st).inflight@,
                        pool.servers@.len() as int,
                    ));
                }
            }
            let ghost vals = primary_loads(pool.servers@, st.inflight@);
            let mut best: usize = 0;
            let mut j: usize = 1;
            while j < n
                invariant
                    0 <= best < j <= n,
                    p == primary_indices(pool.servers@),
                    n == p.len(),
                    prims@.len() == n,
                    prims@.map_values(|u: usize| u as int) == p,
                    st.inflight@.len() >= pool.servers@.len(),
                    forall|q: int| 0 <= q < p.len() ==> 0 <= #[trigger] p[q] < pool.servers@.len(),
                    vals == primary_loads(pool.servers@, st.inflight@),
                    forall|q: int| 0 <= q < j ==> vals[best as int] <= #[trigger] vals[q],
                    forall|q: int| 0 <= q < best ==> #[trigger] vals[q] > vals[best as int],
                decreases n - j,
            {
                proof {
                    assert(prims@.map_values(|u: usize| u as int)[j as int] == prims@[j as int]
                        as int);
                    assert(prims@.map_values(|u: usize| u as int)[best as int] == prims@[best
                        as int] as int);
                }
                let pj = prims[j];
                let pb = prims[best];
                let lj = st.inflight[pj];
                let lb = st.inflight[pb];
                proof {
                    assert(vals[j as int] == st.inflight@[p[j as int]]);
                    assert(vals[best as int] == st.inflight@[p[best as int]]);
                }
                if lj < lb {
                    best = j;
                }
                j += 1;
            }
            proof {
                lemma_argmin_first_is(vals, best as int);
            }
            best
        },
        LoadBalancing::IpHash => {
            let h = fnv1a_hash(client_ip);
            (h % (n as u64)) as usize
        },
    };
    proof {
        assert(k < p.len());
        assert(k as int == selection_ordinal(*pool, *old(st), ip_bytes));
    }
    let idx = prims[k];
    Ok(&pool.servers[idx])
}

// ------------------------------------------------------------------
// Laws of the policies.
// ------------------------------------------------------------------

/// The cursor after `t` successive selections starting from `c`.
pub open spec fn cursor_after(c: u64, t: nat) -> u64
    decreases t,
{
    if t == 0 {
        c
    } else {
        wrap_inc(cursor_after(c, (t - 1) as nat))
    }
}

/// Away from the wrap point the cursor simply counts up.
pub proof fn lemma_cursor_after(c: u64, t: nat)
    requires
        c + t <= u64::MAX,
    ensures
        cursor_after(c, t) == c + t,
    decreases t,
{
    if t > 0 {
        lemma_cursor_after(c, (t - 1) as nat);
    }
}

/// Law: round-robin over `n` primaries visits every primary exactly once
/// in `n` successive selections, then the cycle repeats — two distinct
/// selections of such a window pick distinct primaries. Stated over the
/// ordinals `cursor % n` that `selection_ordinal` yields while the
/// cursor walks from `c`; the statement excludes windows in which the
/// cursor wraps past the integer limit, where the cycle restarts at a
/// new offset.
pub proof fn lemma_round_robin_distinct(c: u64, n: int, t1: nat, t2: nat)
    requires
        0 < n,
        t1 < n,
        t2 < n,
        t1 != t2,
        c + n - 1 <= u64::MAX,
    ensures
        cursor_after(c, t1) as int % n != cursor_after(c, t2) as int % n,
{
    lemma_cursor_after(c, t1);
    lemma_cursor_after(c, t2);
    let a = c as int + t1;
    let b = c as int + t2;
    if a % n == b % n {
        vstd::arithmetic::div_mod::lemma_fundamental_div_mod(a, n);
        vstd::arithmetic::div_mod::lemma_fundamental_div_mod(b, n);
        let d = b / n - a / n;
        assert(b - a == n * d) by (nonlinear_arith)
            requires
                a == n * (a / n) + a % n,
                b == n * (b / n) + b % n,
                a % n == b % n,
                d == b / n - a / n,
        ;
        assert(-n < b - a < n);
        if d >= 1 {
            assert(n * d >= n) by (nonlinear_arith)
                requires
                    d >= 1,
                    n > 0,
            ;
        } else if d <= -1 {
            assert(n * d <= -n) by (nonlinear_arith)
                requires
                    d <= -1,
                    n > 0,
            ;
        } else {
            assert(d == 0);
            assert(b - a == 0) by (nonlinear_arith)
                requires
                    b - a == n * d,
                    d == 0,
            ;
        }
    }
}

/// Law, coverage half: within one window of `n` successive round-robin
/// selections every primary ordinal is visited.
pub proof fn lemma_round_robin_covers(c: u64, n: int, k: int)
    requires
        0 < n,
        0 <= k < n,
        c + n - 1 <= u64::MAX,
    ensures
        exists|t: nat| t < n && cursor_after(c, t) as int % n == k,
{
    let ci = c as int;
    vstd::arithmetic::div_mod::lemma_fundamental_div_mod(ci, n);
    vstd::arithmetic::div_mod::lemma_mod_division_less_than_divisor(ci, n);
    let r = ci % n;
    let t: int = if k >= r {
        k - r
    } else {
        k + n - r
    };
    assert(0 <= t < n);
    lemma_cursor_after(c, t as nat);
    if k >= r {
        assert(ci + t == (ci / n) * n + k) by (nonlinear_arith)
            requires
                ci == n * (ci / n) + r,
                t == k - r,
        ;
        vstd::arithmetic::div_mod::lemma_fundamental_div_mod_converse(ci + t, n, ci / n, k);
    } else {
        assert(ci + t == (ci / n + 1) * n + k) by (nonlinear_arith)
            requires
                ci == n * (ci / n) + r,
                t == k + n - r,
        ;
        vstd::arithmetic::div_mod::lemma_fundamental_div_mod_converse(ci + t, n, ci / n + 1, k);
    }
    assert(cursor_after(c, t as nat) as int % n == k);
}

/// Selection depends only on the rendered state, not on the identity of
/// the vectors holding it.
pub proof fn lemma_selection_state_eqv(
    pool: UpstreamConfig,
    a: PoolState,
    b: PoolState,
    ip: Seq<u8>,
)
    requires
        pool_state_eqv(a, b),
    ensures
        selection_index(pool, a, ip) == selection_index(pool, b, ip),
        forall|post: PoolState|
            pool_state_steps(pool, a, post) == #[trigger] pool_state_steps(pool, b, post),
{
}

// ------------------------------------------------------------------
// Selection state keyed by upstream name.
// ------------------------------------------------------------------

/// One named pool's selection state.
pub struct SelectorEntry {
    /// The upstream name this slot belongs to.
    pub name: String,
    /// That pool's cursor, random word and in-flight counts.
    pub state: PoolState,
}

/// The predicate "this slot belongs to `name`".
pub open spec fn slot_named(name: Seq<char>) -> spec_fn(SelectorEntry) -> bool {
    |e: SelectorEntry| e.name@ == name
}

/// Index of the slot for `name`, if one exists.
pub open spec fn selector_find(pools: Seq<SelectorEntry>, name: Seq<char>) -> Option<int> {
    first_where(pools, slot_named(name))
}

/// A fresh slot state: cursor at zero, random word `seed`, nothing in
/// flight.
pub open spec fn fresh_pool_state(st: PoolState, seed: u64) -> bool {
    st.counter == 0 && st.rng == seed && st.inflight@.len() == 0
}

/// One in-flight count up, saturating.
pub open spec fn sat_inc(x: u64) -> u64 {
    if x == u64::MAX {
        x
    } else {
        (x + 1) as u64
    }
}

/// One in-flight count down, saturating.
pub open spec fn sat_dec(x: u64) -> u64 {
    if x == 0 {
        0
    } else {
        (x - 1) as u64
    }
}

/// Per-pool selection state keyed by upstream name, owned by the process
/// for its lifetime: a pool keeps its cursor across configuration
/// reloads as long as its name is unchanged; slots of renamed or removed
/// pools are simply never consulted again.
pub struct SelectorState {
    /// One slot per upstream name seen so far.
    pub pools: Vec<SelectorEntry>,
    /// Seed handed to the next fresh slot.
    pub seed: u64,
}

impl SelectorState {
    /// An empty selector; `seed` feeds the random policy.
    pub fn new(seed: u64) -> (r: Self)
        ensures
            r.pools@.len() == 0,
            r.seed == seed,
    {
        SelectorState { pools: Vec::new(), seed }
    }

    /// Index of the slot for `name`, scanning in order.
    fn find_slot(&self, name: &str) -> (r: Option<usize>)
        ensures
            match selector_find(self.pools@, name@) {
                Some(i) => r matches Some(x) && x as int == i && i < self.pools@.len()
                    && self.pools@[i].name@ == name@,
                None => r is None,
            },
    {
        let mut i: usize = 0;
        while i < self.pools.len()
            invariant
                0 <= i <= self.pools@.len(),
                forall|k: int| 0 <= k < i ==> (#[trigger] self.pools@[k]).name@ != name@,
            decreases self.pools@.len() - i,
        {
            if str_eq(self.pools[i].name.as_str(), name) {
                proof {
                    lemma_first_where_is(self.pools@, slot_named(name@), i as int);
                }
                return Some(i);
            }
            i += 1;
        }
        proof {
            lemma_first_where_none(self.pools@, slot_named(name@));
        }
        None
    }

    /// Selects one backend of `pool` for the upstream called `name`,
    /// using (and advancing) the cursor slot kept for that name; a name
    /// not seen before gets a fresh slot seeded from the selector.
    pub fn select<'a>(&mut self, name: &str, pool: &'a UpstreamConfig, client_ip: &str) -> (r:
        Result<&'a BackendServer, SelectError>)
        ensures
            (r is Err) == (pool.servers@.len() == 0),
            match selector_find(old(self).pools@, name@) {
                Some(i) => {
                    &&& (match selection_index(
                        *pool,
                        old(self).pools@[i].state,
                        client_ip.spec_bytes(),
                    ) {
                        Some(x) => r matches Ok(b) && *b == pool.servers@[x],
                        None => r is Err,
                    })
                    &&& final(self).pools@.len() == old(self).pools@.len()
                    &&& (forall|k: int|
                        0 <= k < old(self).pools@.len() && k != i ==> final(self).pools@[k] == old(
                            self,
                        ).pools@[k])
                    &&& final(self).pools@[i].name@ == name@
                    &&& pool_state_steps(
                        *pool,
                        old(self).pools@[i].state,
                        final(self).pools@[i].state,
                    )
                    &&& final(self).seed == old(self).seed
                },
                None => {
                    &&& (exists|f: PoolState|
                        fresh_pool_state(f, old(self).seed) && (match selection_index(
                            *pool,
                            f,
                            client_ip.spec_bytes(),
                        ) {
                            Some(x) => r matches Ok(b) && *b == pool.servers@[x],
                            None => r is Err,
                        }) && pool_state_steps(
                            *pool,
                            f,
                            final(self).pools@[old(self).pools@.len() as int].state,
                        ))
                    &&& final(self).pools@.len() == old(self).pools@.len() + 1
                    &&& (forall|k: int|
                        0 <= k < old(self).pools@.len() ==> final(self).pools@[k] == old(
                            self,
                        ).pools@[k])
                    &&& final(self).pools@[old(self).pools@.len() as int].name@ == name@
                    &&& final(self).seed == xorshift_step(old(self).seed)
                },
            },
    {
        let found = self.find_slot(name);
        match found {
            Some(i) => {
                let mut st = self.pools[i].state.clone();
                proof {
                    lemma_selection_state_eqv(
                        *pool,
                        st,
                        self.pools@[i as int].state,
                        client_ip.spec_bytes(),
                    );
                }
                let r = select_from_pool(pool, client_ip, &mut st);
                let nm = self.pools[i].name.clone();
                self.pools.set(i, SelectorEntry { name: nm, state: st });
                r
            },
            None => {
                let mut st = PoolState::new(self.seed);
                self.seed = xorshift(self.seed);
                let ghost f = st;
                let r = select_from_pool(pool, client_ip, &mut st);
                self.pools.push(SelectorEntry { name: name.to_owned(), state: st });
                proof {
                    assert(fresh_pool_state(f, old(self).seed));
                    assert(self.pools@[old(self).pools@.len() as int].state == st);
                    assert(pool_state_steps(
                        *pool,
                        f,
                        self.pools@[old(self).pools@.len() as int].state,
                    ));
                }
                r
            },
        }
    }

    /// Records that a request was dispatched to backend `idx` of the
    /// pool called `name`: its in-flight count goes up by one,
    /// saturating; an unknown name or an out-of-range index changes
    /// nothing.
    pub fn dispatch_started(&mut self, name: &str, idx: usize)
        ensures
            final(self).seed == old(self).seed,
            final(self).pools@.len() == old(self).pools@.len(),
            match selector_find(old(self).pools@, name@) {
                Some(i) => {
                    &&& (forall|k: int|
                        0 <= k < old(self).pools@.len() && k != i ==> final(self).pools@[k] == old(
                            self,
                        ).pools@[k])
                    &&& final(self).pools@[i].name@ == name@
                    &&& final(self).pools@[i].state.counter == old(self).pools@[i].state.counter
                    &&& final(self).pools@[i].state.rng == old(self).pools@[i].state.rng
                    &&& (if idx < old(self).pools@[i].state.inflight@.len() {
                        final(self).pools@[i].state.inflight@ == old(
                            self,
                        ).pools@[i].state.inflight@.update(
                            idx as int,
                            sat_inc(old(self).pools@[i].state.inflight@[idx as int]),
                        )
                    } else {
                        final(self).pools@[i].state.inflight@ == old(
                            self,
                        ).pools@[i].state.inflight@
                    })
                },
                None => final(self).pools@ == old(self).pools@,
            },
    {
        let found = self.find_slot(name);
        if let Some(i) = found {
            let mut st = self.pools[i].state.clone();
            if idx < st.inflight.len() {
                let v = st.inflight[idx];
                let bumped = if v == u64::MAX {
                    v
                } else {
                    v + 1
                };
                st.inflight.set(idx, bumped);
            }
            let nm = self.pools[i].name.clone();
            self.pools.set(i, SelectorEntry { name: nm, state: st });
            proof {
                assert(self.pools@[i as int].state.inflight@ =~= (if idx < old(
                    self,
                ).pools@[i as int].state.inflight@.len() {
                    old(self).pools@[i as int].state.inflight@.update(
                        idx as int,
                        sat_inc(old(self).pools@[i as int].state.inflight@[idx as int]),
                    )
                } else {
                    old(self).pools@[i as int].state.inflight@
                }));
            }
        } else {
            proof {
                assert(self.pools@ =~= old(self).pools@);
            }
        }
    }

    /// Records that a dispatch to backend `idx` of the pool called
    /// `name` finished (however it ended): its in-flight count goes
    /// down by one, stopping at zero; an unknown name or an
    /// out-of-range index changes nothing.
    pub fn dispatch_finished(&mut self, name: &str, idx: usize)
        ensures
            final(self).seed == old(self).seed,
            final(self).pools@.len() == old(self).pools@.len(),
            match selector_find(old(self).pools@, name@) {
                Some(i) => {
                    &&& (forall|k: int|
                        0 <= k < old(self).pools@.len() && k != i ==> final(self).pools@[k] == old(
                            self,
                        ).pools@[k])
                    &&& final(self).pools@[i].name@ == name@
                    &&& final(self).pools@[i].state.counter == old(self).pools@[i].state.counter
                    &&& final(self).pools@[i].state.rng == old(self).pools@[i].state.rng
                    &&& (if idx < old(self).pools@[i].state.inflight@.len() {
                        final(self).pools@[i].state.inflight@ == old(
                            self,
                        ).pools@[i].state.inflight@.update(
                            idx as int,
                            sat_dec(old(self).pools@[i].state.inflight@[idx as int]),
                        )
                    } else {
                        final(self).pools@[i].state.inflight@ == old(
                            self,
                        ).pools@[i].state.inflight@
                    })
                },
                None => final(self).pools@ == old(self).pools@,
            },
    {
        let found = self.find_slot(name);
        if let Some(i) = found {
            let mut st = self.pools[i].state.clone();
            if idx < st.inflight.len() {
                let v = st.inflight[idx];
                let dropped = if v == 0 {
                    0
                } else {
                    v - 1
                };
                st.inflight.set(idx, dropped);
            }
            let nm = self.pools[i].name.clone();
            self.pools.set(i, SelectorEntry { name: nm, state: st });
            proof {
                assert(self.pools@[i as int].state.inflight@ =~= (if idx < old(
                    self,
                ).pools@[i as int].state.inflight@.len() {
                    old(self).pools@[i as int].state.inflight@.update(
                        idx as int,
                        sat_dec(old(self).pools@[i as int].state.inflight@[idx as int]),
                    )
                } else {
                    old(self).pools@[i as int].state.inflight@
                }));
            }
        } else {
            proof {
                assert(self.pools@ =~= old(self).pools@);
            }
        }
    }
}

// ------------------------------------------------------------------
// The per-route proxy handler.
// ------------------------------------------------------------------

/// Handler for one matched route: the route, its pool, and the pool's
/// selection state.
pub struct ProxyHandler {
    /// The pool the route's upstream names.
    pub upstream: UpstreamConfig,
    /// The matched route.
    pub route: RouteConfig,
    /// Selection state of the pool.
    pub state: PoolState,
}

impl ProxyHandler {
    /// A handler with a fresh cursor for the given pool and route.
    pub fn new(upstream: UpstreamConfig, route: RouteConfig) -> (r: Self)
        ensures
            r.upstream == upstream,
            r.route == route,
            fresh_pool_state(r.state, 0),
    {
        ProxyHandler { upstream, route, state: PoolState::new(0) }
    }

    /// Selects a backend address for a request from `client_ip` under
    /// the pool's policy, advancing this handler's selection state.
    pub fn select_backend(&mut self, client_ip: &str) -> (r: Result<String, SelectError>)
        ensures
            final(self).upstream == old(self).upstream,
            final(self).route == old(self).route,
            pool_state_steps(old(self).upstream, old(self).state, final(self).state),
            match selection_index(old(self).upstream, old(self).state, client_ip.spec_bytes()) {
                Some(i) => r matches Ok(a) && a@ == old(self).upstream.servers@[i].address@,
                None => r is Err,
            },
            (r is Err) == (old(self).upstream.servers@.len() == 0),
    {
        let picked = select_from_pool(&self.upstream, client_ip, &mut self.state);
        match picked {
            Ok(b) => Ok(b.address.clone()),
            Err(e) => Err(e),
        }
    }
}

/// Law, at the level of backends: while the cursor walks one window of
/// `n` successive round-robin selections, two distinct selections return
/// two distinct primary servers — with coverage of the window (see
/// `lemma_round_robin_covers`), every primary is visited exactly once
/// before the cycle repeats.
pub proof fn lemma_round_robin_distinct_backends(
    pool: UpstreamConfig,
    st1: PoolState,
    st2: PoolState,
    ip: Seq<u8>,
    c: u64,
    t1: nat,
    t2: nat,
)
    requires
        pool.load_balancing is RoundRobin,
        primary_indices(pool.servers@).len() > 0,
        st1.counter == cursor_after(c, t1),
        st2.counter == cursor_after(c, t2),
        t1 < primary_indices(pool.servers@).len(),
        t2 < primary_indices(pool.servers@).len(),
        t1 != t2,
        c + primary_indices(pool.servers@).len() - 1 <= u64::MAX,
    ensures
        selection_index(pool, st1, ip) is Some,
        selection_index(pool, st2, ip) is Some,
        selection_index(pool, st1, ip) != selection_index(pool, st2, ip),
{
    let p = primary_indices(pool.servers@);
    let n = p.len() as int;
    lemma_primary_indices(pool.servers@);
    lemma_round_robin_distinct(c, n, t1, t2);
    vstd::arithmetic::div_mod::lemma_mod_pos_bound(st1.counter as int, n);
    vstd::arithmetic::div_mod::lemma_mod_pos_bound(st2.counter as int, n);
    let o1 = selection_ordinal(pool, st1, ip);
    let o2 = selection_ordinal(pool, st2, ip);
    if o1 < o2 {
        assert(p[o1] < p[o2]);
    } else {
        assert(p[o2] < p[o1]);
    }
}

/// Law: IP-hash selection is deterministic — the same client address
/// with an unchanged server list always selects the same backend, no
/// matter how the cursors, random words or in-flight counts differ, and
/// the selection leaves the state unchanged.
pub proof fn lemma_ip_hash_deterministic(
    pool1: UpstreamConfig,
    pool2: UpstreamConfig,
    st1: PoolState,
    st2: PoolState,
    ip: Seq<u8>,
)
    requires
        pool1.load_balancing == LoadBalancing::IpHash,
        pool2.load_balancing == LoadBalancing::IpHash,
        pool1.servers@ == pool2.servers@,
    ensures
        selection_index(pool1, st1, ip) == selection_index(pool2, st2, ip),
        pool_state_steps(pool1, st1, st1),
{
}

} // verus!
