//! The request router: matches a method and path against a configuration
//! snapshot, static rules first, then proxy routes, first match wins.

use vstd::prelude::*;

use crate::config::JanusConfig;
use crate::config::RouteConfig;
use crate::config::StaticFileConfig;
use crate::config::UpstreamConfig;
use crate::config::lemma_upstream_lookup_contains;
use crate::config::lookup_upstream;
use crate::config::upstream_lookup;
use crate::config::upstreams_contain;
use crate::config::valid_config;
use crate::seq_search::first_where;
use crate::seq_search::lemma_first_where;
use crate::seq_search::lemma_first_where_is;
use crate::seq_search::lemma_first_where_none;
use crate::text::is_prefix;
use crate::text::str_eq;
use crate::text::str_starts_with;

verus! {

// ------------------------------------------------------------------
// Path patterns.
// ------------------------------------------------------------------

/// A pattern is a prefix pattern when it ends in `*`.
pub open spec fn pattern_is_wildcard(pattern: Seq<char>) -> bool {
    pattern.len() >= 1 && pattern[pattern.len() - 1] == '*'
}

/// The pattern with its wildcard suffix (`/*` or `*`) removed; a pattern
/// without a wildcard is its own literal prefix.
pub open spec fn pattern_literal_prefix(pattern: Seq<char>) -> Seq<char> {
    if pattern.len() >= 2 && pattern[pattern.len() - 2] == '/' && pattern[pattern.len() - 1]
        == '*' {
        pattern.take(pattern.len() - 2)
    } else if pattern.len() >= 1 && pattern[pattern.len() - 1] == '*' {
        pattern.take(pattern.len() - 1)
    } else {
        pattern
    }
}

/// Path matching: exact equality for plain patterns, prefix matching on
/// the literal prefix for wildcard patterns.
pub open spec fn path_matches_pattern(path: Seq<char>, pattern: Seq<char>) -> bool {
    if pattern_is_wildcard(pattern) {
        is_prefix(pattern_literal_prefix(pattern), path)
    } else {
        path == pattern
    }
}

/// Decides whether `path` matches the route pattern `pattern`.
pub fn matches_route(path: &str, pattern: &str) -> (r: bool)
    ensures
        r == path_matches_pattern(path@, pattern@),
{
    let plen = pattern.unicode_len();
    if plen >= 2 && pattern.get_char(plen - 2) == '/' && pattern.get_char(plen - 1) == '*' {
        let prefix = pattern.substring_char(0, plen - 2);
        str_starts_with(path, prefix)
    } else if plen >= 1 && pattern.get_char(plen - 1) == '*' {
        let prefix = pattern.substring_char(0, plen - 1);
        str_starts_with(path, prefix)
    } else {
        str_eq(path, pattern)
    }
}

// ------------------------------------------------------------------
// Methods, compared case-insensitively.
// ------------------------------------------------------------------

/// Maps a lowercase ASCII letter code to its uppercase code; any other
/// code is unchanged.
pub open spec fn upper_code(x: u32) -> u32 {
    if 97 <= x <= 122 {
        (x - 32) as u32
    } else {
        x
    }
}

/// ASCII-case-insensitive equality of two character sequences.
pub open spec fn eq_ignore_ascii_case(a: Seq<char>, b: Seq<char>) -> bool {
    a.len() == b.len() && forall|i: int|
        0 <= i < a.len() ==> upper_code(#[trigger] a[i] as u32) == upper_code(b[i] as u32)
}

/// An empty allow-list admits every method; otherwise the request method
/// must be in the list, compared case-insensitively.
pub open spec fn method_allowed(methods: Seq<String>, method: Seq<char>) -> bool {
    methods.len() == 0 || exists|i: int|
        0 <= i < methods.len() && eq_ignore_ascii_case(methods[i]@, method)
}

/// ASCII-case-insensitive equality of two string slices.
pub fn eq_nocase(a: &str, b: &str) -> (r: bool)
    ensures
        r == eq_ignore_ascii_case(a@, b@),
{
    let na = a.unicode_len();
    let nb = b.unicode_len();
    if na != nb {
        return false;
    }
    let mut i: usize = 0;
    while i < na
        invariant
            0 <= i <= na,
            na == a@.len(),
            na == b@.len(),
            forall|k: int| 0 <= k < i ==> upper_code(#[trigger] a@[k] as u32) == upper_code(
                b@[k] as u32,
            ),
        decreases na - i,
    {
        let xa = a.get_char(i) as u32;
        let xb = b.get_char(i) as u32;
        let ua = if 97 <= xa && xa <= 122 {
            xa - 32
        } else {
            xa
        };
        let ub = if 97 <= xb && xb <= 122 {
            xb - 32
        } else {
            xb
        };
        if ua != ub {
            return false;
        }
        i += 1;
    }
    true
}

/// Decides whether `method` passes the route's allow-list.
pub fn method_is_allowed(methods: &Vec<String>, method: &str) -> (r: bool)
    ensures
        r == method_allowed(methods@, method@),
{
    if methods.len() == 0 {
        return true;
    }
    let mut i: usize = 0;
    while i < methods.len()
        invariant
            0 <= i <= methods@.len(),
            forall|k: int| 0 <= k < i ==> !eq_ignore_ascii_case((#[trigger] methods@[k])@, method@),
        decreases methods@.len() - i,
    {
        if eq_nocase(methods[i].as_str(), method) {
            return true;
        }
        i += 1;
    }
    false
}

// ------------------------------------------------------------------
// The routing decision.
// ------------------------------------------------------------------

/// What the router found for a request: a static rule, a proxy route with
/// its pool, or nothing.
pub enum RouteOutcome<'a> {
    /// The first static rule whose URL prefix matches the path.
    StaticHit(&'a StaticFileConfig),
    /// The first matching proxy route and the pool its upstream names.
    ProxyHit(&'a RouteConfig, &'a UpstreamConfig),
    /// Nothing matched.
    NoMatch,
}

/// One route's full match condition: path pattern and method allow-list.
pub open spec fn route_accepts(r: RouteConfig, method: Seq<char>, path: Seq<char>) -> bool {
    path_matches_pattern(path, r.path@) && method_allowed(r.methods@, method)
}

/// The predicate "this static rule's prefix matches `path`".
pub open spec fn static_rule_hits(path: Seq<char>) -> spec_fn(StaticFileConfig) -> bool {
    |s: StaticFileConfig| is_prefix(s.path@, path)
}

/// The predicate "this route accepts the request".
pub open spec fn route_hits(method: Seq<char>, path: Seq<char>) -> spec_fn(RouteConfig) -> bool {
    |r: RouteConfig| route_accepts(r, method, path)
}

/// Index of the first static rule matching `path`, if any.
pub open spec fn first_static_match(c: JanusConfig, path: Seq<char>) -> Option<int> {
    first_where(c.static_files@, static_rule_hits(path))
}

/// Index of the first route accepting the request, if any.
pub open spec fn first_route_match(c: JanusConfig, method: Seq<char>, path: Seq<char>) -> Option<
    int,
> {
    first_where(c.routes@, route_hits(method, path))
}

/// Routes a request against a snapshot: static rules are scanned first in
/// declared order, then proxy routes in declared order; within each list
/// the first match wins.
pub fn match_request<'a>(config: &'a JanusConfig, method: &str, path: &str) -> (r: RouteOutcome<
    'a,
>)
    requires
        valid_config(*config),
    ensures
        match first_static_match(*config, path@) {
            Some(i) => r matches RouteOutcome::StaticHit(s) && *s == config.static_files@[i],
            None => match first_route_match(*config, method@, path@) {
                Some(i) => r matches RouteOutcome::ProxyHit(rt, up) && *rt == config.routes@[i]
                    && upstream_lookup(config.upstreams@, config.routes@[i].upstream@) == Some(
                    *up,
                ),
                None => r is NoMatch,
            },
        },
{
    let mut i: usize = 0;
    while i < config.static_files.len()
        invariant
            0 <= i <= config.static_files@.len(),
            forall|k: int| 0 <= k < i ==> !is_prefix((#[trigger] config.static_files@[k]).path@, path@),
        decreases config.static_files@.len() - i,
    {
        let rule = &config.static_files[i];
        if str_starts_with(path, rule.path.as_str()) {
            proof {
                lemma_first_where_is(config.static_files@, static_rule_hits(path@), i as int);
            }
            return RouteOutcome::StaticHit(rule);
        }
        i += 1;
    }
    proof {
        lemma_first_where_none(config.static_files@, static_rule_hits(path@));
    }
    let mut j: usize = 0;
    while j < config.routes.len()
        invariant
            0 <= j <= config.routes@.len(),
            valid_config(*config),
            first_static_match(*config, path@) is None,
            forall|k: int|
                0 <= k < j ==> !route_accepts(#[trigger] config.routes@[k], method@, path@),
        decreases config.routes@.len() - j,
    {
        let route = &config.routes[j];
        if matches_route(path, route.path.as_str()) && method_is_allowed(
            &route.methods,
            method,
        ) {
            proof {
                lemma_first_where_is(config.routes@, route_hits(method@, path@), j as int);
                assert(upstreams_contain(config.upstreams@, route.upstream@));
                lemma_upstream_lookup_contains(config.upstreams@, route.upstream@);
            }
            let up = lookup_upstream(&config.upstreams, route.upstream.as_str());
            match up {
                Some(u) => {
                    return RouteOutcome::ProxyHit(route, u);
                },
                None => {
                    // valid snapshots always name an existing upstream
                    proof {
                        assert(false);
                    }
                    return RouteOutcome::NoMatch;
                },
            }
        }
        j += 1;
    }
    proof {
        lemma_first_where_none(config.routes@, route_hits(method@, path@));
    }
    RouteOutcome::NoMatch
}

/// Law: matching is first-match-wins in declaration order, regardless of
/// pattern specificity. If any route accepts the request, the matched
/// index is the smallest accepting one and every earlier route rejects
/// it; if none accepts, there is no match. Static rules behave the same
/// way on their prefixes.
pub proof fn lemma_first_match_wins(c: JanusConfig, method: Seq<char>, path: Seq<char>)
    ensures
        match first_route_match(c, method, path) {
            Some(i) => 0 <= i < c.routes@.len() && route_accepts(c.routes@[i], method, path)
                && (forall|k: int|
                0 <= k < i ==> !route_accepts(#[trigger] c.routes@[k], method, path)),
            None => forall|k: int|
                0 <= k < c.routes@.len() ==> !route_accepts(#[trigger] c.routes@[k], method, path),
        },
        match first_static_match(c, path) {
            Some(i) => 0 <= i < c.static_files@.len() && is_prefix(c.static_files@[i].path@, path)
                && (forall|k: int|
                0 <= k < i ==> !is_prefix((#[trigger] c.static_files@[k]).path@, path)),
            None => forall|k: int|
                0 <= k < c.static_files@.len() ==> !is_prefix(
                    (#[trigger] c.static_files@[k]).path@,
                    path,
                ),
        },
{
    lemma_first_where(c.routes@, route_hits(method, path));
    lemma_first_where(c.static_files@, static_rule_hits(path));
}

} // verus!
