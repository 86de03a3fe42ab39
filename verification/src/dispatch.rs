//! Forwarding a matched request: path rewriting, outbound header
//! assembly, the backend host, and the synthetic error responses for
//! failed round trips.

use vstd::prelude::*;

use crate::config::HeaderPair;
use crate::config::RouteConfig;
use crate::router::eq_ignore_ascii_case;
use crate::router::eq_nocase;
use crate::router::pattern_literal_prefix;
use crate::seq_search::first_where;
use crate::seq_search::lemma_first_where_is;
use crate::seq_search::lemma_first_where_none;
use crate::text::chars_after;
use crate::text::dec_chars;
use crate::text::is_prefix;
use crate::text::str_starts_with;
use crate::text::u64_to_dec;

verus! {

// ------------------------------------------------------------------
// Path rewriting.
// ------------------------------------------------------------------

/// `s` with every trailing `/` removed.
pub open spec fn strip_trailing_slashes(s: Seq<char>) -> Seq<char>
    decreases s.len(),
{
    if s.len() > 0 && s.last() == '/' {
        strip_trailing_slashes(s.drop_last())
    } else {
        s
    }
}

/// The rewritten outbound path: the pattern's literal prefix is stripped
/// from the path (when it is a prefix of it) and replaced by the rewrite
/// string with its trailing slashes normalized away.
pub open spec fn rewrite_spec(path: Seq<char>, pattern: Seq<char>, rewrite: Seq<char>) -> Seq<
    char,
> {
    let prefix = pattern_literal_prefix(pattern);
    let suffix = if is_prefix(prefix, path) {
        chars_after(path, prefix.len() as int)
    } else {
        path
    };
    strip_trailing_slashes(rewrite) + suffix
}

/// Applies a route's rewrite rule to a request path.
pub fn apply_rewrite(path: &str, pattern: &str, rewrite: &str) -> (r: String)
    ensures
        r@ == rewrite_spec(path@, pattern@, rewrite@),
{
    let plen = pattern.unicode_len();
    let prefix: &str = if plen >= 2 && pattern.get_char(plen - 2) == '/' && pattern.get_char(
        plen - 1,
    ) == '*' {
        pattern.substring_char(0, plen - 2)
    } else if plen >= 1 && pattern.get_char(plen - 1) == '*' {
        pattern.substring_char(0, plen - 1)
    } else {
        pattern
    };
    let pre_len = prefix.unicode_len();
    let suffix: String = if str_starts_with(path, prefix) {
        let len = path.unicode_len();
        path.substring_char(pre_len, len).to_owned()
    } else {
        path.to_owned()
    };
    let mut base_len = rewrite.unicode_len();
    proof {
        assert(rewrite@.take(rewrite@.len() as int) =~= rewrite@);
    }
    while base_len > 0 && rewrite.get_char(base_len - 1) == '/'
        invariant
            base_len <= rewrite@.len(),
            strip_trailing_slashes(rewrite@.take(base_len as int)) == strip_trailing_slashes(
                rewrite@,
            ),
        decreases base_len,
    {
        proof {
            assert(rewrite@.take(base_len as int).last() == rewrite@[base_len - 1]);
            assert(rewrite@.take(base_len as int).drop_last() =~= rewrite@.take(base_len - 1));
        }
        base_len -= 1;
    }
    proof {
        if base_len > 0 {
            assert(rewrite@.take(base_len as int).last() == rewrite@[base_len - 1]);
        }
        assert(strip_trailing_slashes(rewrite@.take(base_len as int)) == rewrite@.take(
            base_len as int,
        ));
    }
    let mut out = rewrite.substring_char(0, base_len).to_owned();
    out.append(suffix.as_str());
    out
}

/// The full outbound path: the rewritten (or unchanged) path with the
/// original query string appended verbatim.
pub open spec fn outbound_path_spec(
    path: Seq<char>,
    query: Option<Seq<char>>,
    route: RouteConfig,
) -> Seq<char> {
    let base = match route.rewrite {
        Some(rw) => rewrite_spec(path, route.path@, rw@),
        None => path,
    };
    match query {
        Some(q) => base + "?"@ + q,
        None => base,
    }
}

/// Computes the path sent to the backend for a request matched by
/// `route`.
pub fn build_outbound_path(path: &str, query: Option<&str>, route: &RouteConfig) -> (r: String)
    ensures
        r@ == outbound_path_spec(
            path@,
            match query {
                Some(q) => Some(q@),
                None => None,
            },
            *route,
        ),
{
    let mut out: String = match &route.rewrite {
        Some(rw) => apply_rewrite(path, route.path.as_str(), rw.as_str()),
        None => path.to_owned(),
    };
    match query {
        Some(q) => {
            out.append("?");
            out.append(q);
        },
        None => {},
    }
    out
}

// ------------------------------------------------------------------
// Outbound headers.
// ------------------------------------------------------------------

/// The predicate "this header is not the Host header".
pub open spec fn non_host() -> spec_fn(HeaderPair) -> bool {
    |h: HeaderPair| !eq_ignore_ascii_case(h.name@, "host"@)
}

/// Builds the outbound header list: every inbound header except `Host`,
/// in order; then the route's extra headers, in order (they may repeat
/// inbound names — the receiver sees the later value); then `Host` set
/// to the backend's host.
pub fn outbound_headers(inbound: &Vec<HeaderPair>, route: &RouteConfig, host: &str) -> (r: Vec<
    HeaderPair,
>)
    ensures
        ({
            let kept = inbound@.filter(non_host());
            &&& r@.len() == kept.len() + route.headers@.len() + 1
            &&& r@.take(kept.len() as int) == kept
            &&& r@.subrange(kept.len() as int, kept.len() as int + route.headers@.len() as int) == route.headers@
            &&& r@.last().name@ == "Host"@
            &&& r@.last().value@ == host@
        }),
{
    let ghost kept = inbound@.filter(non_host());
    let mut out: Vec<HeaderPair> = Vec::new();
    let mut i: usize = 0;
    proof {
        reveal(Seq::filter);
        assert(inbound@.take(0) =~= Seq::<HeaderPair>::empty());
    }
    while i < inbound.len()
        invariant
            0 <= i <= inbound@.len(),
            out@ == inbound@.take(i as int).filter(non_host()),
        decreases inbound@.len() - i,
    {
        proof {
            reveal(Seq::filter);
            assert(inbound@.take(i + 1).drop_last() =~= inbound@.take(i as int));
            assert(inbound@.take(i + 1).last() == inbound@[i as int]);
        }
        if !eq_nocase(inbound[i].name.as_str(), "host") {
            out.push(inbound[i].clone());
        }
        i += 1;
    }
    proof {
        assert(inbound@.take(inbound@.len() as int) =~= inbound@);
    }
    let mut j: usize = 0;
    while j < route.headers.len()
        invariant
            0 <= j <= route.headers@.len(),
            kept == inbound@.filter(non_host()),
            out@.len() == kept.len() + j,
            out@.take(kept.len() as int) == kept,
            out@.subrange(kept.len() as int, out@.len() as int) == route.headers@.take(j as int),
        decreases route.headers@.len() - j,
    {
        out.push(route.headers[j].clone());
        proof {
            assert(out@.take(kept.len() as int) =~= kept);
            assert(out@.subrange(kept.len() as int, out@.len() as int) =~= route.headers@.take(
                j + 1,
            ));
        }
        j += 1;
    }
    let host_header = HeaderPair { name: String::from_str("Host"), value: host.to_owned() };
    out.push(host_header);
    proof {
        assert(out@.take(kept.len() as int) =~= kept);
        assert(route.headers@.take(route.headers@.len() as int) =~= route.headers@);
        assert(out@.subrange(kept.len() as int, kept.len() as int + route.headers@.len() as int)
            =~= route.headers@);
    }
    out
}

// ------------------------------------------------------------------
// The backend host.
// ------------------------------------------------------------------

/// The predicate "this character is the host/port separator".
pub open spec fn is_colon() -> spec_fn(char) -> bool {
    |c: char| c == ':'
}

/// The host portion of a backend address: everything before the first
/// `:`, or the whole address without one.
pub open spec fn host_part(addr: Seq<char>) -> Seq<char> {
    match first_where(addr, is_colon()) {
        Some(i) => addr.take(i),
        None => addr,
    }
}

/// Extracts the host portion of a backend address.
pub fn host_of_address(addr: &str) -> (r: String)
    ensures
        r@ == host_part(addr@),
{
    let n = addr.unicode_len();
    let mut i: usize = 0;
    while i < n
        invariant
            0 <= i <= n,
            n == addr@.len(),
            forall|k: int| 0 <= k < i ==> #[trigger] addr@[k] != ':',
        decreases n - i,
    {
        if addr.get_char(i) == ':' {
            proof {
                lemma_first_where_is(addr@, is_colon(), i as int);
            }
            return addr.substring_char(0, i).to_owned();
        }
        i += 1;
    }
    proof {
        lemma_first_where_none(addr@, is_colon());
    }
    addr.to_owned()
}

// ------------------------------------------------------------------
// Synthetic error responses.
// ------------------------------------------------------------------

/// The shared HTML template of every synthetic error response,
/// parameterized by status code and message and naming the server.
pub open spec fn error_page_spec(status: u16, message: Seq<char>) -> Seq<char> {
    "<!DOCTYPE html>\n<html>\n<head><title>"@ + dec_chars(status as nat) + " "@ + message
        + "</title></head>\n<body>\n    <h1>"@ + dec_chars(status as nat) + " "@ + message
        + "</h1>\n    <hr>\n    <p>Janus Server</p>\n</body>\n</html>"@
}

/// A synthetic response: status code, content type, and HTML body.
pub struct ErrorResponse {
    /// HTTP status code.
    pub status: u16,
    /// Value of the Content-Type header.
    pub content_type: String,
    /// The response body.
    pub body: String,
}

/// Builds the synthetic error response for `status` and `message`.
pub fn error_response(status: u16, message: &str) -> (r: ErrorResponse)
    ensures
        r.status == status,
        r.content_type@ == "text/html"@,
        r.body@ == error_page_spec(status, message@),
{
    let mut body = String::from_str("<!DOCTYPE html>\n<html>\n<head><title>");
    let code = u64_to_dec(status as u64);
    body.append(code.as_str());
    body.append(" ");
    body.append(message);
    body.append("</title></head>\n<body>\n    <h1>");
    body.append(code.as_str());
    body.append(" ");
    body.append(message);
    body.append("</h1>\n    <hr>\n    <p>Janus Server</p>\n</body>\n</html>");
    ErrorResponse { status, content_type: String::from_str("text/html"), body }
}

// ------------------------------------------------------------------
// Classifying how a round trip ended.
// ------------------------------------------------------------------

/// How the backend round trip ended, as seen at the dispatch boundary.
#[derive(Clone, Copy, Debug, PartialEq, Eq, Structural)]
pub enum DispatchOutcome {
    /// The backend answered with this status code.
    Completed(u16),
    /// The round trip exceeded the route's timeout.
    TimedOut,
    /// The backend could not be reached or the connection failed.
    TransportFailed,
    /// The selector found no backend at all.
    NoBackend,
}

/// The client-facing status for each outcome: the backend's own status
/// when it answered, 504 on timeout, 502 otherwise.
pub open spec fn outcome_status(o: DispatchOutcome) -> u16 {
    match o {
        DispatchOutcome::Completed(s) => s,
        DispatchOutcome::TimedOut => 504,
        DispatchOutcome::TransportFailed => 502,
        DispatchOutcome::NoBackend => 502,
    }
}

/// Maps a dispatch outcome to the status code the client sees.
pub fn dispatch_status(o: DispatchOutcome) -> (r: u16)
    ensures
        r == outcome_status(o),
{
    match o {
        DispatchOutcome::Completed(s) => s,
        DispatchOutcome::TimedOut => 504,
        DispatchOutcome::TransportFailed => 502,
        DispatchOutcome::NoBackend => 502,
    }
}

/// The diagnostic message of each failed outcome's synthetic response.
pub open spec fn outcome_message(o: DispatchOutcome) -> Seq<char> {
    match o {
        DispatchOutcome::Completed(s) => ""@,
        DispatchOutcome::TimedOut => "Gateway Timeout"@,
        DispatchOutcome::TransportFailed => "Bad Gateway"@,
        DispatchOutcome::NoBackend => "Bad Gateway"@,
    }
}

/// Maps a dispatch outcome to its diagnostic message.
pub fn dispatch_message(o: DispatchOutcome) -> (r: &'static str)
    ensures
        r@ == outcome_message(o),
{
    match o {
        DispatchOutcome::Completed(_) => "",
        DispatchOutcome::TimedOut => "Gateway Timeout",
        DispatchOutcome::TransportFailed => "Bad Gateway",
        DispatchOutcome::NoBackend => "Bad Gateway",
    }
}

} // verus!
