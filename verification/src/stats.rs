//! Process-wide request statistics: totals, transferred bytes, and
//! per-status-class counts. Counters only grow (saturating at the
//! integer limit) and are never reset while the process lives.

use vstd::prelude::*;

verus! {

/// One counter step up, saturating at the limit.
pub open spec fn bumped(x: u64) -> u64 {
    if x == u64::MAX {
        x
    } else {
        (x + 1) as u64
    }
}

/// Counter sum, saturating at the limit.
pub open spec fn added(x: u64, y: u64) -> u64 {
    if x + y <= u64::MAX {
        (x + y) as u64
    } else {
        u64::MAX
    }
}

/// Response counts by status class.
#[derive(Clone, Copy, Debug, PartialEq, Eq, Structural)]
pub struct StatusCodeStats {
    /// 2xx responses.
    pub success: u64,
    /// 3xx responses.
    pub redirect: u64,
    /// 4xx responses.
    pub client_error: u64,
    /// 5xx responses.
    pub server_error: u64,
}

impl Default for StatusCodeStats {
    /// All classes start at zero.
    fn default() -> (r: Self)
        ensures
            r == (StatusCodeStats { success: 0, redirect: 0, client_error: 0, server_error: 0 }),
    {
        StatusCodeStats { success: 0, redirect: 0, client_error: 0, server_error: 0 }
    }
}

/// Process-wide counters, shared by every request handler and read by
/// the control plane.
#[derive(Clone, Copy, Debug, PartialEq, Eq, Structural)]
pub struct Stats {
    /// Total requests handled.
    pub total_requests: u64,
    /// Total bytes received.
    pub bytes_received: u64,
    /// Total bytes sent.
    pub bytes_sent: u64,
    /// Response status code counts.
    pub status_codes: StatusCodeStats,
}

impl Default for Stats {
    /// All counters start at zero.
    fn default() -> (r: Self)
        ensures
            r.total_requests == 0,
            r.bytes_received == 0,
            r.bytes_sent == 0,
            r.status_codes == (StatusCodeStats {
                success: 0,
                redirect: 0,
                client_error: 0,
                server_error: 0,
            }),
    {
        Stats {
            total_requests: 0,
            bytes_received: 0,
            bytes_sent: 0,
            status_codes: Default::default(),
        }
    }
}

impl Stats {
    /// Counts one accepted request.
    pub fn record_request(&mut self)
        ensures
            final(self).total_requests == bumped(old(self).total_requests),
            final(self).bytes_received == old(self).bytes_received,
            final(self).bytes_sent == old(self).bytes_sent,
            final(self).status_codes == old(self).status_codes,
    {
        self.total_requests = self.total_requests.saturating_add(1);
    }

    /// Counts the bytes a completed request moved in each direction.
    pub fn record_transfer(&mut self, received: u64, sent: u64)
        ensures
            final(self).total_requests == old(self).total_requests,
            final(self).bytes_received == added(old(self).bytes_received, received),
            final(self).bytes_sent == added(old(self).bytes_sent, sent),
            final(self).status_codes == old(self).status_codes,
    {
        self.bytes_received = self.bytes_received.saturating_add(received);
        self.bytes_sent = self.bytes_sent.saturating_add(sent);
    }

    /// Counts one response under its status class; informational codes
    /// below 200 are not counted.
    pub fn update_status_stats(&mut self, code: u16)
        ensures
            final(self).total_requests == old(self).total_requests,
            final(self).bytes_received == old(self).bytes_received,
            final(self).bytes_sent == old(self).bytes_sent,
            200 <= code < 300 ==> final(self).status_codes == (StatusCodeStats {
                success: bumped(old(self).status_codes.success),
                ..old(self).status_codes
            }),
            300 <= code < 400 ==> final(self).status_codes == (StatusCodeStats {
                redirect: bumped(old(self).status_codes.redirect),
                ..old(self).status_codes
            }),
            400 <= code < 500 ==> final(self).status_codes == (StatusCodeStats {
                client_error: bumped(old(self).status_codes.client_error),
                ..old(self).status_codes
            }),
            code >= 500 ==> final(self).status_codes == (StatusCodeStats {
                server_error: bumped(old(self).status_codes.server_error),
                ..old(self).status_codes
            }),
            code < 200 ==> final(self).status_codes == old(self).status_codes,
    {
        if 200 <= code && code < 300 {
            self.status_codes.success = self.status_codes.success.saturating_add(1);
        } else if 300 <= code && code < 400 {
            self.status_codes.redirect = self.status_codes.redirect.saturating_add(1);
        } else if 400 <= code && code < 500 {
            self.status_codes.client_error = self.status_codes.client_error.saturating_add(1);
        } else if code >= 500 {
            self.status_codes.server_error = self.status_codes.server_error.saturating_add(1);
        }
    }
}

} // verus!
