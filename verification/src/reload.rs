//! Reload decisions: debouncing bursts of file-change events and
//! applying a freshly-loaded candidate to the store.
//!
//! The process watches the configuration file's directory and feeds each
//! relevant event's timestamp to `ReloadDebounce::on_event`; only when it
//! answers `true` does the process wait the settle delay, read and parse
//! the file, and hand the result to `apply_reload`.

use vstd::prelude::*;

use crate::config::ConfigError;
use crate::config::JanusConfig;
use crate::config::valid_config;
use crate::config::validation_message;
use crate::store::ConfigStore;
use crate::store::publish_result;

verus! {

/// Debounce window in milliseconds: events closer than this to the last
/// accepted one are discarded.
pub const DEBOUNCE_MS: u64 = 500;

/// Settle delay in milliseconds before reading the changed file, so that
/// a writer replacing it has finished.
pub const SETTLE_MS: u64 = 100;

/// What one event does to the debounce state: `(new last-reload time,
/// whether a reload is triggered)`. An event triggers exactly when a
/// full debounce window has passed since the last accepted event.
pub open spec fn debounce_step(last_ms: u64, now_ms: u64) -> (u64, bool) {
    if now_ms >= last_ms + DEBOUNCE_MS {
        (now_ms, true)
    } else {
        (last_ms, false)
    }
}

/// Debounce state of the reload watcher: the time of the last accepted
/// event.
pub struct ReloadDebounce {
    /// Time, in milliseconds of the process clock, of the last accepted
    /// event (the watcher's start before any).
    pub last_reload_ms: u64,
}

impl ReloadDebounce {
    /// A fresh debouncer; events within the first window after
    /// `start_ms` are discarded.
    pub fn new(start_ms: u64) -> (r: Self)
        ensures
            r.last_reload_ms == start_ms,
    {
        ReloadDebounce { last_reload_ms: start_ms }
    }

    /// Feeds one file-change event; the result says whether to reload.
    pub fn on_event(&mut self, now_ms: u64) -> (trigger: bool)
        ensures
            trigger == debounce_step(old(self).last_reload_ms, now_ms).1,
            final(self).last_reload_ms == debounce_step(old(self).last_reload_ms, now_ms).0,
    {
        if now_ms.saturating_sub(self.last_reload_ms) >= DEBOUNCE_MS {
            self.last_reload_ms = now_ms;
            true
        } else {
            false
        }
    }
}

/// Law: three file-change events arriving within one debounce window
/// trigger at most one reload, whatever the debouncer's prior state.
pub proof fn lemma_debounce_burst(last0: u64, t1: u64, t2: u64, t3: u64)
    requires
        t1 <= t2,
        t2 <= t3,
        t3 < t1 + DEBOUNCE_MS,
    ensures
        ({
            let s1 = debounce_step(last0, t1);
            let s2 = debounce_step(s1.0, t2);
            let s3 = debounce_step(s2.0, t3);
            (if s1.1 {
                1int
            } else {
                0int
            }) + (if s2.1 {
                1int
            } else {
                0int
            }) + (if s3.1 {
                1int
            } else {
                0int
            }) <= 1
        }),
{
}

/// Applies the outcome of reading and parsing the configuration file:
/// a well-formed candidate is validated and, when valid, published; any
/// failure (I/O, parse, validation) is reported and leaves the store on
/// its previous snapshot.
pub fn apply_reload(store: &mut ConfigStore, loaded: Result<JanusConfig, ConfigError>) -> (r:
    Result<(), ConfigError>)
    ensures
        match loaded {
            Ok(c) => {
                &&& (r is Ok) == valid_config(c)
                &&& final(store).snapshot() == publish_result(old(store).snapshot(), c)
                &&& (r matches Err(e) ==> (e matches ConfigError::ValidationError(m) && m@
                    == validation_message(c)))
            },
            Err(e0) => r matches Err(e) && e == e0 && final(store).snapshot() == old(
                store,
            ).snapshot(),
        },
{
    match loaded {
        Ok(c) => store.publish(c),
        Err(e) => Err(e),
    }
}

} // verus!
