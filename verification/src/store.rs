//! The configuration store: exactly one published snapshot, replaced
//! wholesale and only after validation, so readers can never observe a
//! half-updated configuration.

use vstd::prelude::*;

use crate::config::ConfigError;
use crate::config::JanusConfig;
use crate::config::valid_config;
use crate::config::validate_config;
use crate::config::validation_message;

verus! {

/// Holds the currently-published configuration. Every snapshot that a
/// reader can obtain has passed the full validation rules; replacement is
/// all-or-nothing.
pub struct ConfigStore {
    current: JanusConfig,
}

/// What a publish leaves in the store: the candidate when it is valid,
/// the previous snapshot otherwise.
pub open spec fn publish_result(pre: JanusConfig, candidate: JanusConfig) -> JanusConfig {
    if valid_config(candidate) {
        candidate
    } else {
        pre
    }
}

impl ConfigStore {
    /// The published snapshot.
    pub closed spec fn snapshot(&self) -> JanusConfig {
        self.current
    }

    #[verifier::type_invariant]
    spec fn inv(&self) -> bool {
        valid_config(self.current)
    }

    /// Creates the store from an initial configuration, which must pass
    /// the same validation as every later publish.
    pub fn new(initial: JanusConfig) -> (r: Result<ConfigStore, ConfigError>)
        ensures
            (r is Ok) == valid_config(initial),
            r matches Ok(s) ==> s.snapshot() == initial,
            r matches Err(e) ==> (e matches ConfigError::ValidationError(m) && m@
                == validation_message(initial)),
    {
        match validate_config(&initial) {
            Ok(()) => Ok(ConfigStore { current: initial }),
            Err(e) => Err(e),
        }
    }

    /// An immutable snapshot reflecting the most recent successful
    /// publish. A reader never observes a torn configuration: the
    /// returned snapshot satisfies the whole validation invariant at
    /// once — in particular its route list never refers to an upstream
    /// absent from the same snapshot.
    pub fn read(&self) -> (r: &JanusConfig)
        ensures
            *r == self.snapshot(),
            valid_config(*r),
    {
        proof {
            use_type_invariant(self);
        }
        &self.current
    }

    /// Validates the candidate and, only if it is valid, atomically
    /// replaces the published snapshot; otherwise the store is unchanged
    /// and the specific validation error is returned.
    pub fn publish(&mut self, candidate: JanusConfig) -> (r: Result<(), ConfigError>)
        ensures
            (r is Ok) == valid_config(candidate),
            final(self).snapshot() == publish_result(old(self).snapshot(), candidate),
            valid_config(final(self).snapshot()),
            r matches Err(e) ==> (e matches ConfigError::ValidationError(m) && m@
                == validation_message(candidate)),
    {
        proof {
            use_type_invariant(&*self);
        }
        match validate_config(&candidate) {
            Ok(()) => {
                self.current = candidate;
                Ok(())
            },
            Err(e) => Err(e),
        }
    }
}

/// Law: a publish followed by a read returns exactly the published
/// candidate when it is valid; an invalid candidate leaves what a read
/// returns unchanged (the error itself is pinned by `publish`'s contract).
pub proof fn lemma_publish_then_read(pre: JanusConfig, candidate: JanusConfig)
    ensures
        valid_config(candidate) ==> publish_result(pre, candidate) == candidate,
        !valid_config(candidate) ==> publish_result(pre, candidate) == pre,
{
}

} // verus!
