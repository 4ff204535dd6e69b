//! The polling state machine that detects clipboard changes.
//!
//! The driver runs in a background context of the embedding program: once
//! per poll interval it reads the host clipboard's revision token, asks
//! [`DriverState::observe`] whether the content changed, fetches the new
//! content if so, and hands the resulting item to
//! [`DriverState::deliver`]. A stop signal is checked cooperatively once
//! per iteration, so the loop ends within one interval of the signal; a
//! stopped driver never touches the registry again.

use vstd::prelude::*;

use crate::body::Body;
use crate::error::Error;
use crate::registry::broadcast_model;
use crate::registry::Registry;

verus! {

/// How many milliseconds the driver sleeps between two polls, by default.
pub const DEFAULT_POLL_INTERVAL_MS: u64 = 200;

/// The host clipboard's opaque revision marker. Two equal tokens from
/// consecutive reads mean no observable content change happened between
/// them; only equality of tokens is ever consulted.
#[derive(Clone, Copy, Debug, PartialEq, Eq, Structural)]
pub struct ChangeToken(pub i64);

/// The driver's own state: the last token it observed (none before the
/// first poll) and whether it was told to stop.
pub struct DriverState {
    last: Option<ChangeToken>,
    stopped: bool,
}

impl DriverState {
    /// The token recorded by the most recent poll, if any.
    pub closed spec fn last_token(&self) -> Option<ChangeToken> {
        self.last
    }

    /// Whether the stop signal has been seen.
    pub closed spec fn is_stopped(&self) -> bool {
        self.stopped
    }

    /// A fresh driver: running, with no poll recorded yet.
    pub fn new() -> (d: DriverState)
        ensures
            d.last_token() is None,
            !d.is_stopped(),
    {
        DriverState { last: None, stopped: false }
    }

    /// Record the stop signal. The poll loop checks it once per iteration,
    /// so the background context ends within one poll interval.
    pub fn stop(&mut self)
        ensures
            final(self).is_stopped(),
            final(self).last_token() == old(self).last_token(),
    {
        self.stopped = true;
    }

    /// Note one observed revision token and say whether the clipboard
    /// content must be fetched: exactly when the driver is still running
    /// and the token differs from the one recorded by the previous poll.
    /// The very first poll only primes the driver. A stopped driver
    /// records nothing and never asks for a fetch.
    pub fn observe(&mut self, token: ChangeToken) -> (changed: bool)
        ensures
            final(self).is_stopped() == old(self).is_stopped(),
            old(self).is_stopped() ==> !changed && final(self).last_token() == old(
                self,
            ).last_token(),
            !old(self).is_stopped() ==> final(self).last_token() == Some(token) && changed == (
            old(self).last_token() matches Some(t) && t != token),
    {
        if self.stopped {
            return false;
        }
        let changed = match self.last {
            None => false,
            Some(t) => t.0 != token.0,
        };
        self.last = Some(token);
        changed
    }

    /// Hand one fetched item — the new content, or the per-item error that
    /// stood in for it — to every live consumer. A running driver
    /// broadcasts under the drop-on-full policy; a stopped driver leaves
    /// the registry untouched, so no broadcast after shutdown has any
    /// observable effect on any consumer.
    pub fn deliver(&self, registry: &mut Registry, item: &Result<Body, Error>)
        requires
            old(registry).wf(),
        ensures
            final(registry).wf(),
            final(registry)@ == if self.is_stopped() {
                old(registry)@
            } else {
                broadcast_model(old(registry)@, crate::body::item_model(*item))
            },
    {
        if !self.stopped {
            registry.broadcast(item);
        }
    }
}

} // verus!
