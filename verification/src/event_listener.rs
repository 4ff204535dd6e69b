//! The composition root: one driver, one registry, a factory for streams.
//!
//! A [`ClipboardEventListener`] owns the consumer table and the driver
//! state. The embedding program runs the poll loop: it reads the host
//! clipboard's revision token, feeds it to [`ClipboardEventListener::on_poll`],
//! fetches and decodes the content when asked to, and hands the item to
//! [`ClipboardEventListener::on_content`] for fan-out.

use vstd::prelude::*;

use crate::body::item_model;
use crate::body::Body;
use crate::buffer::BufferModel;
use crate::driver::ChangeToken;
use crate::driver::DriverState;
use crate::error::Error;
use crate::registry::broadcast_model;
use crate::registry::pop_model;
use crate::registry::unregister_model;
use crate::registry::Registry;
use crate::stream::ClipboardStream;

verus! {

/// The clipboard event listener: owns the registry of live consumers and
/// the driver's state, and allocates one fresh key per created stream.
pub struct ClipboardEventListener {
    pub(crate) registry: Registry,
    pub(crate) driver: DriverState,
    pub(crate) next_id: usize,
}

impl ClipboardEventListener {
    /// The table of live consumers.
    pub closed spec fn table(&self) -> Map<usize, BufferModel> {
        self.registry@
    }

    /// The key the next created stream will get.
    pub closed spec fn next_key(&self) -> usize {
        self.next_id
    }

    /// Whether the driver has been told to stop.
    pub closed spec fn stopped(&self) -> bool {
        self.driver.is_stopped()
    }

    /// The last revision token the driver observed.
    pub closed spec fn last_token(&self) -> Option<ChangeToken> {
        self.driver.last_token()
    }

    /// The registry is well-formed and every live key was allocated by
    /// this listener, so the next key is always fresh.
    pub closed spec fn wf(&self) -> bool {
        &&& self.registry.wf()
        &&& forall|k: usize| #[trigger] self.table().dom().contains(k) ==> k < self.next_id
    }

    /// A fresh listener: no consumers, a running driver that has not
    /// polled yet. The embedding program starts the background poll loop
    /// when it creates the listener.
    pub fn spawn() -> (l: ClipboardEventListener)
        ensures
            l.wf(),
            l.table() == Map::<usize, BufferModel>::empty(),
            l.next_key() == 0,
            !l.stopped(),
            l.last_token() is None,
    {
        ClipboardEventListener { registry: Registry::new(), driver: DriverState::new(), next_id: 0 }
    }

    /// Create a stream that will receive every change detected from now
    /// on, buffering at most `buffer` items at a time; items offered
    /// beyond that are dropped for this consumer. The stream is registered
    /// under a fresh key, so any number of streams may coexist.
    pub fn new_stream(&mut self, buffer: usize) -> (s: ClipboardStream)
        requires
            old(self).wf(),
            old(self).next_key() < usize::MAX,
        ensures
            final(self).wf(),
            s.is_live(),
            s.key() == old(self).next_key(),
            !old(self).table().dom().contains(s.key()),
            final(self).table() == old(self).table().insert(
                s.key(),
                BufferModel::empty(buffer as nat),
            ),
            final(self).next_key() == old(self).next_key() + 1,
            final(self).stopped() == old(self).stopped(),
            final(self).last_token() == old(self).last_token(),
    {
        let id = self.next_id;
        proof {
            assert(!old(self).table().dom().contains(id));
        }
        self.next_id = self.next_id + 1;
        let r = self.registry.register(id, buffer);
        proof {
            assert(r is Ok);
            assert forall|k: usize| #[trigger] self.table().dom().contains(k) implies k
                < self.next_id by {
                if k != id {
                    assert(old(self).table().dom().contains(k));
                }
            }
        }
        ClipboardStream::attach(id)
    }

    /// Signal the driver to stop. The poll loop notices the signal within
    /// one poll interval and delivers nothing afterwards; the embedding
    /// program then joins the background context.
    pub fn stop(&mut self)
        requires
            old(self).wf(),
        ensures
            final(self).wf(),
            final(self).stopped(),
            final(self).table() == old(self).table(),
            final(self).next_key() == old(self).next_key(),
            final(self).last_token() == old(self).last_token(),
    {
        self.driver.stop();
        proof {
            assert forall|k: usize| #[trigger] self.table().dom().contains(k) implies k
                < self.next_id by {
                assert(old(self).table().dom().contains(k));
            }
        }
    }

    /// Feed one observed revision token to the driver: returns whether the
    /// clipboard content changed and must be fetched. A stopped listener
    /// records nothing and never asks for a fetch.
    pub fn on_poll(&mut self, token: ChangeToken) -> (changed: bool)
        requires
            old(self).wf(),
        ensures
            final(self).wf(),
            final(self).table() == old(self).table(),
            final(self).next_key() == old(self).next_key(),
            final(self).stopped() == old(self).stopped(),
            old(self).stopped() ==> !changed && final(self).last_token() == old(self).last_token(),
            !old(self).stopped() ==> final(self).last_token() == Some(token) && changed == (old(
                self,
            ).last_token() matches Some(t) && t != token),
    {
        let changed = self.driver.observe(token);
        proof {
            assert forall|k: usize| #[trigger] self.table().dom().contains(k) implies k
                < self.next_id by {
                assert(old(self).table().dom().contains(k));
            }
        }
        changed
    }

    /// Fan one fetched item out to every live consumer under the
    /// drop-on-full policy. After a stop signal this has no observable
    /// effect on any consumer.
    pub fn on_content(&mut self, item: &Result<Body, Error>)
        requires
            old(self).wf(),
        ensures
            final(self).wf(),
            final(self).table() == if old(self).stopped() {
                old(self).table()
            } else {
                broadcast_model(old(self).table(), item_model(*item))
            },
            final(self).next_key() == old(self).next_key(),
            final(self).stopped() == old(self).stopped(),
            final(self).last_token() == old(self).last_token(),
    {
        let driver = &self.driver;
        driver.deliver(&mut self.registry, item);
        proof {
            assert forall|k: usize| #[trigger] self.table().dom().contains(k) implies k
                < self.next_id by {
                assert(old(self).table().dom().contains(k));
            }
        }
    }
    /// Whether a consumer is currently registered under `key`.
    pub(crate) fn contains_key(&self, key: usize) -> (b: bool)
        ensures
            b == self.table().dom().contains(key),
    {
        self.registry.contains(key)
    }

    /// Hand out the oldest item buffered for `key`, if any.
    pub(crate) fn pop_key(&mut self, key: usize) -> (r: Option<Result<Body, Error>>)
        requires
            old(self).wf(),
        ensures
            final(self).wf(),
            final(self).table() == pop_model(old(self).table(), key),
            final(self).next_key() == old(self).next_key(),
            final(self).stopped() == old(self).stopped(),
            final(self).last_token() == old(self).last_token(),
            match r {
                Some(it) => old(self).table().dom().contains(key) && old(
                    self,
                ).table()[key].items.len() > 0 && item_model(it) == old(self).table()[key].items[0],
                None => !old(self).table().dom().contains(key) || old(
                    self,
                ).table()[key].items.len() == 0,
            },
    {
        let r = self.registry.pop(key);
        proof {
            assert forall|k: usize| #[trigger] self.table().dom().contains(k) implies k
                < self.next_id by {
                assert(old(self).table().dom().contains(k));
            }
        }
        r
    }

    /// Remove the consumer registered under `key`, if any; idempotent.
    pub(crate) fn unregister_key(&mut self, key: usize)
        requires
            old(self).wf(),
        ensures
            final(self).wf(),
            final(self).table() == unregister_model(old(self).table(), key),
            final(self).next_key() == old(self).next_key(),
            final(self).stopped() == old(self).stopped(),
            final(self).last_token() == old(self).last_token(),
    {
        self.registry.unregister(key);
        proof {
            assert forall|k: usize| #[trigger] self.table().dom().contains(k) implies k
                < self.next_id by {
                assert(old(self).table().dom().contains(k));
            }
        }
    }
}

impl Default for ClipboardEventListener {
    /// Same as [`ClipboardEventListener::spawn`].
    fn default() -> (l: ClipboardEventListener)
        ensures
            l.wf(),
            l.table() == Map::<usize, BufferModel>::empty(),
            l.next_key() == 0,
            !l.stopped(),
            l.last_token() is None,
    {
        ClipboardEventListener::spawn()
    }
}

} // verus!
