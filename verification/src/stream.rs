//! The per-consumer pull handle.
//!
//! A [`ClipboardStream`] stands for one registered consumer: it pulls the
//! items buffered for it, oldest first, and on teardown removes its own
//! registry entry — exactly once, however often teardown is attempted.

use vstd::prelude::*;

use crate::body::item_model;
use crate::body::Body;
use crate::error::Error;
use crate::event_listener::ClipboardEventListener;
use crate::registry::pop_model;
use crate::registry::unregister_model;

verus! {

/// The identity a consumer is registered under: a monotonically allocated
/// number, so any number of consumers may watch the same content kind.
#[derive(Clone, Copy, Debug, PartialEq, Eq, Hash, Structural)]
pub struct StreamId(pub(crate) usize);

impl View for StreamId {
    type V = usize;

    closed spec fn view(&self) -> usize {
        self.0
    }
}

/// The outcome of one pull on a consumer stream.
pub enum Polled {
    /// The next buffered item: new content, or the per-item error that was
    /// delivered in its place.
    Item(Result<Body, Error>),
    /// Nothing is buffered right now; a suspending consumer would wait
    /// here for the next delivery.
    Pending,
    /// The stream is over: it was closed, or its registry entry is gone.
    Ended,
}

/// One consumer's pull handle on the engine.
pub struct ClipboardStream {
    pub(crate) id: StreamId,
    pub(crate) live: bool,
}

impl ClipboardStream {
    /// The registry key this stream was registered under.
    pub closed spec fn key(&self) -> usize {
        self.id@
    }

    /// Whether the stream still holds its registry entry.
    pub closed spec fn is_live(&self) -> bool {
        self.live
    }

    /// A live handle for the consumer just registered under `key`.
    pub(crate) fn attach(key: usize) -> (s: ClipboardStream)
        ensures
            s.is_live(),
            s.key() == key,
    {
        ClipboardStream { id: StreamId(key), live: true }
    }

    /// The identity this stream is registered under.
    pub fn id(&self) -> (id: &StreamId)
        ensures
            id@ == self.key(),
    {
        &self.id
    }

    /// Pull the next item buffered for this consumer, oldest first. An
    /// empty buffer reports [`Polled::Pending`]; a stream that was closed,
    /// or whose entry is gone from this listener, reports [`Polled::Ended`]
    /// and stays ended.
    pub fn poll_next(&mut self, listener: &mut ClipboardEventListener) -> (r: Polled)
        requires
            old(listener).wf(),
        ensures
            final(listener).wf(),
            final(self).key() == old(self).key(),
            final(listener).next_key() == old(listener).next_key(),
            final(listener).stopped() == old(listener).stopped(),
            final(listener).last_token() == old(listener).last_token(),
            ({
                let k = old(self).key();
                let m = old(listener).table();
                if !old(self).is_live() {
                    r is Ended && final(listener).table() == m && !final(self).is_live()
                } else if !m.dom().contains(k) {
                    r is Ended && final(listener).table() == m && !final(self).is_live()
                } else if m[k].items.len() == 0 {
                    r is Pending && final(listener).table() == m && final(self).is_live()
                } else {
                    &&& r matches Polled::Item(it) && item_model(it) == m[k].items[0]
                    &&& final(listener).table() == pop_model(m, k)
                    &&& final(self).is_live()
                }
            }),
    {
        if !self.live {
            return Polled::Ended;
        }
        if !listener.contains_key(self.id.0) {
            self.live = false;
            return Polled::Ended;
        }
        match listener.pop_key(self.id.0) {
            Some(it) => Polled::Item(it),
            None => Polled::Pending,
        }
    }

    /// Tear the stream down: drop its buffered items and remove its
    /// registry entry. The removal happens exactly once — closing an
    /// already-closed stream changes nothing.
    pub fn close(&mut self, listener: &mut ClipboardEventListener)
        requires
            old(listener).wf(),
        ensures
            final(listener).wf(),
            !final(self).is_live(),
            final(self).key() == old(self).key(),
            final(listener).next_key() == old(listener).next_key(),
            final(listener).stopped() == old(listener).stopped(),
            final(listener).last_token() == old(listener).last_token(),
            final(listener).table() == if old(self).is_live() {
                unregister_model(old(listener).table(), old(self).key())
            } else {
                old(listener).table()
            },
    {
        if self.live {
            listener.unregister_key(self.id.0);
            self.live = false;
        }
    }
}

} // verus!
