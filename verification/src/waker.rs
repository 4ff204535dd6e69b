//! Wake-up bookkeeping for suspended consumers.
//!
//! A consumer that polls an empty buffer suspends and leaves a waker
//! behind; the driver takes that waker after the next delivery to wake the
//! consumer. One slot is kept per content kind: registering a waker for a
//! kind replaces whatever waker was registered for it before.

use vstd::prelude::*;

use crate::body::Kind;

verus! {

/// `std::task::Waker` is the opaque handle a suspended consumer leaves
/// behind; this crate only stores such handles and hands them back, and
/// never looks inside one.
#[verifier::external_type_specification]
#[verifier::external_body]
pub struct ExWaker(std::task::Waker);

/// The wake-up slots, one per content kind.
pub struct WakersMap {
    utf8: Option<std::task::Waker>,
    img: Option<std::task::Waker>,
}

impl WakersMap {
    /// The waker stored for a kind, if any.
    pub closed spec fn entry(&self, kind: Kind) -> Option<std::task::Waker> {
        match kind {
            Kind::Utf8 => self.utf8,
            Kind::Img => self.img,
        }
    }

    /// Fresh slots with no waker registered for any kind.
    pub fn new() -> (m: WakersMap)
        ensures
            forall|k: Kind| m.entry(k) is None,
    {
        WakersMap { utf8: None, img: None }
    }
}

/// The handle through which consumers register their wakers and the driver
/// takes them back out.
pub struct WakerHandle {
    map: WakersMap,
}

impl WakerHandle {
    /// The waker currently registered for a kind, if any.
    pub closed spec fn entry(&self, kind: Kind) -> Option<std::task::Waker> {
        self.map.entry(kind)
    }

    /// A handle over the given slots, which it owns from now on.
    pub fn new(wakers: WakersMap) -> (h: WakerHandle)
        ensures
            forall|k: Kind| h.entry(k) == wakers.entry(k),
    {
        WakerHandle { map: wakers }
    }

    /// Store the waker of the consumer interested in `kind`, replacing any
    /// waker registered for that kind before. Other kinds are untouched.
    pub fn register(&mut self, kind: Kind, waker: std::task::Waker)
        ensures
            final(self).entry(kind) == Some(waker),
            forall|k: Kind| k != kind ==> final(self).entry(k) == old(self).entry(k),
    {
        match kind {
            Kind::Utf8 => {
                self.map.utf8 = Some(waker);
            },
            Kind::Img => {
                self.map.img = Some(waker);
            },
        }
    }

    /// Take the waker registered for `kind`, so the driver can wake that
    /// consumer; the slot is empty afterwards.
    pub fn take(&mut self, kind: Kind) -> (w: Option<std::task::Waker>)
        ensures
            w == old(self).entry(kind),
            final(self).entry(kind) is None,
            forall|k: Kind| k != kind ==> final(self).entry(k) == old(self).entry(k),
    {
        match kind {
            Kind::Utf8 => self.map.utf8.take(),
            Kind::Img => self.map.img.take(),
        }
    }
}

} // verus!
