//! Tests for the wake-up bookkeeping.

use clipboard_stream::waker::WakerHandle;
use clipboard_stream::waker::WakersMap;
use clipboard_stream::Kind;
use futures::task::noop_waker;

#[test]
fn fresh_slots_hold_no_wakers() {
    let mut handle = WakerHandle::new(WakersMap::new());
    assert!(handle.take(Kind::Utf8).is_none());
    assert!(handle.take(Kind::Img).is_none());
}

#[test]
fn registered_wakers_come_back_per_kind() {
    let mut handle = WakerHandle::new(WakersMap::new());
    handle.register(Kind::Utf8, noop_waker());
    handle.register(Kind::Img, noop_waker());
    assert!(handle.take(Kind::Utf8).is_some());
    assert!(handle.take(Kind::Utf8).is_none());
    assert!(handle.take(Kind::Img).is_some());
    assert!(handle.take(Kind::Img).is_none());
}

#[test]
fn registering_replaces_the_previous_waker() {
    let mut handle = WakerHandle::new(WakersMap::new());
    handle.register(Kind::Utf8, noop_waker());
    handle.register(Kind::Utf8, noop_waker());
    assert!(handle.take(Kind::Utf8).is_some());
    assert!(handle.take(Kind::Utf8).is_none());
}
