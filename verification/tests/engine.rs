//! End-to-end scenarios for the distribution engine: registration,
//! fan-out, backpressure, ordering, teardown and shutdown.

use clipboard_stream::buffer::Buffer;
use clipboard_stream::driver::ChangeToken;
use clipboard_stream::registry::Registry;
use clipboard_stream::stream::Polled;
use clipboard_stream::Body;
use clipboard_stream::ClipboardEventListener;
use clipboard_stream::Error;
use clipboard_stream::Kind;

fn text(s: &str) -> Result<Body, Error> {
    Ok(Body::Utf8String(String::from(s)))
}

fn pulled_text(p: Polled) -> String {
    match p {
        Polled::Item(Ok(Body::Utf8String(s))) => s,
        _ => panic!("expected a buffered text item"),
    }
}

#[test]
fn scenario_hello_then_world_then_stop() {
    let mut listener = ClipboardEventListener::spawn();
    let mut a = listener.new_stream(1);

    // The first poll only primes the driver; the next token is a change.
    assert!(!listener.on_poll(ChangeToken(1)));
    assert!(listener.on_poll(ChangeToken(2)));
    listener.on_content(&text("hello"));
    assert_eq!(pulled_text(a.poll_next(&mut listener)), "hello");

    // A second consumer of the same kind may register at any time.
    let mut b = listener.new_stream(8);
    assert_ne!(a.id(), b.id());
    assert!(listener.on_poll(ChangeToken(3)));
    listener.on_content(&text("world"));
    assert_eq!(pulled_text(a.poll_next(&mut listener)), "world");
    assert_eq!(pulled_text(b.poll_next(&mut listener)), "world");

    // After a is dropped, a further change reaches only b.
    a.close(&mut listener);
    assert!(listener.on_poll(ChangeToken(4)));
    listener.on_content(&text("stop"));
    assert!(matches!(a.poll_next(&mut listener), Polled::Ended));
    assert_eq!(pulled_text(b.poll_next(&mut listener)), "stop");
    assert!(matches!(b.poll_next(&mut listener), Polled::Pending));
}

#[test]
fn buffer_is_a_bounded_fifo() {
    let mut buf = Buffer::new(2);
    assert_eq!(buf.capacity(), 2);
    assert_eq!(buf.len(), 0);
    buf.offer(text("x"));
    buf.offer(text("y"));
    buf.offer(text("dropped"));
    assert_eq!(buf.len(), 2);
    match buf.pop() {
        Some(Ok(Body::Utf8String(s))) => assert_eq!(s, "x"),
        _ => panic!("expected the oldest item"),
    }
    match buf.pop() {
        Some(Ok(Body::Utf8String(s))) => assert_eq!(s, "y"),
        _ => panic!("expected the second item"),
    }
    assert!(buf.pop().is_none());
}

#[test]
fn fixed_kind_duplicate_consumer() {
    let mut reg = Registry::new();
    let key = Kind::Utf8.key();
    assert_eq!(reg.register(key, 4), Ok(()));
    assert_eq!(reg.register(key, 4), Err(Error::DuplicateConsumer));
    reg.unregister(key);
    assert_eq!(reg.register(key, 4), Ok(()));
}

#[test]
fn backpressure_drops_items_beyond_capacity() {
    let mut reg = Registry::new();
    assert_eq!(reg.register(0, 2), Ok(()));
    reg.broadcast(&text("one"));
    reg.broadcast(&text("two"));
    reg.broadcast(&text("three"));
    match reg.pop(0) {
        Some(Ok(Body::Utf8String(s))) => assert_eq!(s, "one"),
        _ => panic!("expected the first item"),
    }
    match reg.pop(0) {
        Some(Ok(Body::Utf8String(s))) => assert_eq!(s, "two"),
        _ => panic!("expected the second item"),
    }
    assert!(reg.pop(0).is_none());
}

#[test]
fn fifo_order_per_consumer() {
    let mut listener = ClipboardEventListener::spawn();
    let mut s = listener.new_stream(8);
    listener.on_content(&text("a"));
    listener.on_content(&text("b"));
    listener.on_content(&text("c"));
    assert_eq!(pulled_text(s.poll_next(&mut listener)), "a");
    assert_eq!(pulled_text(s.poll_next(&mut listener)), "b");
    assert_eq!(pulled_text(s.poll_next(&mut listener)), "c");
    assert!(matches!(s.poll_next(&mut listener), Polled::Pending));
}

#[test]
fn interleaved_pulls_keep_detection_order() {
    let mut listener = ClipboardEventListener::spawn();
    let mut s = listener.new_stream(1);
    listener.on_content(&text("a"));
    assert_eq!(pulled_text(s.poll_next(&mut listener)), "a");
    listener.on_content(&text("b"));
    listener.on_content(&text("c"));  // dropped: the buffer of one is full
    assert_eq!(pulled_text(s.poll_next(&mut listener)), "b");
    listener.on_content(&text("d"));
    assert_eq!(pulled_text(s.poll_next(&mut listener)), "d");
    assert!(matches!(s.poll_next(&mut listener), Polled::Pending));
}

#[test]
fn unregister_twice_is_harmless() {
    let mut reg = Registry::new();
    assert_eq!(reg.register(3, 2), Ok(()));
    reg.unregister(3);
    reg.unregister(3);
    assert!(!reg.contains(3));
    assert_eq!(reg.register(3, 2), Ok(()));
}

#[test]
fn close_twice_unregisters_once() {
    let mut listener = ClipboardEventListener::spawn();
    let mut s = listener.new_stream(2);
    let mut other = listener.new_stream(2);
    s.close(&mut listener);
    s.close(&mut listener);
    assert!(matches!(s.poll_next(&mut listener), Polled::Ended));
    // The other consumer is unaffected by the double teardown.
    listener.on_content(&text("still here"));
    assert_eq!(pulled_text(other.poll_next(&mut listener)), "still here");
}

#[test]
fn stopped_listener_delivers_nothing() {
    let mut listener = ClipboardEventListener::spawn();
    let mut s = listener.new_stream(4);
    assert!(!listener.on_poll(ChangeToken(1)));
    listener.stop();
    assert!(!listener.on_poll(ChangeToken(2)));
    listener.on_content(&text("lost"));
    assert!(matches!(s.poll_next(&mut listener), Polled::Pending));
}

#[test]
fn broadcast_reaches_only_current_consumers() {
    let mut reg = Registry::new();
    assert_eq!(reg.register(1, 4), Ok(()));
    reg.broadcast(&text("early"));
    assert_eq!(reg.register(2, 4), Ok(()));
    reg.broadcast(&text("late"));
    match reg.pop(1) {
        Some(Ok(Body::Utf8String(s))) => assert_eq!(s, "early"),
        _ => panic!("expected the early item"),
    }
    match reg.pop(1) {
        Some(Ok(Body::Utf8String(s))) => assert_eq!(s, "late"),
        _ => panic!("expected the late item"),
    }
    match reg.pop(2) {
        Some(Ok(Body::Utf8String(s))) => assert_eq!(s, "late"),
        _ => panic!("expected only the late item"),
    }
    assert!(reg.pop(2).is_none());
}

#[test]
fn send_to_absent_key_is_silent() {
    let mut reg = Registry::new();
    assert_eq!(reg.register(0, 4), Ok(()));
    reg.send_to(9, text("nobody"));
    assert!(reg.pop(0).is_none());
    reg.send_to(0, text("somebody"));
    match reg.pop(0) {
        Some(Ok(Body::Utf8String(s))) => assert_eq!(s, "somebody"),
        _ => panic!("expected the targeted item"),
    }
}

#[test]
fn per_item_errors_reach_consumers() {
    let mut listener = ClipboardEventListener::spawn();
    let mut s = listener.new_stream(4);
    listener.on_content(&Err(Error::Platform));
    listener.on_content(&Err(Error::ContentDecode));
    assert!(matches!(s.poll_next(&mut listener), Polled::Item(Err(Error::Platform))));
    assert!(matches!(s.poll_next(&mut listener), Polled::Item(Err(Error::ContentDecode))));
}

#[test]
fn poll_tokens_detect_changes_by_equality() {
    let mut listener = ClipboardEventListener::spawn();
    assert!(!listener.on_poll(ChangeToken(5)));
    assert!(!listener.on_poll(ChangeToken(5)));
    assert!(listener.on_poll(ChangeToken(6)));
    assert!(!listener.on_poll(ChangeToken(6)));
    assert!(listener.on_poll(ChangeToken(5)));
}

#[test]
fn default_listener_is_fresh() {
    let mut listener = ClipboardEventListener::default();
    let mut s = listener.new_stream(1);
    listener.on_content(&text("first"));
    assert_eq!(pulled_text(s.poll_next(&mut listener)), "first");
}
