//! A verified clipboard change-event distribution engine.
//!
//! The engine watches a host clipboard through an opaque revision token
//! and fans each detected change out to any number of independently
//! registered consumers. Every consumer owns a bounded FIFO buffer; a
//! broadcast to a full buffer silently drops the item for that consumer —
//! backpressure by dropping, never by blocking, erroring or retrying —
//! and per-item failures travel to consumers as items of their sequence,
//! never stopping the poller.
//!
//! The modules mirror the engine's components:
//! - [`body`]: the clipboard payload and its decoding,
//! - [`buffer`]: the per-consumer bounded FIFO buffer and the drop policy,
//! - [`registry`]: the table of live consumers and the fan-out laws,
//! - [`driver`]: the polling state machine that detects changes,
//! - [`stream`]: the per-consumer pull handle and its teardown contract,
//! - [`event_listener`]: the composition root owning driver and registry,
//! - [`order`]: what "in detection order" means, as subsequence facts,
//! - [`waker`]: wake-up bookkeeping for suspended consumers.
//!
//! What cannot be verified is left to the embedding program: reading the
//! host clipboard, sleeping between polls, and carrying items across
//! threads. The embedding program runs the poll loop and calls in for
//! every decision; this crate proves what each decision does.

pub mod body;
pub mod buffer;
pub mod driver;
pub mod error;
pub mod event_listener;
pub mod order;
pub mod registry;
pub mod stream;
pub mod waker;

pub use crate::body::Body;
pub use crate::body::Kind;
pub use crate::body::MimeType;
pub use crate::error::Error;
pub use crate::event_listener::ClipboardEventListener;
pub use crate::stream::ClipboardStream;
pub use crate::stream::StreamId;
