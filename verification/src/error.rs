//! The ways an operation of the engine can fail.

use vstd::prelude::*;

verus! {

/// Everything that can go wrong inside the distribution engine.
///
/// Per-item failures ([`Error::ContentDecode`], [`Error::Platform`]) are
/// delivered to consumers as items of their pull sequence; they never stop
/// the polling driver. [`Error::DuplicateConsumer`] is returned
/// synchronously by registration under the fixed-kind discipline.
#[derive(Clone, Copy, Debug, PartialEq, Eq, Structural)]
pub enum Error {
    /// A registration used a key that is already live in the registry.
    DuplicateConsumer,
    /// Clipboard data could not be decoded as the expected payload kind.
    ContentDecode,
    /// The host clipboard call itself failed.
    Platform,
}

impl Error {
    /// A human-readable description of the error.
    pub fn message(&self) -> (m: &'static str)
        ensures
            m@ == self.message_spec(),
    {
        match self {
            Error::DuplicateConsumer => "a consumer with this key is already registered",
            Error::ContentDecode => "failed to decode the clipboard item",
            Error::Platform => "failed to read the clipboard",
        }
    }

    /// What [`Error::message`] returns for each variant.
    pub open spec fn message_spec(self) -> Seq<char> {
        match self {
            Error::DuplicateConsumer => "a consumer with this key is already registered"@,
            Error::ContentDecode => "failed to decode the clipboard item"@,
            Error::Platform => "failed to read the clipboard"@,
        }
    }
}

} // verus!
