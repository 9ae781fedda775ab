//! What can go wrong in the pool and its connections.

use vstd::prelude::*;

verus! {

/// The failures the library reports.
#[derive(Debug, Clone, Copy, PartialEq, Eq, Structural)]
pub enum Error {
    /// A relay URL could not be parsed.
    MalformedUrl,
    /// The pool already holds a relay under this URL.
    DuplicateRelay,
    /// An event was published on a pool without relays.
    NoRelaysConnected,
    /// The transport could not be opened, read or written.
    TransportError,
    /// Inbound text is no protocol message.
    ParseError,
    /// An event does not carry a valid signature of its declared content.
    InvalidSignature,
    /// The connection a command was meant for is not running.
    ChannelClosed,
    /// A bounded queue has no room left.
    QueueFull,
}

} // verus!
