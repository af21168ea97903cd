//! Error values shared across the crate.

use vstd::prelude::*;

verus! {

/// The coarse taxonomy of transport failures that the engine understands.
/// The bridge classifies a caller error by this kind; anything it does not
/// recognise falls under `Other`.
#[derive(Clone, Copy, Debug, PartialEq, Eq, Structural)]
pub enum TransportErrorKind {
    /// The endpoint is gone; treated as a graceful close.
    NotFound,
    /// The connection was reset by the peer; treated as an abrupt close.
    ConnectionReset,
    /// The transport cannot make progress right now; retry later.
    WouldBlock,
    /// Any other I/O failure.
    Other,
}

/// An error reported by the caller's transport.  `detail` is an opaque
/// caller-chosen code carried through the bridge verbatim, so that the most
/// specific diagnosis survives until it is surfaced to the caller.
#[derive(Clone, Copy, Debug, PartialEq, Eq, Structural)]
pub struct TransportError {
    pub kind: TransportErrorKind,
    pub detail: u32,
}

/// Every failure the engine can report to the caller.
///
/// Handshake interruptions are *not* errors and never appear here; they are
/// separate variants of `HandshakeError`.
#[derive(Clone, Copy, Debug, PartialEq, Eq, Structural)]
pub enum Error {
    /// The operation is undefined in the current session state
    /// (for example querying peer trust while the session is idle).
    BadRequest,
    /// A configuration value was rejected
    /// (for example enabling a cipher that is not supported).
    IllegalParam,
    /// A server-side handshake was attempted without a bound identity.
    MissingIdentity,
    /// The peer misbehaved: a malformed or unexpected message, a failed
    /// name check, no common cipher, or a refused certificate request.
    ProtocolFailure,
    /// The transport closed while a handshake message was still owed.
    UnexpectedEof,
    /// Plaintext I/O was attempted on a session that is closed or aborted.
    SessionClosed,
    /// A transport error, preserved verbatim.
    Io(TransportError),
}

} // verus!
