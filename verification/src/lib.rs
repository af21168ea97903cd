//! A verified TLS-style session engine over an abstract duplex transport.
//!
//! The crate drives a handshake/record-layer state machine (`SslContext`)
//! over any caller-supplied transport, bridging the engine's pull/push
//! byte demands to that transport, and exposes a duplex stream
//! (`SslStream`) once the handshake completes.  Handshake interruption
//! points hand a resumable `MidHandshakeSslStream` back to the caller.
//!
//! - `base`: error values.
//! - `cipher_suite`: cipher suites as enumerable code points.
//! - `identity`: the opaque certificate, identity and trust collaborators.
//! - `transport`: the duplex transport contract and an in-memory endpoint.
//! - `bridge`: the fill/drain loops between engine and transport.
//! - `record`: record framing and the handshake message codecs.
//! - `secure_transport`: the engine, the handshake driver and the stream.

pub mod base;
pub mod bridge;
pub mod cipher_suite;
pub mod identity;
pub mod record;
pub mod secure_transport;
pub mod transport;
