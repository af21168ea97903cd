//! Opaque certificate, identity and trust collaborators.
//!
//! The engine does not inspect certificates beyond the name an identity
//! certifies; these types carry the values the handshake consumes or
//! returns by ownership transfer.

use vstd::prelude::*;

verus! {

/// A peer certificate: opaque encoded bytes.
#[derive(Clone, Debug)]
pub struct SecCertificate {
    pub der: Vec<u8>,
}

/// A local identity: the name it certifies, which the handshake presents
/// to the peer for hostname validation.
#[derive(Clone, Debug)]
pub struct SecIdentity {
    pub name: Vec<u8>,
}

impl SecIdentity {
    pub fn new(name: Vec<u8>) -> (r: SecIdentity)
        ensures
            r.name@ == name@,
    {
        SecIdentity { name }
    }
}

/// The owned result of evaluating the peer against policy: the name the
/// peer presented during the handshake, if any.
#[derive(Clone, Debug)]
pub struct SecTrust {
    pub peer_name: Option<Vec<u8>>,
}

} // verus!
