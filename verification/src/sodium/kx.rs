//! The values of the key exchange.

use vstd::prelude::*;

verus! {

/// A key pair for the key exchange.
#[derive(Debug)]
pub struct Keypair {
    /// The public key.
    pub pk: Vec<u8>,
    /// The secret key.
    pub sk: Vec<u8>,
}

/// The two keys of a session.
#[derive(Debug)]
pub struct SessionKeys {
    /// The key for what is received.
    pub rx: Vec<u8>,
    /// The key for what is sent.
    pub tx: Vec<u8>,
}

} // verus!
