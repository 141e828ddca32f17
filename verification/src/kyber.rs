//! The values of the key encapsulation.

use vstd::prelude::*;

verus! {

/// A key pair for encapsulation.
#[derive(Debug)]
pub struct Keypair {
    /// The public key.
    pub pk: Vec<u8>,
    /// The secret key; empty in a pair that holds the public key alone.
    pub sk: Vec<u8>,
}

/// What encapsulation gives.
#[derive(Debug)]
pub struct EncapsulationResult {
    /// The shared secret.
    pub ss: Vec<u8>,
    /// The cipher text that carries the shared secret to the holder of the
    /// secret key.
    pub ct: Vec<u8>,
}

} // verus!
