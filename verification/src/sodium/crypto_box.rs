//! The sizes of the public-key box, and its key pair.

use vstd::prelude::*;

verus! {

/// The number of bytes that boxing adds to a message.
pub const MAC_BYTES: usize = 16;

/// The length of the nonce of a box.
pub fn nonce_bytes() -> (res: usize)
    ensures
        res == 24,
{
    24
}

/// The length of a public key.
pub fn public_key_bytes() -> (res: usize)
    ensures
        res == 32,
{
    32
}

/// The length of a private key.
pub fn private_key_bytes() -> (res: usize)
    ensures
        res == 32,
{
    32
}

/// The number of bytes that boxing adds to a message.
pub fn mac_bytes() -> (res: usize)
    ensures
        res == MAC_BYTES,
{
    MAC_BYTES
}

/// A key pair for boxes.
#[derive(Debug)]
pub struct Keypair {
    /// The public key.
    pub pk: Vec<u8>,
    /// The private key; empty in a pair that holds the public key alone.
    pub sk: Vec<u8>,
}

/// The length of the plain text of a boxed message of `boxed_len` bytes, if
/// the message is long enough to be one.
pub fn opened_len(boxed_len: usize) -> (res: Option<usize>)
    ensures
        res == if boxed_len >= MAC_BYTES {
            Some((boxed_len - MAC_BYTES) as usize)
        } else {
            None
        },
{
    if boxed_len < MAC_BYTES {
        None
    } else {
        Some(boxed_len - MAC_BYTES)
    }
}

} // verus!
