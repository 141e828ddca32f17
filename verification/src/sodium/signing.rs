//! The sizes of signatures, and the key pair that signs.

use vstd::prelude::*;

verus! {

/// The length of a public key.
pub const PUBLIC_KEY_BYTES: usize = 32;

/// The length of a secret key.
pub const SECRET_KEY_BYTES: usize = 64;

/// The length of a signature.
pub const SIG_BYTES: usize = 64;

/// A key pair for signatures.
#[derive(Debug)]
pub struct Keypair {
    /// The public key.
    pub public_key: Vec<u8>,
    /// The private key.
    pub private_key: Vec<u8>,
}

/// Why something cannot be signed or verified.
#[derive(Clone, Copy, Debug, PartialEq, Eq, Structural)]
pub enum SignError {
    /// The secret key does not have `SECRET_KEY_BYTES` bytes.
    SecretKeyLength,
    /// The public key does not have `PUBLIC_KEY_BYTES` bytes.
    PublicKeyLength,
    /// The signature does not have `SIG_BYTES` bytes.
    SignatureLength,
    /// The signed message is shorter than a signature.
    TooShort,
}

/// The length of the message `data_len` bytes long once it is signed with a
/// secret key of `secret_key_len` bytes.
pub fn signed_len(data_len: usize, secret_key_len: usize) -> (res: Result<usize, SignError>)
    requires
        data_len + SIG_BYTES <= usize::MAX,
    ensures
        res == if secret_key_len != SECRET_KEY_BYTES {
            Err::<usize, SignError>(SignError::SecretKeyLength)
        } else {
            Ok((data_len + SIG_BYTES) as usize)
        },
{
    if secret_key_len != SECRET_KEY_BYTES {
        return Err(SignError::SecretKeyLength);
    }
    Ok(data_len + SIG_BYTES)
}

/// The length of the message inside a signed message of `signed_len` bytes
/// that is opened with a public key of `public_key_len` bytes. A signed
/// message that is too short is reported before a key of the wrong length.
pub fn opened_len(signed_len: usize, public_key_len: usize) -> (res: Result<usize, SignError>)
    ensures
        res == if signed_len < SIG_BYTES {
            Err::<usize, SignError>(SignError::TooShort)
        } else if public_key_len != PUBLIC_KEY_BYTES {
            Err(SignError::PublicKeyLength)
        } else {
            Ok((signed_len - SIG_BYTES) as usize)
        },
{
    if signed_len < SIG_BYTES {
        return Err(SignError::TooShort);
    }
    if public_key_len != PUBLIC_KEY_BYTES {
        return Err(SignError::PublicKeyLength);
    }
    Ok(signed_len - SIG_BYTES)
}

/// Whether a detached signature of `signature_len` bytes can be verified with
/// a public key of `public_key_len` bytes. A key of the wrong length is
/// reported before a signature of the wrong length.
pub fn check_detached(signature_len: usize, public_key_len: usize) -> (res: Result<(), SignError>)
    ensures
        res == if public_key_len != PUBLIC_KEY_BYTES {
            Err::<(), SignError>(SignError::PublicKeyLength)
        } else if signature_len != SIG_BYTES {
            Err(SignError::SignatureLength)
        } else {
            Ok(())
        },
{
    if public_key_len != PUBLIC_KEY_BYTES {
        return Err(SignError::PublicKeyLength);
    }
    if signature_len != SIG_BYTES {
        return Err(SignError::SignatureLength);
    }
    Ok(())
}

} // verus!
