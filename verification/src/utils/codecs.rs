//! Keys are stored as base64 text.

use crate::encoding::{base64_bytes, base64_decode, base64_encode, base64_text, decoded, DecodeError};
use vstd::prelude::*;

verus! {

/// The base64 text of a key.
pub fn to_base64(key: &Vec<u8>) -> (res: String)
    requires
        (key@.len() / 3) * 4 + 4 <= usize::MAX,
    ensures
        res@ == base64_text(key@),
{
    base64_encode(key.as_slice())
}

/// The key that a base64 text stands for.
pub fn from_base64(text: &str) -> (res: Result<Vec<u8>, DecodeError>)
    ensures
        match res {
            Ok(key) => decoded(base64_bytes(text@)) == Ok::<Seq<u8>, DecodeError>(key@),
            Err(e) => decoded(base64_bytes(text@)) == Err::<Seq<u8>, DecodeError>(e),
        },
{
    match base64_decode(text) {
        Some(key) => Ok(key),
        None => Err(DecodeError::NotBase64),
    }
}

} // verus!
