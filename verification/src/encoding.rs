//! Binary data as text: hex and base64.

use crate::sodium;
use crate::sodium::hex;
use vstd::prelude::*;

verus! {

/// The base64 text of `data`, in the standard alphabet with padding, as
/// `base64::encode` gives it.
pub uninterp spec fn base64_text(data: Seq<u8>) -> Seq<char>;

/// The bytes that the base64 text `text` stands for, if it is base64 in the
/// standard alphabet with padding, as `base64::decode` gives them.
pub uninterp spec fn base64_bytes(text: Seq<char>) -> Option<Seq<u8>>;

/// `base64::encode`: the base64 text of `data`. The call panics where the
/// length of the text does not fit in a `usize`, which the precondition
/// excludes.
#[verifier::external_body]
pub(crate) fn base64_encode(data: &[u8]) -> (res: String)
    requires
        (data@.len() / 3) * 4 + 4 <= usize::MAX,
    ensures
        res@ == base64_text(data@),
{
    base64::encode(data)
}

/// `base64::decode`: the bytes that `text` stands for, or nothing where the
/// call reports that `text` is not base64.
#[verifier::external_body]
pub(crate) fn base64_decode(text: &str) -> (res: Option<Vec<u8>>)
    ensures
        res is Some <==> base64_bytes(text@) is Some,
        res matches Some(bytes) ==> Some(bytes@) == base64_bytes(text@),
{
    base64::decode(text).ok()
}

/// The hex text of `data`: two lower-case digits for each byte.
pub fn to_hex(data: &[u8]) -> (res: String)
    ensures
        res@ == hex(data@),
{
    sodium::to_hex(data)
}

/// Bytes that are written as base64 text wherever they are stored.
#[derive(Debug)]
pub struct Base64Data(pub Vec<u8>);

impl View for Base64Data {
    type V = Seq<u8>;

    open spec fn view(&self) -> Seq<u8> {
        self.0@
    }
}

/// What decoding a text gave, as it is reported.
pub open spec fn decoded(bytes: Option<Seq<u8>>) -> Result<Seq<u8>, DecodeError> {
    match bytes {
        Some(bytes) => Ok(bytes),
        None => Err(DecodeError::NotBase64),
    }
}

/// Why a text could not be decoded.
#[derive(Clone, Copy, Debug, PartialEq, Eq, Structural)]
pub enum DecodeError {
    /// The text is not base64 in the standard alphabet with padding.
    NotBase64,
}

impl Base64Data {
    /// The bytes.
    pub fn to_vec(&self) -> (res: &Vec<u8>)
        ensures
            res@ == self@,
    {
        &self.0
    }

    /// A copy.
    pub fn clone(&self) -> (res: Self)
        ensures
            res@ == self@,
    {
        Base64Data(self.0.clone())
    }

    /// The bytes as base64 text.
    pub fn encode(&self) -> (res: String)
        requires
            (self@.len() / 3) * 4 + 4 <= usize::MAX,
        ensures
            res@ == base64_text(self@),
    {
        base64_encode(self.0.as_slice())
    }

    /// The bytes that the base64 text `text` stands for.
    pub fn decode(text: &str) -> (res: Result<Base64Data, DecodeError>)
        ensures
            match res {
                Ok(data) => decoded(base64_bytes(text@)) == Ok::<Seq<u8>, DecodeError>(data@),
                Err(e) => decoded(base64_bytes(text@)) == Err::<Seq<u8>, DecodeError>(e),
            },
    {
        Self::from_decoded(base64_decode(text))
    }

    /// Wraps what decoding gave: the bytes, or the report that the text was
    /// not base64.
    pub fn from_decoded(bytes: Option<Vec<u8>>) -> (res: Result<Base64Data, DecodeError>)
        ensures
            match res {
                Ok(data) => bytes is Some && data@ == bytes->Some_0@,
                Err(e) => bytes is None && e == DecodeError::NotBase64,
            },
    {
        match bytes {
            Some(bytes) => Ok(Base64Data(bytes)),
            None => Err(DecodeError::NotBase64),
        }
    }
}

} // verus!
