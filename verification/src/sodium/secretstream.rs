//! The bookkeeping of the secret stream: one key, one public header, and a
//! nonce for every message that depends on the position of the message in the
//! stream.
//!
//! The stream itself seals and opens nothing. For every message it names the
//! nonce under which the caller has to seal or open it, and it keeps count of
//! the messages. The public header is the nonce of the first message; every
//! later nonce keeps the first sixteen bytes of the header, and its last eight
//! bytes count up from the last eight bytes of the header as one big-endian
//! number that wraps around. A message that is moved to another position is
//! therefore opened under another nonce than it was sealed under.

use crate::endian::{be64, be64_value, lemma_be64_round_trip, read_u64, write_u64};
use vstd::prelude::*;
use vstd::slice::slice_subrange;

verus! {

/// The number of bytes that sealing adds to a message.
pub const ADDITIONAL_BYTES: usize = 16;

/// The length of the key of a stream.
pub const KEY_BYTES: usize = 32;

/// The length of the public header of a stream, which is also the length of
/// every nonce.
pub const HEADER_BYTES: usize = 24;

/// The length of the part of the header that every nonce of the stream keeps.
pub const PREFIX_BYTES: usize = 16;

/// The longest message that can be sealed.
pub const MESSAGE_BYTES_MAX: usize = usize::MAX - ADDITIONAL_BYTES;

/// The side of a stream.
#[derive(Clone, Copy, Debug, PartialEq, Eq, Structural)]
pub enum Direction {
    /// The stream seals messages.
    Push,
    /// The stream opens messages.
    Pull,
}

/// The ways in which the use of a stream can fail.
#[derive(Clone, Copy, Debug, PartialEq, Eq, Structural)]
pub enum Error {
    /// The key does not have `KEY_BYTES` bytes.
    KeyLength,
    /// The header does not have `HEADER_BYTES` bytes.
    HeaderLength,
    /// The stream runs in the other direction.
    WrongDirection,
    /// The message is longer than `MESSAGE_BYTES_MAX`.
    MessageTooLong,
    /// The sealed message is shorter than what sealing adds.
    CiphertextTooShort,
    /// The sealed message did not open under the nonce of its position.
    InvalidCiphertext,
    /// The stream has carried as many messages as it can count.
    Exhausted,
}

impl Error {
    /// The text of the error.
    pub open spec fn spec_message(self) -> Seq<char> {
        match self {
            Error::KeyLength => "Key length invalid"@,
            Error::HeaderLength => "Header too short"@,
            Error::WrongDirection => "Stream runs in the other direction"@,
            Error::MessageTooLong => "Message too long"@,
            Error::CiphertextTooShort => "Ciphertext too short"@,
            Error::InvalidCiphertext => "Invalid ciphertext"@,
            Error::Exhausted => "Stream exhausted"@,
        }
    }

    /// The text of the error.
    pub fn message(self) -> (res: &'static str)
        ensures
            res@ == self.spec_message(),
    {
        match self {
            Error::KeyLength => "Key length invalid",
            Error::HeaderLength => "Header too short",
            Error::WrongDirection => "Stream runs in the other direction",
            Error::MessageTooLong => "Message too long",
            Error::CiphertextTooShort => "Ciphertext too short",
            Error::InvalidCiphertext => "Invalid ciphertext",
            Error::Exhausted => "Stream exhausted",
        }
    }
}

/// What a stream is, as plain values.
pub struct StreamState {
    /// The public header.
    pub header: Seq<u8>,
    /// The key.
    pub key: Seq<u8>,
    /// The number of messages that the stream has carried.
    pub counter: nat,
    /// The side of the stream.
    pub dir: Direction,
}

/// One side of a secret stream.
pub struct SecretStream {
    header: Vec<u8>,
    key: Vec<u8>,
    counter: u64,
    dir: Direction,
}

/// The nonce of the message at position `index` of the stream whose public
/// header is `header`.
pub open spec fn nonce_at(header: Seq<u8>, index: nat) -> Seq<u8> {
    header.take(PREFIX_BYTES as int) + be64(
        ((be64_value(header.skip(PREFIX_BYTES as int)) + index) % 0x1_0000_0000_0000_0000) as u64,
    )
}

impl View for SecretStream {
    type V = StreamState;

    closed spec fn view(&self) -> StreamState {
        StreamState {
            header: self.header@,
            key: self.key@,
            counter: self.counter as nat,
            dir: self.dir,
        }
    }
}

/// A result that carries bytes, with the bytes as a sequence.
pub open spec fn seen<E>(res: Result<Vec<u8>, E>) -> Result<Seq<u8>, E> {
    match res {
        Ok(bytes) => Ok(bytes@),
        Err(e) => Err(e),
    }
}

/// Bytes that may be missing, as a sequence.
pub open spec fn seen_option(bytes: Option<Vec<u8>>) -> Option<Seq<u8>> {
    match bytes {
        Some(bytes) => Some(bytes@),
        None => None,
    }
}

/// A copy of `bytes`.
fn copy_of(bytes: &[u8]) -> (res: Vec<u8>)
    ensures
        res@ == bytes@,
{
    vstd::slice::slice_to_vec(bytes)
}

impl SecretStream {
    /// Header and key have their lengths.
    #[verifier::type_invariant]
    closed spec fn wf(&self) -> bool {
        self.header@.len() == HEADER_BYTES && self.key@.len() == KEY_BYTES
    }

    /// The sealing side of a new stream with the key `key`. The public header
    /// is `header`, which the caller draws at random. A key or a header of
    /// another length than `KEY_BYTES` and `HEADER_BYTES` is refused, the key
    /// first.
    pub fn new_push(key: &[u8], header: &[u8]) -> (res: Result<SecretStream, Error>)
        ensures
            res is Ok <==> key@.len() == KEY_BYTES && header@.len() == HEADER_BYTES,
            res matches Ok(stream) ==> stream@ == (StreamState {
                header: header@,
                key: key@,
                counter: 0,
                dir: Direction::Push,
            }),
            res matches Err(e) ==> e == if key@.len() != KEY_BYTES {
                Error::KeyLength
            } else {
                Error::HeaderLength
            },
    {
        if key.len() != KEY_BYTES {
            return Err(Error::KeyLength);
        }
        if header.len() != HEADER_BYTES {
            return Err(Error::HeaderLength);
        }
        Ok(SecretStream { header: copy_of(header), key: copy_of(key), counter: 0, dir: Direction::Push })
    }

    /// The opening side of the stream with the public header `header` and the
    /// key `key`. A header or a key of another length than `HEADER_BYTES` and
    /// `KEY_BYTES` is refused, the header first.
    pub fn new_pull(header: &[u8], key: &[u8]) -> (res: Result<SecretStream, Error>)
        ensures
            res is Ok <==> key@.len() == KEY_BYTES && header@.len() == HEADER_BYTES,
            res matches Ok(stream) ==> stream@ == (StreamState {
                header: header@,
                key: key@,
                counter: 0,
                dir: Direction::Pull,
            }),
            res matches Err(e) ==> e == if header@.len() != HEADER_BYTES {
                Error::HeaderLength
            } else {
                Error::KeyLength
            },
    {
        if header.len() != HEADER_BYTES {
            return Err(Error::HeaderLength);
        }
        if key.len() != KEY_BYTES {
            return Err(Error::KeyLength);
        }
        Ok(SecretStream { header: copy_of(header), key: copy_of(key), counter: 0, dir: Direction::Pull })
    }

    /// The public header.
    pub fn get_header(&self) -> (res: Vec<u8>)
        ensures
            res@ == self@.header,
            res@.len() == HEADER_BYTES,
    {
        proof {
            use_type_invariant(self);
        }
        copy_of(self.header.as_slice())
    }

    /// The key, for the caller that seals and opens.
    pub fn key(&self) -> (res: &[u8])
        ensures
            res@ == self@.key,
            res@.len() == KEY_BYTES,
    {
        proof {
            use_type_invariant(self);
        }
        self.key.as_slice()
    }

    /// The number of messages that the stream has carried.
    pub fn counter(&self) -> (res: u64)
        ensures
            res == self@.counter,
    {
        self.counter
    }

    /// The side of the stream.
    pub fn direction(&self) -> (res: Direction)
        ensures
            res == self@.dir,
    {
        self.dir
    }

    /// The nonce of the next message.
    pub fn nonce(&self) -> (res: Vec<u8>)
        ensures
            res@ == nonce_at(self@.header, self@.counter),
            res@.len() == HEADER_BYTES,
    {
        proof {
            use_type_invariant(self);
        }
        let first: u64 = read_u64(slice_subrange(self.header.as_slice(), PREFIX_BYTES, HEADER_BYTES));
        assert(self.header@.subrange(PREFIX_BYTES as int, HEADER_BYTES as int) =~= self.header@.skip(
            PREFIX_BYTES as int,
        ));
        let position: u64 = if first <= u64::MAX - self.counter {
            first + self.counter
        } else {
            self.counter - (u64::MAX - first) - 1
        };
        let mut tail: Vec<u8> = vec![0u8; 8];
        write_u64(tail.as_mut_slice(), position);
        let mut res = copy_of(slice_subrange(self.header.as_slice(), 0, PREFIX_BYTES));
        res.extend_from_slice(tail.as_slice());
        proof {
            lemma_be64_round_trip(position);
            assert(tail@ =~= be64(position));
            assert(self.header@.subrange(0, PREFIX_BYTES as int) =~= self.header@.take(
                PREFIX_BYTES as int,
            ));
        }
        res
    }

    /// Takes a message of `data_len` bytes into the stream and returns the
    /// nonce under which the caller has to seal it. The sealed message has
    /// `data_len + ADDITIONAL_BYTES` bytes.
    ///
    /// Fails, and leaves the stream as it was, on the opening side of a
    /// stream, for a message that is too long, and when the stream has carried
    /// as many messages as it can count; the first of these that holds is
    /// reported.
    pub fn push(&mut self, data_len: usize) -> (res: Result<Vec<u8>, Error>)
        ensures
            seen(res) == Self::push_result(old(self)@, data_len),
            final(self)@ == Self::after(old(self)@, res is Ok),
    {
        proof {
            use_type_invariant(&*self);
        }
        if self.dir != Direction::Push {
            return Err(Error::WrongDirection);
        }
        if data_len > MESSAGE_BYTES_MAX {
            return Err(Error::MessageTooLong);
        }
        if self.counter == u64::MAX {
            return Err(Error::Exhausted);
        }
        let nonce = self.nonce();
        self.counter = self.counter + 1;
        Ok(nonce)
    }

    /// The nonce under which the caller has to open the next sealed message,
    /// which has `ciphertext_len` bytes.
    ///
    /// Fails on the sealing side of a stream, for a sealed message that is
    /// shorter than what sealing adds, and when the stream has carried as many
    /// messages as it can count; the first of these that holds is reported.
    pub fn begin_pull(&self, ciphertext_len: usize) -> (res: Result<Vec<u8>, Error>)
        ensures
            seen(res) == Self::begin_pull_result(self@, ciphertext_len),
    {
        if self.dir != Direction::Pull {
            return Err(Error::WrongDirection);
        }
        if ciphertext_len < ADDITIONAL_BYTES {
            return Err(Error::CiphertextTooShort);
        }
        if self.counter == u64::MAX {
            return Err(Error::Exhausted);
        }
        Ok(self.nonce())
    }

    /// Takes note of what opening the next sealed message gave: the message,
    /// or nothing where it did not authenticate. An opened message moves the
    /// stream on by one position and is handed back. A failure leaves the
    /// stream where it was.
    pub fn pull(&mut self, opened: Option<Vec<u8>>) -> (res: Result<Vec<u8>, Error>)
        ensures
            seen(res) == Self::pull_result(old(self)@, seen_option(opened)),
            final(self)@ == Self::after(old(self)@, res is Ok),
    {
        proof {
            use_type_invariant(&*self);
        }
        if self.dir != Direction::Pull {
            return Err(Error::WrongDirection);
        }
        if self.counter == u64::MAX {
            return Err(Error::Exhausted);
        }
        match opened {
            Some(message) => {
                self.counter = self.counter + 1;
                Ok(message)
            },
            None => Err(Error::InvalidCiphertext),
        }
    }

    /// Two messages at different positions of one stream have different
    /// nonces.
    pub proof fn lemma_nonces_differ(header: Seq<u8>, i: nat, j: nat)
        requires
            header.len() == HEADER_BYTES,
            i < j <= u64::MAX,
        ensures
            nonce_at(header, i) != nonce_at(header, j),
    {
        let first = be64_value(header.skip(PREFIX_BYTES as int));
        crate::endian::lemma_be64_of_value(header.skip(PREFIX_BYTES as int));
        let a = ((first + i) % 0x1_0000_0000_0000_0000) as u64;
        let b = ((first + j) % 0x1_0000_0000_0000_0000) as u64;
        assert(a != b);
        lemma_be64_round_trip(a);
        lemma_be64_round_trip(b);
        let prefix = header.take(PREFIX_BYTES as int);
        assert((prefix + be64(a)).skip(PREFIX_BYTES as int) =~= be64(a));
        assert((prefix + be64(b)).skip(PREFIX_BYTES as int) =~= be64(b));
    }

    /// The stream after a step: one position further where the step
    /// succeeded, unchanged where it failed.
    pub open spec fn after(state: StreamState, success: bool) -> StreamState {
        if success {
            StreamState { counter: state.counter + 1, ..state }
        } else {
            state
        }
    }

    /// What `push` returns.
    pub open spec fn push_result(state: StreamState, data_len: usize) -> Result<Seq<u8>, Error> {
        if state.dir != Direction::Push {
            Err(Error::WrongDirection)
        } else if data_len > MESSAGE_BYTES_MAX {
            Err(Error::MessageTooLong)
        } else if state.counter >= u64::MAX {
            Err(Error::Exhausted)
        } else {
            Ok(nonce_at(state.header, state.counter))
        }
    }

    /// What `begin_pull` returns.
    pub open spec fn begin_pull_result(state: StreamState, ciphertext_len: usize) -> Result<
        Seq<u8>,
        Error,
    > {
        if state.dir != Direction::Pull {
            Err(Error::WrongDirection)
        } else if ciphertext_len < ADDITIONAL_BYTES {
            Err(Error::CiphertextTooShort)
        } else if state.counter >= u64::MAX {
            Err(Error::Exhausted)
        } else {
            Ok(nonce_at(state.header, state.counter))
        }
    }

    /// What `pull` returns.
    pub open spec fn pull_result(state: StreamState, opened: Option<Seq<u8>>) -> Result<
        Seq<u8>,
        Error,
    > {
        if state.dir != Direction::Pull {
            Err(Error::WrongDirection)
        } else if state.counter >= u64::MAX {
            Err(Error::Exhausted)
        } else {
            match opened {
                Some(message) => Ok(message),
                None => Err(Error::InvalidCiphertext),
            }
        }
    }
}

} // verus!
