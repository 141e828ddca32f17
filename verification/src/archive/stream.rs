//! A plain chunk stream: chunks with a kind of one byte, each announced by an
//! info record that carries the length of its sealed payload in 64 bits.

use crate::archive::frame::{FramePlan, FrameView};
use crate::endian::{be64, be64_value, lemma_be64_round_trip, read_u64, write_u64};
use crate::sodium::secretstream;
use crate::sodium::secretstream::{
    nonce_at,
    seen_option,
    Direction,
    SecretStream,
    StreamState,
    ADDITIONAL_BYTES,
    HEADER_BYTES,
    KEY_BYTES,
};
use vstd::prelude::*;
use vstd::slice::slice_subrange;
use vstd::string::*;

verus! {

/// The length of an info record before it is sealed.
pub const INFO_BYTES: usize = 9;

/// The length of a sealed info record.
pub const INFO_FRAME_BYTES: usize = 25;

/// Why a step of a stream failed, as plain values.
pub enum ErrorView {
    /// Reading or writing failed; the text says how.
    IOError(Seq<char>),
    /// The secret stream refused; the text says why.
    CryptoError(Seq<char>),
}

/// Why a step of a stream failed.
#[derive(Debug)]
pub enum Error {
    /// Reading or writing failed; the text says how.
    IOError(String),
    /// The secret stream refused; the text says why.
    CryptoError(String),
}

impl View for Error {
    type V = ErrorView;

    open spec fn view(&self) -> ErrorView {
        match self {
            Error::IOError(text) => ErrorView::IOError(text@),
            Error::CryptoError(text) => ErrorView::CryptoError(text@),
        }
    }
}

impl Error {
    /// The failure of the secret stream as a failure of the chunk stream.
    pub fn from_crypto(err: secretstream::Error) -> (res: Self)
        ensures
            res@ == ErrorView::CryptoError(err.spec_message()),
    {
        Error::CryptoError(String::from_str(err.message()))
    }

    /// The name of the kind of the failure.
    pub fn to_string(&self) -> (res: String)
        ensures
            res@ == match self@ {
                ErrorView::IOError(_) => "IOError"@,
                ErrorView::CryptoError(_) => "CryptoError"@,
            },
    {
        match self {
            Error::IOError(_) => String::from_str("IOError"),
            Error::CryptoError(_) => String::from_str("CryptoError"),
        }
    }
}

/// The info record of a chunk: its kind, then the length of its sealed
/// payload as eight bytes, most significant first.
pub open spec fn info_record(kind: u8, sealed: u64) -> Seq<u8> {
    seq![kind] + be64(sealed)
}

/// What an info record of `INFO_BYTES` bytes says: a kind and the length of
/// the sealed payload.
pub open spec fn parse_info(info: Seq<u8>) -> (u8, u64)
    recommends
        info.len() == INFO_BYTES,
{
    (info[0], be64_value(info.skip(1)) as u64)
}

/// An info record reads back as the kind and the length that it was built
/// from.
pub proof fn lemma_info_round_trip(kind: u8, sealed: u64)
    ensures
        info_record(kind, sealed).len() == INFO_BYTES,
        parse_info(info_record(kind, sealed)) == (kind, sealed),
{
    lemma_be64_round_trip(sealed);
    assert(info_record(kind, sealed).skip(1) =~= be64(sealed));
}

/// Builds the info record for a chunk of kind `kind` whose sealed payload has
/// `sealed` bytes.
pub fn encode_info(kind: u8, sealed: u64) -> (res: Vec<u8>)
    ensures
        res@ == info_record(kind, sealed),
        res@.len() == INFO_BYTES,
{
    let mut length: Vec<u8> = vec![0u8; 8];
    write_u64(length.as_mut_slice(), sealed);
    let mut info: Vec<u8> = Vec::with_capacity(INFO_BYTES);
    info.push(kind);
    info.extend_from_slice(length.as_slice());
    proof {
        lemma_be64_round_trip(sealed);
        assert(length@ =~= be64(sealed));
    }
    info
}

/// Reads an info record, if `info` has the length of one.
pub fn decode_info(info: &[u8]) -> (res: Option<(u8, u64)>)
    ensures
        res == if info@.len() == INFO_BYTES {
            Some(parse_info(info@))
        } else {
            None
        },
{
    if info.len() != INFO_BYTES {
        return None;
    }
    let sealed = read_u64(slice_subrange(info, 1, INFO_BYTES));
    assert(info@.subrange(1, INFO_BYTES as int) =~= info@.skip(1));
    Some((info[0], sealed))
}

/// The plan for a chunk of kind `kind` with a payload of `data_len` bytes
/// whose records are the next two messages of `stream`, or the reason why the
/// stream does not take them.
pub open spec fn chunk_plan(stream: StreamState, data_len: usize, kind: u8) -> Result<
    FrameView,
    secretstream::Error,
> {
    if stream.dir != Direction::Push {
        Err(secretstream::Error::WrongDirection)
    } else if data_len > secretstream::MESSAGE_BYTES_MAX {
        Err(secretstream::Error::MessageTooLong)
    } else if stream.counter + 2 > u64::MAX {
        Err(secretstream::Error::Exhausted)
    } else {
        Ok(
            FrameView {
                info: info_record(kind, (data_len + ADDITIONAL_BYTES) as u64),
                info_nonce: nonce_at(stream.header, stream.counter),
                payload_nonce: nonce_at(stream.header, stream.counter + 1),
            },
        )
    }
}

/// Plans a chunk on the sealing side `stream`; a stream that refuses is left
/// as it was.
pub fn plan_chunk(stream: &mut SecretStream, data_len: usize, kind: u8) -> (res: Result<
    FramePlan,
    secretstream::Error,
>)
    ensures
        match res {
            Ok(plan) => chunk_plan(old(stream)@, data_len, kind) == Ok::<
                FrameView,
                secretstream::Error,
            >(plan@),
            Err(e) => chunk_plan(old(stream)@, data_len, kind) == Err::<
                FrameView,
                secretstream::Error,
            >(e),
        },
        final(stream)@ == (StreamState {
            counter: if res is Ok {
                old(stream)@.counter + 2
            } else {
                old(stream)@.counter
            },
            ..old(stream)@
        }),
{
    match stream.direction() {
        Direction::Push => {},
        Direction::Pull => {
            return Err(secretstream::Error::WrongDirection);
        },
    }
    if data_len > secretstream::MESSAGE_BYTES_MAX {
        return Err(secretstream::Error::MessageTooLong);
    }
    if stream.counter() > u64::MAX - 2 {
        return Err(secretstream::Error::Exhausted);
    }
    let info = encode_info(kind, (data_len + ADDITIONAL_BYTES) as u64);
    let info_nonce = match stream.push(info.len()) {
        Ok(nonce) => nonce,
        Err(e) => {
            return Err(e);
        },
    };
    let payload_nonce = match stream.push(data_len) {
        Ok(nonce) => nonce,
        Err(e) => {
            return Err(e);
        },
    };
    Ok(FramePlan { info, info_nonce, payload_nonce })
}

/// The sealing side of a chunk stream.
pub struct StreamWriter {
    stream: SecretStream,
}

impl View for StreamWriter {
    type V = StreamState;

    closed spec fn view(&self) -> StreamState {
        self.stream@
    }
}

/// A result with an error of the chunk stream, as plain values.
pub open spec fn plan_view(res: Result<FramePlan, Error>) -> Result<FrameView, ErrorView> {
    match res {
        Ok(plan) => Ok(plan@),
        Err(e) => Err(e@),
    }
}

/// The failure of the secret stream as a failure of the chunk stream, as
/// plain values.
pub open spec fn crypto<T>(res: Result<T, secretstream::Error>) -> Result<T, ErrorView> {
    match res {
        Ok(value) => Ok(value),
        Err(e) => Err(ErrorView::CryptoError(e.spec_message())),
    }
}

impl StreamWriter {
    /// A writer with the key `key`, and the bytes that the caller writes at
    /// the start of the stream: the public header `header`, which the caller
    /// has drawn at random.
    pub fn new(key: &[u8], header: &[u8]) -> (res: Result<(StreamWriter, Vec<u8>), Error>)
        ensures
            res is Ok <==> key@.len() == KEY_BYTES && header@.len() == HEADER_BYTES,
            res matches Ok((writer, prefix)) ==> prefix@ == header@ && writer@ == (StreamState {
                header: header@,
                key: key@,
                counter: 0,
                dir: Direction::Push,
            }),
            res matches Err(e) ==> e@ == ErrorView::CryptoError(
                if key@.len() != KEY_BYTES {
                    secretstream::Error::KeyLength.spec_message()
                } else {
                    secretstream::Error::HeaderLength.spec_message()
                },
            ),
    {
        match SecretStream::new_push(key, header) {
            Ok(stream) => {
                let prefix = stream.get_header();
                Ok((StreamWriter { stream }, prefix))
            },
            Err(e) => Err(Error::from_crypto(e)),
        }
    }

    /// Plans a chunk of kind `chunk_type` with a payload of `data_len` bytes.
    pub fn write_chunk(&mut self, data_len: usize, chunk_type: u8) -> (res: Result<FramePlan, Error>)
        ensures
            plan_view(res) == crypto(chunk_plan(old(self)@, data_len, chunk_type)),
            final(self)@ == (StreamState {
                counter: if res is Ok {
                    old(self)@.counter + 2
                } else {
                    old(self)@.counter
                },
                ..old(self)@
            }),
    {
        match plan_chunk(&mut self.stream, data_len, chunk_type) {
            Ok(plan) => Ok(plan),
            Err(e) => Err(Error::from_crypto(e)),
        }
    }

    /// The key of the stream, for the caller that seals.
    pub fn key(&self) -> (res: &[u8])
        ensures
            res@ == self@.key,
    {
        self.stream.key()
    }
}

/// The opening side of a chunk stream, as plain values.
pub struct ReaderView {
    /// The secret stream.
    pub stream: StreamState,
    /// The kind and the sealed length of the chunk whose info record has been
    /// read and whose payload record is due.
    pub pending: Option<(u8, u64)>,
}

/// The opening side of a chunk stream.
pub struct StreamReader {
    stream: SecretStream,
    pending: Option<(u8, u64)>,
}

impl View for StreamReader {
    type V = ReaderView;

    closed spec fn view(&self) -> ReaderView {
        ReaderView { stream: self.stream@, pending: self.pending }
    }
}

/// What a reader makes of an opened record, as plain values.
pub enum ChunkView {
    /// It was an info record; the payload record follows, with so many bytes.
    Payload(u64),
    /// It completed a chunk with this payload and this kind.
    Chunk(Seq<u8>, u8),
}

/// What a reader makes of an opened record.
#[derive(Debug)]
pub enum Chunk {
    /// It was an info record; the payload record follows, with so many bytes.
    Payload(u64),
    /// It completed a chunk with this payload and this kind.
    Chunk(Vec<u8>, u8),
}

impl View for Chunk {
    type V = ChunkView;

    open spec fn view(&self) -> ChunkView {
        match self {
            Chunk::Payload(len) => ChunkView::Payload(*len),
            Chunk::Chunk(data, kind) => ChunkView::Chunk(data@, *kind),
        }
    }
}

/// What the record `opened` means to a reader in the state `r`, or why it is
/// refused; `opened` is nothing where the record did not authenticate.
pub open spec fn read_result(r: ReaderView, opened: Option<Seq<u8>>) -> Result<
    ChunkView,
    secretstream::Error,
> {
    if r.stream.dir != Direction::Pull {
        Err(secretstream::Error::WrongDirection)
    } else if r.stream.counter >= u64::MAX {
        Err(secretstream::Error::Exhausted)
    } else {
        match opened {
            None => Err(secretstream::Error::InvalidCiphertext),
            Some(record) => match r.pending {
                None => if record.len() == INFO_BYTES {
                    Ok(ChunkView::Payload(parse_info(record).1))
                } else {
                    Err(secretstream::Error::InvalidCiphertext)
                },
                Some(due) => Ok(ChunkView::Chunk(record, due.0)),
            },
        }
    }
}

/// The state of a reader after the record `opened` has been handed to it in
/// the state `r`: where the record is refused, the reader stays as it is.
pub open spec fn after_read(r: ReaderView, opened: Option<Seq<u8>>) -> ReaderView {
    if read_result(r, opened) is Err {
        r
    } else {
        ReaderView {
            stream: StreamState { counter: r.stream.counter + 1, ..r.stream },
            pending: match r.pending {
                None => Some(parse_info(opened->Some_0)),
                Some(_) => None,
            },
        }
    }
}

/// A step of a reader, as plain values.
pub open spec fn chunk_view(res: Result<Chunk, Error>) -> Result<ChunkView, ErrorView> {
    match res {
        Ok(chunk) => Ok(chunk@),
        Err(e) => Err(e@),
    }
}

impl StreamReader {
    /// A reader for the stream with the public header `header`, which the
    /// caller has read from the start of the stream, and the key `key`.
    pub fn new(header: &[u8], key: &[u8]) -> (res: Result<StreamReader, Error>)
        ensures
            res is Ok <==> key@.len() == KEY_BYTES && header@.len() == HEADER_BYTES,
            res matches Ok(reader) ==> reader@ == (ReaderView {
                stream: StreamState { header: header@, key: key@, counter: 0, dir: Direction::Pull },
                pending: None,
            }),
            res matches Err(e) ==> e@ == ErrorView::CryptoError(
                if header@.len() != HEADER_BYTES {
                    secretstream::Error::HeaderLength.spec_message()
                } else {
                    secretstream::Error::KeyLength.spec_message()
                },
            ),
    {
        match SecretStream::new_pull(header, key) {
            Ok(stream) => Ok(StreamReader { stream, pending: None }),
            Err(e) => Err(Error::from_crypto(e)),
        }
    }

    /// The number of bytes that the reader needs next: a sealed info record,
    /// or the sealed payload that the last info record announced.
    pub fn wanted(&self) -> (res: u64)
        ensures
            res == match self@.pending {
                None => INFO_FRAME_BYTES as u64,
                Some(due) => due.1,
            },
    {
        match self.pending {
            None => INFO_FRAME_BYTES as u64,
            Some(due) => due.1,
        }
    }

    /// The nonce under which the bytes that the reader needs next have to be
    /// opened.
    pub fn nonce(&self) -> (res: Vec<u8>)
        ensures
            res@ == nonce_at(self@.stream.header, self@.stream.counter),
    {
        self.stream.nonce()
    }

    /// Takes note of what opening the wanted bytes gave: the record, or
    /// nothing where they did not authenticate. A record that is refused
    /// leaves the reader as it was.
    pub fn read_chunk(&mut self, opened: Option<Vec<u8>>) -> (res: Result<Chunk, Error>)
        ensures
            chunk_view(res) == crypto(read_result(old(self)@, seen_option(opened))),
            final(self)@ == after_read(old(self)@, seen_option(opened)),
    {
        match self.stream.direction() {
            Direction::Pull => {},
            Direction::Push => {
                return Err(Error::from_crypto(secretstream::Error::WrongDirection));
            },
        }
        if self.stream.counter() == u64::MAX {
            return Err(Error::from_crypto(secretstream::Error::Exhausted));
        }
        let record = match opened {
            Some(record) => record,
            None => {
                return Err(Error::from_crypto(secretstream::Error::InvalidCiphertext));
            },
        };
        match self.pending {
            None => {
                let due = match decode_info(record.as_slice()) {
                    Some(due) => due,
                    None => {
                        return Err(Error::from_crypto(secretstream::Error::InvalidCiphertext));
                    },
                };
                let _ = self.stream.pull(Some(record));
                self.pending = Some(due);
                Ok(Chunk::Payload(due.1))
            },
            Some(due) => {
                match self.stream.pull(Some(record)) {
                    Ok(data) => {
                        self.pending = None;
                        Ok(Chunk::Chunk(data, due.0))
                    },
                    Err(e) => Err(Error::from_crypto(e)),
                }
            },
        }
    }

    /// The key of the stream, for the caller that opens.
    pub fn key(&self) -> (res: &[u8])
        ensures
            res@ == self@.stream.key,
    {
        self.stream.key()
    }
}

} // verus!
