//! A chunk stream for single files, opened for reading or for writing, with
//! chunks of three kinds.

use crate::archive::stream::{
    after_read,
    chunk_plan,
    read_result,
    Chunk,
    ChunkView,
    StreamReader,
    StreamWriter,
};
use crate::archive::frame::{FramePlan, FrameView};
use crate::errors::{Error, ErrorView};
use crate::sodium::secretstream;
use crate::sodium::secretstream::{seen_option, Direction, StreamState, HEADER_BYTES, KEY_BYTES};
use vstd::prelude::*;

verus! {

/// What a stream is open for.
#[derive(Clone, Copy, Debug, PartialEq, Eq, Structural)]
pub enum StreamMode {
    /// The stream is read.
    Read,
    /// The stream is written.
    Write,
}

/// The kind of a chunk.
#[derive(Clone, Copy, Debug, PartialEq, Eq, Structural)]
pub enum ChunkType {
    /// Content of the file.
    FileData,
    /// The name and the path of the file.
    FileHeader,
    /// The hash and the size of the file, behind its content.
    FileSentinel,
}

impl ChunkType {
    /// The number that stands for the kind on the wire.
    pub open spec fn spec_code(self) -> u8 {
        match self {
            ChunkType::FileData => 0,
            ChunkType::FileHeader => 1,
            ChunkType::FileSentinel => 2,
        }
    }

    /// The number that stands for the kind on the wire.
    #[verifier::when_used_as_spec(spec_code)]
    pub fn code(self) -> (res: u8)
        ensures
            res == self.spec_code(),
    {
        match self {
            ChunkType::FileData => 0,
            ChunkType::FileHeader => 1,
            ChunkType::FileSentinel => 2,
        }
    }

    /// The kind that `code` stands for, if it stands for one.
    pub open spec fn of_code(code: u8) -> Option<ChunkType> {
        match code {
            0 => Some(ChunkType::FileData),
            1 => Some(ChunkType::FileHeader),
            2 => Some(ChunkType::FileSentinel),
            _ => None,
        }
    }

    /// The kind that `chunk_type` stands for; a number above two stands for
    /// none.
    pub fn try_from(chunk_type: u8) -> (res: Result<ChunkType, Error>)
        ensures
            match res {
                Ok(kind) => Self::of_code(chunk_type) == Some(kind),
                Err(e) => Self::of_code(chunk_type) is None && e@ == (ErrorView {
                    src: None,
                    message: "Invalid chunk type"@,
                }),
            },
    {
        match chunk_type {
            0 => Ok(ChunkType::FileData),
            1 => Ok(ChunkType::FileHeader),
            2 => Ok(ChunkType::FileSentinel),
            _ => Err(Error::new("Invalid chunk type")),
        }
    }
}

/// What opens a file in the stream.
#[derive(Debug)]
pub struct FileHeader {
    /// The name of the file.
    pub name: String,
    /// The path of the file.
    pub path: String,
}

/// What closes a file in the stream.
#[derive(Debug)]
pub struct FileSentinel {
    /// The hex text of the hash of the content.
    pub hash: String,
    /// The number of bytes of the content.
    pub size: u64,
}

/// The two sides of a stream.
enum Side {
    Reader(StreamReader),
    Writer(StreamWriter),
}

/// A chunk stream for a single file.
pub struct Stream {
    side: Side,
}

/// A stream, as plain values.
pub struct StreamView {
    /// What the stream is open for.
    pub mode: StreamMode,
    /// The secret stream.
    pub stream: StreamState,
    /// On the reading side, the kind and the sealed length of the chunk
    /// whose payload record is due.
    pub pending: Option<(u8, u64)>,
}

impl View for Stream {
    type V = StreamView;

    closed spec fn view(&self) -> StreamView {
        match self.side {
            Side::Reader(reader) => StreamView {
                mode: StreamMode::Read,
                stream: reader@.stream,
                pending: reader@.pending,
            },
            Side::Writer(writer) => StreamView {
                mode: StreamMode::Write,
                stream: writer@,
                pending: None,
            },
        }
    }
}

/// The error with the message `message` and no cause.
pub open spec fn plain_error(message: Seq<char>) -> ErrorView {
    ErrorView { src: None, message }
}

/// What a step gave, with the failure of the secret stream as an error with
/// its text.
pub open spec fn reported<T>(res: Result<T, secretstream::Error>) -> Result<T, ErrorView> {
    match res {
        Ok(value) => Ok(value),
        Err(e) => Err(plain_error(e.spec_message())),
    }
}

/// A plan or an error, as plain values.
pub open spec fn plan_view(res: Result<FramePlan, Error>) -> Result<FrameView, ErrorView> {
    match res {
        Ok(plan) => Ok(plan@),
        Err(e) => Err(e@),
    }
}

/// A chunk or an error, as plain values.
pub open spec fn chunk_view(res: Result<(Chunk, Option<ChunkType>), Error>) -> Result<
    (ChunkView, Option<ChunkType>),
    ErrorView,
> {
    match res {
        Ok(found) => Ok((found.0@, found.1)),
        Err(e) => Err(e@),
    }
}

/// The text of the failure of a chunk stream.
fn text_of(err: crate::archive::stream::Error) -> (res: String)
    ensures
        res@ == match err@ {
            crate::archive::stream::ErrorView::IOError(text) => text,
            crate::archive::stream::ErrorView::CryptoError(text) => text,
        },
{
    match err {
        crate::archive::stream::Error::IOError(text) => text,
        crate::archive::stream::Error::CryptoError(text) => text,
    }
}

impl Stream {
    /// A stream for reading. `header` is the public header, which the caller
    /// has read behind the boxed key, and `key` the key that the caller has
    /// taken out of its box.
    pub fn open(header: &[u8], key: &[u8]) -> (res: Result<Stream, Error>)
        ensures
            res is Ok <==> key@.len() == KEY_BYTES && header@.len() == HEADER_BYTES,
            res matches Ok(stream) ==> stream@ == (StreamView {
                mode: StreamMode::Read,
                stream: StreamState { header: header@, key: key@, counter: 0, dir: Direction::Pull },
                pending: None,
            }),
            res matches Err(e) ==> e@ == plain_error(
                if header@.len() != HEADER_BYTES {
                    secretstream::Error::HeaderLength.spec_message()
                } else {
                    secretstream::Error::KeyLength.spec_message()
                },
            ),
    {
        match StreamReader::new(header, key) {
            Ok(reader) => Ok(Stream { side: Side::Reader(reader) }),
            Err(e) => {
                let text = text_of(e);
                Err(Error::new(text.as_str()))
            },
        }
    }

    /// A stream for writing, and the public header that the caller writes
    /// behind the boxed key. `key` is the fresh key that the caller has boxed,
    /// and `header` the public header, which the caller has drawn at random.
    pub fn create(key: &[u8], header: &[u8]) -> (res: Result<(Stream, Vec<u8>), Error>)
        ensures
            res is Ok <==> key@.len() == KEY_BYTES && header@.len() == HEADER_BYTES,
            res matches Ok((stream, prefix)) ==> prefix@ == header@ && stream@ == (StreamView {
                mode: StreamMode::Write,
                stream: StreamState { header: header@, key: key@, counter: 0, dir: Direction::Push },
                pending: None,
            }),
            res matches Err(e) ==> e@ == plain_error(
                if key@.len() != KEY_BYTES {
                    secretstream::Error::KeyLength.spec_message()
                } else {
                    secretstream::Error::HeaderLength.spec_message()
                },
            ),
    {
        match StreamWriter::new(key, header) {
            Ok((writer, prefix)) => Ok((Stream { side: Side::Writer(writer) }, prefix)),
            Err(e) => {
                let text = text_of(e);
                Err(Error::new(text.as_str()))
            },
        }
    }

    /// What the stream is open for.
    pub fn mode(&self) -> (res: StreamMode)
        ensures
            res == self@.mode,
    {
        match &self.side {
            Side::Reader(_) => StreamMode::Read,
            Side::Writer(_) => StreamMode::Write,
        }
    }

    /// Plans a chunk of kind `chunk_type` with a payload of `data_len` bytes.
    /// On a stream that is open for reading this fails with the message
    /// `Wrong file mode`.
    pub fn write_chunk(&mut self, data_len: usize, chunk_type: ChunkType) -> (res: Result<
        FramePlan,
        Error,
    >)
        ensures
            plan_view(res) == Self::write_result(old(self)@, data_len, chunk_type),
            final(self)@ == (StreamView {
                stream: StreamState {
                    counter: if res is Ok {
                        old(self)@.stream.counter + 2
                    } else {
                        old(self)@.stream.counter
                    },
                    ..old(self)@.stream
                },
                ..old(self)@
            }),
    {
        match &mut self.side {
            Side::Reader(_) => Err(Error::new("Wrong file mode")),
            Side::Writer(writer) => match writer.write_chunk(data_len, chunk_type.code()) {
                Ok(plan) => Ok(plan),
                Err(e) => {
                    let text = text_of(e);
                    Err(Error::new(text.as_str()))
                },
            },
        }
    }

    /// What `write_chunk` returns.
    pub open spec fn write_result(s: StreamView, data_len: usize, chunk_type: ChunkType) -> Result<
        FrameView,
        ErrorView,
    > {
        if s.mode != StreamMode::Write {
            Err(plain_error("Wrong file mode"@))
        } else {
            reported(chunk_plan(s.stream, data_len, chunk_type.spec_code()))
        }
    }

    /// Takes note of what opening the wanted bytes gave: the record, or
    /// nothing where they did not authenticate. With the chunk comes its kind,
    /// where its number stands for one. On a stream that is open for writing
    /// this fails with the message `Wrong file mode`.
    pub fn read_chunk(&mut self, opened: Option<Vec<u8>>) -> (res: Result<
        (Chunk, Option<ChunkType>),
        Error,
    >)
        ensures
            chunk_view(res) == Self::read_chunk_result(old(self)@, seen_option(opened)),
            final(self)@ == Self::after_read_chunk(old(self)@, seen_option(opened)),
    {
        match &mut self.side {
            Side::Writer(_) => Err(Error::new("Wrong file mode")),
            Side::Reader(reader) => match reader.read_chunk(opened) {
                Ok(chunk) => {
                    let kind = match &chunk {
                        Chunk::Payload(_) => None,
                        Chunk::Chunk(_, code) => match ChunkType::try_from(*code) {
                            Ok(kind) => Some(kind),
                            Err(_) => None,
                        },
                    };
                    Ok((chunk, kind))
                },
                Err(e) => {
                    let text = text_of(e);
                    Err(Error::new(text.as_str()))
                },
            },
        }
    }

    /// What `read_chunk` returns.
    pub open spec fn read_chunk_result(s: StreamView, opened: Option<Seq<u8>>) -> Result<
        (ChunkView, Option<ChunkType>),
        ErrorView,
    > {
        if s.mode != StreamMode::Read {
            Err(plain_error("Wrong file mode"@))
        } else {
            match read_result(
                crate::archive::stream::ReaderView { stream: s.stream, pending: s.pending },
                opened,
            ) {
                Ok(chunk) => Ok(
                    (
                        chunk,
                        match chunk {
                            ChunkView::Payload(_) => None,
                            ChunkView::Chunk(_, code) => ChunkType::of_code(code),
                        },
                    ),
                ),
                Err(e) => Err(plain_error(e.spec_message())),
            }
        }
    }

    /// The state in which `read_chunk` leaves the stream.
    pub open spec fn after_read_chunk(s: StreamView, opened: Option<Seq<u8>>) -> StreamView {
        if s.mode != StreamMode::Read {
            s
        } else {
            let after = after_read(
                crate::archive::stream::ReaderView { stream: s.stream, pending: s.pending },
                opened,
            );
            StreamView { mode: s.mode, stream: after.stream, pending: after.pending }
        }
    }
}

} // verus!
