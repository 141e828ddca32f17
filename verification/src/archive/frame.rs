//! The records of the frame stream: every chunk travels as an info record
//! that names its kind and the length of its sealed payload, followed by the
//! payload record itself.

use crate::archive::error::ArchiveError;
use crate::endian::{be32, be32_value, lemma_be32_of_value, lemma_be32_round_trip, read_u32, write_u32};
use crate::sodium::secretstream::{nonce_at, Direction, SecretStream, StreamState, ADDITIONAL_BYTES};
use vstd::prelude::*;

verus! {

/// The length of an info record before it is sealed.
pub const INFO_BYTES: usize = 5;

/// The length of a sealed info record.
pub const INFO_FRAME_BYTES: usize = 21;

/// The kind of a chunk.
#[derive(Clone, Copy, Debug, PartialEq, Eq, Structural)]
pub enum ChunkType {
    /// Compressed content of the current file.
    Data,
    /// The descriptor that opens an object.
    Header,
    /// The size and hash that close a file.
    Epilogue,
    /// The last chunk of a volume that another volume follows.
    VolumeEnd,
    /// The manifest, the last chunk of the archive.
    End,
}

impl ChunkType {
    /// The number that stands for the kind on the wire.
    pub open spec fn spec_code(self) -> u8 {
        match self {
            ChunkType::Data => 0,
            ChunkType::Header => 1,
            ChunkType::Epilogue => 2,
            ChunkType::VolumeEnd => 3,
            ChunkType::End => 4,
        }
    }

    /// The number that stands for the kind on the wire.
    #[verifier::when_used_as_spec(spec_code)]
    pub fn code(self) -> (res: u8)
        ensures
            res == self.spec_code(),
    {
        match self {
            ChunkType::Data => 0,
            ChunkType::Header => 1,
            ChunkType::Epilogue => 2,
            ChunkType::VolumeEnd => 3,
            ChunkType::End => 4,
        }
    }

    /// The kind that `code` stands for, if it stands for one.
    pub open spec fn of_code(code: u8) -> Option<ChunkType> {
        match code {
            0 => Some(ChunkType::Data),
            1 => Some(ChunkType::Header),
            2 => Some(ChunkType::Epilogue),
            3 => Some(ChunkType::VolumeEnd),
            4 => Some(ChunkType::End),
            _ => None,
        }
    }

    /// The kind that `code` stands for; a number above four stands for none
    /// and is a format error.
    pub fn try_from(code: u8) -> (res: Result<ChunkType, ArchiveError>)
        ensures
            res == match Self::of_code(code) {
                Some(kind) => Ok::<ChunkType, ArchiveError>(kind),
                None => Err(ArchiveError::Format),
            },
    {
        match code {
            0 => Ok(ChunkType::Data),
            1 => Ok(ChunkType::Header),
            2 => Ok(ChunkType::Epilogue),
            3 => Ok(ChunkType::VolumeEnd),
            4 => Ok(ChunkType::End),
            _ => Err(ArchiveError::Format),
        }
    }

    /// Every kind is the kind that its own code stands for, and a code that
    /// stands for a kind is the code of that kind.
    pub proof fn lemma_code_round_trip(kind: ChunkType, code: u8)
        ensures
            Self::of_code(kind.spec_code()) == Some(kind),
            Self::of_code(code) matches Some(k) ==> k.spec_code() == code,
    {
    }
}

/// The length of the sealed payload record of a chunk whose payload has
/// `payload_len` bytes.
pub open spec fn sealed_len(payload_len: int) -> int {
    payload_len + ADDITIONAL_BYTES
}

/// The number of bytes that a chunk with a payload of `payload_len` bytes
/// takes on disk: its sealed info record and its sealed payload record.
pub open spec fn chunk_bytes(payload_len: int) -> int {
    INFO_FRAME_BYTES + sealed_len(payload_len)
}

/// The info record of a chunk: its kind, then the length of its sealed
/// payload as four bytes, most significant first.
pub open spec fn info_record(kind: ChunkType, sealed: u32) -> Seq<u8> {
    seq![kind.spec_code()] + be32(sealed)
}

/// What an info record says, if it is well formed: five bytes, a known kind,
/// and a sealed length that leaves room for what sealing adds.
pub open spec fn parse_info(info: Seq<u8>) -> Option<(ChunkType, u32)> {
    if info.len() != INFO_BYTES {
        None
    } else {
        match ChunkType::of_code(info[0]) {
            None => None,
            Some(kind) => if be32_value(info.skip(1)) < ADDITIONAL_BYTES {
                None
            } else {
                Some((kind, be32_value(info.skip(1)) as u32))
            },
        }
    }
}

/// Builds the info record for a chunk of kind `kind` with a payload of
/// `payload_len` bytes. The sealed payload must have a length that fits in 32
/// bits; a longer payload is a format error.
pub fn encode_info(kind: ChunkType, payload_len: usize) -> (res: Result<Vec<u8>, ArchiveError>)
    ensures
        sealed_len(payload_len as int) <= u32::MAX ==> res is Ok && res->Ok_0@ == info_record(
            kind,
            sealed_len(payload_len as int) as u32,
        ),
        sealed_len(payload_len as int) > u32::MAX ==> res == Err::<Vec<u8>, ArchiveError>(
            ArchiveError::Format,
        ),
{
    if payload_len > 0xffff_ffff - ADDITIONAL_BYTES {
        return Err(ArchiveError::Format);
    }
    let sealed: u32 = (payload_len + ADDITIONAL_BYTES) as u32;
    let mut length: Vec<u8> = vec![0u8; 4];
    write_u32(length.as_mut_slice(), sealed);
    let mut info: Vec<u8> = Vec::with_capacity(INFO_BYTES);
    info.push(kind.code());
    info.extend_from_slice(length.as_slice());
    assert(info@ =~= info_record(kind, sealed));
    Ok(info)
}

/// Reads an info record. Anything but a well-formed record is a format error.
pub fn decode_info(info: &[u8]) -> (res: Result<(ChunkType, u32), ArchiveError>)
    ensures
        res == match parse_info(info@) {
            Some(found) => Ok::<(ChunkType, u32), ArchiveError>(found),
            None => Err(ArchiveError::Format),
        },
{
    if info.len() != INFO_BYTES {
        return Err(ArchiveError::Format);
    }
    let kind = match ChunkType::try_from(info[0]) {
        Ok(kind) => kind,
        Err(e) => {
            return Err(e);
        },
    };
    let sealed: u32 = read_u32(vstd::slice::slice_subrange(info, 1, INFO_BYTES));
    assert(info@.subrange(1, INFO_BYTES as int) =~= info@.skip(1));
    if sealed < ADDITIONAL_BYTES as u32 {
        return Err(ArchiveError::Format);
    }
    Ok((kind, sealed))
}

/// An info record that was built for a chunk reads back as the kind of the
/// chunk and the length of its sealed payload.
pub proof fn lemma_info_round_trip(kind: ChunkType, payload_len: nat)
    requires
        sealed_len(payload_len as int) <= u32::MAX,
    ensures
        parse_info(info_record(kind, sealed_len(payload_len as int) as u32)) == Some(
            (kind, sealed_len(payload_len as int) as u32),
        ),
{
    let sealed = sealed_len(payload_len as int) as u32;
    let info = info_record(kind, sealed);
    lemma_be32_round_trip(sealed);
    assert(info.skip(1) =~= be32(sealed));
    assert(info[0] == kind.spec_code());
}

/// A well-formed info record is the record that is built from what it says.
pub proof fn lemma_info_unique(info: Seq<u8>)
    requires
        parse_info(info) is Some,
    ensures
        info == info_record(parse_info(info)->Some_0.0, parse_info(info)->Some_0.1),
{
    lemma_be32_of_value(info.skip(1));
    let found = parse_info(info)->Some_0;
    assert(info.skip(1).take(4) =~= info.skip(1));
    assert(info =~= info_record(found.0, found.1));
}

/// One chunk on its way to disk, as plain values.
pub struct FrameView {
    /// The info record of the chunk, not yet sealed.
    pub info: Seq<u8>,
    /// The nonce for sealing the info record.
    pub info_nonce: Seq<u8>,
    /// The nonce for sealing the payload of the chunk.
    pub payload_nonce: Seq<u8>,
}

/// One chunk on its way to disk: the caller seals `info` under `info_nonce`
/// and the payload of the chunk under `payload_nonce`, and writes the two
/// sealed records in this order.
#[derive(Debug)]
pub struct FramePlan {
    /// The info record of the chunk, not yet sealed.
    pub info: Vec<u8>,
    /// The nonce for sealing the info record.
    pub info_nonce: Vec<u8>,
    /// The nonce for sealing the payload of the chunk.
    pub payload_nonce: Vec<u8>,
}

impl View for FramePlan {
    type V = FrameView;

    open spec fn view(&self) -> FrameView {
        FrameView {
            info: self.info@,
            info_nonce: self.info_nonce@,
            payload_nonce: self.payload_nonce@,
        }
    }
}

/// The plan for the chunk of kind `kind` with a payload of `payload_len` bytes
/// whose two records are the messages `index` and `index + 1` of the stream
/// with the public header `header`.
pub open spec fn frame_at(header: Seq<u8>, index: nat, kind: ChunkType, payload_len: int) -> FrameView {
    FrameView {
        info: info_record(kind, sealed_len(payload_len) as u32),
        info_nonce: nonce_at(header, index),
        payload_nonce: nonce_at(header, index + 1),
    }
}

/// What `write_frame` returns for a stream in the state `stream`.
pub open spec fn frame_result(stream: StreamState, kind: ChunkType, payload_len: int) -> Result<
    FrameView,
    ArchiveError,
> {
    if sealed_len(payload_len) > u32::MAX {
        Err(ArchiveError::Format)
    } else if stream.dir != Direction::Push {
        Err(ArchiveError::Framing)
    } else if stream.counter + 2 > u64::MAX {
        Err(ArchiveError::Exhausted)
    } else {
        Ok(frame_at(stream.header, stream.counter, kind, payload_len))
    }
}

/// A plan or an error, as plain values.
pub open spec fn frame_view(res: Result<FramePlan, ArchiveError>) -> Result<FrameView, ArchiveError> {
    match res {
        Ok(plan) => Ok(plan@),
        Err(e) => Err(e),
    }
}

/// Takes a chunk of kind `kind` with a payload of `payload_len` bytes into
/// the stream: its info record and its payload record are the next two
/// messages, and the plan says under which nonces the caller has to seal
/// them.
///
/// A payload whose sealed length does not fit in 32 bits is a format error,
/// a stream that opens instead of sealing a framing error, and a stream that
/// cannot count two more messages is exhausted. A failure leaves the stream
/// as it was.
pub fn write_frame(stream: &mut SecretStream, kind: ChunkType, payload_len: usize) -> (res: Result<
    FramePlan,
    ArchiveError,
>)
    ensures
        frame_view(res) == frame_result(old(stream)@, kind, payload_len as int),
        final(stream)@ == (StreamState {
            counter: if res is Ok {
                old(stream)@.counter + 2
            } else {
                old(stream)@.counter
            },
            ..old(stream)@
        }),
{
    let info = match encode_info(kind, payload_len) {
        Ok(info) => info,
        Err(e) => {
            return Err(e);
        },
    };
    match stream.direction() {
        Direction::Push => {},
        Direction::Pull => {
            return Err(ArchiveError::Framing);
        },
    }
    if stream.counter() > u64::MAX - 2 {
        return Err(ArchiveError::Exhausted);
    }
    proof {
        lemma_be32_round_trip(sealed_len(payload_len as int) as u32);
    }
    let info_nonce = stream.push(info.len()).unwrap();
    let payload_nonce = stream.push(payload_len).unwrap();
    Ok(FramePlan { info, info_nonce, payload_nonce })
}

} // verus!
