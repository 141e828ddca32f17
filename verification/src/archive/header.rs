//! The prefix of the first volume: what a reader needs to derive the key and
//! to open the stream.

use crate::archive::error::ArchiveError;
use crate::endian::{be64, be64_value, lemma_be64_of_value, lemma_be64_round_trip, read_u64, write_u64};
use crate::sodium::secretstream::HEADER_BYTES;
use vstd::prelude::*;
use vstd::slice::{slice_subrange, slice_to_vec};

verus! {

/// The length of the salt of the key derivation.
pub const SALT_BYTES: usize = 16;

/// The iteration cost with which a writer derives its key.
pub const OPSLIMIT: u64 = 3;

/// The memory cost with which a writer derives its key.
pub const MEMLIMIT: usize = 1024 * 1024 * 1024;

/// The length of the prefix of the first volume.
pub const FORMAT_HEADER_BYTES: usize = 56;

/// The prefix of the first volume, as plain values.
pub struct FormatView {
    /// The salt of the key derivation.
    pub salt: Seq<u8>,
    /// The iteration cost of the key derivation.
    pub opslimit: u64,
    /// The memory cost of the key derivation.
    pub memlimit: u64,
    /// The public header of the secret stream.
    pub stream_header: Seq<u8>,
}

/// The prefix of the first volume.
#[derive(Debug)]
pub struct FormatHeader {
    /// The salt of the key derivation.
    pub salt: Vec<u8>,
    /// The iteration cost of the key derivation.
    pub opslimit: u64,
    /// The memory cost of the key derivation.
    pub memlimit: u64,
    /// The public header of the secret stream.
    pub stream_header: Vec<u8>,
}

impl View for FormatHeader {
    type V = FormatView;

    open spec fn view(&self) -> FormatView {
        FormatView {
            salt: self.salt@,
            opslimit: self.opslimit,
            memlimit: self.memlimit,
            stream_header: self.stream_header@,
        }
    }
}

/// Whether salt and stream header have their lengths.
pub open spec fn well_formed(format: FormatView) -> bool {
    format.salt.len() == SALT_BYTES && format.stream_header.len() == HEADER_BYTES
}

/// The bytes of a prefix: the salt, the two costs as eight bytes each, most
/// significant first, and the stream header.
pub open spec fn format_bytes(format: FormatView) -> Seq<u8> {
    format.salt + be64(format.opslimit) + be64(format.memlimit) + format.stream_header
}

/// What the first `FORMAT_HEADER_BYTES` bytes of a volume say.
pub open spec fn parse_format(bytes: Seq<u8>) -> FormatView
    recommends
        bytes.len() >= FORMAT_HEADER_BYTES,
{
    FormatView {
        salt: bytes.subrange(0, 16),
        opslimit: be64_value(bytes.subrange(16, 24)) as u64,
        memlimit: be64_value(bytes.subrange(24, 32)) as u64,
        stream_header: bytes.subrange(32, 56),
    }
}

impl FormatHeader {
    /// The bytes of the prefix. A salt or a stream header of another length
    /// than `SALT_BYTES` and `HEADER_BYTES` is a format error.
    pub fn encode(&self) -> (res: Result<Vec<u8>, ArchiveError>)
        ensures
            res is Ok <==> well_formed(self@),
            res matches Ok(bytes) ==> bytes@ == format_bytes(self@) && bytes@.len()
                == FORMAT_HEADER_BYTES,
            res matches Err(e) ==> e == ArchiveError::Format,
    {
        if self.salt.len() != SALT_BYTES || self.stream_header.len() != HEADER_BYTES {
            return Err(ArchiveError::Format);
        }
        let mut ops: Vec<u8> = vec![0u8; 8];
        write_u64(ops.as_mut_slice(), self.opslimit);
        let mut mem: Vec<u8> = vec![0u8; 8];
        write_u64(mem.as_mut_slice(), self.memlimit);
        let mut bytes: Vec<u8> = Vec::with_capacity(FORMAT_HEADER_BYTES);
        bytes.extend_from_slice(self.salt.as_slice());
        bytes.extend_from_slice(ops.as_slice());
        bytes.extend_from_slice(mem.as_slice());
        bytes.extend_from_slice(self.stream_header.as_slice());
        proof {
            lemma_be64_round_trip(self.opslimit);
            lemma_be64_round_trip(self.memlimit);
            assert(ops@ =~= be64(self.opslimit));
            assert(mem@ =~= be64(self.memlimit));
        }
        Ok(bytes)
    }

    /// Reads the prefix from the first `FORMAT_HEADER_BYTES` bytes of `bytes`.
    /// Fewer bytes are a truncation error.
    pub fn parse(bytes: &[u8]) -> (res: Result<FormatHeader, ArchiveError>)
        ensures
            res is Ok <==> bytes@.len() >= FORMAT_HEADER_BYTES,
            res matches Ok(format) ==> format@ == parse_format(bytes@) && well_formed(format@),
            res matches Err(e) ==> e == ArchiveError::Truncation,
    {
        if bytes.len() < FORMAT_HEADER_BYTES {
            return Err(ArchiveError::Truncation);
        }
        let salt = slice_to_vec(slice_subrange(bytes, 0, 16));
        let opslimit = read_u64(slice_subrange(bytes, 16, 24));
        let memlimit = read_u64(slice_subrange(bytes, 24, 32));
        let stream_header = slice_to_vec(slice_subrange(bytes, 32, 56));
        Ok(FormatHeader { salt, opslimit, memlimit, stream_header })
    }
}

/// The bytes of a well-formed prefix read back as that prefix.
pub proof fn lemma_format_round_trip(format: FormatView)
    requires
        well_formed(format),
    ensures
        format_bytes(format).len() == FORMAT_HEADER_BYTES,
        parse_format(format_bytes(format)) == format,
{
    let bytes = format_bytes(format);
    lemma_be64_round_trip(format.opslimit);
    lemma_be64_round_trip(format.memlimit);
    assert(bytes.subrange(0, 16) =~= format.salt);
    assert(bytes.subrange(16, 24) =~= be64(format.opslimit));
    assert(bytes.subrange(24, 32) =~= be64(format.memlimit));
    assert(bytes.subrange(32, 56) =~= format.stream_header);
}

/// The first `FORMAT_HEADER_BYTES` bytes of a volume are the bytes of the
/// prefix that they say.
pub proof fn lemma_format_unique(bytes: Seq<u8>)
    requires
        bytes.len() >= FORMAT_HEADER_BYTES,
    ensures
        format_bytes(parse_format(bytes)) == bytes.take(FORMAT_HEADER_BYTES as int),
{
    lemma_be64_of_value(bytes.subrange(16, 24));
    lemma_be64_of_value(bytes.subrange(24, 32));
    assert(bytes.subrange(16, 24).take(8) =~= bytes.subrange(16, 24));
    assert(bytes.subrange(24, 32).take(8) =~= bytes.subrange(24, 32));
    assert(format_bytes(parse_format(bytes)) =~= bytes.take(FORMAT_HEADER_BYTES as int));
}

} // verus!
