//! The ways in which reading or writing an archive can fail.

use vstd::prelude::*;

verus! {

/// The kind of a failure.
#[derive(Clone, Copy, Debug, PartialEq, Eq, Structural)]
pub enum ArchiveError {
    /// The underlying source or sink failed.
    Io,
    /// A frame did not authenticate.
    Auth,
    /// A chunk arrived at a position where its kind is not allowed.
    Framing,
    /// A header or an info record is unreadable or out of range.
    Format,
    /// The key could not be derived from the password.
    Kdf,
    /// The content of an object does not have the hash that its epilogue
    /// records.
    Integrity,
    /// The compression codec reported a failure.
    Compression,
    /// The source ended where more bytes were expected.
    Truncation,
    /// The next volume is missing or its name is not that of a volume.
    Volume,
    /// An input object is neither a regular file nor a directory.
    UnsupportedObject,
    /// A count has reached the largest number that it can hold.
    Exhausted,
}

impl ArchiveError {
    /// Whether a stream that has met this failure may never be used again:
    /// so it is after a record that did not authenticate, a chunk out of
    /// place, a source that ended early, and a volume that cannot be had.
    pub open spec fn spec_is_fatal(self) -> bool {
        self == ArchiveError::Auth || self == ArchiveError::Framing || self
            == ArchiveError::Truncation || self == ArchiveError::Volume
    }

    /// Whether a stream that has met this failure may never be used again.
    #[verifier::when_used_as_spec(spec_is_fatal)]
    pub fn is_fatal(self) -> (res: bool)
        ensures
            res == self.spec_is_fatal(),
    {
        match self {
            ArchiveError::Auth | ArchiveError::Framing | ArchiveError::Truncation
            | ArchiveError::Volume => true,
            _ => false,
        }
    }

    /// A short description of the failure.
    pub fn message(self) -> (res: &'static str)
        ensures
            res@ == self.spec_message(),
    {
        match self {
            ArchiveError::Io => "input or output failed",
            ArchiveError::Auth => "a frame failed authentication",
            ArchiveError::Framing => "a chunk arrived out of place",
            ArchiveError::Format => "the header or a frame is malformed",
            ArchiveError::Kdf => "the key could not be derived",
            ArchiveError::Integrity => "the content hash does not match",
            ArchiveError::Compression => "the codec failed",
            ArchiveError::Truncation => "the archive ends too early",
            ArchiveError::Volume => "the next volume cannot be used",
            ArchiveError::UnsupportedObject => "unexpected object type",
            ArchiveError::Exhausted => "a count has run out",
        }
    }

    /// The text that `message` returns.
    pub open spec fn spec_message(self) -> Seq<char> {
        match self {
            ArchiveError::Io => "input or output failed"@,
            ArchiveError::Auth => "a frame failed authentication"@,
            ArchiveError::Framing => "a chunk arrived out of place"@,
            ArchiveError::Format => "the header or a frame is malformed"@,
            ArchiveError::Kdf => "the key could not be derived"@,
            ArchiveError::Integrity => "the content hash does not match"@,
            ArchiveError::Compression => "the codec failed"@,
            ArchiveError::Truncation => "the archive ends too early"@,
            ArchiveError::Volume => "the next volume cannot be used"@,
            ArchiveError::UnsupportedObject => "unexpected object type"@,
            ArchiveError::Exhausted => "a count has run out"@,
        }
    }
}

} // verus!
