//! The archive: a stream of sealed chunks, optionally split into volumes.

pub mod disk;
pub mod error;
pub mod frame;
pub mod header;
pub mod laws;
pub mod object;
pub mod reader;
pub mod stream;
pub mod volume;
pub mod writer;

pub use error::ArchiveError;
pub use frame::ChunkType;
pub use object::Manifest;
pub use reader::ArchiveReader;
pub use writer::ArchiveWriter;
