//! Core of an encrypted, compressed, authenticated archive format.
//!
//! The crate holds the pure logic of the format: the byte buffer that parks
//! decompressed residue, the frame and header codecs, the nonce chain of the
//! secret stream, the chunk state machines of the archive writer and reader and
//! the volume rotation rules. File access, the cryptographic primitives and the
//! compression codec are performed by the caller, which hands their results to
//! the functions of this crate as plain values.

pub mod archive;
pub mod buffer;
pub mod encoding;
pub mod endian;
pub mod errors;
pub mod key;
pub mod keys;
pub mod kyber;
pub mod parsing;
pub mod sodium;
pub mod streams;
pub mod text;
pub mod utils;
