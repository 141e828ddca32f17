//! Big-endian integers on the wire.

use byteorder::{BigEndian, ByteOrder};
use vstd::prelude::*;

verus! {

/// The four bytes of `n`, most significant first.
pub open spec fn be32(n: u32) -> Seq<u8> {
    seq![
        (n / 0x100_0000) as u8,
        ((n / 0x1_0000) % 0x100) as u8,
        ((n / 0x100) % 0x100) as u8,
        (n % 0x100) as u8,
    ]
}

/// The number that the first four bytes of `bytes` spell, most significant
/// first.
pub open spec fn be32_value(bytes: Seq<u8>) -> int
    recommends
        bytes.len() >= 4,
{
    bytes[0] * 0x100_0000 + bytes[1] * 0x1_0000 + bytes[2] * 0x100 + bytes[3]
}

/// The eight bytes of `n`, most significant first.
#[verifier::opaque]
pub open spec fn be64(n: u64) -> Seq<u8> {
    be32((n / 0x1_0000_0000) as u32) + be32((n % 0x1_0000_0000) as u32)
}

/// The number that the first eight bytes of `bytes` spell, most significant
/// first.
#[verifier::opaque]
pub open spec fn be64_value(bytes: Seq<u8>) -> int
    recommends
        bytes.len() >= 8,
{
    be32_value(bytes) * 0x1_0000_0000 + be32_value(bytes.skip(4))
}

/// Reading back the bytes of a 32-bit number gives the number.
pub proof fn lemma_be32_round_trip(n: u32)
    ensures
        be32(n).len() == 4,
        be32_value(be32(n)) == n,
{
}

/// The bytes of the number that four bytes spell are those four bytes.
pub proof fn lemma_be32_of_value(bytes: Seq<u8>)
    requires
        bytes.len() >= 4,
    ensures
        0 <= be32_value(bytes) <= u32::MAX,
        be32(be32_value(bytes) as u32) == bytes.take(4),
{
    let a = bytes[0] as int;
    let b = bytes[1] as int;
    let c = bytes[2] as int;
    let d = bytes[3] as int;
    let v = a * 0x100_0000 + b * 0x1_0000 + c * 0x100 + d;
    assert(v == be32_value(bytes));
    assert(v % 0x100 == d);
    assert(v / 0x100 == a * 0x1_0000 + b * 0x100 + c);
    assert((v / 0x100) % 0x100 == c);
    assert(v / 0x1_0000 == a * 0x100 + b);
    assert((v / 0x1_0000) % 0x100 == b);
    assert(v / 0x100_0000 == a);
    assert(be32(v as u32) =~= bytes.take(4));
}

/// Reading back the bytes of a 64-bit number gives the number.
pub proof fn lemma_be64_round_trip(n: u64)
    ensures
        be64(n).len() == 8,
        be64_value(be64(n)) == n,
{
    reveal(be64);
    reveal(be64_value);
    let hi = (n / 0x1_0000_0000) as u32;
    let lo = (n % 0x1_0000_0000) as u32;
    lemma_be32_round_trip(hi);
    lemma_be32_round_trip(lo);
    assert(be64(n).skip(4) =~= be32(lo));
    assert(be32_value(be64(n)) == be32_value(be32(hi)));
}

/// The bytes of the number that eight bytes spell are those eight bytes.
pub proof fn lemma_be64_of_value(bytes: Seq<u8>)
    requires
        bytes.len() >= 8,
    ensures
        0 <= be64_value(bytes) <= u64::MAX,
        be64(be64_value(bytes) as u64) == bytes.take(8),
{
    reveal(be64);
    reveal(be64_value);
    lemma_be32_of_value(bytes);
    lemma_be32_of_value(bytes.skip(4));
    let hi = be32_value(bytes);
    let lo = be32_value(bytes.skip(4));
    let v = hi * 0x1_0000_0000 + lo;
    assert(v / 0x1_0000_0000 == hi && v % 0x1_0000_0000 == lo) by {
        assert(0 <= hi <= 0xffff_ffff && 0 <= lo <= 0xffff_ffff);
    }
    assert(be64(v as u64) == be32(hi as u32) + be32(lo as u32));
    assert(bytes.take(4) + bytes.skip(4).take(4) =~= bytes.take(8));
}

/// `byteorder::BigEndian::write_u32`: overwrites the first four bytes of `buf`
/// with `n`, most significant byte first, and leaves the rest alone. The call
/// panics on a shorter slice, which the precondition excludes.
#[verifier::external_body]
pub(crate) fn write_u32(buf: &mut [u8], n: u32)
    requires
        old(buf)@.len() >= 4,
    ensures
        final(buf)@ == be32(n) + old(buf)@.skip(4),
{
    BigEndian::write_u32(buf, n)
}

/// `byteorder::BigEndian::read_u32`: the number that the first four bytes of
/// `buf` spell, most significant byte first. The call panics on a shorter
/// slice, which the precondition excludes.
#[verifier::external_body]
pub(crate) fn read_u32(buf: &[u8]) -> (n: u32)
    requires
        buf@.len() >= 4,
    ensures
        n == be32_value(buf@),
{
    BigEndian::read_u32(buf)
}

/// `byteorder::BigEndian::write_u64`: overwrites the first eight bytes of
/// `buf` with `n`, most significant byte first, and leaves the rest alone. The
/// call panics on a shorter slice, which the precondition excludes.
#[verifier::external_body]
pub(crate) fn write_u64(buf: &mut [u8], n: u64)
    requires
        old(buf)@.len() >= 8,
    ensures
        final(buf)@ == be64(n) + old(buf)@.skip(8),
{
    BigEndian::write_u64(buf, n)
}

/// `byteorder::BigEndian::read_u64`: the number that the first eight bytes of
/// `buf` spell, most significant byte first. The call panics on a shorter
/// slice, which the precondition excludes.
#[verifier::external_body]
pub(crate) fn read_u64(buf: &[u8]) -> (n: u64)
    requires
        buf@.len() >= 8,
    ensures
        n == be64_value(buf@),
{
    BigEndian::read_u64(buf)
}

} // verus!
