//! Volumes: the files that a split archive consists of, how they are named,
//! and when a writer moves on to the next one.

use crate::archive::error::ArchiveError;
use crate::archive::frame::{chunk_bytes, INFO_FRAME_BYTES};
use crate::sodium::secretstream::ADDITIONAL_BYTES;
use crate::text::{decimal, decimal3, lemma_decimal_value, push_decimal3, str_eq};
use vstd::prelude::*;
use vstd::string::*;

verus! {

/// The room that a writer keeps for the chunk that ends a volume.
pub const VOLUME_END_ALLOWANCE: usize = 1024;

/// The room that a writer leaves unused at the end of a volume.
pub const SAFETY_MARGIN: u64 = 4096;

/// The number of bytes that the chunk that ends a volume takes on disk: it
/// has no payload.
pub const VOLUME_END_BYTES: u64 = 37;

/// The number of bytes that a writer sets aside, beside the safety margin,
/// before it lets a chunk into a volume: the size of a chunk that carries
/// `VOLUME_END_ALLOWANCE` bytes.
pub open spec fn slack() -> int {
    INFO_FRAME_BYTES + VOLUME_END_ALLOWANCE + ADDITIONAL_BYTES
}

/// Whether a writer, with `byte_count` bytes in the current volume, closes
/// the volume before it writes a chunk with a payload of `payload_len` bytes.
/// A writer that does not split its archive never does.
pub open spec fn must_rotate(volume_size: Option<u64>, byte_count: int, payload_len: int) -> bool {
    match volume_size {
        None => false,
        Some(limit) => byte_count + chunk_bytes(payload_len) + slack() > limit - SAFETY_MARGIN,
    }
}

/// The number of bytes in the current volume after a chunk with a payload of
/// `payload_len` bytes has been written.
pub open spec fn byte_count_after(volume_size: Option<u64>, byte_count: int, payload_len: int) -> int {
    if must_rotate(volume_size, byte_count, payload_len) {
        chunk_bytes(payload_len)
    } else {
        byte_count + chunk_bytes(payload_len)
    }
}

/// The sizes on disk of the volumes that a writer closes, in order, while it
/// writes chunks whose payloads have the lengths `payloads`, starting with
/// `byte_count` bytes in the current volume.
pub open spec fn closed_volumes(limit: u64, byte_count: int, payloads: Seq<nat>) -> Seq<int>
    decreases payloads.len(),
{
    if payloads.len() == 0 {
        Seq::empty()
    } else if must_rotate(Some(limit), byte_count, payloads[0] as int) {
        seq![byte_count + VOLUME_END_BYTES] + closed_volumes(
            limit,
            chunk_bytes(payloads[0] as int),
            payloads.drop_first(),
        )
    } else {
        closed_volumes(limit, byte_count + chunk_bytes(payloads[0] as int), payloads.drop_first())
    }
}

/// No closed volume is larger than the configured size, provided that the
/// bytes that are in the first volume at the start leave room for the chunk
/// that ends it, and that every chunk but the last fits into a volume
/// together with the chunk that ends the volume.
pub proof fn lemma_volume_budget(limit: u64, byte_count: int, payloads: Seq<nat>)
    requires
        0 <= byte_count,
        payloads.len() > 0 ==> byte_count + VOLUME_END_BYTES <= limit,
        forall|i: int|
            0 <= i < payloads.len() - 1 ==> chunk_bytes(#[trigger] payloads[i] as int)
                + VOLUME_END_BYTES <= limit,
    ensures
        forall|k: int|
            0 <= k < closed_volumes(limit, byte_count, payloads).len() ==> #[trigger] closed_volumes(
                limit,
                byte_count,
                payloads,
            )[k] <= limit,
    decreases payloads.len(),
{
    if payloads.len() > 0 {
        let rest = payloads.drop_first();
        let next = byte_count_after(Some(limit), byte_count, payloads[0] as int);
        assert forall|i: int| 0 <= i < rest.len() - 1 implies chunk_bytes(
            #[trigger] rest[i] as int,
        ) + VOLUME_END_BYTES <= limit by {
            assert(rest[i] == payloads[i + 1]);
        }
        if rest.len() > 0 {
            assert(chunk_bytes(payloads[0] as int) + VOLUME_END_BYTES <= limit);
        }
        lemma_volume_budget(limit, next, rest);
        let all = closed_volumes(limit, byte_count, payloads);
        let tail = closed_volumes(limit, next, rest);
        assert forall|k: int| 0 <= k < all.len() implies #[trigger] all[k] <= limit by {
            if must_rotate(Some(limit), byte_count, payloads[0] as int) {
                assert(all =~= seq![byte_count + VOLUME_END_BYTES] + tail);
                if k > 0 {
                    assert(all[k] == tail[k - 1]);
                }
            } else {
                assert(all =~= tail);
            }
        }
    }
}

/// The suffix of the name of a volume: a dot and the number of the volume
/// with at least three digits.
pub open spec fn volume_suffix(counter: nat) -> Seq<char> {
    seq!['.'] + decimal3(counter)
}

/// The name of the file of volume `counter` of the archive whose file name is
/// `name`.
pub open spec fn volume_name(name: Seq<char>, counter: nat) -> Seq<char> {
    name + volume_suffix(counter)
}

/// Whether `name` is the name of the file of a first volume.
pub open spec fn is_first_volume_name(name: Seq<char>) -> bool {
    name.len() >= 4 && name.skip(name.len() - 4) == seq!['.', '0', '0', '1']
}

/// The name of the file of volume `counter` beside the first volume, whose
/// file is named `first`.
pub open spec fn sibling_name(first: Seq<char>, counter: nat) -> Seq<char> {
    first.take(first.len() - 4) + volume_suffix(counter)
}

/// The name of the file of volume `volume_counter` of the archive whose file
/// name is `name`.
pub fn volume_file_name(name: &str, volume_counter: u64) -> (res: String)
    ensures
        res@ == volume_name(name@, volume_counter as nat),
{
    let mut res = String::from_str(name);
    res.push('.');
    push_decimal3(&mut res, volume_counter);
    assert(res@ =~= volume_name(name@, volume_counter as nat));
    res
}

/// The name of the file of volume `volume_counter`, derived from the name of
/// the file of the first volume. A name that does not end in `.001` is not
/// the name of a first volume and is a volume error.
pub fn next_volume_file_name(first: &str, volume_counter: u64) -> (res: Result<
    String,
    ArchiveError,
>)
    ensures
        res is Ok <==> is_first_volume_name(first@),
        res matches Ok(name) ==> name@ == sibling_name(first@, volume_counter as nat),
        res matches Err(e) ==> e == ArchiveError::Volume,
{
    let len = first.unicode_len();
    if len < 4 {
        return Err(ArchiveError::Volume);
    }
    let tail = first.substring_char(len - 4, len);
    proof {
        reveal_strlit(".001");
        assert(".001"@ =~= seq!['.', '0', '0', '1']);
        assert(first@.subrange(len - 4, len as int) =~= first@.skip(first@.len() - 4));
    }
    if !str_eq(tail, ".001") {
        return Err(ArchiveError::Volume);
    }
    let mut res = String::from_str(first.substring_char(0, len - 4));
    res.push('.');
    push_decimal3(&mut res, volume_counter);
    assert(res@ =~= sibling_name(first@, volume_counter as nat));
    Ok(res)
}

/// The name that a writer gives to its first volume is the name of a first
/// volume, and the names that a reader derives from it are the names that the
/// writer gives to the volumes that follow.
pub proof fn lemma_volume_names_agree(name: Seq<char>, counter: nat)
    ensures
        is_first_volume_name(volume_name(name, 1)),
        sibling_name(volume_name(name, 1), counter) == volume_name(name, counter),
{
    let first = volume_name(name, 1);
    assert(decimal3(1) =~= seq!['0', '0', '1']);
    assert(first =~= name + seq!['.', '0', '0', '1']);
    assert(first.skip(first.len() - 4) =~= seq!['.', '0', '0', '1']);
    assert(first.take(first.len() - 4) =~= name);
}

/// Two volumes of one archive with different numbers have different names.
pub proof fn lemma_volume_names_differ(name: Seq<char>, i: nat, j: nat)
    requires
        i != j,
    ensures
        volume_name(name, i) != volume_name(name, j),
{
    lemma_decimal3_value(i);
    lemma_decimal3_value(j);
    if volume_name(name, i) == volume_name(name, j) {
        assert(volume_name(name, i).skip(name.len() as int + 1) =~= decimal3(i));
        assert(volume_name(name, j).skip(name.len() as int + 1) =~= decimal3(j));
    }
}

/// The digits of a volume's number, with their leading zeros, spell that
/// number.
proof fn lemma_decimal3_value(n: nat)
    ensures
        crate::text::decimal_value(decimal3(n)) == n,
{
    lemma_decimal_value(n);
    crate::text::lemma_leading_zero(decimal(n));
    crate::text::lemma_leading_zero(seq!['0'] + decimal(n));
    assert(seq!['0'] + (seq!['0'] + decimal(n)) =~= seq!['0', '0'] + decimal(n));
}

} // verus!
