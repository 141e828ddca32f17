//! The pure parts of the cryptographic layer: hex text, counters and the
//! nonce chain of the secret stream. The primitives themselves are run by the
//! caller.

pub mod crypto_box;
pub mod kx;
pub mod secretstream;
pub mod signing;

use vstd::prelude::*;

verus! {

/// The lower-case hex digit for a value below sixteen.
pub open spec fn hex_digit(value: int) -> char {
    if value == 0 {
        '0'
    } else if value == 1 {
        '1'
    } else if value == 2 {
        '2'
    } else if value == 3 {
        '3'
    } else if value == 4 {
        '4'
    } else if value == 5 {
        '5'
    } else if value == 6 {
        '6'
    } else if value == 7 {
        '7'
    } else if value == 8 {
        '8'
    } else if value == 9 {
        '9'
    } else if value == 10 {
        'a'
    } else if value == 11 {
        'b'
    } else if value == 12 {
        'c'
    } else if value == 13 {
        'd'
    } else if value == 14 {
        'e'
    } else {
        'f'
    }
}

/// The hex text of `data`: two lower-case digits for each byte, the high
/// half first.
pub open spec fn hex(data: Seq<u8>) -> Seq<char> {
    Seq::new(
        2 * data.len(),
        |i: int|
            if i % 2 == 0 {
                hex_digit(data[i / 2] as int / 16)
            } else {
                hex_digit(data[i / 2] as int % 16)
            },
    )
}

/// The lower-case hex digit for `value`, which is below sixteen.
fn digit(value: u8) -> (res: char)
    requires
        value < 16,
    ensures
        res == hex_digit(value as int),
{
    if value == 0 {
        '0'
    } else if value == 1 {
        '1'
    } else if value == 2 {
        '2'
    } else if value == 3 {
        '3'
    } else if value == 4 {
        '4'
    } else if value == 5 {
        '5'
    } else if value == 6 {
        '6'
    } else if value == 7 {
        '7'
    } else if value == 8 {
        '8'
    } else if value == 9 {
        '9'
    } else if value == 10 {
        'a'
    } else if value == 11 {
        'b'
    } else if value == 12 {
        'c'
    } else if value == 13 {
        'd'
    } else if value == 14 {
        'e'
    } else {
        'f'
    }
}

/// The hex text of `data`.
pub fn to_hex(data: &[u8]) -> (res: String)
    ensures
        res@ == hex(data@),
{
    let mut res = String::new();
    let mut i: usize = 0;
    while i < data.len()
        invariant
            i <= data@.len(),
            res@.len() == 2 * i,
            forall|k: int| 0 <= k < 2 * i ==> res@[k] == hex(data@)[k],
        decreases data@.len() - i,
    {
        let byte = data[i];
        res.push(digit(byte / 16));
        res.push(digit(byte % 16));
        i += 1;
    }
    assert(res@ =~= hex(data@));
    res
}

/// `number` plus one, where `number` is a number of any length with its least
/// significant byte first; the carry out of the last byte is dropped.
pub open spec fn incremented(number: Seq<u8>) -> Seq<u8>
    decreases number.len(),
{
    if number.len() == 0 {
        number
    } else if number[0] == 0xff {
        seq![0u8] + incremented(number.drop_first())
    } else {
        number.update(0, (number[0] + 1) as u8)
    }
}

/// The value of a number that is written with its least significant byte
/// first.
pub open spec fn le_value(number: Seq<u8>) -> nat
    decreases number.len(),
{
    if number.len() == 0 {
        0
    } else {
        number[0] as nat + 256 * le_value(number.drop_first())
    }
}

/// The number of values that `len` bytes can spell.
pub open spec fn le_limit(len: nat) -> nat
    decreases len,
{
    if len == 0 {
        1
    } else {
        256 * le_limit((len - 1) as nat)
    }
}

/// Adds one to the number in `number`, whose least significant byte comes
/// first. A number that is all ones becomes zero.
pub fn increment(number: &mut [u8])
    ensures
        final(number)@ == incremented(old(number)@),
{
    let ghost before = number@;
    let mut i: usize = 0;
    let mut carry: bool = true;
    assert(before.skip(0) =~= before);
    assert(number@.take(0) + incremented(before) =~= incremented(before));
    while i < number.len() && carry
        invariant
            i <= number@.len(),
            number@.len() == before.len(),
            carry ==> forall|k: int| 0 <= k < i ==> before[k] == 0xff,
            carry ==> number@.skip(i as int) == before.skip(i as int),
            carry ==> incremented(before) == number@.take(i as int) + incremented(
                before.skip(i as int),
            ),
            !carry ==> number@ == incremented(before),
        decreases number@.len() - i + if carry { 1int } else { 0int },
    {
        let ghost rest = before.skip(i as int);
        assert(rest.len() > 0 && rest[0] == before[i as int] && number@[i as int] == rest[0]);
        let ghost prefix = number@.take(i as int);
        if number[i] == 0xff {
            number[i] = 0;
            assert(rest.drop_first() =~= before.skip(i + 1));
            assert(number@.take(i + 1) =~= prefix + seq![0u8]);
            assert(number@.skip(i + 1) =~= before.skip(i + 1));
            assert(incremented(before) =~= number@.take(i + 1) + incremented(
                before.skip(i + 1),
            ));
        } else {
            number[i] = number[i] + 1;
            carry = false;
            assert(number@ =~= prefix + rest.update(0, (rest[0] + 1) as u8));
        }
        i += 1;
    }
    proof {
        if carry {
            assert(before.skip(i as int).len() == 0);
            assert(number@.take(i as int) =~= number@);
            assert(number@ =~= incremented(before));
        }
    }
}

/// Incrementing adds one to the value of a number, modulo the number of
/// values that its bytes can spell, and keeps its length.
pub proof fn lemma_incremented_value(number: Seq<u8>)
    ensures
        incremented(number).len() == number.len(),
        le_value(number) < le_limit(number.len()),
        le_value(incremented(number)) == (le_value(number) + 1) as int % le_limit(number.len()) as int,
    decreases number.len(),
{
    if number.len() == 0 {
    } else {
        let rest = number.drop_first();
        lemma_incremented_value(rest);
        let limit = le_limit(rest.len()) as int;
        let v = le_value(rest) as int;
        if number[0] == 0xff {
            let next = seq![0u8] + incremented(rest);
            assert(next.drop_first() =~= incremented(rest));
            assert(next[0] == 0);
            let w = le_value(incremented(rest)) as int;
            assert(w == (v + 1) % limit);
            if v + 1 < limit {
                assert((v + 1) % limit == v + 1) by (nonlinear_arith)
                    requires
                        0 <= v + 1 < limit,
                ;
                assert((256 * v + 256) % (256 * limit) == 256 * v + 256) by (nonlinear_arith)
                    requires
                        0 <= v + 1 < limit,
                ;
            } else {
                assert((v + 1) % limit == 0) by (nonlinear_arith)
                    requires
                        v + 1 == limit,
                        limit > 0,
                ;
                assert((256 * v + 256) % (256 * limit) == 0) by (nonlinear_arith)
                    requires
                        v + 1 == limit,
                        limit > 0,
                ;
            }
        } else {
            let next = number.update(0, (number[0] + 1) as u8);
            assert(next.drop_first() =~= rest);
            let total = number[0] as int + 1 + 256 * v;
            assert(total % (256 * limit) == total) by (nonlinear_arith)
                requires
                    0 <= total < 256 * limit,
            ;
        }
    }
}

} // verus!
