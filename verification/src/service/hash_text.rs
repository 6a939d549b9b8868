//! Reading an encoded password hash before it is handed on: how many lanes
//! it asks for.
//!
//! An encoded hash names its parameters as `m=`, `t=` and `p=`, each followed
//! by a number in decimal. Wherever the text has `p=`, the digits that follow
//! must not write a number above [`MAX_PARALLELISM`].

use vstd::prelude::*;
use vstd::utf8::encode_utf8;

verus! {

/// The largest number of lanes in which a password is hashed.
pub const MAX_PARALLELISM: u32 = 0xFF_FFFF;

/// The byte is a decimal digit.
pub open spec fn is_digit(byte: u8) -> bool {
    0x30 <= byte <= 0x39
}

/// Every byte from `from` up to `to` is a decimal digit.
pub open spec fn digits_between(bytes: Seq<u8>, from: int, to: int) -> bool {
    forall|k: int| from <= k < to ==> is_digit(#[trigger] bytes[k])
}

/// The number that the digits from `from` up to `to` write in decimal.
pub open spec fn number(bytes: Seq<u8>, from: int, to: int) -> nat
    decreases to - from,
{
    if to <= from {
        0
    } else {
        number(bytes, from, to - 1) * 10 + (bytes[to - 1] - 0x30) as nat
    }
}

/// The text has `p=` at this place.
pub open spec fn names_parallelism(bytes: Seq<u8>, at: int) -> bool {
    &&& 0 <= at
    &&& at + 1 < bytes.len()
    &&& bytes[at] == 0x70
    &&& bytes[at + 1] == 0x3d
}

/// The digits from `start` on write no number above [`MAX_PARALLELISM`],
/// however many of them are read.
pub open spec fn bounded_from(bytes: Seq<u8>, start: int) -> bool {
    forall|to: int|
        start <= to <= bytes.len() && digits_between(bytes, start, to) ==> #[trigger] number(
            bytes,
            start,
            to,
        ) <= MAX_PARALLELISM
}

/// Wherever the text has `p=`, the number that follows is not above
/// [`MAX_PARALLELISM`].
pub open spec fn parallelism_is_bounded(bytes: Seq<u8>) -> bool {
    forall|at: int| #[trigger] names_parallelism(bytes, at) ==> bounded_from(bytes, at + 2)
}

/// The encoded hash asks for no more lanes than [`MAX_PARALLELISM`].
pub open spec fn asks_bounded_parallelism(encoded: Seq<char>) -> bool {
    parallelism_is_bounded(encode_utf8(encoded))
}

/// Whether the digits from `start` on write no number above
/// [`MAX_PARALLELISM`].
fn digits_are_bounded(bytes: &[u8], start: usize) -> (bounded: bool)
    requires
        start <= bytes@.len(),
    ensures
        bounded == bounded_from(bytes@, start as int),
{
    let mut to: usize = start;
    let mut value: u32 = 0;
    while to < bytes.len()
        invariant
            start <= to <= bytes@.len(),
            digits_between(bytes@, start as int, to as int),
            value == number(bytes@, start as int, to as int),
            value <= MAX_PARALLELISM,
            forall|t: int|
                start <= t <= to && digits_between(bytes@, start as int, t) ==> #[trigger] number(
                    bytes@,
                    start as int,
                    t,
                ) <= MAX_PARALLELISM,
        decreases bytes.len() - to,
    {
        let byte = bytes[to];
        if byte < 0x30 || byte > 0x39 {
            proof {
                assert forall|t: int|
                    start <= t <= bytes@.len() && digits_between(
                        bytes@,
                        start as int,
                        t,
                    ) implies #[trigger] number(bytes@, start as int, t) <= MAX_PARALLELISM by {
                    if t > to {
                        assert(!is_digit(bytes@[to as int]));
                    }
                }
            }
            return true;
        }
        let next: u32 = value * 10 + (byte - 0x30) as u32;
        proof {
            assert(digits_between(bytes@, start as int, to + 1));
            assert(next == number(bytes@, start as int, to + 1));
        }
        if next > MAX_PARALLELISM {
            return false;
        }
        value = next;
        to += 1;
    }
    true
}

/// Whether the encoded hash asks for no more lanes than
/// [`MAX_PARALLELISM`]: wherever it has `p=`, the number that follows is not
/// above it.
pub fn hash_asks_bounded_parallelism(encoded: &str) -> (bounded: bool)
    ensures
        bounded == asks_bounded_parallelism(encoded@),
{
    let bytes = encoded.as_bytes();
    let mut at: usize = 0;
    while at < bytes.len()
        invariant
            at <= bytes@.len(),
            bytes@ == encode_utf8(encoded@),
            forall|k: int|
                0 <= k < at && #[trigger] names_parallelism(bytes@, k) ==> bounded_from(
                    bytes@,
                    k + 2,
                ),
        decreases bytes.len() - at,
    {
        if bytes.len() - at >= 2 && bytes[at] == 0x70 && bytes[at + 1] == 0x3d {
            assert(names_parallelism(bytes@, at as int));
            if !digits_are_bounded(bytes, at + 2) {
                return false;
            }
        }
        at += 1;
    }
    true
}

} // verus!
