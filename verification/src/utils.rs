//! ASCII digits and the GS1 check digit, on raw bytes.
//!
//! Everything here rests on one stated assumption: the ten decimal digits are
//! the bytes `0x30` (`'0'`) to `0x39` (`'9'`), in order, so that the value of
//! a digit byte `b` is `b - 0x30`.

use vstd::prelude::*;

verus! {

/// The byte that encodes the digit zero.
pub const ZERO: u8 = 0x30;

/// The byte that encodes the digit nine.
pub const NINE: u8 = 0x39;

/// `b` is one of the bytes `'0'` to `'9'`.
pub open spec fn is_digit(b: u8) -> bool {
    ZERO <= b <= NINE
}

/// The number that a digit byte stands for.
pub open spec fn digit_value(b: u8) -> int {
    b - ZERO
}

/// Each of the first `length` bytes is a digit.
pub open spec fn all_digits(bytes: Seq<u8>, length: int) -> bool {
    forall|i: int| 0 <= i < length ==> is_digit(#[trigger] bytes[i])
}

/// Tells whether each of the first `length` bytes is an ASCII digit.
pub fn is_number(bytes: &[u8], length: usize) -> (r: bool)
    requires
        length <= bytes@.len(),
    ensures
        r == all_digits(bytes@, length as int),
{
    let mut i: usize = 0;
    while i < length
        invariant
            i <= length <= bytes@.len(),
            all_digits(bytes@, i as int),
        decreases length - i,
    {
        if bytes[i] < ZERO || bytes[i] > NINE {
            return false;
        }
        i += 1;
    }
    true
}

/// The weight of the digit at position `i` of a code of `length` digits: 3
/// for the digit just before the check digit, then 1 and 3 in turn leftward.
pub open spec fn weight(length: int, i: int) -> int {
    if (length - 2 - i) % 2 == 0 {
        3
    } else {
        1
    }
}

/// The sum of `digit_value * weight` over the first `count` digits of a code
/// of `length` digits.
pub open spec fn weighted_sum(bytes: Seq<u8>, length: int, count: int) -> int
    decreases count,
{
    if count <= 0 {
        0
    } else {
        weighted_sum(bytes, length, count - 1) + digit_value(bytes[count - 1]) * weight(
            length,
            count - 1,
        )
    }
}

/// The GS1 check digit of a code of `length` digits: what its last digit has
/// to be, given the `length - 1` digits before it.
pub open spec fn check_digit(bytes: Seq<u8>, length: int) -> int {
    (10 - weighted_sum(bytes, length, length - 1) % 10) % 10
}

/// The weighted sum reads only the bytes below `count`.
pub proof fn lemma_weighted_sum_agrees(a: Seq<u8>, b: Seq<u8>, length: int, count: int)
    requires
        count <= a.len(),
        count <= b.len(),
        forall|i: int| 0 <= i < count ==> a[i] == b[i],
    ensures
        weighted_sum(a, length, count) == weighted_sum(b, length, count),
    decreases count,
{
    if count > 0 {
        lemma_weighted_sum_agrees(a, b, length, count - 1);
    }
}

/// The check digit is a single digit, and depends only on the `length - 1`
/// bytes before it.
pub proof fn lemma_check_digit_of_payload(a: Seq<u8>, b: Seq<u8>, length: int)
    requires
        length - 1 <= a.len(),
        length - 1 <= b.len(),
        forall|i: int| 0 <= i < length - 1 ==> a[i] == b[i],
    ensures
        check_digit(a, length) == check_digit(b, length),
        0 <= check_digit(a, length) <= 9,
{
    lemma_weighted_sum_agrees(a, b, length, length - 1);
}

/// Computes the check digit that belongs to the first `length - 1` digits of
/// `bytes`. The byte at position `length - 1` is not read.
pub fn compute_check_digit(bytes: &[u8], length: usize) -> (r: u8)
    requires
        1 <= length <= bytes@.len(),
        all_digits(bytes@, length as int),
    ensures
        r as int == check_digit(bytes@, length as int),
        r <= 9,
{
    let payload: usize = length - 1;
    let mut acc: u8 = 0;
    let mut i: usize = 0;
    while i < payload
        invariant
            i <= payload,
            payload == length - 1,
            length <= bytes@.len(),
            all_digits(bytes@, length as int),
            acc as int == weighted_sum(bytes@, length as int, i as int) % 10,
        decreases payload - i,
    {
        assert(is_digit(bytes@[i as int]));
        let value: u8 = bytes[i] - ZERO;
        let term: u8 = if (payload - 1 - i) % 2 == 0 {
            3 * value
        } else {
            value
        };
        assert(term as int == digit_value(bytes@[i as int]) * weight(length as int, i as int));
        acc = (acc + term) % 10;
        i += 1;
    }
    (10 - acc) % 10
}

} // verus!
