//! Decimal notation for integers: an optional sign followed by digits.

use vstd::prelude::*;
use vstd::std_specs::iter::IteratorSpec;

verus! {

/// `c` is one of the ten decimal digits `0` to `9`.
pub open spec fn is_digit(c: char) -> bool {
    '0' <= c && c <= '9'
}

/// The number from 0 to 9 that the digit `c` stands for.
pub open spec fn digit_value(c: char) -> nat {
    (c as int - '0' as int) as nat
}

/// A numeral is a run of at least one digit and of nothing else.
pub open spec fn is_numeral(digits: Seq<char>) -> bool {
    &&& digits.len() > 0
    &&& forall|i: int| 0 <= i < digits.len() ==> is_digit(#[trigger] digits[i])
}

/// The number that a run of digits denotes, its last digit counting least.
/// Leading zeros change nothing.
pub open spec fn numeral_value(digits: Seq<char>) -> nat
    decreases digits.len(),
{
    if digits.len() == 0 {
        0
    } else {
        10 * numeral_value(digits.drop_last()) + digit_value(digits.last())
    }
}

/// The number that `digits` denotes where it is a numeral of value at most
/// `limit`, and `None` otherwise.
pub open spec fn numeral_within(digits: Seq<char>, limit: nat) -> Option<nat> {
    if is_numeral(digits) && numeral_value(digits) <= limit {
        Some(numeral_value(digits))
    } else {
        None
    }
}

/// The integer that `text` denotes: a numeral, which may follow a `+` or,
/// where `signed`, a `-`. A sign alone, an empty text, and a text with any
/// other character in it denote nothing.
pub open spec fn decimal(text: Seq<char>, signed: bool) -> Option<int> {
    if text.len() > 0 && text[0] == '+' {
        if is_numeral(text.skip(1)) {
            Some(numeral_value(text.skip(1)) as int)
        } else {
            None
        }
    } else if signed && text.len() > 0 && text[0] == '-' {
        if is_numeral(text.skip(1)) {
            Some(-numeral_value(text.skip(1)))
        } else {
            None
        }
    } else if is_numeral(text) {
        Some(numeral_value(text) as int)
    } else {
        None
    }
}

/// The integer that `text` denotes where it lies from `lo` to `hi`, and
/// `None` where `text` denotes nothing or a number outside that range.
pub open spec fn decimal_within(text: Seq<char>, signed: bool, lo: int, hi: int) -> Option<int> {
    match decimal(text, signed) {
        Some(v) => if lo <= v <= hi {
            Some(v)
        } else {
            None
        },
        None => None,
    }
}

/// Appending a digit multiplies the value by ten and adds the digit.
pub proof fn lemma_numeral_value_push(digits: Seq<char>, c: char)
    ensures
        numeral_value(digits.push(c)) == 10 * numeral_value(digits) + digit_value(c),
{
    assert(digits.push(c).drop_last() =~= digits);
}

/// A run of digits denotes at least what any of its prefixes denotes.
pub proof fn lemma_numeral_value_grows(digits: Seq<char>, n: int)
    requires
        0 <= n <= digits.len(),
    ensures
        numeral_value(digits.take(n)) <= numeral_value(digits),
    decreases digits.len(),
{
    if n == digits.len() {
        assert(digits.take(n) =~= digits);
    } else {
        let shorter = digits.drop_last();
        lemma_numeral_value_grows(shorter, n);
        assert(shorter.take(n) =~= digits.take(n));
    }
}

/// A text that denotes an integer is not empty, ends in a digit, and holds
/// nothing but digits after its first character: neither a sign alone nor a
/// number with anything behind it denotes an integer.
pub proof fn lemma_decimal_shape(text: Seq<char>, signed: bool)
    requires
        decimal(text, signed) is Some,
    ensures
        text.len() > 0,
        is_digit(text.last()),
        forall|i: int| 1 <= i < text.len() ==> is_digit(#[trigger] text[i]),
{
    if is_numeral(text.skip(1)) {
        let digits = text.skip(1);
        assert(is_digit(digits[digits.len() - 1]));
        assert forall|i: int| 1 <= i < text.len() implies is_digit(#[trigger] text[i]) by {
            assert(is_digit(digits[i - 1]));
        }
    }
}

/// Reads `digits` as a numeral of value at most `limit`. Returns `None` where
/// `digits` is empty, holds anything but digits, or denotes more than `limit`.
pub fn parse_numeral(digits: &str, limit: u64) -> (value: Option<u64>)
    ensures
        match numeral_within(digits@, limit as nat) {
            Some(v) => value == Some(v as u64),
            None => value is None,
        },
{
    let len = digits.unicode_len();
    let mut rest = digits.chars();
    let mut read: usize = 0;
    let mut sum: u64 = 0;
    loop
        invariant
            read <= len,
            len == digits@.len(),
            rest.remaining() == digits@.skip(read as int),
            forall|i: int| 0 <= i < read ==> is_digit(#[trigger] digits@[i]),
            sum == numeral_value(digits@.take(read as int)),
            sum <= limit,
        decreases len - read,
    {
        match rest.next() {
            None => {
                assert(digits@.take(read as int) =~= digits@);
                return if read > 0 {
                    Some(sum)
                } else {
                    None
                };
            },
            Some(c) => {
                if c < '0' || c > '9' {
                    assert(!is_digit(digits@[read as int]));
                    return None;
                }
                let d: u64 = (c as u32 - '0' as u32) as u64;
                proof {
                    lemma_numeral_value_push(digits@.take(read as int), c);
                    assert(digits@.take(read as int).push(c) =~= digits@.take(read + 1));
                }
                if d > limit || sum > (limit - d) / 10 {
                    proof {
                        lemma_numeral_value_grows(digits@, read + 1);
                    }
                    return None;
                }
                sum = sum * 10 + d;
                read = read + 1;
            },
        }
    }
}

} // verus!
