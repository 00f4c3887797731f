//! Reading a pair of values from a text such as `"640x480"` or `"-3,17"`.

use crate::decimal::numeral_value;
use crate::from_text::FromText;
use crate::split::{
    lemma_first_index_is, lemma_operands_of_joined, lemma_operands_rejoin, operands, split_pair,
};
use vstd::prelude::*;

verus! {

/// The pair of two values where both are there, and `None` where either is
/// missing.
pub open spec fn both_spec<T>(left: Option<T>, right: Option<T>) -> Option<(T, T)> {
    match (left, right) {
        (Some(l), Some(r)) => Some((l, r)),
        _ => None,
    }
}

/// The pair that `text` denotes: the values of its two operands, in the order
/// in which they stand, where `text` holds the separator and both operands
/// denote a value.
pub open spec fn pair_of_text<T: FromText>(text: Seq<char>, separator: char) -> Option<(T, T)> {
    match operands(text, separator) {
        Some((left, right)) => both_spec(T::parsed(left), T::parsed(right)),
        None => None,
    }
}

/// Joins two values into a pair. Returns `None` where either is missing.
#[verifier::when_used_as_spec(both_spec)]
pub fn both<T>(left: Option<T>, right: Option<T>) -> (pair: Option<(T, T)>)
    ensures
        pair == both_spec(left, right),
{
    match (left, right) {
        (Some(l), Some(r)) => Some((l, r)),
        _ => None,
    }
}

/// Reads the text `s` as a pair of values that `separator` stands between.
///
/// The text is split at the first `separator`, and each side is read as a `T`
/// in full. Returns `None` where `s` does not hold the separator or where
/// either side denotes no `T`.
pub fn parse_pair<T: FromText>(s: &str, separator: char) -> (pair: Option<(T, T)>)
    ensures
        pair == pair_of_text::<T>(s@, separator),
{
    match split_pair(s, separator) {
        Some((left, right)) => both(T::from_text(left), T::from_text(right)),
        None => None,
    }
}

/// A text that does not hold the separator denotes no pair, whatever the
/// type of the values.
pub proof fn lemma_pair_needs_separator<T: FromText>(text: Seq<char>, separator: char)
    requires
        !text.contains(separator),
    ensures
        pair_of_text::<T>(text, separator) is None,
{
    lemma_operands_rejoin(text, separator);
}

/// Only the first separator splits the text: where `left` does not hold the
/// separator, the text made of `left`, the separator and `right` denotes the
/// pair of what `left` and `right` denote. Further separators in `right` are
/// read as part of the right operand.
pub proof fn lemma_pair_of_joined<T: FromText>(
    left: Seq<char>,
    right: Seq<char>,
    separator: char,
)
    requires
        !left.contains(separator),
    ensures
        pair_of_text::<T>(left + seq![separator] + right, separator) == both(
            T::parsed(left),
            T::parsed(right),
        ),
{
    lemma_operands_of_joined(left, right, separator);
}

/// Reading the same text twice gives the same pair: whatever two calls of
/// `parse_pair` return for texts of the same characters and the same
/// separator is equal.
pub proof fn lemma_parse_pair_repeats<T: FromText>(
    s: &str,
    again: &str,
    separator: char,
    first: Option<(T, T)>,
    second: Option<(T, T)>,
)
    requires
        s@ == again@,
        call_ensures(parse_pair::<T>, (s, separator), first),
        call_ensures(parse_pair::<T>, (again, separator), second),
    ensures
        first == second,
{
}

/// Reads five sample texts as pairs of `i32` and says whether each gave what
/// it denotes: a text with a number on both sides of the comma gives the two
/// numbers, and a text that is empty, or lacks a number on one side, or
/// carries letters after the second number, gives nothing.
pub fn test_parse_pair() -> (passed: bool)
    ensures
        passed == samples_denote_what_they_should(),
        passed,
{
    let empty = parse_pair::<i32>("", ',');
    let right_missing = parse_pair::<i32>("10,", ',');
    let left_missing = parse_pair::<i32>(",10", ',');
    let whole = parse_pair::<i32>("10,20", ',');
    let letters_after = parse_pair::<i32>("10,20xy", ',');
    proof {
        reveal_strlit("");
        reveal_strlit("10,");
        reveal_strlit(",10");
        reveal_strlit("10,20");
        reveal_strlit("10,20xy");
        reveal_with_fuel(numeral_value, 3);
        lemma_first_index_is("10,"@, ',', 2);
        lemma_first_index_is(",10"@, ',', 0);
        lemma_first_index_is("10,20"@, ',', 2);
        lemma_first_index_is("10,20xy"@, ',', 2);
    }
    empty.is_none() && right_missing.is_none() && left_missing.is_none() && (match whole {
        Some((left, right)) => left == 10 && right == 20,
        None => false,
    }) && letters_after.is_none()
}

/// What `test_parse_pair` reads and what each text has to denote as a pair of
/// `i32` with a comma between the two: the text `10,20` the numbers 10 and
/// 20, and the empty text, `10,`, `,10` and `10,20xy` nothing.
pub open spec fn samples_denote_what_they_should() -> bool {
    &&& pair_of_text::<i32>(""@, ',') is None
    &&& pair_of_text::<i32>("10,"@, ',') is None
    &&& pair_of_text::<i32>(",10"@, ',') is None
    &&& pair_of_text::<i32>("10,20"@, ',') == Some((10i32, 20i32))
    &&& pair_of_text::<i32>("10,20xy"@, ',') is None
}

} // verus!
