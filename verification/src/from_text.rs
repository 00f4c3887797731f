//! Values that can be read from a text, and the integer types among them.

use crate::decimal::{decimal_within, parse_numeral};
use vstd::prelude::*;

verus! {

/// A type whose values can be read from a text.
///
/// `parsed` says which value a text denotes, if any, and `from_text` computes
/// it. Reading depends on the characters of the text and on nothing else.
pub trait FromText: Sized {
    /// The value that `text` denotes, or `None` where it denotes none.
    spec fn parsed(text: Seq<char>) -> Option<Self>;

    /// Reads a value from the whole of `text`.
    fn from_text(text: &str) -> (value: Option<Self>)
        ensures
            value == Self::parsed(text@),
    ;
}

impl FromText for u64 {
    /// A numeral of value at most `u64::MAX`, which may follow a `+`.
    open spec fn parsed(text: Seq<char>) -> Option<u64> {
        match decimal_within(text, false, 0, u64::MAX as int) {
            Some(v) => Some(v as u64),
            None => None,
        }
    }

    fn from_text(text: &str) -> (value: Option<u64>) {
        let len = text.unicode_len();
        if len > 0 && text.get_char(0) == '+' {
            assert(text@.subrange(1, len as int) =~= text@.skip(1));
            parse_numeral(text.substring_char(1, len), u64::MAX)
        } else {
            parse_numeral(text, u64::MAX)
        }
    }
}

impl FromText for i64 {
    /// A numeral, which may follow a `+` or a `-`, of a value from `i64::MIN`
    /// to `i64::MAX`.
    open spec fn parsed(text: Seq<char>) -> Option<i64> {
        match decimal_within(text, true, i64::MIN as int, i64::MAX as int) {
            Some(v) => Some(v as i64),
            None => None,
        }
    }

    fn from_text(text: &str) -> (value: Option<i64>) {
        let len = text.unicode_len();
        if len > 0 && text.get_char(0) == '+' {
            assert(text@.subrange(1, len as int) =~= text@.skip(1));
            match parse_numeral(text.substring_char(1, len), 0x7fff_ffff_ffff_ffff) {
                Some(above) => Some(above as i64),
                None => None,
            }
        } else if len > 0 && text.get_char(0) == '-' {
            assert(text@.subrange(1, len as int) =~= text@.skip(1));
            match parse_numeral(text.substring_char(1, len), 0x8000_0000_0000_0000) {
                Some(below) => Some((0 - below as i128) as i64),
                None => None,
            }
        } else {
            match parse_numeral(text, 0x7fff_ffff_ffff_ffff) {
                Some(above) => Some(above as i64),
                None => None,
            }
        }
    }
}

impl FromText for u32 {
    /// A numeral of value at most `u32::MAX`, which may follow a `+`.
    open spec fn parsed(text: Seq<char>) -> Option<u32> {
        match decimal_within(text, false, 0, u32::MAX as int) {
            Some(v) => Some(v as u32),
            None => None,
        }
    }

    fn from_text(text: &str) -> (value: Option<u32>) {
        match u64::from_text(text) {
            Some(wide) => if wide <= u32::MAX as u64 {
                Some(wide as u32)
            } else {
                None
            },
            None => None,
        }
    }
}

impl FromText for usize {
    /// A numeral of value at most `usize::MAX`, which may follow a `+`.
    open spec fn parsed(text: Seq<char>) -> Option<usize> {
        match decimal_within(text, false, 0, usize::MAX as int) {
            Some(v) => Some(v as usize),
            None => None,
        }
    }

    fn from_text(text: &str) -> (value: Option<usize>) {
        match u64::from_text(text) {
            Some(wide) => if wide <= usize::MAX as u64 {
                Some(wide as usize)
            } else {
                None
            },
            None => None,
        }
    }
}

impl FromText for i32 {
    /// A numeral, which may follow a `+` or a `-`, of a value from `i32::MIN`
    /// to `i32::MAX`.
    open spec fn parsed(text: Seq<char>) -> Option<i32> {
        match decimal_within(text, true, i32::MIN as int, i32::MAX as int) {
            Some(v) => Some(v as i32),
            None => None,
        }
    }

    fn from_text(text: &str) -> (value: Option<i32>) {
        match i64::from_text(text) {
            Some(wide) => if i32::MIN as i64 <= wide && wide <= i32::MAX as i64 {
                Some(wide as i32)
            } else {
                None
            },
            None => None,
        }
    }
}

} // verus!
