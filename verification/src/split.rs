//! Splitting a text at the first occurrence of a separator character.

use vstd::prelude::*;
use vstd::std_specs::iter::IteratorSpec;

verus! {

/// `at` is the position of the first `separator` in `text`.
pub open spec fn is_first_at(text: Seq<char>, separator: char, at: int) -> bool {
    &&& 0 <= at < text.len()
    &&& text[at] == separator
    &&& forall|j: int| 0 <= j < at ==> text[j] != separator
}

/// The position of the first `separator` in `text`, if there is one.
pub open spec fn first_index(text: Seq<char>, separator: char) -> Option<int> {
    if exists|at: int| is_first_at(text, separator, at) {
        Some(choose|at: int| is_first_at(text, separator, at))
    } else {
        None
    }
}

/// What stands before and after the first `separator` in `text`: the two
/// operands of a pair. Later occurrences of the separator belong to the right
/// operand.
pub open spec fn operands(text: Seq<char>, separator: char) -> Option<(Seq<char>, Seq<char>)> {
    match first_index(text, separator) {
        Some(at) => Some((text.subrange(0, at), text.subrange(at + 1, text.len() as int))),
        None => None,
    }
}

/// A position that holds the first separator is the one `first_index` gives.
pub proof fn lemma_first_index_is(text: Seq<char>, separator: char, at: int)
    requires
        is_first_at(text, separator, at),
    ensures
        first_index(text, separator) == Some(at),
{
    let chosen = choose|k: int| is_first_at(text, separator, k);
    assert(is_first_at(text, separator, chosen));
    if chosen < at {
        assert(text[chosen] != separator);
    } else if at < chosen {
        assert(text[at] != separator);
    }
}

/// A text without the separator has no first occurrence of it.
pub proof fn lemma_first_index_none(text: Seq<char>, separator: char)
    requires
        forall|j: int| 0 <= j < text.len() ==> text[j] != separator,
    ensures
        first_index(text, separator) is None,
{
}

/// Splitting undoes joining: where `left` does not hold the separator, the
/// operands of `left`, the separator and `right` put together are `left` and
/// `right`, whatever `right` holds.
pub proof fn lemma_operands_of_joined(left: Seq<char>, right: Seq<char>, separator: char)
    requires
        !left.contains(separator),
    ensures
        operands(left + seq![separator] + right, separator) == Some((left, right)),
{
    let text = left + seq![separator] + right;
    let at = left.len() as int;
    assert forall|j: int| 0 <= j < at implies text[j] != separator by {
        assert(text[j] == left[j]);
    }
    lemma_first_index_is(text, separator, at);
    assert(text.subrange(0, at) =~= left);
    assert(text.subrange(at + 1, text.len() as int) =~= right);
}

/// The operands of a text, put together again with the separator between
/// them, are the text, and the left operand does not hold the separator. A
/// text has no operands only where it does not hold the separator.
pub proof fn lemma_operands_rejoin(text: Seq<char>, separator: char)
    ensures
        match operands(text, separator) {
            Some((left, right)) => {
                &&& text == left + seq![separator] + right
                &&& !left.contains(separator)
            },
            None => !text.contains(separator),
        },
{
    match first_index(text, separator) {
        Some(at) => {
            let left = text.subrange(0, at);
            let right = text.subrange(at + 1, text.len() as int);
            assert(text =~= left + seq![separator] + right);
        },
        None => {
            if text.contains(separator) {
                let i = choose|i: int| 0 <= i < text.len() && text[i] == separator;
                lemma_some_first(text, separator, i);
            }
        },
    }
}

/// A text that holds the separator at `i` has a first occurrence of it.
proof fn lemma_some_first(text: Seq<char>, separator: char, i: int)
    requires
        0 <= i < text.len(),
        text[i] == separator,
    ensures
        exists|at: int| is_first_at(text, separator, at),
    decreases i,
{
    if exists|j: int| 0 <= j < i && text[j] == separator {
        let j = choose|j: int| 0 <= j < i && text[j] == separator;
        lemma_some_first(text, separator, j);
    } else {
        assert(is_first_at(text, separator, i));
    }
}

/// Splits `text` at the first `separator`. Returns the text before it and the
/// text after it, or `None` where `text` does not hold the separator.
pub fn split_pair<'a>(text: &'a str, separator: char) -> (parts: Option<(&'a str, &'a str)>)
    ensures
        match operands(text@, separator) {
            Some((left, right)) => parts matches Some((l, r)) && l@ == left && r@ == right,
            None => parts is None,
        },
{
    let len = text.unicode_len();
    let mut rest = text.chars();
    let mut at: usize = 0;
    loop
        invariant
            at <= len,
            len == text@.len(),
            rest.remaining() == text@.skip(at as int),
            forall|j: int| 0 <= j < at ==> text@[j] != separator,
        decreases len - at,
    {
        match rest.next() {
            None => {
                proof {
                    lemma_first_index_none(text@, separator);
                }
                return None;
            },
            Some(c) => {
                if c == separator {
                    proof {
                        lemma_first_index_is(text@, separator, at as int);
                    }
                    let left = text.substring_char(0, at);
                    let right = text.substring_char(at + 1, len);
                    return Some((left, right));
                }
                at = at + 1;
            },
        }
    }
}

} // verus!
