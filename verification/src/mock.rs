//! Mocking text: its letters in alternating case.

use crate::text::{
    chars_of, letter_mask, lower_first, mark_letters, marked, string_of, to_lower_first,
    to_upper_first, upper_first,
};
use vstd::prelude::*;

verus! {

/// The text with its letters in alternating case, given for each character
/// whether it is a letter and how it is written in upper and in lower case:
/// a letter is in lower case where an even number of letters stands before
/// it, in upper case where an odd number does; anything else is as it is.
pub open spec fn alternated(
    text: Seq<char>,
    letters: Seq<bool>,
    upper: Seq<char>,
    lower: Seq<char>,
) -> Seq<char> {
    Seq::new(
        text.len(),
        |i: int|
            if letters[i] {
                if marked(letters.take(i)) % 2 == 1 {
                    upper[i]
                } else {
                    lower[i]
                }
            } else {
                text[i]
            },
    )
}

/// Each character in upper case: the first character of its upper-case
/// mapping.
pub open spec fn upper_each(text: Seq<char>) -> Seq<char> {
    Seq::new(text.len(), |i: int| upper_first(text[i]))
}

/// Each character in lower case: the first character of its lower-case
/// mapping.
pub open spec fn lower_each(text: Seq<char>) -> Seq<char> {
    Seq::new(text.len(), |i: int| lower_first(text[i]))
}

/// The text mocked: its letters are what the standard library holds to be
/// alphabetic, and their cases are those of the standard library.
pub open spec fn mocked(text: Seq<char>) -> Seq<char> {
    alternated(text, letter_mask(text), upper_each(text), lower_each(text))
}

/// Writes `text` with its letters in alternating case; see [`alternated`].
pub fn alternate(text: &Vec<char>, letters: &Vec<bool>, upper: &Vec<char>, lower: &Vec<char>) -> (r:
    Vec<char>)
    requires
        letters@.len() == text@.len(),
        upper@.len() == text@.len(),
        lower@.len() == text@.len(),
    ensures
        r@ == alternated(text@, letters@, upper@, lower@),
{
    let mut result: Vec<char> = Vec::new();
    let mut is_uppercase = false;
    let mut i: usize = 0;
    while i < text.len()
        invariant
            i <= text.len(),
            letters@.len() == text@.len(),
            upper@.len() == text@.len(),
            lower@.len() == text@.len(),
            is_uppercase == (marked(letters@.take(i as int)) % 2 == 1),
            result@ == alternated(text@, letters@, upper@, lower@).take(i as int),
        decreases text.len() - i,
    {
        assert(letters@.take(i + 1).drop_last() =~= letters@.take(i as int));
        if letters[i] {
            if is_uppercase {
                result.push(upper[i]);
            } else {
                result.push(lower[i]);
            }
            is_uppercase = !is_uppercase;
        } else {
            result.push(text[i]);
        }
        i += 1;
        assert(result@ =~= alternated(text@, letters@, upper@, lower@).take(i as int));
    }
    assert(alternated(text@, letters@, upper@, lower@).take(i as int) =~= alternated(
        text@,
        letters@,
        upper@,
        lower@,
    ));
    result
}

/// Writes `text` with its letters in alternating case, the first in lower
/// case; what is no letter stays and does not count. See [`mocked`].
pub fn mockify(text: &str) -> (r: String)
    ensures
        r@ == mocked(text@),
{
    let letters = chars_of(text);
    let marks = mark_letters(&letters);
    let mut upper: Vec<char> = Vec::new();
    let mut lower: Vec<char> = Vec::new();
    let mut i: usize = 0;
    while i < letters.len()
        invariant
            i <= letters.len(),
            upper@ == upper_each(letters@).take(i as int),
            lower@ == lower_each(letters@).take(i as int),
        decreases letters.len() - i,
    {
        upper.push(to_upper_first(letters[i]));
        lower.push(to_lower_first(letters[i]));
        i += 1;
        assert(upper@ =~= upper_each(letters@).take(i as int));
        assert(lower@ =~= lower_each(letters@).take(i as int));
    }
    assert(upper@ =~= upper_each(letters@));
    assert(lower@ =~= lower_each(letters@));
    string_of(&alternate(&letters, &marks, &upper, &lower))
}

} // verus!
