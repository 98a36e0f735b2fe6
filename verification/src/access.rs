//! Who may use the protected commands.

use crate::text::{chars_of, split_words, text_views, words};
use vstd::prelude::*;

verus! {

/// A character with the letters A to Z taken in lower case.
pub open spec fn ascii_lower(c: char) -> char {
    if 'A' <= c <= 'Z' {
        ((c as u32) + 32) as char
    } else {
        c
    }
}

/// Two texts are the same but for the case of the letters A to Z.
pub open spec fn same_ignoring_ascii_case(a: Seq<char>, b: Seq<char>) -> bool {
    a.len() == b.len() && forall|i: int| 0 <= i < a.len() ==> ascii_lower(a[i]) == ascii_lower(b[i])
}

/// `username` is one of the words of `list`, but for the case of the
/// letters A to Z.
pub open spec fn listed(list: Seq<char>, username: Seq<char>) -> bool {
    exists|i: int|
        0 <= i < words(list).len() && same_ignoring_ascii_case(#[trigger] words(list)[i], username)
}

/// `c` with the letters A to Z taken in lower case.
fn lower_ascii(c: char) -> (l: char)
    ensures
        l == ascii_lower(c),
{
    if c >= 'A' && c <= 'Z' {
        let code: u8 = (c as u32 + 32) as u8;
        code as char
    } else {
        c
    }
}

/// Whether two texts are the same but for the case of the letters A to Z.
pub fn eq_ignore_ascii_case(a: &str, b: &str) -> (r: bool)
    ensures
        r == same_ignoring_ascii_case(a@, b@),
{
    let x = chars_of(a);
    let y = chars_of(b);
    if x.len() != y.len() {
        return false;
    }
    let mut i: usize = 0;
    while i < x.len()
        invariant
            i <= x.len(),
            x.len() == y.len(),
            x@ == a@,
            y@ == b@,
            forall|j: int| 0 <= j < i ==> ascii_lower(x@[j]) == ascii_lower(y@[j]),
        decreases x.len() - i,
    {
        if lower_ascii(x[i]) != lower_ascii(y[i]) {
            return false;
        }
        i += 1;
    }
    true
}

/// Whether `username` may use the protected commands: it is one of the
/// names in `protected_users`, which are separated by white space, whatever
/// the case of its letters A to Z.
pub fn is_protected_user(protected_users: &str, username: &str) -> (r: bool)
    ensures
        r == listed(protected_users@, username@),
{
    let names = split_words(protected_users);
    let mut i: usize = 0;
    while i < names.len()
        invariant
            i <= names.len(),
            text_views(names@) == words(protected_users@),
            forall|j: int|
                0 <= j < i ==> !same_ignoring_ascii_case(
                    #[trigger] words(protected_users@)[j],
                    username@,
                ),
        decreases names.len() - i,
    {
        assert(text_views(names@)[i as int] == names@[i as int]@);
        if eq_ignore_ascii_case(names[i].as_str(), username) {
            return true;
        }
        i += 1;
    }
    false
}

} // verus!
