//! Characters and strings: what the standard library decides about them,
//! and the small verified helpers the rest of the crate builds text with.

use vstd::prelude::*;

verus! {

/// `String::push` appends one character.
pub assume_specification[ String::push ](s: &mut String, c: char)
    ensures
        final(s)@ == old(s)@.push(c),
;

/// What `char::is_alphabetic` answers for a character: whether Unicode
/// gives it the Alphabetic property.
pub uninterp spec fn alphabetic(c: char) -> bool;

/// `char::is_alphabetic` itself; nothing is claimed of the answer but that
/// it depends on the character alone.
pub assume_specification[ char::is_alphabetic ](c: char) -> (b: bool)
    ensures
        b == alphabetic(c),
;

/// White space, as Unicode lists it: the controls from tab to carriage
/// return, the space, the next-line control, the no-break space, the ogham
/// space mark, the spaces from en quad to hair space, the line and paragraph
/// separators, the narrow no-break space, the medium mathematical space and
/// the ideographic space.
pub open spec fn whitespace(c: char) -> bool {
    let n = c as u32;
    ||| 0x9 <= n <= 0xd
    ||| n == 0x20
    ||| n == 0x85
    ||| n == 0xa0
    ||| n == 0x1680
    ||| 0x2000 <= n <= 0x200a
    ||| n == 0x2028
    ||| n == 0x2029
    ||| n == 0x202f
    ||| n == 0x205f
    ||| n == 0x3000
}

/// Whether `c` is white space.
pub fn is_space(c: char) -> (b: bool)
    ensures
        b == whitespace(c),
{
    let n: u32 = c as u32;
    (0x9 <= n && n <= 0xd) || n == 0x20 || n == 0x85 || n == 0xa0 || n == 0x1680 || (0x2000 <= n
        && n <= 0x200a) || n == 0x2028 || n == 0x2029 || n == 0x202f || n == 0x205f || n == 0x3000
}

/// The first character of the upper-case mapping that `char::to_uppercase`
/// gives for a character.
pub uninterp spec fn upper_first(c: char) -> char;

/// Calls `char::to_uppercase` and keeps the first character it yields. The
/// mapping is never empty; the result is a function of `c` alone.
#[verifier::external_body]
pub(crate) fn to_upper_first(c: char) -> (u: char)
    ensures
        u == upper_first(c),
{
    c.to_uppercase().next().unwrap_or(c)
}

/// The first character of the lower-case mapping that `char::to_lowercase`
/// gives for a character.
pub uninterp spec fn lower_first(c: char) -> char;

/// Calls `char::to_lowercase` and keeps the first character it yields.
#[verifier::external_body]
pub(crate) fn to_lower_first(c: char) -> (l: char)
    ensures
        l == lower_first(c),
{
    c.to_lowercase().next().unwrap_or(c)
}

/// The text that `str::to_uppercase` makes of a text.
pub uninterp spec fn upper_text(s: Seq<char>) -> Seq<char>;

/// `str::to_uppercase` itself: the result depends on the characters alone.
pub assume_specification[ str::to_uppercase ](s: &str) -> (u: String)
    ensures
        u@ == upper_text(s@),
;

/// The text that `str::to_lowercase` makes of a text.
pub uninterp spec fn lower_text(s: Seq<char>) -> Seq<char>;

/// `str::to_lowercase` itself: the result depends on the characters alone.
pub assume_specification[ str::to_lowercase ](s: &str) -> (l: String)
    ensures
        l@ == lower_text(s@),
;

/// How many characters of white space a text begins with.
pub open spec fn leading_space(s: Seq<char>) -> int
    decreases s.len(),
{
    if s.len() > 0 && whitespace(s[0]) {
        1 + leading_space(s.drop_first())
    } else {
        0
    }
}

/// How many characters of white space a text ends with.
pub open spec fn trailing_space(s: Seq<char>) -> int
    decreases s.len(),
{
    if s.len() > 0 && whitespace(s.last()) {
        1 + trailing_space(s.drop_last())
    } else {
        0
    }
}

/// A text without the white space at its beginning and at its end.
pub open spec fn trimmed(s: Seq<char>) -> Seq<char> {
    if leading_space(s) >= s.len() {
        Seq::empty()
    } else {
        s.subrange(leading_space(s), s.len() - trailing_space(s))
    }
}

/// `s` without the white space at its beginning and at its end.
pub fn trim(s: &str) -> (t: String)
    ensures
        t@ == trimmed(s@),
{
    let letters = chars_of(s);
    let total = letters.len();
    let mut start: usize = 0;
    assert(s@.subrange(0, total as int) =~= s@);
    while start < total && is_space(letters[start])
        invariant
            start <= total,
            total == letters@.len(),
            letters@ == s@,
            leading_space(s@) == start + leading_space(s@.subrange(start as int, total as int)),
        decreases total - start,
    {
        assert(s@.subrange(start as int, total as int).drop_first() =~= s@.subrange(
            start + 1,
            total as int,
        ));
        start += 1;
    }
    if start == total {
        assert(s@.subrange(total as int, total as int).len() == 0);
        return String::new();
    }
    let mut end: usize = total;
    while end > start + 1 && is_space(letters[end - 1])
        invariant
            start < end <= total,
            total == letters@.len(),
            letters@ == s@,
            !whitespace(s@[start as int]),
            trailing_space(s@) == (total - end) + trailing_space(s@.subrange(0, end as int)),
        decreases end,
    {
        assert(s@.subrange(0, end as int).drop_last() =~= s@.subrange(0, end - 1));
        end -= 1;
    }
    assert(trailing_space(s@.subrange(0, end as int)) == 0);
    let mut out: Vec<char> = Vec::new();
    let mut i: usize = start;
    while i < end
        invariant
            start <= i <= end,
            end <= total,
            total == letters@.len(),
            letters@ == s@,
            out@ == s@.subrange(start as int, i as int),
        decreases end - i,
    {
        out.push(letters[i]);
        i += 1;
        assert(out@ =~= s@.subrange(start as int, i as int));
    }
    string_of(&out)
}

/// The words of a text: its longest runs of characters that are not white
/// space, in their order.
pub open spec fn words(s: Seq<char>) -> Seq<Seq<char>>
    decreases s.len(),
{
    if s.len() == 0 {
        Seq::empty()
    } else if whitespace(s.last()) {
        words(s.drop_last())
    } else if s.len() >= 2 && !whitespace(s[s.len() - 2]) && words(s.drop_last()).len() > 0 {
        let before = words(s.drop_last());
        before.update(before.len() - 1, before.last().push(s.last()))
    } else {
        words(s.drop_last()).push(seq![s.last()])
    }
}

/// Some texts as contracts see them.
pub open spec fn text_views(list: Seq<String>) -> Seq<Seq<char>> {
    Seq::new(list.len(), |i: int| list[i]@)
}

/// A text that ends in a word has words.
proof fn lemma_words_end(s: Seq<char>)
    requires
        s.len() > 0,
        !whitespace(s.last()),
    ensures
        words(s).len() > 0,
{
}

/// Splits `text` into its words; see [`words`].
pub fn split_words(text: &str) -> (list: Vec<String>)
    ensures
        text_views(list@) == words(text@),
{
    let letters = chars_of(text);
    let mut list: Vec<String> = Vec::new();
    let mut word: Vec<char> = Vec::new();
    let mut i: usize = 0;
    while i < letters.len()
        invariant
            i <= letters.len(),
            letters@ == text@,
            word@.len() > 0 <==> (i > 0 && !whitespace(text@[i - 1])),
            word@.len() == 0 ==> text_views(list@) == words(text@.take(i as int)),
            word@.len() > 0 ==> text_views(list@).push(word@) == words(text@.take(i as int)),
        decreases letters.len() - i,
    {
        let ghost before = text@.take(i as int);
        let ghost after = text@.take(i + 1);
        assert(after.drop_last() =~= before);
        let c = letters[i];
        if is_space(c) {
            if word.len() > 0 {
                let ghost views = text_views(list@);
                list.push(string_of(&word));
                assert(text_views(list@) =~= views.push(word@));
                word = Vec::new();
            }
        } else {
            proof {
                assert(after.last() == c);
                if word@.len() > 0 {
                    assert(after[after.len() - 2] == text@[i - 1]);
                    assert(before.last() == text@[i - 1]);
                    lemma_words_end(before);
                    let w = words(before);
                    assert(w.update(w.len() - 1, w.last().push(c)) =~= text_views(list@).push(
                        word@.push(c),
                    ));
                } else {
                    if i > 0 {
                        assert(after[after.len() - 2] == text@[i - 1]);
                    }
                    assert(word@.push(c) =~= seq![c]);
                }
            }
            word.push(c);
        }
        i += 1;
    }
    assert(text@.take(i as int) =~= text@);
    if word.len() > 0 {
        let ghost views = text_views(list@);
        list.push(string_of(&word));
        assert(text_views(list@) =~= views.push(word@));
    }
    list
}

/// `s` with every occurrence of `from` replaced by `to`, found from left to
/// right without overlap. `from` is not empty.
pub open spec fn replaced(s: Seq<char>, from: Seq<char>, to: Seq<char>) -> Seq<char>
    decreases s.len(),
{
    if from.len() == 0 || s.len() < from.len() {
        s
    } else if s.subrange(0, from.len() as int) == from {
        to + replaced(s.subrange(from.len() as int, s.len() as int), from, to)
    } else {
        seq![s[0]] + replaced(s.subrange(1, s.len() as int), from, to)
    }
}

/// Whether `pattern` stands in `s` at `at`.
pub fn stands_at(s: &Vec<char>, at: usize, pattern: &Vec<char>) -> (r: bool)
    requires
        at + pattern@.len() <= s@.len(),
    ensures
        r == (s@.subrange(at as int, at + pattern@.len()) == pattern@),
{
    let total = s.len();
    let mut k: usize = 0;
    while k < pattern.len()
        invariant
            k <= pattern.len(),
            at + pattern@.len() <= s@.len(),
            s@.len() == total,
            forall|j: int| 0 <= j < k ==> s@[at + j] == pattern@[j],
        decreases pattern.len() - k,
    {
        if s[at + k] != pattern[k] {
            assert(s@.subrange(at as int, at + pattern@.len())[k as int] != pattern@[k as int]);
            return false;
        }
        k += 1;
    }
    assert(s@.subrange(at as int, at + pattern@.len()) =~= pattern@);
    true
}

/// Replaces every occurrence of `from` in `s` by `to`; see [`replaced`].
pub fn replace_all(s: &Vec<char>, from: &str, to: &str) -> (r: Vec<char>)
    requires
        from@.len() > 0,
    ensures
        r@ == replaced(s@, from@, to@),
{
    let pattern = chars_of(from);
    let with = chars_of(to);
    let mut out: Vec<char> = Vec::new();
    let mut i: usize = 0;
    assert(s@.subrange(0, s@.len() as int) =~= s@);
    assert(out@ + replaced(s@, from@, to@) =~= replaced(s@, from@, to@));
    while i < s.len()
        invariant
            i <= s.len(),
            pattern@ == from@,
            with@ == to@,
            from@.len() > 0,
            out@ + replaced(s@.subrange(i as int, s@.len() as int), from@, to@) == replaced(
                s@,
                from@,
                to@,
            ),
        decreases s.len() - i,
    {
        let ghost rest = s@.subrange(i as int, s@.len() as int);
        if s.len() - i >= pattern.len() && stands_at(s, i, &pattern) {
            assert(rest.subrange(0, from@.len() as int) =~= s@.subrange(
                i as int,
                i + pattern@.len(),
            ));
            assert(rest.subrange(from@.len() as int, rest.len() as int) =~= s@.subrange(
                i + pattern@.len(),
                s@.len() as int,
            ));
            let ghost before = out@;
            let mut k: usize = 0;
            while k < with.len()
                invariant
                    k <= with.len(),
                    out@ == before + with@.take(k as int),
                decreases with.len() - k,
            {
                out.push(with[k]);
                k += 1;
                assert(out@ =~= before + with@.take(k as int));
            }
            assert(with@.take(k as int) =~= with@);
            i += pattern.len();
            assert(out@ + replaced(s@.subrange(i as int, s@.len() as int), from@, to@) =~= before
                + replaced(rest, from@, to@));
        } else {
            let ghost before = out@;
            if s.len() - i >= pattern.len() {
                assert(rest.subrange(0, from@.len() as int) =~= s@.subrange(
                    i as int,
                    i + pattern@.len(),
                ));
                assert(rest.subrange(1, rest.len() as int) =~= s@.subrange(
                    i + 1,
                    s@.len() as int,
                ));
                out.push(s[i]);
                i += 1;
                assert(out@ + replaced(s@.subrange(i as int, s@.len() as int), from@, to@)
                    =~= before + replaced(rest, from@, to@));
            } else {
                assert(replaced(rest, from@, to@) == rest);
                out.push(s[i]);
                i += 1;
                let ghost next = s@.subrange(i as int, s@.len() as int);
                assert(replaced(next, from@, to@) == next);
                assert(out@ + next =~= before + rest);
            }
        }
    }
    assert(s@.subrange(i as int, s@.len() as int) =~= Seq::<char>::empty());
    assert(out@ + Seq::<char>::empty() =~= out@);
    out
}

/// The first `n` of `parts`, with `separator` between them.
pub open spec fn joined_with(parts: Seq<Seq<char>>, separator: Seq<char>, n: int) -> Seq<char>
    decreases n,
{
    if n <= 0 {
        Seq::empty()
    } else if n == 1 {
        parts[0]
    } else {
        joined_with(parts, separator, n - 1) + separator + parts[n - 1]
    }
}

/// Appends the rows of `parts` from `from` up to `to`, with `separator`
/// between them.
pub fn push_joined(out: &mut Vec<char>, parts: &Vec<String>, from: usize, to: usize, separator: &str)
    requires
        from <= to <= parts@.len(),
    ensures
        final(out)@ == old(out)@ + joined_with(
            text_views(parts@).subrange(from as int, to as int),
            separator@,
            to - from,
        ),
{
    let ghost rows = text_views(parts@).subrange(from as int, to as int);
    let sep = chars_of(separator);
    let mut i: usize = from;
    while i < to
        invariant
            from <= i <= to,
            to <= parts@.len(),
            sep@ == separator@,
            rows == text_views(parts@).subrange(from as int, to as int),
            out@ == old(out)@ + joined_with(rows, separator@, i - from),
        decreases to - i,
    {
        let ghost before = out@;
        if i > from {
            let mut k: usize = 0;
            while k < sep.len()
                invariant
                    k <= sep.len(),
                    out@ == before + sep@.take(k as int),
                decreases sep.len() - k,
            {
                out.push(sep[k]);
                k += 1;
                assert(out@ =~= before + sep@.take(k as int));
            }
            assert(sep@.take(k as int) =~= sep@);
        }
        let ghost middle = out@;
        let word = chars_of(parts[i].as_str());
        let mut k: usize = 0;
        while k < word.len()
            invariant
                k <= word.len(),
                out@ == middle + word@.take(k as int),
            decreases word.len() - k,
        {
            out.push(word[k]);
            k += 1;
            assert(out@ =~= middle + word@.take(k as int));
        }
        assert(word@.take(k as int) =~= word@);
        assert(rows[i - from] == parts@[i as int]@);
        i += 1;
        assert(out@ =~= old(out)@ + joined_with(rows, separator@, i - from));
    }
}

/// Whether `s` ends with `suffix`.
pub fn ends_with(s: &Vec<char>, suffix: &str) -> (r: bool)
    ensures
        r == (s@.len() >= suffix@.len() && s@.subrange(s@.len() - suffix@.len(), s@.len() as int)
            == suffix@),
{
    let tail = chars_of(suffix);
    if s.len() < tail.len() {
        return false;
    }
    stands_at(s, s.len() - tail.len(), &tail)
}

/// For each character of a text, whether the standard library holds it to
/// be alphabetic.
pub open spec fn letter_mask(text: Seq<char>) -> Seq<bool> {
    Seq::new(text.len(), |i: int| alphabetic(text[i]))
}

/// How many of the marks are set.
pub open spec fn marked(marks: Seq<bool>) -> nat
    decreases marks.len(),
{
    if marks.len() == 0 {
        0
    } else {
        marked(marks.drop_last()) + if marks.last() {
            1nat
        } else {
            0nat
        }
    }
}

/// Marks the characters of `text` that are alphabetic.
pub fn mark_letters(text: &Vec<char>) -> (marks: Vec<bool>)
    ensures
        marks@ == letter_mask(text@),
{
    let mut marks: Vec<bool> = Vec::new();
    let mut i: usize = 0;
    while i < text.len()
        invariant
            i <= text.len(),
            marks@ == letter_mask(text@).take(i as int),
        decreases text.len() - i,
    {
        marks.push(text[i].is_alphabetic());
        i += 1;
        assert(marks@ =~= letter_mask(text@).take(i as int));
    }
    assert(marks@ =~= letter_mask(text@));
    marks
}

/// The digit `d` as a character.
pub open spec fn digit_char(d: int) -> char {
    seq!['0', '1', '2', '3', '4', '5', '6', '7', '8', '9'][d]
}

/// A number written in decimal, without sign or leading zeros.
pub open spec fn decimal_text(n: nat) -> Seq<char>
    decreases n,
{
    if n < 10 {
        seq![digit_char(n as int)]
    } else {
        decimal_text(n / 10).push(digit_char((n % 10) as int))
    }
}

/// Appends `n` in decimal to `out`.
pub fn push_decimal(out: &mut String, n: u64)
    ensures
        final(out)@ == old(out)@ + decimal_text(n as nat),
    decreases n,
{
    if n >= 10 {
        push_decimal(out, n / 10);
    }
    let digits: [char; 10] = ['0', '1', '2', '3', '4', '5', '6', '7', '8', '9'];
    let d = (n % 10) as usize;
    out.push(digits[d]);
    assert(out@ =~= old(out)@ + decimal_text(n as nat));
}

/// `n` written in decimal.
pub fn decimal(n: u64) -> (s: String)
    ensures
        s@ == decimal_text(n as nat),
{
    let mut s = String::new();
    push_decimal(&mut s, n);
    assert(s@ =~= decimal_text(n as nat));
    s
}

/// A whole number written in decimal, with a minus sign where it is
/// negative.
pub open spec fn signed_text(n: int) -> Seq<char> {
    if n < 0 {
        seq!['-'] + decimal_text((-n) as nat)
    } else {
        decimal_text(n as nat)
    }
}

/// Appends `n` in decimal to `out`, with a minus sign where it is
/// negative.
pub fn push_signed(out: &mut String, n: i64)
    ensures
        final(out)@ == old(out)@ + signed_text(n as int),
{
    if n < 0 {
        out.push('-');
        let magnitude: u64 = if n == i64::MIN {
            0x8000_0000_0000_0000u64
        } else {
            (-n) as u64
        };
        push_decimal(out, magnitude);
        assert(out@ =~= old(out)@ + signed_text(n as int));
    } else {
        push_decimal(out, n as u64);
    }
}

/// Whether two texts are the same.
pub fn same_text(a: &str, b: &str) -> (r: bool)
    ensures
        r == (a@ == b@),
{
    let x = chars_of(a);
    let y = chars_of(b);
    if x.len() != y.len() {
        return false;
    }
    let mut i: usize = 0;
    while i < x.len()
        invariant
            i <= x.len(),
            x.len() == y.len(),
            x@ == a@,
            y@ == b@,
            forall|j: int| 0 <= j < i ==> x@[j] == y@[j],
        decreases x.len() - i,
    {
        if x[i] != y[i] {
            return false;
        }
        i += 1;
    }
    assert(x@ =~= y@);
    true
}

/// The characters of `s`, one by one.
pub fn chars_of(s: &str) -> (v: Vec<char>)
    ensures
        v@ == s@,
{
    let mut v: Vec<char> = Vec::new();
    for c in it: s.chars()
        invariant
            it.seq() == s@,
            v@ == it.seq().take(it.index()),
    {
        v.push(c);
    }
    v
}

/// The string made of the characters `v`.
pub fn string_of(v: &Vec<char>) -> (s: String)
    ensures
        s@ == v@,
{
    let mut s = String::new();
    let mut i: usize = 0;
    while i < v.len()
        invariant
            i <= v.len(),
            s@ == v@.take(i as int),
        decreases v.len() - i,
    {
        s.push(v[i]);
        i += 1;
    }
    s
}

} // verus!
