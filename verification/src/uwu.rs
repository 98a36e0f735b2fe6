//! Softening text: letters swapped for softer ones, and a few expressions
//! strewn in.

use crate::text::{
    chars_of, ends_with, joined_with, push_joined, replace_all, replaced, split_words, string_of,
    text_views, trim, trimmed, words,
};
use vstd::prelude::*;
use vstd::string::StrSliceExecFns;

verus! {

/// A sentence must take more bytes than this to get an expression.
pub const LONG_SENTENCE: usize = 20;

/// The text with its letters swapped, one rule after another.
pub open spec fn softened(text: Seq<char>) -> Seq<char> {
    let a = replaced(text, "The"@, "Teh"@);
    let b = replaced(a, "the"@, "teh"@);
    let c = replaced(b, "th"@, "d"@);
    let d = replaced(c, "r"@, "w"@);
    let e = replaced(d, "l"@, "w"@);
    let f = replaced(e, "na"@, "nya"@);
    let g = replaced(f, "ne"@, "nye"@);
    let h = replaced(g, "ni"@, "nyi"@);
    let i = replaced(h, "no"@, "nyo"@);
    let j = replaced(i, "nu"@, "nyu"@);
    replaced(j, "ove"@, "uv"@)
}

pub open spec fn is_stop(c: char) -> bool {
    c == '.' || c == '!' || c == '?'
}

/// The pieces of a text between its full stops, exclamation marks and
/// question marks. There is always at least one, and pieces may be empty.
pub open spec fn pieces(s: Seq<char>) -> Seq<Seq<char>>
    decreases s.len(),
{
    if s.len() == 0 {
        seq![Seq::empty()]
    } else if is_stop(s.last()) {
        pieces(s.drop_last()).push(Seq::empty())
    } else {
        let before = pieces(s.drop_last());
        before.update(before.len() - 1, before.last().push(s.last()))
    }
}

/// The expression strewn into piece `i`.
pub open spec fn expression(i: int) -> Seq<char> {
    if i % 5 == 0 {
        " uwu "@
    } else if i % 5 == 1 {
        " owo "@
    } else if i % 5 == 2 {
        " >w< "@
    } else if i % 5 == 3 {
        " ^w^ "@
    } else {
        " (>ω<) "@
    }
}

/// Whether piece `i` gets an expression: every other piece does that takes
/// more than [`LONG_SENTENCE`] bytes and, trimmed, has more than three
/// words.
pub open spec fn gets_expression(piece: Seq<char>, i: int) -> bool {
    (vstd::utf8::encode_utf8(piece).len() as usize) > LONG_SENTENCE && i % 2 == 0 && words(
        trimmed(piece),
    ).len() > 3
}

/// Piece `i` as a sentence: trimmed, and where it gets an expression, its
/// words with single spaces between them and the expression in their middle.
pub open spec fn sentence(piece: Seq<char>, i: int) -> Seq<char> {
    let t = trimmed(piece);
    let w = words(t);
    let mid = w.len() as int / 2;
    if gets_expression(piece, i) {
        joined_with(w.subrange(0, mid), " "@, mid) + expression(i) + joined_with(
            w.subrange(mid, w.len() as int),
            " "@,
            w.len() - mid,
        )
    } else {
        t
    }
}

/// The sentences made of the first `n` pieces; a piece that is empty or
/// only white space makes none.
pub open spec fn sentences(list: Seq<Seq<char>>, n: int) -> Seq<Seq<char>>
    decreases n,
{
    if n <= 0 {
        Seq::empty()
    } else if trimmed(list[n - 1]).len() > 0 {
        sentences(list, n - 1).push(sentence(list[n - 1], n - 1))
    } else {
        sentences(list, n - 1)
    }
}

pub open spec fn has_suffix(s: Seq<char>, suffix: Seq<char>) -> bool {
    s.len() >= suffix.len() && s.subrange(s.len() - suffix.len(), s.len() as int) == suffix
}

/// The softened text: its sentences joined by a full stop and a space,
/// trimmed, and closed with an expression unless it ends in one. An empty
/// result stays empty.
pub open spec fn uwu_text(text: Seq<char>) -> Seq<char> {
    let list = pieces(softened(text));
    let made = sentences(list, list.len() as int);
    let all = joined_with(made, ". "@, made.len() as int);
    if all.len() == 0 {
        all
    } else if has_suffix(trimmed(all), "uwu"@) || has_suffix(trimmed(all), "owo"@) || has_suffix(
        trimmed(all),
        ">w<"@,
    ) {
        trimmed(all)
    } else {
        trimmed(all) + " uwu"@
    }
}

/// Swaps the letters of `text`; see [`softened`].
fn soften(text: &str) -> (r: Vec<char>)
    ensures
        r@ == softened(text@),
{
    proof {
        reveal_strlit("The");
        reveal_strlit("the");
        reveal_strlit("th");
        reveal_strlit("r");
        reveal_strlit("l");
        reveal_strlit("na");
        reveal_strlit("ne");
        reveal_strlit("ni");
        reveal_strlit("no");
        reveal_strlit("nu");
        reveal_strlit("ove");
    }
    let s = chars_of(text);
    let s = replace_all(&s, "The", "Teh");
    let s = replace_all(&s, "the", "teh");
    let s = replace_all(&s, "th", "d");
    let s = replace_all(&s, "r", "w");
    let s = replace_all(&s, "l", "w");
    let s = replace_all(&s, "na", "nya");
    let s = replace_all(&s, "ne", "nye");
    let s = replace_all(&s, "ni", "nyi");
    let s = replace_all(&s, "no", "nyo");
    let s = replace_all(&s, "nu", "nyu");
    replace_all(&s, "ove", "uv")
}

/// Cuts `s` into its pieces; see [`pieces`].
fn cut(s: &Vec<char>) -> (list: Vec<String>)
    ensures
        text_views(list@) == pieces(s@),
{
    let mut list: Vec<String> = Vec::new();
    let mut piece: Vec<char> = Vec::new();
    let mut i: usize = 0;
    assert(text_views(list@).push(piece@) =~= pieces(s@.take(0)));
    while i < s.len()
        invariant
            i <= s.len(),
            text_views(list@).push(piece@) == pieces(s@.take(i as int)),
        decreases s.len() - i,
    {
        assert(s@.take(i + 1).drop_last() =~= s@.take(i as int));
        let ghost before = pieces(s@.take(i as int));
        let c = s[i];
        if c == '.' || c == '!' || c == '?' {
            let ghost views = text_views(list@);
            list.push(string_of(&piece));
            assert(text_views(list@) =~= views.push(piece@));
            piece = Vec::new();
        } else {
            assert(before.update(before.len() - 1, before.last().push(c)) =~= text_views(list@).push(
                piece@.push(c),
            ));
            piece.push(c);
        }
        i += 1;
    }
    assert(s@.take(i as int) =~= s@);
    let ghost views = text_views(list@);
    list.push(string_of(&piece));
    assert(text_views(list@) =~= views.push(piece@));
    list
}

/// The expression strewn into piece `i`.
fn expression_for(i: usize) -> (e: &'static str)
    ensures
        e@ == expression(i as int),
{
    let k = i % 5;
    if k == 0 {
        " uwu "
    } else if k == 1 {
        " owo "
    } else if k == 2 {
        " >w< "
    } else if k == 3 {
        " ^w^ "
    } else {
        " (>ω<) "
    }
}

/// Appends the characters of `text`.
fn push_text(out: &mut Vec<char>, text: &str)
    ensures
        final(out)@ == old(out)@ + text@,
{
    let letters = chars_of(text);
    let mut k: usize = 0;
    while k < letters.len()
        invariant
            k <= letters.len(),
            letters@ == text@,
            out@ == old(out)@ + text@.take(k as int),
        decreases letters.len() - k,
    {
        out.push(letters[k]);
        k += 1;
        assert(out@ =~= old(out)@ + text@.take(k as int));
    }
    assert(text@.take(k as int) =~= text@);
}

/// Makes piece `i` a sentence; see [`sentence`].
fn make_sentence(piece: &str, i: usize) -> (r: String)
    ensures
        r@ == sentence(piece@, i as int),
{
    let t = trim(piece);
    if piece.len() > LONG_SENTENCE && i % 2 == 0 {
        let list = split_words(t.as_str());
        if list.len() > 3 {
            let mid = list.len() / 2;
            let mut out: Vec<char> = Vec::new();
            push_joined(&mut out, &list, 0, mid, " ");
            push_text(&mut out, expression_for(i));
            push_joined(&mut out, &list, mid, list.len(), " ");
            assert(out@ =~= sentence(piece@, i as int));
            return string_of(&out);
        }
    }
    t
}

/// Writes `text` softened; see [`uwu_text`].
pub fn uwuify(text: &str) -> (r: String)
    ensures
        r@ == uwu_text(text@),
{
    let soft = soften(text);
    let list = cut(&soft);
    let mut made: Vec<String> = Vec::new();
    let mut i: usize = 0;
    while i < list.len()
        invariant
            i <= list.len(),
            text_views(made@) == sentences(text_views(list@), i as int),
        decreases list.len() - i,
    {
        let piece = list[i].as_str();
        if trim(piece).as_str().unicode_len() > 0 {
            let ghost views = text_views(made@);
            let s = make_sentence(piece, i);
            made.push(s);
            assert(text_views(made@) =~= views.push(sentence(piece@, i as int)));
        }
        i += 1;
    }
    let mut all: Vec<char> = Vec::new();
    push_joined(&mut all, &made, 0, made.len(), ". ");
    assert(text_views(made@).subrange(0, made@.len() as int) =~= text_views(made@));
    assert(all@ =~= joined_with(text_views(made@), ". "@, made@.len() as int));
    if all.len() == 0 {
        return String::new();
    }
    let whole = string_of(&all);
    let mut closed = chars_of(trim(whole.as_str()).as_str());
    if !ends_with(&closed, "uwu") && !ends_with(&closed, "owo") && !ends_with(&closed, ">w<") {
        push_text(&mut closed, " uwu");
    }
    string_of(&closed)
}

} // verus!
