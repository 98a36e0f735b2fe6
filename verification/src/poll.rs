//! Reading a poll: a question, closed by a question mark, then the options
//! to vote on.

use crate::text::{chars_of, split_words, string_of, text_views, trim, trimmed, words};
use vstd::prelude::*;
use vstd::string::StrSliceExecFns;

verus! {

/// The most options a poll can have.
pub const MAX_OPTIONS: usize = 10;

/// A poll.
#[derive(Debug)]
pub struct Poll {
    pub question: String,
    pub options: Vec<String>,
}

/// A poll as contracts see it.
pub struct PollView {
    pub question: Seq<char>,
    pub options: Seq<Seq<char>>,
}

impl View for Poll {
    type V = PollView;

    open spec fn view(&self) -> PollView {
        PollView { question: self.question@, options: text_views(self.options@) }
    }
}

/// Why a text is no poll.
#[derive(Clone, Copy, PartialEq, Eq, Structural, Debug)]
pub enum PollError {
    /// The text is empty but for white space.
    Empty,
    /// There is no question mark.
    MissingQuestionMark,
    /// Nothing but white space stands before the question mark.
    EmptyQuestion,
    /// Nothing but white space stands after the question mark.
    NoOptions,
    /// There are more than [`MAX_OPTIONS`] options.
    TooManyOptions,
}

/// The place of the first question mark at or after `from`.
pub open spec fn question_mark_from(s: Seq<char>, from: int) -> Option<int>
    decreases s.len() - from,
{
    if from < 0 || from >= s.len() {
        None
    } else if s[from] == '?' {
        Some(from)
    } else {
        question_mark_from(s, from + 1)
    }
}

/// The poll that a text states. What stands before the first question
/// mark, trimmed, is the question; the words after it are the options.
pub open spec fn parsed(input: Seq<char>) -> Result<PollView, PollError> {
    if trimmed(input).len() == 0 {
        Err(PollError::Empty)
    } else {
        match question_mark_from(input, 0) {
            None => Err(PollError::MissingQuestionMark),
            Some(k) => {
                let question = trimmed(input.subrange(0, k));
                let options = words(trimmed(input.subrange(k + 1, input.len() as int)));
                if question.len() == 0 {
                    Err(PollError::EmptyQuestion)
                } else if options.len() == 0 {
                    Err(PollError::NoOptions)
                } else if options.len() > MAX_OPTIONS {
                    Err(PollError::TooManyOptions)
                } else {
                    Ok(PollView { question, options })
                }
            },
        }
    }
}

/// Reads a poll of the form `question? option option ...`; see [`parsed`].
pub fn parse_poll(input: &str) -> (r: Result<Poll, PollError>)
    ensures
        match parsed(input@) {
            Ok(v) => r matches Ok(poll) && poll@ == v,
            Err(e) => r matches Err(f) && f == e,
        },
{
    if trim(input).as_str().unicode_len() == 0 {
        return Err(PollError::Empty);
    }
    let letters = chars_of(input);
    let mut k: usize = letters.len();
    let mut found: Option<usize> = None;
    while k > 0
        invariant
            k <= letters.len(),
            letters@ == input@,
            found matches Some(m) ==> question_mark_from(input@, k as int) == Some(m as int) && m
                < letters.len(),
            found is None ==> question_mark_from(input@, k as int) is None,
        decreases k,
    {
        k -= 1;
        if letters[k] == '?' {
            found = Some(k);
        }
    }
    let mark = match found {
        None => {
            return Err(PollError::MissingQuestionMark);
        },
        Some(m) => m,
    };
    let mut head: Vec<char> = Vec::new();
    let mut tail: Vec<char> = Vec::new();
    let mut i: usize = 0;
    while i < letters.len()
        invariant
            i <= letters.len(),
            mark < letters.len(),
            letters@ == input@,
            head@ == input@.subrange(0, if i <= mark { i as int } else { mark as int }),
            tail@ == input@.subrange(mark + 1, if i <= mark { mark + 1 } else { i as int }),
        decreases letters.len() - i,
    {
        if i < mark {
            head.push(letters[i]);
            assert(head@ =~= input@.subrange(0, i + 1));
        } else if i > mark {
            tail.push(letters[i]);
            assert(tail@ =~= input@.subrange(mark + 1, i + 1));
        }
        i += 1;
    }
    let before = string_of(&head);
    let after = string_of(&tail);
    let question = trim(before.as_str());
    if question.as_str().unicode_len() == 0 {
        return Err(PollError::EmptyQuestion);
    }
    let options = split_words(trim(after.as_str()).as_str());
    if options.len() == 0 {
        return Err(PollError::NoOptions);
    }
    if options.len() > MAX_OPTIONS {
        return Err(PollError::TooManyOptions);
    }
    Ok(Poll { question, options })
}

} // verus!
