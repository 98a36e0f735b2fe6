//! Hangman: a word to uncover letter by letter, with six wrong guesses to
//! spare.

use crate::chance::random_between;
use crate::session::{model_end, model_set, model_start, Entry, SessionStore};
use crate::text::{
    alphabetic, chars_of, decimal_text, is_space, letter_mask, mark_letters, push_decimal,
    string_of, to_upper_first, trim, trimmed, upper_first, upper_text, whitespace,
};
use vstd::prelude::*;
use vstd::string::StringExecFns;
use vstd::string::StrSliceExecFns;

verus! {

/// What a guess led to.
#[derive(Clone, Copy, PartialEq, Eq, Structural, Debug)]
pub enum GuessResult {
    /// The letter is in the word; it occurs this many times.
    Correct(usize),
    /// The letter is not in the word.
    Wrong,
    /// The letter was guessed before, rightly or wrongly.
    AlreadyGuessed,
    /// The character is no letter.
    InvalidInput,
}

/// A game as contracts see it.
pub struct HangmanView {
    /// The word to guess, in upper case.
    pub word: Seq<char>,
    /// For each character of the word, whether it is a letter to be found.
    pub letters: Seq<bool>,
    /// The letters of the word found so far.
    pub guessed: Set<char>,
    /// The letters guessed wrongly, in the order of the guesses.
    pub wrong: Seq<char>,
    /// How many wrong guesses lose the game.
    pub max_wrong: nat,
    pub category: Seq<char>,
}

/// How many wrong guesses lose a game.
pub const MAX_WRONG_GUESSES: usize = 6;

/// How many times `c` occurs in `word`.
pub open spec fn count_of(word: Seq<char>, c: char) -> nat
    decreases word.len(),
{
    if word.len() == 0 {
        0
    } else {
        count_of(word.drop_last(), c) + if word.last() == c {
            1nat
        } else {
            0nat
        }
    }
}

/// How many of the first `n` characters of the word are letters.
pub open spec fn letter_count(v: HangmanView, n: int) -> nat
    decreases n,
{
    if n <= 0 {
        0
    } else {
        letter_count(v, n - 1) + if v.letters[n - 1] {
            1nat
        } else {
            0nat
        }
    }
}

/// How many of the first `n` characters of the word are letters that have
/// been found.
pub open spec fn found_count(v: HangmanView, n: int) -> nat
    decreases n,
{
    if n <= 0 {
        0
    } else {
        found_count(v, n - 1) + if v.letters[n - 1] && v.guessed.contains(v.word[n - 1]) {
            1nat
        } else {
            0nat
        }
    }
}

/// Every letter of the word has been found.
pub open spec fn word_guessed(v: HangmanView) -> bool {
    forall|i: int| 0 <= i < v.word.len() && v.letters[i] ==> v.guessed.contains(#[trigger] v.word[i])
}

/// The wrong guesses have reached the limit.
pub open spec fn game_over(v: HangmanView) -> bool {
    v.wrong.len() >= v.max_wrong
}

/// No wrongly guessed letter occurs in the word.
pub open spec fn consistent(v: HangmanView) -> bool {
    forall|i: int| 0 <= i < v.wrong.len() ==> !v.word.contains(#[trigger] v.wrong[i])
}

/// One guess of the character `l`, given whether it is a letter. What is
/// no letter is invalid; a letter guessed before is refused; either leaves
/// the game as it was. A letter of the word is found, with the number of its
/// occurrences; any other letter joins the wrong guesses.
pub open spec fn taken(v: HangmanView, l: char, is_letter: bool) -> (HangmanView, GuessResult) {
    if !is_letter {
        (v, GuessResult::InvalidInput)
    } else if v.guessed.contains(l) || v.wrong.contains(l) {
        (v, GuessResult::AlreadyGuessed)
    } else if v.word.contains(l) {
        (
            HangmanView { guessed: v.guessed.insert(l), ..v },
            GuessResult::Correct(count_of(v.word, l) as usize),
        )
    } else {
        (HangmanView { wrong: v.wrong.push(l), ..v }, GuessResult::Wrong)
    }
}

/// One guess as the player makes it: the character is taken in upper case,
/// and is a letter if the standard library holds it to be alphabetic.
pub open spec fn guess(v: HangmanView, letter: char) -> (HangmanView, GuessResult) {
    taken(v, upper_first(letter), alphabetic(upper_first(letter)))
}

/// The game after the guesses `letters`, made in order.
pub open spec fn play_all(v: HangmanView, letters: Seq<char>) -> HangmanView
    decreases letters.len(),
{
    if letters.len() == 0 {
        v
    } else {
        play_all(guess(v, letters[0]).0, letters.drop_first())
    }
}

/// How character `i` of the word is shown: a letter in bold once found,
/// a bold blank until then; anything else as it is.
pub open spec fn shown(v: HangmanView, i: int) -> Seq<char> {
    let c = v.word[i];
    if v.letters[i] {
        if v.guessed.contains(c) {
            seq!['*', '*', c, '*', '*']
        } else {
            seq!['*', '*', '_', '*', '*']
        }
    } else {
        seq![c]
    }
}

/// The first `n` characters of the word as shown, with a space between
/// them.
pub open spec fn word_text(v: HangmanView, n: int) -> Seq<char>
    decreases n,
{
    if n <= 0 {
        Seq::empty()
    } else if n == 1 {
        shown(v, 0)
    } else {
        word_text(v, n - 1) + seq![' '] + shown(v, n - 1)
    }
}

/// The first `n` of `letters`, with a comma and a space between them.
pub open spec fn joined(letters: Seq<char>, n: int) -> Seq<char>
    decreases n,
{
    if n <= 0 {
        Seq::empty()
    } else if n == 1 {
        seq![letters[0]]
    } else {
        joined(letters, n - 1) + seq![',', ' ', letters[n - 1]]
    }
}

pub open spec fn strictly_increasing(s: Seq<char>) -> bool {
    forall|i: int, j: int| 0 <= i < j < s.len() ==> s[i] < s[j]
}

/// `listing` names each member of `set` once, in increasing order.
pub open spec fn lists(listing: Seq<char>, set: Set<char>) -> bool {
    &&& strictly_increasing(listing)
    &&& forall|c: char| listing.contains(c) <==> set.contains(c)
}

/// The line on how far the player is.
pub open spec fn progress_text(v: HangmanView) -> Seq<char> {
    "📊 **Progress:** "@ + decimal_text(found_count(v, v.word.len() as int)) + seq!['/']
        + decimal_text(letter_count(v, v.word.len() as int)) + " letters | **Wrong:** "@ + decimal_text(
        v.wrong.len(),
    ) + seq!['/'] + decimal_text(v.max_wrong) + " | **Category:** "@ + v.category
}

/// The lines on what was guessed: the letters found, as `found` lists
/// them, then the wrong guesses. A line is left out while it would be empty.
pub open spec fn guessed_text(found: Seq<char>, wrong: Seq<char>) -> Seq<char> {
    (if found.len() > 0 {
        "✅ **Correct:** "@ + joined(found, found.len() as int) + seq!['\n']
    } else {
        Seq::empty()
    }) + (if wrong.len() > 0 {
        "❌ **Wrong:** "@ + joined(wrong, wrong.len() as int)
    } else {
        Seq::empty()
    })
}

/// The gallows after `wrong` wrong guesses; from the sixth on the figure is
/// complete.
pub open spec fn gallows(wrong: nat) -> Seq<char> {
    if wrong == 0 {
        "```\n  +---+\n  |   |\n      |\n      |\n      |\n      |\n=========\n```"@
    } else if wrong == 1 {
        "```\n  +---+\n  |   |\n  O   |\n      |\n      |\n      |\n=========\n```"@
    } else if wrong == 2 {
        "```\n  +---+\n  |   |\n  O   |\n  |   |\n      |\n      |\n=========\n```"@
    } else if wrong == 3 {
        "```\n  +---+\n  |   |\n  O   |\n /|   |\n      |\n      |\n=========\n```"@
    } else if wrong == 4 {
        "```\n  +---+\n  |   |\n  O   |\n /|\\  |\n      |\n      |\n=========\n```"@
    } else if wrong == 5 {
        "```\n  +---+\n  |   |\n  O   |\n /|\\  |\n /    |\n      |\n=========\n```"@
    } else {
        "```\n  +---+\n  |   |\n  O   |\n /|\\  |\n / \\  |\n      |\n=========\n```"@
    }
}

/// A new game on the word `word`, of whose characters `letters` says
/// which are letters.
pub open spec fn beginning(word: Seq<char>, letters: Seq<bool>, category: Seq<char>) -> HangmanView {
    HangmanView {
        word,
        letters,
        guessed: Set::empty(),
        wrong: Seq::empty(),
        max_wrong: MAX_WRONG_GUESSES as nat,
        category,
    }
}

/// A new game on `word` as the player names it: the word is taken in upper
/// case, and its letters are what the standard library holds to be
/// alphabetic.
pub open spec fn opening(word: Seq<char>, category: Seq<char>) -> HangmanView {
    HangmanView {
        word: upper_text(word),
        letters: letter_mask(upper_text(word)),
        guessed: Set::empty(),
        wrong: Seq::empty(),
        max_wrong: MAX_WRONG_GUESSES as nat,
        category,
    }
}

/// How many words the table holds.
pub const WORD_COUNT: usize = 44;

/// The table of words to guess, each with its category.
pub open spec fn table_entry(index: int) -> (Seq<char>, Seq<char>) {
    if index == 0 {
        ("RUST"@, "Programming Language"@)
    } else if index == 1 {
        ("PYTHON"@, "Programming Language"@)
    } else if index == 2 {
        ("JAVASCRIPT"@, "Programming Language"@)
    } else if index == 3 {
        ("FUNCTION"@, "Programming Concept"@)
    } else if index == 4 {
        ("VARIABLE"@, "Programming Concept"@)
    } else if index == 5 {
        ("LOOP"@, "Programming Concept"@)
    } else if index == 6 {
        ("ARRAY"@, "Data Structure"@)
    } else if index == 7 {
        ("STRUCT"@, "Programming Concept"@)
    } else if index == 8 {
        ("ENUM"@, "Programming Concept"@)
    } else if index == 9 {
        ("TRAIT"@, "Programming Concept"@)
    } else if index == 10 {
        ("VECTOR"@, "Data Structure"@)
    } else if index == 11 {
        ("HASHMAP"@, "Data Structure"@)
    } else if index == 12 {
        ("ITERATOR"@, "Programming Concept"@)
    } else if index == 13 {
        ("CLOSURE"@, "Programming Concept"@)
    } else if index == 14 {
        ("OWNERSHIP"@, "Rust Concept"@)
    } else if index == 15 {
        ("BORROWING"@, "Rust Concept"@)
    } else if index == 16 {
        ("LIFETIME"@, "Rust Concept"@)
    } else if index == 17 {
        ("MEMORY"@, "Computer Science"@)
    } else if index == 18 {
        ("ALGORITHM"@, "Computer Science"@)
    } else if index == 19 {
        ("RECURSION"@, "Programming Concept"@)
    } else if index == 20 {
        ("INHERITANCE"@, "Programming Concept"@)
    } else if index == 21 {
        ("POLYMORPHISM"@, "Programming Concept"@)
    } else if index == 22 {
        ("ENCAPSULATION"@, "Programming Concept"@)
    } else if index == 23 {
        ("ABSTRACTION"@, "Programming Concept"@)
    } else if index == 24 {
        ("DISCORD"@, "Platform"@)
    } else if index == 25 {
        ("CHANNEL"@, "Discord Feature"@)
    } else if index == 26 {
        ("SERVER"@, "Technology"@)
    } else if index == 27 {
        ("MESSAGE"@, "Communication"@)
    } else if index == 28 {
        ("REACTION"@, "Discord Feature"@)
    } else if index == 29 {
        ("EMOJI"@, "Communication"@)
    } else if index == 30 {
        ("MODERATOR"@, "Role"@)
    } else if index == 31 {
        ("ADMINISTRATOR"@, "Role"@)
    } else if index == 32 {
        ("COMMAND"@, "Bot Feature"@)
    } else if index == 33 {
        ("PREFIX"@, "Bot Feature"@)
    } else if index == 34 {
        ("CHALLENGE"@, "General"@)
    } else if index == 35 {
        ("ADVENTURE"@, "General"@)
    } else if index == 36 {
        ("DISCOVERY"@, "General"@)
    } else if index == 37 {
        ("CREATIVITY"@, "General"@)
    } else if index == 38 {
        ("KNOWLEDGE"@, "General"@)
    } else if index == 39 {
        ("WISDOM"@, "General"@)
    } else if index == 40 {
        ("LEARNING"@, "General"@)
    } else if index == 41 {
        ("PRACTICE"@, "General"@)
    } else if index == 42 {
        ("PATIENCE"@, "General"@)
    } else {
        ("PERSEVERANCE"@, "General"@)
    }
}

/// Entry `index` of the table.
pub fn word_at(index: usize) -> (e: (&'static str, &'static str))
    requires
        index < WORD_COUNT,
    ensures
        (e.0@, e.1@) == table_entry(index as int),
{
    if index == 0 {
        ("RUST", "Programming Language")
    } else if index == 1 {
        ("PYTHON", "Programming Language")
    } else if index == 2 {
        ("JAVASCRIPT", "Programming Language")
    } else if index == 3 {
        ("FUNCTION", "Programming Concept")
    } else if index == 4 {
        ("VARIABLE", "Programming Concept")
    } else if index == 5 {
        ("LOOP", "Programming Concept")
    } else if index == 6 {
        ("ARRAY", "Data Structure")
    } else if index == 7 {
        ("STRUCT", "Programming Concept")
    } else if index == 8 {
        ("ENUM", "Programming Concept")
    } else if index == 9 {
        ("TRAIT", "Programming Concept")
    } else if index == 10 {
        ("VECTOR", "Data Structure")
    } else if index == 11 {
        ("HASHMAP", "Data Structure")
    } else if index == 12 {
        ("ITERATOR", "Programming Concept")
    } else if index == 13 {
        ("CLOSURE", "Programming Concept")
    } else if index == 14 {
        ("OWNERSHIP", "Rust Concept")
    } else if index == 15 {
        ("BORROWING", "Rust Concept")
    } else if index == 16 {
        ("LIFETIME", "Rust Concept")
    } else if index == 17 {
        ("MEMORY", "Computer Science")
    } else if index == 18 {
        ("ALGORITHM", "Computer Science")
    } else if index == 19 {
        ("RECURSION", "Programming Concept")
    } else if index == 20 {
        ("INHERITANCE", "Programming Concept")
    } else if index == 21 {
        ("POLYMORPHISM", "Programming Concept")
    } else if index == 22 {
        ("ENCAPSULATION", "Programming Concept")
    } else if index == 23 {
        ("ABSTRACTION", "Programming Concept")
    } else if index == 24 {
        ("DISCORD", "Platform")
    } else if index == 25 {
        ("CHANNEL", "Discord Feature")
    } else if index == 26 {
        ("SERVER", "Technology")
    } else if index == 27 {
        ("MESSAGE", "Communication")
    } else if index == 28 {
        ("REACTION", "Discord Feature")
    } else if index == 29 {
        ("EMOJI", "Communication")
    } else if index == 30 {
        ("MODERATOR", "Role")
    } else if index == 31 {
        ("ADMINISTRATOR", "Role")
    } else if index == 32 {
        ("COMMAND", "Bot Feature")
    } else if index == 33 {
        ("PREFIX", "Bot Feature")
    } else if index == 34 {
        ("CHALLENGE", "General")
    } else if index == 35 {
        ("ADVENTURE", "General")
    } else if index == 36 {
        ("DISCOVERY", "General")
    } else if index == 37 {
        ("CREATIVITY", "General")
    } else if index == 38 {
        ("KNOWLEDGE", "General")
    } else if index == 39 {
        ("WISDOM", "General")
    } else if index == 40 {
        ("LEARNING", "General")
    } else if index == 41 {
        ("PRACTICE", "General")
    } else if index == 42 {
        ("PATIENCE", "General")
    } else {
        ("PERSEVERANCE", "General")
    }
}

/// A game of Hangman.
#[derive(Debug)]
pub struct HangmanGame {
    word: Vec<char>,
    /// For each character of the word, whether it is a letter.
    letters: Vec<bool>,
    /// Kept in increasing order, each letter once.
    guessed_letters: Vec<char>,
    wrong_guesses: Vec<char>,
    max_wrong_guesses: usize,
    category: String,
}

impl View for HangmanGame {
    type V = HangmanView;

    closed spec fn view(&self) -> HangmanView {
        HangmanView {
            word: self.word@,
            letters: self.letters@,
            guessed: Set::new(|c: char| self.guessed_letters@.contains(c)),
            wrong: self.wrong_guesses@,
            max_wrong: self.max_wrong_guesses as nat,
            category: self.category@,
        }
    }
}

/// Whether `c` is among `v`.
fn holds(v: &Vec<char>, c: char) -> (b: bool)
    ensures
        b == v@.contains(c),
{
    let mut i: usize = 0;
    while i < v.len()
        invariant
            i <= v.len(),
            forall|j: int| 0 <= j < i ==> v@[j] != c,
        decreases v.len() - i,
    {
        if v[i] == c {
            return true;
        }
        i += 1;
    }
    false
}

/// Adds `c` to the increasing list `v`, which does not hold it yet.
fn insert_in_order(v: &mut Vec<char>, c: char)
    requires
        strictly_increasing(old(v)@),
        !old(v)@.contains(c),
    ensures
        strictly_increasing(final(v)@),
        forall|x: char| final(v)@.contains(x) <==> (x == c || old(v)@.contains(x)),
        final(v)@.len() == old(v)@.len() + 1,
{
    let mut i: usize = 0;
    while i < v.len() && v[i] < c
        invariant
            i <= v.len(),
            *v == *old(v),
            forall|j: int| 0 <= j < i ==> v@[j] < c,
        decreases v.len() - i,
    {
        i += 1;
    }
    v.insert(i, c);
    proof {
        let before = old(v)@;
        let after = v@;
        assert(after == before.insert(i as int, c));
        assert forall|a: int, b: int| 0 <= a < b < after.len() implies after[a] < after[b] by {
            if a < i && b == i {
            } else if a < i && b > i {
                assert(after[b] == before[b - 1]);
            } else if a == i {
                assert(after[b] == before[b - 1]);
                assert(before[i as int] != c) by {
                    assert(before.contains(before[i as int]));
                }
                assert(before[i as int] <= before[b - 1]);
            } else if a > i {
                assert(after[a] == before[a - 1]);
                assert(after[b] == before[b - 1]);
            }
        }
        assert forall|x: char| after.contains(x) <==> (x == c || before.contains(x)) by {
            if after.contains(x) {
                let k = choose|k: int| 0 <= k < after.len() && after[k] == x;
                if k < i {
                    assert(before[k] == x);
                } else if k > i {
                    assert(before[k - 1] == x);
                }
            }
            if x == c {
                assert(after[i as int] == c);
            }
            if before.contains(x) {
                let k = choose|k: int| 0 <= k < before.len() && before[k] == x;
                if k < i {
                    assert(after[k] == x);
                } else {
                    assert(after[k + 1] == x);
                }
            }
        }
    }
}

/// Appends the first letters of `letters`, separated by a comma and a
/// space.
fn push_joined(out: &mut String, letters: &Vec<char>)
    ensures
        final(out)@ == old(out)@ + joined(letters@, letters@.len() as int),
{
    let mut i: usize = 0;
    while i < letters.len()
        invariant
            i <= letters.len(),
            out@ == old(out)@ + joined(letters@, i as int),
        decreases letters.len() - i,
    {
        if i > 0 {
            out.push(',');
            out.push(' ');
        }
        out.push(letters[i]);
        i += 1;
        assert(out@ =~= old(out)@ + joined(letters@, i as int));
    }
}

impl HangmanGame {
    /// The representation is sound: every character of the word is marked
    /// as a letter or not, the found letters are kept in increasing order, and
    /// no wrong guess occurs in the word.
    pub closed spec fn wf(&self) -> bool {
        &&& self.letters@.len() == self.word@.len()
        &&& strictly_increasing(self.guessed_letters@)
        &&& consistent(self@)
    }

    /// What soundness means for the view.
    pub proof fn lemma_wf(&self)
        requires
            self.wf(),
        ensures
            consistent(self@),
            self@.letters.len() == self@.word.len(),
            exists|listing: Seq<char>| lists(listing, self@.guessed),
    {
        assert(lists(self.guessed_letters@, self@.guessed));
    }

    /// A game on the word `word`, of whose characters `letters` says which
    /// are letters to be found.
    pub fn from_letters(word: Vec<char>, letters: Vec<bool>, category: String) -> (g: Self)
        requires
            word@.len() == letters@.len(),
        ensures
            g.wf(),
            g@ == beginning(word@, letters@, category@),
    {
        let g = HangmanGame {
            word,
            letters,
            guessed_letters: Vec::new(),
            wrong_guesses: Vec::new(),
            max_wrong_guesses: MAX_WRONG_GUESSES,
            category,
        };
        assert(g@.guessed =~= Set::empty());
        g
    }

    /// A game on a word drawn from the table. Which word it is is left to
    /// chance.
    pub fn new() -> (g: Self)
        ensures
            g.wf(),
            exists|index: int|
                0 <= index < WORD_COUNT && g@ == opening(
                    #[trigger] table_entry(index).0,
                    table_entry(index).1,
                ),
    {
        let pick = random_between(0, (WORD_COUNT - 1) as u64);
        HangmanGame::from_table(pick as usize)
    }

    /// A game on entry `index` of the table.
    pub fn from_table(index: usize) -> (g: Self)
        requires
            index < WORD_COUNT,
        ensures
            g.wf(),
            g@ == opening(table_entry(index as int).0, table_entry(index as int).1),
    {
        let (word, category) = word_at(index);
        HangmanGame::new_with_word(word, category)
    }

    /// A game on `word`, taken in upper case.
    pub fn new_with_word(word: &str, category: &str) -> (g: Self)
        ensures
            g.wf(),
            g@ == opening(word@, category@),
    {
        let upper = word.to_uppercase();
        let word = chars_of(upper.as_str());
        let letters = mark_letters(&word);
        HangmanGame::from_letters(word, letters, String::from_str(category))
    }

    /// The word to guess.
    pub fn word(&self) -> (s: String)
        ensures
            s@ == self@.word,
    {
        string_of(&self.word)
    }

    pub fn category(&self) -> (s: String)
        ensures
            s@ == self@.category,
    {
        self.category.clone()
    }

    /// The letters found so far, in increasing order.
    pub fn guessed_letters(&self) -> (v: Vec<char>)
        requires
            self.wf(),
        ensures
            lists(v@, self@.guessed),
    {
        self.guessed_letters.clone()
    }

    /// The wrong guesses, in the order they were made.
    pub fn wrong_guesses(&self) -> (v: Vec<char>)
        ensures
            v@ == self@.wrong,
    {
        self.wrong_guesses.clone()
    }

    pub fn max_wrong_guesses(&self) -> (n: usize)
        ensures
            n == self@.max_wrong,
    {
        self.max_wrong_guesses
    }

    /// The word as shown to the player.
    pub fn display_word(&self) -> (s: String)
        requires
            self.wf(),
        ensures
            s@ == word_text(self@, self@.word.len() as int),
    {
        let mut s = String::new();
        let mut i: usize = 0;
        while i < self.word.len()
            invariant
                i <= self.word.len(),
                self.wf(),
                s@ == word_text(self@, i as int),
            decreases self.word.len() - i,
        {
            if i > 0 {
                s.push(' ');
            }
            let c = self.word[i];
            if self.letters[i] {
                s.push('*');
                s.push('*');
                if holds(&self.guessed_letters, c) {
                    s.push(c);
                } else {
                    s.push('_');
                }
                s.push('*');
                s.push('*');
            } else {
                s.push(c);
            }
            i += 1;
            assert(s@ =~= word_text(self@, i as int));
        }
        s
    }

    /// The gallows as they stand.
    pub fn display_hangman(&self) -> (s: String)
        ensures
            s@ == gallows(self@.wrong.len()),
    {
        let n = self.wrong_guesses.len();
        if n == 0 {
            String::from_str(
                "```\n  +---+\n  |   |\n      |\n      |\n      |\n      |\n=========\n```",
            )
        } else if n == 1 {
            String::from_str(
                "```\n  +---+\n  |   |\n  O   |\n      |\n      |\n      |\n=========\n```",
            )
        } else if n == 2 {
            String::from_str(
                "```\n  +---+\n  |   |\n  O   |\n  |   |\n      |\n      |\n=========\n```",
            )
        } else if n == 3 {
            String::from_str(
                "```\n  +---+\n  |   |\n  O   |\n /|   |\n      |\n      |\n=========\n```",
            )
        } else if n == 4 {
            String::from_str(
                "```\n  +---+\n  |   |\n  O   |\n /|\\  |\n      |\n      |\n=========\n```",
            )
        } else if n == 5 {
            String::from_str(
                "```\n  +---+\n  |   |\n  O   |\n /|\\  |\n /    |\n      |\n=========\n```",
            )
        } else {
            String::from_str(
                "```\n  +---+\n  |   |\n  O   |\n /|\\  |\n / \\  |\n      |\n=========\n```",
            )
        }
    }

    /// How often `c` occurs in the word.
    fn occurrences(&self, c: char) -> (n: usize)
        ensures
            n == count_of(self@.word, c),
    {
        let mut n: usize = 0;
        let mut i: usize = 0;
        while i < self.word.len()
            invariant
                i <= self.word.len(),
                n <= i,
                n == count_of(self@.word.take(i as int), c),
            decreases self.word.len() - i,
        {
            assert(self@.word.take(i + 1).drop_last() =~= self@.word.take(i as int));
            if self.word[i] == c {
                n += 1;
            }
            i += 1;
        }
        assert(self@.word.take(i as int) =~= self@.word);
        n
    }

    /// Takes one guess as the player makes it; see [`guess`].
    pub fn guess_letter(&mut self, letter: char) -> (r: GuessResult)
        requires
            old(self).wf(),
        ensures
            final(self).wf(),
            (final(self)@, r) == guess(old(self)@, letter),
    {
        let upper = to_upper_first(letter);
        self.take_letter(upper, upper.is_alphabetic())
    }

    /// Takes the guess `letter`, given whether it is a letter; see
    /// [`taken`].
    pub fn take_letter(&mut self, letter: char, is_letter: bool) -> (r: GuessResult)
        requires
            old(self).wf(),
        ensures
            final(self).wf(),
            (final(self)@, r) == taken(old(self)@, letter, is_letter),
    {
        if !is_letter {
            return GuessResult::InvalidInput;
        }
        if holds(&self.guessed_letters, letter) || holds(&self.wrong_guesses, letter) {
            return GuessResult::AlreadyGuessed;
        }
        if holds(&self.word, letter) {
            insert_in_order(&mut self.guessed_letters, letter);
            let count = self.occurrences(letter);
            assert(self@.guessed =~= old(self)@.guessed.insert(letter));
            assert(consistent(self@)) by {
                assert forall|i: int| 0 <= i < self@.wrong.len() implies !self@.word.contains(
                    #[trigger] self@.wrong[i],
                ) by {
                    assert(self@.wrong[i] == old(self)@.wrong[i]);
                }
            }
            GuessResult::Correct(count)
        } else {
            self.wrong_guesses.push(letter);
            assert(self@.guessed =~= old(self)@.guessed);
            assert(consistent(self@)) by {
                assert forall|i: int| 0 <= i < self@.wrong.len() implies !self@.word.contains(
                    #[trigger] self@.wrong[i],
                ) by {
                    if i < old(self)@.wrong.len() {
                        assert(self@.wrong[i] == old(self)@.wrong[i]);
                    }
                }
            }
            GuessResult::Wrong
        }
    }

    /// Whether every letter of the word has been found.
    pub fn is_word_guessed(&self) -> (b: bool)
        requires
            self.wf(),
        ensures
            b == word_guessed(self@),
    {
        let mut i: usize = 0;
        while i < self.word.len()
            invariant
                i <= self.word.len(),
                self.wf(),
                forall|j: int|
                    0 <= j < i && self@.letters[j] ==> self@.guessed.contains(
                        #[trigger] self@.word[j],
                    ),
            decreases self.word.len() - i,
        {
            let c = self.word[i];
            if self.letters[i] && !holds(&self.guessed_letters, c) {
                assert(self@.letters[i as int] && !self@.guessed.contains(self@.word[i as int]));
                return false;
            }
            i += 1;
        }
        true
    }

    /// Whether the wrong guesses have reached the limit.
    pub fn is_game_over(&self) -> (b: bool)
        ensures
            b == game_over(self@),
    {
        self.wrong_guesses.len() >= self.max_wrong_guesses
    }

    /// The line on how far the player is.
    pub fn get_progress_info(&self) -> (s: String)
        requires
            self.wf(),
        ensures
            s@ == progress_text(self@),
    {
        let mut total: usize = 0;
        let mut found: usize = 0;
        let mut i: usize = 0;
        while i < self.word.len()
            invariant
                i <= self.word.len(),
                self.wf(),
                total <= i,
                found <= i,
                total == letter_count(self@, i as int),
                found == found_count(self@, i as int),
            decreases self.word.len() - i,
        {
            let c = self.word[i];
            if self.letters[i] {
                total += 1;
                if holds(&self.guessed_letters, c) {
                    found += 1;
                }
            }
            i += 1;
        }
        let mut s = String::from_str("📊 **Progress:** ");
        push_decimal(&mut s, found as u64);
        s.push('/');
        push_decimal(&mut s, total as u64);
        s.append(" letters | **Wrong:** ");
        push_decimal(&mut s, self.wrong_guesses.len() as u64);
        s.push('/');
        push_decimal(&mut s, self.max_wrong_guesses as u64);
        s.append(" | **Category:** ");
        s.append(self.category.as_str());
        assert(s@ =~= progress_text(self@));
        s
    }

    /// The lines on what was guessed so far: the letters found, in
    /// increasing order, and the wrong guesses in the order they were made.
    pub fn get_guessed_info(&self) -> (s: String)
        requires
            self.wf(),
        ensures
            exists|found: Seq<char>|
                lists(found, self@.guessed) && s@ == guessed_text(found, self@.wrong),
    {
        let mut s = String::new();
        if self.guessed_letters.len() > 0 {
            s.append("✅ **Correct:** ");
            push_joined(&mut s, &self.guessed_letters);
            s.push('\n');
        }
        if self.wrong_guesses.len() > 0 {
            s.append("❌ **Wrong:** ");
            push_joined(&mut s, &self.wrong_guesses);
        }
        assert(s@ =~= guessed_text(self.guessed_letters@, self@.wrong));
        assert(lists(self.guessed_letters@, self@.guessed));
        s
    }
}

/// What a hint tells of a game.
#[derive(Clone, Copy, PartialEq, Eq, Structural, Debug)]
pub struct HintStats {
    /// How many bytes the word takes.
    pub length: usize,
    /// How many different letters the word has.
    pub unique_letters: usize,
    /// How many different vowels, of A, E, I, O and U, the word has.
    pub vowels: usize,
    /// How many letters have been found.
    pub found: usize,
}

pub open spec fn is_vowel(c: char) -> bool {
    c == 'A' || c == 'E' || c == 'I' || c == 'O' || c == 'U'
}

/// Character `i` of `word` does not occur before `i`.
pub open spec fn first_occurrence(word: Seq<char>, i: int) -> bool {
    forall|j: int| 0 <= j < i ==> word[j] != word[i]
}

/// How many different letters are among the first `n` characters.
pub open spec fn distinct_letters(word: Seq<char>, letters: Seq<bool>, n: int) -> nat
    decreases n,
{
    if n <= 0 {
        0
    } else {
        distinct_letters(word, letters, n - 1) + if letters[n - 1] && first_occurrence(word, n - 1) {
            1nat
        } else {
            0nat
        }
    }
}

/// How many different vowels are among the first `n` characters.
pub open spec fn distinct_vowels(word: Seq<char>, n: int) -> nat
    decreases n,
{
    if n <= 0 {
        0
    } else {
        distinct_vowels(word, n - 1) + if is_vowel(word[n - 1]) && first_occurrence(word, n - 1) {
            1nat
        } else {
            0nat
        }
    }
}

impl HangmanGame {
    /// Whether character `i` of the word does not occur before `i`.
    fn is_first_occurrence(&self, i: usize) -> (r: bool)
        requires
            i < self@.word.len(),
        ensures
            r == first_occurrence(self@.word, i as int),
    {
        let mut j: usize = 0;
        while j < i
            invariant
                j <= i,
                i < self.word@.len(),
                forall|k: int| 0 <= k < j ==> self.word@[k] != self.word@[i as int],
            decreases i - j,
        {
            if self.word[j] == self.word[i] {
                return false;
            }
            j += 1;
        }
        true
    }

    /// What a hint tells: the length of the word in bytes, how many
    /// different letters and different vowels it has, and how many letters
    /// have been found.
    pub fn hint_stats(&self) -> (h: HintStats)
        requires
            self.wf(),
        ensures
            h.length == (vstd::utf8::encode_utf8(self@.word).len() as usize),
            h.unique_letters == distinct_letters(
                self@.word,
                self@.letters,
                self@.word.len() as int,
            ),
            h.vowels == distinct_vowels(self@.word, self@.word.len() as int),
            h.found == self@.guessed.len(),
            self@.guessed.finite(),
    {
        let mut unique_letters: usize = 0;
        let mut vowels: usize = 0;
        let mut i: usize = 0;
        while i < self.word.len()
            invariant
                i <= self.word.len(),
                unique_letters <= i,
                vowels <= i,
                self.wf(),
                unique_letters == distinct_letters(self@.word, self@.letters, i as int),
                vowels == distinct_vowels(self@.word, i as int),
            decreases self.word.len() - i,
        {
            let c = self.word[i];
            if self.is_first_occurrence(i) {
                if self.letters[i] {
                    unique_letters += 1;
                }
                if c == 'A' || c == 'E' || c == 'I' || c == 'O' || c == 'U' {
                    vowels += 1;
                }
            }
            i += 1;
        }
        proof {
            let listing = self.guessed_letters@;
            assert(listing.no_duplicates()) by {
                assert forall|a: int, b: int|
                    0 <= a < listing.len() && 0 <= b < listing.len() && a != b implies listing[a]
                    != listing[b] by {
                    if a < b {
                        assert(listing[a] < listing[b]);
                    } else {
                        assert(listing[b] < listing[a]);
                    }
                }
            }
            listing.unique_seq_to_set();
            assert(listing.to_set() =~= self@.guessed);
            vstd::seq_lib::seq_to_set_is_finite(listing);
        }
        HintStats {
            length: string_of(&self.word).as_str().len(),
            unique_letters,
            vowels,
            found: self.guessed_letters.len(),
        }
    }
}

/// Guessing a letter again, whatever the first guess led to, is refused and
/// changes nothing: the wrong guesses do not grow and a found letter is not
/// counted twice.
pub proof fn law_repeated_letter(v: HangmanView, letter: char)
    ensures
        ({
            let first = guess(v, letter);
            let second = guess(first.0, letter);
            &&& second.0 == first.0
            &&& second.1 == GuessResult::AlreadyGuessed || second.1 == GuessResult::InvalidInput
        }),
{
    let l = upper_first(letter);
    let first = guess(v, letter);
    if alphabetic(l) && !v.guessed.contains(l) && !v.wrong.contains(l) && !v.word.contains(l) {
        assert(first.0.wrong[v.wrong.len() as int] == l);
    }
}

/// A guess keeps the word, keeps what was found, and keeps wrong guesses
/// out of the word.
pub proof fn lemma_guess_keeps(v: HangmanView, letter: char)
    requires
        consistent(v),
    ensures
        consistent(guess(v, letter).0),
        guess(v, letter).0.word == v.word,
        guess(v, letter).0.letters == v.letters,
        guess(v, letter).0.max_wrong == v.max_wrong,
        guess(v, letter).0.category == v.category,
        forall|c: char| v.guessed.contains(c) ==> guess(v, letter).0.guessed.contains(c),
        alphabetic(upper_first(letter)) && v.word.contains(upper_first(letter)) ==> guess(
            v,
            letter,
        ).0.guessed.contains(upper_first(letter)),
{
    let l = upper_first(letter);
    if alphabetic(l) && v.word.contains(l) && v.wrong.contains(l) {
        let k = choose|k: int| 0 <= k < v.wrong.len() && v.wrong[k] == l;
        assert(!v.word.contains(v.wrong[k]));
    }
}

/// A game that is lost stays lost and a word that is found stays found:
/// no guess leads back to a game in progress.
pub proof fn law_finished_game_stays_finished(v: HangmanView, letter: char)
    ensures
        game_over(v) ==> game_over(guess(v, letter).0),
        word_guessed(v) ==> word_guessed(guess(v, letter).0),
{
    let after = guess(v, letter).0;
    if word_guessed(v) {
        assert forall|i: int| 0 <= i < after.word.len() && after.letters[i] implies after.guessed.contains(
            #[trigger] after.word[i],
        ) by {
            assert(v.guessed.contains(v.word[i]));
        }
    }
}

/// A letter of the word that was found, or is among the guesses still to
/// come, is found once they are all made.
proof fn lemma_play_all_finds(v: HangmanView, letters: Seq<char>, c: char)
    requires
        consistent(v),
        v.word.contains(c),
        alphabetic(c),
        v.guessed.contains(c) || exists|j: int|
            0 <= j < letters.len() && upper_first(#[trigger] letters[j]) == c,
    ensures
        play_all(v, letters).guessed.contains(c),
        play_all(v, letters).word == v.word,
    decreases letters.len(),
{
    if letters.len() > 0 {
        let next = guess(v, letters[0]).0;
        lemma_guess_keeps(v, letters[0]);
        if !next.guessed.contains(c) {
            let j = choose|j: int| 0 <= j < letters.len() && upper_first(#[trigger] letters[j]) == c;
            assert(j != 0);
            assert(letters.drop_first()[j - 1] == letters[j]);
        }
        lemma_play_all_finds(next, letters.drop_first(), c);
    }
}

/// The guesses made one after another never change the word.
proof fn lemma_play_all_word(v: HangmanView, letters: Seq<char>)
    requires
        consistent(v),
    ensures
        play_all(v, letters).word == v.word,
        play_all(v, letters).letters == v.letters,
    decreases letters.len(),
{
    if letters.len() > 0 {
        lemma_guess_keeps(v, letters[0]);
        lemma_play_all_word(guess(v, letters[0]).0, letters.drop_first());
    }
}

/// Once every letter of the word has been guessed, in whatever order and
/// with whatever other guesses in between, the word is found. A guess counts
/// for the letter it stands for in upper case.
pub proof fn law_all_letters_win(v: HangmanView, letters: Seq<char>)
    requires
        consistent(v),
        forall|i: int|
            0 <= i < v.word.len() && v.letters[i] ==> alphabetic(#[trigger] v.word[i]) && exists|
                j: int,
            | 0 <= j < letters.len() && upper_first(#[trigger] letters[j]) == v.word[i],
    ensures
        word_guessed(play_all(v, letters)),
{
    lemma_play_all_word(v, letters);
    let end = play_all(v, letters);
    assert forall|i: int| 0 <= i < end.word.len() && end.letters[i] implies end.guessed.contains(
        #[trigger] end.word[i],
    ) by {
        assert(alphabetic(v.word[i]));
        assert(v.word.contains(v.word[i]));
        lemma_play_all_finds(v, letters, v.word[i]);
    }
}

/// The longest custom word, in characters.
pub const MAX_CUSTOM_WORD: usize = 20;

/// Why a game could not be started.
#[derive(Clone, Copy, PartialEq, Eq, Structural, Debug)]
pub enum BeginError {
    /// The player already has a game.
    AlreadyActive,
    /// The custom word is empty or longer than [`MAX_CUSTOM_WORD`].
    WordLength,
    /// The custom word holds something other than letters and spaces.
    WordCharacters,
}

/// Why a letter could not be played.
#[derive(Clone, Copy, PartialEq, Eq, Structural, Debug)]
pub enum LetterError {
    /// The text is not a single one-byte character.
    NotOneLetter,
    /// The player has no game.
    NotFound,
}

/// What playing a letter led to.
#[derive(Clone, Copy, PartialEq, Eq, Structural, Debug)]
pub enum LetterReport {
    /// The letter was the last one missing: the game is won and over.
    Won { count: usize },
    /// The letter is in the word, `count` times.
    Found { count: usize },
    /// The wrong guesses reached the limit: the game is lost and over.
    Lost,
    /// The letter is not in the word.
    Missed,
    AlreadyGuessed,
    InvalidInput,
}

/// Only letters, as `letters` marks them, and white space.
pub open spec fn letters_and_spaces(w: Seq<char>, letters: Seq<bool>) -> bool {
    forall|i: int| 0 <= i < w.len() ==> #[trigger] letters[i] || whitespace(w[i])
}

/// Whether the word `w`, of whose characters `letters` says which are
/// letters, may be played: it must have 1 to 20 characters, all of them
/// letters or white space.
pub open spec fn word_verdict(w: Seq<char>, letters: Seq<bool>) -> Result<(), BeginError> {
    if w.len() == 0 || w.len() > MAX_CUSTOM_WORD {
        Err(BeginError::WordLength)
    } else if !letters_and_spaces(w, letters) {
        Err(BeginError::WordCharacters)
    } else {
        Ok(())
    }
}

/// Whether `word` may be played as the player names it: it is trimmed and
/// taken in upper case, its letters are what the standard library holds to
/// be alphabetic, and in that form it is checked and handed back.
pub open spec fn custom_word_verdict(word: Seq<char>) -> Result<Seq<char>, BeginError> {
    let w = upper_text(trimmed(word));
    match word_verdict(w, letter_mask(w)) {
        Ok(_) => Ok(w),
        Err(e) => Err(e),
    }
}

/// Checks a word of whose characters `letters` says which are letters; see
/// [`word_verdict`].
pub fn check_word(w: &Vec<char>, letters: &Vec<bool>) -> (r: Result<(), BeginError>)
    requires
        w@.len() == letters@.len(),
    ensures
        r == word_verdict(w@, letters@),
{
    if w.len() == 0 || w.len() > MAX_CUSTOM_WORD {
        return Err(BeginError::WordLength);
    }
    let mut i: usize = 0;
    while i < w.len()
        invariant
            i <= w.len(),
            0 < w.len() <= MAX_CUSTOM_WORD,
            w@.len() == letters@.len(),
            forall|j: int| 0 <= j < i ==> #[trigger] letters@[j] || whitespace(w@[j]),
        decreases w.len() - i,
    {
        if !letters[i] && !is_space(w[i]) {
            assert(!letters_and_spaces(w@, letters@)) by {
                assert(!(letters@[i as int] || whitespace(w@[i as int])));
            }
            return Err(BeginError::WordCharacters);
        }
        i += 1;
    }
    Ok(())
}

/// Checks a custom word as the player names it; see
/// [`custom_word_verdict`].
pub fn check_custom_word(word: &str) -> (r: Result<String, BeginError>)
    ensures
        match custom_word_verdict(word@) {
            Ok(w) => r matches Ok(s) && s@ == w,
            Err(e) => r == Err::<String, BeginError>(e),
        },
{
    let upper = trim(word).as_str().to_uppercase();
    let letters = chars_of(upper.as_str());
    let marks = mark_letters(&letters);
    match check_word(&letters, &marks) {
        Ok(()) => Ok(upper),
        Err(e) => Err(e),
    }
}

/// Whether `user` may start a game, on `custom` if a word is given.
pub open spec fn begin_verdict(
    m: Map<u64, Entry<HangmanGame>>,
    user: u64,
    custom: Option<Seq<char>>,
) -> Result<(), BeginError> {
    if m.contains_key(user) {
        Err(BeginError::AlreadyActive)
    } else {
        match custom {
            Some(w) => match custom_word_verdict(w) {
                Ok(_) => Ok(()),
                Err(e) => Err(e),
            },
            None => Ok(()),
        }
    }
}

/// Every registered game is sound and not lost: it has wrong guesses to
/// spare.
pub open spec fn parlor_inv(m: Map<u64, Entry<HangmanGame>>) -> bool {
    forall|k: u64| #[trigger] m.contains_key(k) ==> m[k].payload.wf() && !game_over(m[k].payload@)
}

pub open spec fn view_of(w: Option<&str>) -> Option<Seq<char>> {
    match w {
        Some(s) => Some(s@),
        None => None,
    }
}

/// Registers `game` for `user`, unless they have a game already.
pub fn register(store: &mut SessionStore<HangmanGame>, user: u64, game: HangmanGame) -> (r: Result<
    (),
    BeginError,
>)
    requires
        old(store).wf(),
        game.wf(),
    ensures
        final(store).wf(),
        r == (if old(store)@.contains_key(user) {
            Err::<(), BeginError>(BeginError::AlreadyActive)
        } else {
            Ok::<(), BeginError>(())
        }),
        r is Err ==> final(store)@ == old(store)@,
        r is Ok ==> final(store)@ == model_start(old(store)@, user, game),
        parlor_inv(old(store)@) && !game_over(game@) ==> parlor_inv(final(store)@),
{
    if store.contains(user) {
        return Err(BeginError::AlreadyActive);
    }
    let started = store.start(user, game);
    assert(started is Ok);
    assert(parlor_inv(old(store)@) && !game_over(game@) ==> parlor_inv(store@)) by {
        if parlor_inv(old(store)@) && !game_over(game@) {
            assert forall|k: u64| #[trigger] store@.contains_key(k) implies store@[k].payload.wf()
                && !game_over(store@[k].payload@) by {
                if k != user {
                    assert(old(store)@.contains_key(k));
                }
            }
        }
    }
    Ok(())
}

/// Starts a game for `user`: on `custom_word` if one is given and is
/// accepted, else on a word drawn from the table. A refusal registers
/// nothing.
pub fn start_game(store: &mut SessionStore<HangmanGame>, user: u64, custom_word: Option<&str>) -> (r:
    Result<(), BeginError>)
    requires
        old(store).wf(),
    ensures
        final(store).wf(),
        r == begin_verdict(old(store)@, user, view_of(custom_word)),
        r is Err ==> final(store)@ == old(store)@,
        r is Ok ==> final(store)@.contains_key(user) && final(store)@ == model_start(
            old(store)@,
            user,
            final(store)@[user].payload,
        ) && final(store)@[user].payload.wf() && (match custom_word {
            Some(w) => final(store)@[user].payload@ == opening(
                custom_word_verdict(w@)->Ok_0,
                "Custom Word"@,
            ),
            None => exists|index: int|
                0 <= index < WORD_COUNT && final(store)@[user].payload@ == opening(
                    #[trigger] table_entry(index).0,
                    table_entry(index).1,
                ),
        }),
        parlor_inv(old(store)@) ==> parlor_inv(final(store)@),
{
    if store.contains(user) {
        return Err(BeginError::AlreadyActive);
    }
    let game = match custom_word {
        Some(word) => {
            match check_custom_word(word) {
                Err(e) => {
                    return Err(e);
                },
                Ok(accepted) => HangmanGame::new_with_word(accepted.as_str(), "Custom Word"),
            }
        },
        None => HangmanGame::new(),
    };
    let started = store.start(user, game);
    assert(started is Ok);
    assert(parlor_inv(old(store)@) ==> parlor_inv(store@)) by {
        if parlor_inv(old(store)@) {
            assert forall|k: u64| #[trigger] store@.contains_key(k) implies store@[k].payload.wf()
                && !game_over(store@[k].payload@) by {
                if k != user {
                    assert(old(store)@.contains_key(k));
                }
            }
        }
    }
    Ok(())
}

/// What the player is told after a guess that left the game as `v`.
pub open spec fn report_of(v: HangmanView, result: GuessResult) -> LetterReport {
    match result {
        GuessResult::Correct(count) => if word_guessed(v) {
            LetterReport::Won { count }
        } else {
            LetterReport::Found { count }
        },
        GuessResult::Wrong => if game_over(v) {
            LetterReport::Lost
        } else {
            LetterReport::Missed
        },
        GuessResult::AlreadyGuessed => LetterReport::AlreadyGuessed,
        GuessResult::InvalidInput => LetterReport::InvalidInput,
    }
}

/// Lets `game` take the guess `letter` and hands both back.
fn take_guess(game: HangmanGame, letter: char, is_letter: bool) -> (res: (
    HangmanGame,
    GuessResult,
))
    requires
        game.wf(),
    ensures
        res.0.wf(),
        (res.0@, res.1) == taken(game@, letter, is_letter),
{
    let mut game = game;
    let result = game.take_letter(letter, is_letter);
    (game, result)
}

/// The text is a single character that takes a single byte.
pub open spec fn one_letter(text: &str) -> bool {
    text.len() == 1 && text@.len() == 1
}

/// What playing a letter in a registered game comes to, given the game
/// after the guess and the result of the guess: the report, and whether the
/// game is over and leaves the registry.
pub open spec fn played(
    m: Map<u64, Entry<HangmanGame>>,
    user: u64,
    outcome: (HangmanView, GuessResult),
    r: Result<(LetterReport, Option<HangmanGame>), LetterError>,
    after: Map<u64, Entry<HangmanGame>>,
) -> bool {
    let report = report_of(outcome.0, outcome.1);
    &&& r matches Ok((said, ended))
    &&& said == report
    &&& if report is Won || report is Lost {
        &&& ended matches Some(game)
        &&& game@ == outcome.0
        &&& game.wf()
        &&& after == model_end(m, user)
    } else {
        &&& ended is None
        &&& after.contains_key(user)
        &&& after[user].payload@ == outcome.0
        &&& after == model_set(m, user, after[user].payload)
    }
}

/// Plays the letter `text` for `user` in the game they are registered in.
///
/// `text` must be one character, one byte long, and the player must have
/// a game; else nothing changes. The guess is then taken by the game as the
/// player makes it; see [`guess`] and [`play_taken`].
pub fn play_letter(store: &mut SessionStore<HangmanGame>, user: u64, text: &str) -> (r: Result<
    (LetterReport, Option<HangmanGame>),
    LetterError,
>)
    requires
        old(store).wf(),
        parlor_inv(old(store)@),
    ensures
        final(store).wf(),
        parlor_inv(final(store)@),
        r is Err ==> final(store)@ == old(store)@,
        !one_letter(text) ==> r matches Err(LetterError::NotOneLetter),
        one_letter(text) && !old(store)@.contains_key(user) ==> r matches Err(
            LetterError::NotFound,
        ),
        one_letter(text) && old(store)@.contains_key(user) ==> played(
            old(store)@,
            user,
            guess(old(store)@[user].payload@, text@[0]),
            r,
            final(store)@,
        ),
{
    if text.len() != 1 || text.unicode_len() != 1 {
        return Err(LetterError::NotOneLetter);
    }
    let upper = to_upper_first(text.get_char(0));
    play_taken(store, user, upper, upper.is_alphabetic())
}

/// Plays the guess `letter`, given whether it is a letter, for `user` in
/// the game they are registered in; see [`taken`]. Without a game nothing
/// changes. A game that is won or lost by the guess is removed and handed
/// back; any other stays registered in its new state.
pub fn play_taken(
    store: &mut SessionStore<HangmanGame>,
    user: u64,
    letter: char,
    is_letter: bool,
) -> (r: Result<(LetterReport, Option<HangmanGame>), LetterError>)
    requires
        old(store).wf(),
        parlor_inv(old(store)@),
    ensures
        final(store).wf(),
        parlor_inv(final(store)@),
        r is Err ==> final(store)@ == old(store)@,
        !old(store)@.contains_key(user) ==> r matches Err(LetterError::NotFound),
        old(store)@.contains_key(user) ==> played(
            old(store)@,
            user,
            taken(old(store)@[user].payload@, letter, is_letter),
            r,
            final(store)@,
        ),
{
    proof {
        old(store).lemma_paired();
    }
    if !store.contains(user) {
        return Err(LetterError::NotFound);
    }
    let step = |game: HangmanGame| -> (res: (HangmanGame, GuessResult))
        requires
            game.wf(),
        ensures
            res.0.wf() && (res.0@, res.1) == taken(game@, letter, is_letter),
        { take_guess(game, letter, is_letter) };
    let taken = store.mutate(user, step);
    let result = match taken {
        Ok(result) => result,
        Err(_) => {
            assert(false);
            return Err(LetterError::NotFound);
        },
    };
    let ghost middle = store@;
    let finished = match store.get(user) {
        Some(game) => match result {
            GuessResult::Correct(_) => game.is_word_guessed(),
            GuessResult::Wrong => game.is_game_over(),
            _ => false,
        },
        None => false,
    };
    let report = match result {
        GuessResult::Correct(count) => if finished {
            LetterReport::Won { count }
        } else {
            LetterReport::Found { count }
        },
        GuessResult::Wrong => if finished {
            LetterReport::Lost
        } else {
            LetterReport::Missed
        },
        GuessResult::AlreadyGuessed => LetterReport::AlreadyGuessed,
        GuessResult::InvalidInput => LetterReport::InvalidInput,
    };
    if finished {
        let ended = store.end(user);
        assert(store@ =~= model_end(old(store)@, user));
        assert(parlor_inv(store@)) by {
            assert forall|k: u64| #[trigger] store@.contains_key(k) implies store@[k].payload.wf()
                && !game_over(store@[k].payload@) by {
                assert(middle.contains_key(k));
                assert(old(store)@.contains_key(k));
            }
        }
        Ok((report, ended))
    } else {
        assert(parlor_inv(store@)) by {
            assert forall|k: u64| #[trigger] store@.contains_key(k) implies store@[k].payload.wf()
                && !game_over(store@[k].payload@) by {
                assert(old(store)@.contains_key(k));
                assert(old(store)@.contains_key(user));
            }
        }
        Ok((report, None))
    }
}

/// A guess adds at most one wrong guess, and none unless it is reported as
/// wrong.
pub proof fn law_wrong_guesses_grow_by_one(v: HangmanView, letter: char, is_letter: bool)
    ensures
        taken(v, letter, is_letter).1 == GuessResult::Wrong ==> taken(
            v,
            letter,
            is_letter,
        ).0.wrong.len() == v.wrong.len() + 1,
        taken(v, letter, is_letter).1 != GuessResult::Wrong ==> taken(v, letter, is_letter).0.wrong
            == v.wrong,
        taken(v, letter, is_letter).0.max_wrong == v.max_wrong,
{
}

} // verus!
