//! The three games as one type: a session of any kind holds one of them,
//! and a move is applied to whichever it is.

use crate::hangman::{GuessResult as LetterResult, HangmanGame, HangmanView};
use crate::number_guess::{GuessResult as NumberResult, NumberGame, NumberView};
use crate::tictactoe::{GameView, TicTacToeGame, TurnError, TurnReport};
use vstd::prelude::*;

verus! {

/// The kinds of game. An owner has at most one session of each.
#[derive(Clone, Copy, PartialEq, Eq, Structural, Debug)]
pub enum GameKind {
    TicTacToe,
    Hangman,
    NumberGuess,
}

/// The state of a game of any kind.
#[derive(Debug)]
pub enum GameState {
    TicTacToe(TicTacToeGame),
    Hangman(HangmanGame),
    NumberGuess(NumberGame),
}

/// A move in a game of some kind.
#[derive(Clone, Copy, PartialEq, Eq, Structural, Debug)]
pub enum GameMove {
    /// `user` marks the square `position` of the board.
    Mark { user: u64, position: usize },
    /// The letter is guessed.
    Letter(char),
    /// The number is guessed.
    Number(u32),
}

/// What a move led to.
#[derive(Clone, Copy, PartialEq, Eq, Debug)]
pub enum MoveReport {
    TicTacToe(Result<TurnReport, TurnError>),
    Hangman(LetterResult),
    NumberGuess(NumberResult),
    /// The move belongs to another kind of game.
    WrongGame,
}

/// The state of a game as contracts see it.
pub enum StateView {
    TicTacToe(GameView),
    Hangman(HangmanView),
    NumberGuess(NumberView),
}

impl View for GameState {
    type V = StateView;

    open spec fn view(&self) -> StateView {
        match self {
            GameState::TicTacToe(g) => StateView::TicTacToe(g@),
            GameState::Hangman(g) => StateView::Hangman(g@),
            GameState::NumberGuess(g) => StateView::NumberGuess(g@),
        }
    }
}

/// The game after a move, and what the move led to. A move of another kind
/// than the game changes nothing; any other is taken by the rules of the
/// game.
pub open spec fn applied(state: StateView, a_move: GameMove) -> (StateView, MoveReport) {
    match (state, a_move) {
        (StateView::TicTacToe(g), GameMove::Mark { user, position }) => {
            let (after, report) = crate::tictactoe::turn(g, user, position as int);
            (StateView::TicTacToe(after), MoveReport::TicTacToe(report))
        },
        (StateView::Hangman(g), GameMove::Letter(letter)) => {
            let (after, result) = crate::hangman::guess(g, letter);
            (StateView::Hangman(after), MoveReport::Hangman(result))
        },
        (StateView::NumberGuess(g), GameMove::Number(number)) => {
            let (after, result) = crate::number_guess::guess(g, number);
            (StateView::NumberGuess(after), MoveReport::NumberGuess(result))
        },
        _ => (state, MoveReport::WrongGame),
    }
}

impl GameState {
    /// The games inside are sound.
    pub open spec fn wf(&self) -> bool {
        match self {
            GameState::TicTacToe(_) => true,
            GameState::Hangman(g) => g.wf(),
            GameState::NumberGuess(g) => g.wf(),
        }
    }

    /// The kind of the game.
    pub fn kind(&self) -> (k: GameKind)
        ensures
            k == (match self@ {
                StateView::TicTacToe(_) => GameKind::TicTacToe,
                StateView::Hangman(_) => GameKind::Hangman,
                StateView::NumberGuess(_) => GameKind::NumberGuess,
            }),
    {
        match self {
            GameState::TicTacToe(_) => GameKind::TicTacToe,
            GameState::Hangman(_) => GameKind::Hangman,
            GameState::NumberGuess(_) => GameKind::NumberGuess,
        }
    }

    /// Applies a move to the game; see [`applied`].
    pub fn apply_move(&mut self, a_move: GameMove) -> (report: MoveReport)
        requires
            old(self).wf(),
        ensures
            final(self).wf(),
            (final(self)@, report) == applied(old(self)@, a_move),
    {
        match self {
            GameState::TicTacToe(game) => match a_move {
                GameMove::Mark { user, position } => MoveReport::TicTacToe(
                    game.take_turn(user, position),
                ),
                _ => MoveReport::WrongGame,
            },
            GameState::Hangman(game) => match a_move {
                GameMove::Letter(letter) => MoveReport::Hangman(game.guess_letter(letter)),
                _ => MoveReport::WrongGame,
            },
            GameState::NumberGuess(game) => match a_move {
                GameMove::Number(number) => MoveReport::NumberGuess(game.make_guess(number)),
                _ => MoveReport::WrongGame,
            },
        }
    }
}

} // verus!
