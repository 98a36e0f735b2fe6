//! Session registry, turn-based game engines and a durable schedule engine
//! for a chat bot, with machine-checked contracts.

pub mod access;
pub mod chance;
pub mod clock;
pub mod dice;
pub mod facebook;
pub mod game;
pub mod hangman;
pub mod help;
pub mod invite;
pub mod mock;
pub mod number_guess;
pub mod poll;
pub mod react;
pub mod reminder;
pub mod roster;
pub mod schedule;
pub mod session;
pub mod state;
pub mod text;
pub mod tictactoe;
pub mod uwu;
pub mod vault;

pub use state::Data;
