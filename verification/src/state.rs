//! The state of the whole bot, built once by the application and handed to
//! every command: the registries of the three games, the schedules and the
//! reminders.

use crate::hangman::{parlor_inv, HangmanGame};
use crate::number_guess::{arcade_inv, NumberGame};
use crate::reminder::RemindersData;
use crate::schedule::ScheduleData;
use crate::session::SessionStore;
use crate::tictactoe::{lobby_inv, TicTacToeGame};
use vstd::prelude::*;

verus! {

/// Everything the commands share.
pub struct Data {
    pub tictactoe: SessionStore<TicTacToeGame>,
    pub hangman: SessionStore<HangmanGame>,
    pub numbers: SessionStore<NumberGame>,
    pub parking: ScheduleData,
    pub reminders: RemindersData,
}

impl Data {
    /// Every registry is sound and holds only games that its rules allow
    /// to go on, and no owner has two profiles or schedules.
    pub open spec fn wf(&self) -> bool {
        &&& self.tictactoe.wf()
        &&& lobby_inv(self.tictactoe@)
        &&& self.hangman.wf()
        &&& parlor_inv(self.hangman@)
        &&& self.numbers.wf()
        &&& arcade_inv(self.numbers@)
        &&& self.parking.wf()
    }

    /// The state at start: no game, no profile, no schedule, no reminder.
    pub fn new() -> (d: Self)
        ensures
            d.wf(),
            d.tictactoe@.dom() == Set::<u64>::empty(),
            d.hangman@.dom() == Set::<u64>::empty(),
            d.numbers@.dom() == Set::<u64>::empty(),
            d.parking@.profiles.len() == 0,
            d.parking@.schedules.len() == 0,
            d.reminders@.reminders.len() == 0,
            d.reminders@.next_id == 1,
    {
        Data {
            tictactoe: SessionStore::new(),
            hangman: SessionStore::new(),
            numbers: SessionStore::new(),
            parking: ScheduleData::new(),
            reminders: RemindersData::new(),
        }
    }
}

} // verus!
