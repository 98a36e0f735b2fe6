//! Dice and coins.

use crate::chance::random_between;
use crate::text::{decimal_text, push_decimal};
use vstd::prelude::*;
use vstd::string::StringExecFns;

verus! {

/// The sides of a die where none are named.
pub const DEFAULT_SIDES: u32 = 6;

/// The most sides a die can have.
pub const MAX_SIDES: u32 = 1000;

/// Why a die could not be rolled.
#[derive(Clone, Copy, PartialEq, Eq, Structural, Debug)]
pub enum DiceError {
    /// A die has at least one side.
    NoSides,
    /// A die has at most [`MAX_SIDES`] sides.
    TooManySides,
}

/// A roll: the sides of the die and the side that came up.
#[derive(Clone, Copy, PartialEq, Eq, Structural, Debug)]
pub struct Roll {
    pub sides: u32,
    pub result: u32,
}

/// A side of a coin.
#[derive(Clone, Copy, PartialEq, Eq, Structural, Debug)]
pub enum Coin {
    Heads,
    Tails,
}

/// Whether a die with `sides` sides, or with six where none are named, can
/// be rolled, and with how many sides.
pub open spec fn sides_verdict(sides: Option<u32>) -> Result<u32, DiceError> {
    let n = if sides is Some {
        sides->0
    } else {
        DEFAULT_SIDES
    };
    if n < 1 {
        Err(DiceError::NoSides)
    } else if n > MAX_SIDES {
        Err(DiceError::TooManySides)
    } else {
        Ok(n)
    }
}

/// The face shown for a roll: that of the die for a die of up to six
/// sides, else a plain die.
pub open spec fn face(roll: Roll) -> Seq<char> {
    if roll.sides > 6 {
        "🎲"@
    } else if roll.result == 1 {
        "⚀"@
    } else if roll.result == 2 {
        "⚁"@
    } else if roll.result == 3 {
        "⚂"@
    } else if roll.result == 4 {
        "⚃"@
    } else if roll.result == 5 {
        "⚄"@
    } else if roll.result == 6 {
        "⚅"@
    } else {
        "🎲"@
    }
}

/// The announcement of a roll by `name`. Only a die of six sides is
/// announced with its face.
pub open spec fn announcement(name: Seq<char>, roll: Roll) -> Seq<char> {
    (if roll.sides == 6 && roll.result <= 6 {
        face(roll)
    } else {
        "🎲"@
    }) + " **"@ + name + "** rolled a **"@ + decimal_text(roll.result as nat) + "** on a "@
        + decimal_text(roll.sides as nat) + "-sided dice!"@
}

/// Checks the sides of a die; see [`sides_verdict`].
pub fn check_sides(sides: Option<u32>) -> (r: Result<u32, DiceError>)
    ensures
        r == sides_verdict(sides),
{
    let n = match sides {
        Some(n) => n,
        None => DEFAULT_SIDES,
    };
    if n < 1 {
        Err(DiceError::NoSides)
    } else if n > MAX_SIDES {
        Err(DiceError::TooManySides)
    } else {
        Ok(n)
    }
}

/// Rolls a die with `sides` sides. Which side comes up is left to chance.
pub fn roll(sides: u32) -> (result: u32)
    requires
        sides >= 1,
    ensures
        1 <= result <= sides,
{
    random_between(1, sides as u64) as u32
}

/// Rolls a die with `sides` sides, or with six where none are named.
/// Refused for a die without sides or with too many.
pub fn roll_dice(sides: Option<u32>) -> (r: Result<Roll, DiceError>)
    ensures
        match sides_verdict(sides) {
            Ok(n) => r matches Ok(rolled) && rolled.sides == n && 1 <= rolled.result <= n,
            Err(e) => r == Err::<Roll, DiceError>(e),
        },
{
    match check_sides(sides) {
        Ok(n) => Ok(Roll { sides: n, result: roll(n) }),
        Err(e) => Err(e),
    }
}

/// The face shown for a roll; see [`face`].
pub fn dice_face(rolled: Roll) -> (s: &'static str)
    ensures
        s@ == face(rolled),
{
    if rolled.sides > 6 {
        "🎲"
    } else if rolled.result == 1 {
        "⚀"
    } else if rolled.result == 2 {
        "⚁"
    } else if rolled.result == 3 {
        "⚂"
    } else if rolled.result == 4 {
        "⚃"
    } else if rolled.result == 5 {
        "⚄"
    } else if rolled.result == 6 {
        "⚅"
    } else {
        "🎲"
    }
}

/// Announces a roll by `name`; see [`announcement`].
pub fn announce_roll(name: &str, rolled: Roll) -> (s: String)
    ensures
        s@ == announcement(name@, rolled),
{
    let mut s = if rolled.sides == 6 && rolled.result <= 6 {
        String::from_str(dice_face(rolled))
    } else {
        String::from_str("🎲")
    };
    s.append(" **");
    s.append(name);
    s.append("** rolled a **");
    push_decimal(&mut s, rolled.result as u64);
    s.append("** on a ");
    push_decimal(&mut s, rolled.sides as u64);
    s.append("-sided dice!");
    s
}

/// The side of the coin that a toss of 0 or 1 stands for: heads for 0.
pub fn coin_of(toss: u64) -> (c: Coin)
    ensures
        c == (if toss == 0 {
            Coin::Heads
        } else {
            Coin::Tails
        }),
{
    if toss == 0 {
        Coin::Heads
    } else {
        Coin::Tails
    }
}

/// Flips a coin. Which side comes up is left to chance.
pub fn flip_coin() -> (c: Coin) {
    coin_of(random_between(0, 1))
}

} // verus!
