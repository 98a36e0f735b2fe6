//! Number guessing: a secret number in a range, hints that get warmer, and
//! a rating of how the player did.

use crate::chance::random_between;
use crate::session::{model_end, model_set, model_start, Entry, NotFound, SessionStore};
use vstd::prelude::*;
use vstd::string::StringExecFns;

verus! {

/// How far off a guess is, from coldest to warmest.
#[derive(Clone, Copy, PartialEq, Eq, Structural, Debug)]
pub enum HintTier {
    /// Off by more than half of the range.
    WayOff,
    /// Off by more than three tenths of the range.
    GettingWarmer,
    /// Off by more than three twentieths of the range.
    GettingClose,
    /// Off by more than a twentieth of the range.
    VeryClose,
    /// Closer than that.
    SoClose,
}

/// What a guess led to.
#[derive(Clone, Copy, PartialEq, Eq, Structural, Debug)]
pub enum GuessResult {
    Correct,
    TooLow(HintTier),
    TooHigh(HintTier),
    /// The guess lies outside the range of the game. It counts as an attempt.
    OutOfRange,
}

/// How well the player did.
#[derive(Clone, Copy, PartialEq, Eq, Structural, Debug)]
pub enum Rating {
    Incredible,
    Excellent,
    Good,
    NotBad,
    KeepPracticing,
}

/// Why a game could not be started.
#[derive(Clone, Copy, PartialEq, Eq, Structural, Debug)]
pub enum RangeError {
    /// The lowest number is not below the highest.
    MinNotBelowMax,
    /// The highest number is more than [`MAX_SPAN`] above the lowest.
    TooLarge,
    /// The player already has a game.
    AlreadyActive,
}

/// The widest range a game may be started on: highest minus lowest number.
pub const MAX_SPAN: u32 = 10000;

/// The range used when the player names none.
pub const DEFAULT_MIN: u32 = 1;

pub const DEFAULT_MAX: u32 = 100;

/// A game as contracts see it.
pub struct NumberView {
    pub secret: u32,
    pub attempts: u32,
    pub min: u32,
    pub max: u32,
}

/// The tier of a guess that is `difference` away from the secret, in a game
/// whose highest number is `range` above its lowest. The bounds are 50%,
/// 30%, 15% and 5% of the range, each exclusive.
pub open spec fn tier(difference: nat, range: nat) -> HintTier {
    if 2 * difference > range {
        HintTier::WayOff
    } else if 10 * difference > 3 * range {
        HintTier::GettingWarmer
    } else if 20 * difference > 3 * range {
        HintTier::GettingClose
    } else if 20 * difference > range {
        HintTier::VeryClose
    } else {
        HintTier::SoClose
    }
}

/// The tiers in order: a warmer tier has a higher number.
pub open spec fn warmth(t: HintTier) -> nat {
    match t {
        HintTier::WayOff => 0,
        HintTier::GettingWarmer => 1,
        HintTier::GettingClose => 2,
        HintTier::VeryClose => 3,
        HintTier::SoClose => 4,
    }
}

pub open spec fn tier_text(t: HintTier) -> Seq<char> {
    match t {
        HintTier::WayOff => "🔥 Way off!"@,
        HintTier::GettingWarmer => "🌡️ Getting warmer..."@,
        HintTier::GettingClose => "🎯 Getting close!"@,
        HintTier::VeryClose => "🔥 Very close!"@,
        HintTier::SoClose => "🌟 So close!"@,
    }
}

/// The attempt counter after one more attempt. It stops at the largest
/// number it can hold.
pub open spec fn bump(attempts: u32) -> u32 {
    if attempts < u32::MAX {
        (attempts + 1) as u32
    } else {
        attempts
    }
}

/// One guess. Every guess counts as an attempt, also one outside the
/// range.
pub open spec fn guess(v: NumberView, number: u32) -> (NumberView, GuessResult) {
    let after = NumberView { attempts: bump(v.attempts), ..v };
    let range = (v.max - v.min) as nat;
    if number < v.min || number > v.max {
        (after, GuessResult::OutOfRange)
    } else if number == v.secret {
        (after, GuessResult::Correct)
    } else if number < v.secret {
        (after, GuessResult::TooLow(tier((v.secret - number) as nat, range)))
    } else {
        (after, GuessResult::TooHigh(tier((number - v.secret) as nat, range)))
    }
}

/// How often `reach` must double to be at least `n`.
pub open spec fn doublings(reach: nat, n: nat) -> nat
    decreases
            (if reach < n {
                n - reach
            } else {
                0
            }),
{
    if reach == 0 || reach >= n {
        0
    } else {
        1 + doublings(2 * reach, n)
    }
}

/// The number of guesses that halving the range needs: the least `k` with
/// `2^k >= span`, and at least one.
pub open spec fn optimal_attempts(span: nat) -> nat {
    if doublings(1, span) < 1 {
        1
    } else {
        doublings(1, span)
    }
}

/// The rating of a game won in `attempts` guesses on a range of `span`.
pub open spec fn rating(attempts: nat, span: nat) -> Rating {
    let best = optimal_attempts(span);
    if attempts == 1 {
        Rating::Incredible
    } else if attempts <= best {
        Rating::Excellent
    } else if attempts <= best + 3 {
        Rating::Good
    } else if attempts <= best + 7 {
        Rating::NotBad
    } else {
        Rating::KeepPracticing
    }
}

pub open spec fn rating_text(r: Rating) -> Seq<char> {
    match r {
        Rating::Incredible => "🏅 INCREDIBLE! First try! Are you psychic?"@,
        Rating::Excellent => "🏆 EXCELLENT! Perfect strategy!"@,
        Rating::Good => "👍 GOOD! Nice guessing!"@,
        Rating::NotBad => "😊 NOT BAD! You got there!"@,
        Rating::KeepPracticing => "🤔 Keep practicing!"@,
    }
}

/// Whether a game may be started on the range from `min` to `max`.
pub open spec fn range_verdict(min: u32, max: u32) -> Result<(), RangeError> {
    if min >= max {
        Err(RangeError::MinNotBelowMax)
    } else if max - min > MAX_SPAN {
        Err(RangeError::TooLarge)
    } else {
        Ok(())
    }
}

/// The least `k` with `2^k >= span`.
pub fn count_doublings(span: u32) -> (k: u32)
    ensures
        k == doublings(1, span as nat),
        k <= 32,
{
    let mut reach: u64 = 1;
    let mut k: u32 = 0;
    while reach < span as u64
        invariant
            1 <= reach,
            k <= 32,
            pow2_of(k as nat) == reach,
            k + doublings(reach as nat, span as nat) == doublings(1, span as nat),
        decreases 32 - k,
    {
        proof {
            lemma_pow2_of_32();
            if k >= 32 {
                lemma_pow2_of_grows(32, k as nat);
            }
            lemma_pow2_of_grows((k + 1) as nat, 32);
        }
        reach = reach * 2;
        k = k + 1;
    }
    k
}

/// Two to the power `k`.
pub open spec fn pow2_of(k: nat) -> nat
    decreases k,
{
    if k == 0 {
        1
    } else {
        2 * pow2_of((k - 1) as nat)
    }
}

proof fn lemma_pow2_of_32()
    ensures
        pow2_of(32) == 0x1_0000_0000,
{
    reveal_with_fuel(pow2_of, 33);
}

proof fn lemma_pow2_of_grows(a: nat, b: nat)
    requires
        a <= b,
    ensures
        pow2_of(a) <= pow2_of(b),
    decreases b,
{
    if a < b {
        lemma_pow2_of_grows(a, (b - 1) as nat);
    }
}

impl HintTier {
    /// The hint in words.
    pub fn text(self) -> (s: String)
        ensures
            s@ == tier_text(self),
    {
        match self {
            HintTier::WayOff => String::from_str("🔥 Way off!"),
            HintTier::GettingWarmer => String::from_str("🌡️ Getting warmer..."),
            HintTier::GettingClose => String::from_str("🎯 Getting close!"),
            HintTier::VeryClose => String::from_str("🔥 Very close!"),
            HintTier::SoClose => String::from_str("🌟 So close!"),
        }
    }
}

impl Rating {
    /// The rating in words.
    pub fn text(self) -> (s: String)
        ensures
            s@ == rating_text(self),
    {
        match self {
            Rating::Incredible => String::from_str("🏅 INCREDIBLE! First try! Are you psychic?"),
            Rating::Excellent => String::from_str("🏆 EXCELLENT! Perfect strategy!"),
            Rating::Good => String::from_str("👍 GOOD! Nice guessing!"),
            Rating::NotBad => String::from_str("😊 NOT BAD! You got there!"),
            Rating::KeepPracticing => String::from_str("🤔 Keep practicing!"),
        }
    }
}

/// A number guessing game.
#[derive(Clone, Copy, Debug)]
pub struct NumberGame {
    secret_number: u32,
    attempts: u32,
    min: u32,
    max: u32,
}

impl View for NumberGame {
    type V = NumberView;

    closed spec fn view(&self) -> NumberView {
        NumberView {
            secret: self.secret_number,
            attempts: self.attempts,
            min: self.min,
            max: self.max,
        }
    }
}

/// The secret lies in the range.
pub open spec fn sound(v: NumberView) -> bool {
    v.min <= v.secret <= v.max
}

impl NumberGame {
    /// The secret lies in the range of the game.
    pub closed spec fn wf(&self) -> bool {
        sound(self@)
    }

    /// What soundness means for the view.
    pub proof fn lemma_wf(&self)
        ensures
            self.wf() == sound(self@),
    {
    }

    /// A game on the numbers from `min` to `max`, with a secret drawn from
    /// them. Which one is left to chance.
    pub fn new(min: u32, max: u32) -> (g: Self)
        requires
            min <= max,
        ensures
            g.wf(),
            g@.min == min,
            g@.max == max,
            g@.attempts == 0,
            min <= g@.secret <= max,
    {
        let secret = random_between(min as u64, max as u64);
        NumberGame::with_secret(min, max, secret as u32)
    }

    /// A game on the numbers from `min` to `max` with the given secret.
    pub fn with_secret(min: u32, max: u32, secret: u32) -> (g: Self)
        requires
            min <= secret <= max,
        ensures
            g.wf(),
            g@ == (NumberView { secret, attempts: 0, min, max }),
    {
        NumberGame { secret_number: secret, attempts: 0, min, max }
    }

    pub fn secret_number(&self) -> (n: u32)
        ensures
            n == self@.secret,
    {
        self.secret_number
    }

    pub fn attempts(&self) -> (n: u32)
        ensures
            n == self@.attempts,
    {
        self.attempts
    }

    pub fn min(&self) -> (n: u32)
        ensures
            n == self@.min,
    {
        self.min
    }

    pub fn max(&self) -> (n: u32)
        ensures
            n == self@.max,
    {
        self.max
    }

    /// Takes one guess; see [`guess`].
    pub fn make_guess(&mut self, number: u32) -> (r: GuessResult)
        requires
            old(self).wf(),
        ensures
            final(self).wf(),
            (final(self)@, r) == guess(old(self)@, number),
    {
        if self.attempts < u32::MAX {
            self.attempts += 1;
        }
        if number < self.min || number > self.max {
            return GuessResult::OutOfRange;
        }
        if number == self.secret_number {
            GuessResult::Correct
        } else if number < self.secret_number {
            GuessResult::TooLow(self.hint_tier(self.secret_number - number))
        } else {
            GuessResult::TooHigh(self.hint_tier(number - self.secret_number))
        }
    }

    /// The tier of a guess that is `difference` away from the secret.
    pub fn hint_tier(&self, difference: u32) -> (t: HintTier)
        requires
            self.wf(),
        ensures
            t == tier(difference as nat, (self@.max - self@.min) as nat),
    {
        let range: u64 = (self.max - self.min) as u64;
        let d: u64 = difference as u64;
        if 2 * d > range {
            HintTier::WayOff
        } else if 10 * d > 3 * range {
            HintTier::GettingWarmer
        } else if 20 * d > 3 * range {
            HintTier::GettingClose
        } else if 20 * d > range {
            HintTier::VeryClose
        } else {
            HintTier::SoClose
        }
    }

    /// The hint, in words, for a guess that is `difference` away from the
    /// secret.
    pub fn get_hint(&self, difference: u32) -> (s: String)
        requires
            self.wf(),
        ensures
            s@ == tier_text(tier(difference as nat, (self@.max - self@.min) as nat)),
    {
        self.hint_tier(difference).text()
    }

    /// How well the player did, given the attempts made so far.
    pub fn performance(&self) -> (r: Rating)
        requires
            self.wf(),
        ensures
            r == rating(self@.attempts as nat, (self@.max - self@.min) as nat),
    {
        let k = count_doublings(self.max - self.min);
        let best: u64 = if k < 1 {
            1
        } else {
            k as u64
        };
        let a = self.attempts as u64;
        if a == 1 {
            Rating::Incredible
        } else if a <= best {
            Rating::Excellent
        } else if a <= best + 3 {
            Rating::Good
        } else if a <= best + 7 {
            Rating::NotBad
        } else {
            Rating::KeepPracticing
        }
    }

    /// The rating in words.
    pub fn get_performance_rating(&self) -> (s: String)
        requires
            self.wf(),
        ensures
            s@ == rating_text(rating(self@.attempts as nat, (self@.max - self@.min) as nat)),
    {
        self.performance().text()
    }

    /// How many numbers the range holds, and how many guesses halving it
    /// needs.
    pub fn strategy(&self) -> (r: (u64, u32))
        requires
            self.wf(),
        ensures
            r.0 == self@.max - self@.min + 1,
            r.1 == optimal_attempts((self@.max - self@.min + 1) as nat),
    {
        let size: u64 = (self.max - self.min) as u64 + 1;
        let k = if size > u32::MAX as u64 {
            proof {
                lemma_doublings_of_full_range();
            }
            32u32
        } else {
            count_doublings(size as u32)
        };
        (size, if k < 1 {
            1
        } else {
            k
        })
    }
}

/// Two to the power 32 is reached after 32 doublings.
proof fn lemma_doublings_of_full_range()
    ensures
        doublings(1, 0x1_0000_0000) == 32,
{
    reveal_with_fuel(doublings, 34);
}

/// For a fixed range, a guess closer to the secret never gets a colder
/// hint than one farther away.
pub proof fn law_hints_get_warmer(near: nat, far: nat, range: nat)
    requires
        near <= far,
    ensures
        warmth(tier(near, range)) >= warmth(tier(far, range)),
{
}

/// The secret itself is always a correct guess, and no other number is.
pub proof fn law_only_the_secret_is_correct(v: NumberView, number: u32)
    requires
        sound(v),
    ensures
        guess(v, number).1 == GuessResult::Correct <==> number == v.secret,
{
}

/// Every registered game is sound.
pub open spec fn arcade_inv(m: Map<u64, Entry<NumberGame>>) -> bool {
    forall|k: u64| #[trigger] m.contains_key(k) ==> m[k].payload.wf()
}

/// Whether `user` may start a game on the range from `min` to `max`. The
/// range is checked first.
pub open spec fn start_verdict(m: Map<u64, Entry<NumberGame>>, user: u64, min: u32, max: u32) -> Result<
    (),
    RangeError,
> {
    if range_verdict(min, max) is Err {
        range_verdict(min, max)
    } else if m.contains_key(user) {
        Err(RangeError::AlreadyActive)
    } else {
        Ok(())
    }
}

/// Starts a game for `user` with the given secret. Refused, with nothing
/// registered, on a range that is empty, a single number or too wide, and
/// when the player already has a game.
pub fn start_game_with(
    store: &mut SessionStore<NumberGame>,
    user: u64,
    min: u32,
    max: u32,
    secret: u32,
) -> (r: Result<NumberGame, RangeError>)
    requires
        old(store).wf(),
        min <= secret <= max,
    ensures
        final(store).wf(),
        r matches Err(e) ==> start_verdict(old(store)@, user, min, max) == Err::<(), RangeError>(e)
            && final(store)@ == old(store)@,
        r matches Ok(g) ==> start_verdict(old(store)@, user, min, max) is Ok && g@ == (NumberView {
            secret,
            attempts: 0,
            min,
            max,
        }) && final(store)@ == model_start(old(store)@, user, g),
        arcade_inv(old(store)@) ==> arcade_inv(final(store)@),
{
    if min >= max {
        return Err(RangeError::MinNotBelowMax);
    }
    if max - min > MAX_SPAN {
        return Err(RangeError::TooLarge);
    }
    if store.contains(user) {
        return Err(RangeError::AlreadyActive);
    }
    let game = NumberGame::with_secret(min, max, secret);
    let started = store.start(user, game);
    assert(started is Ok);
    assert(arcade_inv(old(store)@) ==> arcade_inv(store@)) by {
        if arcade_inv(old(store)@) {
            assert forall|k: u64| #[trigger] store@.contains_key(k) implies store@[k].payload.wf() by {
                if k != user {
                    assert(old(store)@.contains_key(k));
                }
            }
        }
    }
    Ok(game)
}

/// Starts a game for `user` on the range from `min` to `max`, each with its
/// default where none is given, with a secret drawn from the range. Which
/// secret is left to chance; the rest is as in [`start_game_with`].
pub fn start_game(
    store: &mut SessionStore<NumberGame>,
    user: u64,
    min: Option<u32>,
    max: Option<u32>,
) -> (r: Result<NumberGame, RangeError>)
    requires
        old(store).wf(),
    ensures
        final(store).wf(),
        ({
            let low = if min is Some { min->0 } else { DEFAULT_MIN };
            let high = if max is Some { max->0 } else { DEFAULT_MAX };
            &&& r matches Err(e) ==> start_verdict(old(store)@, user, low, high) == Err::<
                (),
                RangeError,
            >(e) && final(store)@ == old(store)@
            &&& r matches Ok(g) ==> start_verdict(old(store)@, user, low, high) is Ok && g@.min
                == low && g@.max == high && g@.attempts == 0 && low <= g@.secret <= high
                && final(store)@ == model_start(old(store)@, user, g)
        }),
        arcade_inv(old(store)@) ==> arcade_inv(final(store)@),
{
    let low = match min {
        Some(n) => n,
        None => DEFAULT_MIN,
    };
    let high = match max {
        Some(n) => n,
        None => DEFAULT_MAX,
    };
    if low >= high {
        return Err(RangeError::MinNotBelowMax);
    }
    let secret = random_between(low as u64, high as u64);
    start_game_with(store, user, low, high, secret as u32)
}

/// Takes the guess `number` for `user` in the game they are registered in
/// and hands back the result with the game as it then stands. A correct
/// guess ends the game and removes it; any other stores the new state.
/// Without a game nothing changes.
pub fn play_guess(store: &mut SessionStore<NumberGame>, user: u64, number: u32) -> (r: Result<
    (GuessResult, NumberGame),
    NotFound,
>)
    requires
        old(store).wf(),
        arcade_inv(old(store)@),
    ensures
        final(store).wf(),
        arcade_inv(final(store)@),
        r is Ok == old(store)@.contains_key(user),
        r is Err ==> final(store)@ == old(store)@,
        r matches Ok((result, game)) ==> (game@, result) == guess(
            old(store)@[user].payload@,
            number,
        ) && final(store)@ == if result == GuessResult::Correct {
            model_end(old(store)@, user)
        } else {
            model_set(old(store)@, user, game)
        },
{
    let mut game = match store.get(user) {
        None => {
            return Err(NotFound);
        },
        Some(g) => *g,
    };
    let result = game.make_guess(number);
    match result {
        GuessResult::Correct => {
            let _ = store.end(user);
        },
        _ => {
            let _ = store.replace(user, game);
        },
    }
    proof {
        old(store).lemma_paired();
        assert forall|k: u64| #[trigger] store@.contains_key(k) implies store@[k].payload.wf() by {
            assert(old(store)@.contains_key(k));
            assert(old(store)@.contains_key(user));
        }
    }
    Ok((result, game))
}

} // verus!
