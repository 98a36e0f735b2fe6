use rustbot::number_guess::{
    count_doublings, play_guess, start_game, start_game_with, GuessResult, HintTier, NumberGame,
    RangeError, Rating,
};
use rustbot::session::{NotFound, SessionStore};

#[test]
fn test_number_game_creation() {
    let game = NumberGame::new(1, 100);
    assert!(game.secret_number() >= 1 && game.secret_number() <= 100);
    assert_eq!(game.attempts(), 0);
    assert_eq!(game.min(), 1);
    assert_eq!(game.max(), 100);
}

#[test]
fn test_guess_correct() {
    let mut game = NumberGame::new(1, 100);
    let secret = game.secret_number();

    let result = game.make_guess(secret);
    assert!(matches!(result, GuessResult::Correct));
    assert_eq!(game.attempts(), 1);
}

#[test]
fn test_guess_out_of_range() {
    let mut game = NumberGame::new(10, 20);

    let result = game.make_guess(5);
    assert!(matches!(result, GuessResult::OutOfRange));

    let result = game.make_guess(25);
    assert!(matches!(result, GuessResult::OutOfRange));
}

#[test]
fn out_of_range_guesses_count_as_attempts() {
    let mut game = NumberGame::with_secret(10, 20, 15);
    assert_eq!(game.make_guess(5), GuessResult::OutOfRange);
    assert_eq!(game.make_guess(21), GuessResult::OutOfRange);
    assert_eq!(game.attempts(), 2);
    assert_eq!(game.make_guess(10), GuessResult::TooLow(HintTier::GettingWarmer));
    assert_eq!(game.make_guess(20), GuessResult::TooHigh(HintTier::GettingWarmer));
    assert_eq!(game.attempts(), 4);
}

#[test]
fn tiers_have_exclusive_bounds() {
    let game = NumberGame::with_secret(0, 100, 0);
    assert_eq!(game.hint_tier(100), HintTier::WayOff);
    assert_eq!(game.hint_tier(51), HintTier::WayOff);
    assert_eq!(game.hint_tier(50), HintTier::GettingWarmer);
    assert_eq!(game.hint_tier(31), HintTier::GettingWarmer);
    assert_eq!(game.hint_tier(30), HintTier::GettingClose);
    assert_eq!(game.hint_tier(16), HintTier::GettingClose);
    assert_eq!(game.hint_tier(15), HintTier::VeryClose);
    assert_eq!(game.hint_tier(6), HintTier::VeryClose);
    assert_eq!(game.hint_tier(5), HintTier::SoClose);
    assert_eq!(game.hint_tier(0), HintTier::SoClose);
}

#[test]
fn hints_never_get_colder_as_the_guess_gets_closer() {
    fn warmth(t: HintTier) -> u8 {
        match t {
            HintTier::WayOff => 0,
            HintTier::GettingWarmer => 1,
            HintTier::GettingClose => 2,
            HintTier::VeryClose => 3,
            HintTier::SoClose => 4,
        }
    }
    let game = NumberGame::with_secret(1, 1000, 1);
    let mut last = 4;
    for difference in 0..=999 {
        let now = warmth(game.hint_tier(difference));
        assert!(now <= last);
        last = now;
    }
    assert_eq!(last, 0);
}

#[test]
fn hint_texts() {
    let game = NumberGame::with_secret(0, 100, 0);
    assert_eq!(game.get_hint(60), "🔥 Way off!");
    assert_eq!(game.get_hint(40), "🌡️ Getting warmer...");
    assert_eq!(game.get_hint(20), "🎯 Getting close!");
    assert_eq!(game.get_hint(10), "🔥 Very close!");
    assert_eq!(game.get_hint(1), "🌟 So close!");
}

#[test]
fn doublings_are_the_rounded_up_logarithm() {
    assert_eq!(count_doublings(0), 0);
    assert_eq!(count_doublings(1), 0);
    assert_eq!(count_doublings(2), 1);
    assert_eq!(count_doublings(3), 2);
    assert_eq!(count_doublings(4), 2);
    assert_eq!(count_doublings(99), 7);
    assert_eq!(count_doublings(128), 7);
    assert_eq!(count_doublings(129), 8);
    assert_eq!(count_doublings(10000), 14);
    assert_eq!(count_doublings(u32::MAX), 32);
}

#[test]
fn ratings_follow_the_attempts() {
    // On 1 to 100 the span is 99 and seven guesses are optimal.
    let mut game = NumberGame::with_secret(1, 100, 50);
    assert_eq!(game.performance(), Rating::Excellent);
    game.make_guess(1);
    assert_eq!(game.performance(), Rating::Incredible);
    assert_eq!(game.get_performance_rating(), "🏅 INCREDIBLE! First try! Are you psychic?");
    for _ in 0..6 {
        game.make_guess(1);
    }
    assert_eq!(game.attempts(), 7);
    assert_eq!(game.performance(), Rating::Excellent);
    assert_eq!(game.get_performance_rating(), "🏆 EXCELLENT! Perfect strategy!");
    game.make_guess(1);
    assert_eq!(game.performance(), Rating::Good);
    assert_eq!(game.get_performance_rating(), "👍 GOOD! Nice guessing!");
    for _ in 0..2 {
        game.make_guess(1);
    }
    assert_eq!(game.performance(), Rating::Good);
    game.make_guess(1);
    assert_eq!(game.attempts(), 11);
    assert_eq!(game.performance(), Rating::NotBad);
    assert_eq!(game.get_performance_rating(), "😊 NOT BAD! You got there!");
    for _ in 0..3 {
        game.make_guess(1);
    }
    assert_eq!(game.performance(), Rating::NotBad);
    game.make_guess(1);
    assert_eq!(game.attempts(), 15);
    assert_eq!(game.performance(), Rating::KeepPracticing);
    assert_eq!(game.get_performance_rating(), "🤔 Keep practicing!");
}

#[test]
fn strategy_counts_the_numbers_of_the_range() {
    assert_eq!(NumberGame::with_secret(1, 100, 5).strategy(), (100, 7));
    assert_eq!(NumberGame::with_secret(5, 5, 5).strategy(), (1, 1));
    assert_eq!(NumberGame::with_secret(0, u32::MAX, 5).strategy(), (1u64 << 32, 32));
}

#[test]
fn ranges_are_checked_before_the_registry() {
    let mut store = SessionStore::new();
    assert_eq!(start_game(&mut store, 1, Some(5), Some(5)).err(), Some(RangeError::MinNotBelowMax));
    assert_eq!(start_game(&mut store, 1, Some(9), Some(5)).err(), Some(RangeError::MinNotBelowMax));
    assert_eq!(start_game(&mut store, 1, Some(0), Some(10001)).err(), Some(RangeError::TooLarge));
    assert!(!store.contains(1));
    let game = start_game(&mut store, 1, Some(0), Some(10000)).unwrap();
    assert!(game.secret_number() <= 10000);
    assert_eq!(start_game(&mut store, 1, None, None).err(), Some(RangeError::AlreadyActive));
    assert_eq!(start_game(&mut store, 1, Some(3), Some(3)).err(), Some(RangeError::MinNotBelowMax));
    let other = start_game(&mut store, 2, None, None).unwrap();
    assert_eq!((other.min(), other.max(), other.attempts()), (1, 100, 0));
    assert!(other.secret_number() >= 1 && other.secret_number() <= 100);
    let third = start_game(&mut store, 3, Some(90), None).unwrap();
    assert_eq!((third.min(), third.max()), (90, 100));
}

#[test]
fn second_game_is_refused_and_the_first_is_kept() {
    let mut store = SessionStore::new();
    start_game_with(&mut store, 1, 1, 10, 7).unwrap();
    play_guess(&mut store, 1, 2).unwrap();
    assert_eq!(start_game_with(&mut store, 1, 1, 50, 9).err(), Some(RangeError::AlreadyActive));
    let kept = store.get(1).unwrap();
    assert_eq!((kept.min(), kept.max(), kept.secret_number(), kept.attempts()), (1, 10, 7, 1));
}

#[test]
fn guessing_through_the_registry() {
    let mut store = SessionStore::new();
    assert_eq!(play_guess(&mut store, 1, 3).err(), Some(NotFound));
    start_game_with(&mut store, 1, 1, 10, 7).unwrap();
    // 4 off on a span of 9 is about 44%: warmer than way off.
    let (result, game) = play_guess(&mut store, 1, 3).unwrap();
    assert_eq!(result, GuessResult::TooLow(HintTier::GettingWarmer));
    assert_eq!(game.attempts(), 1);
    assert_eq!(store.get(1).unwrap().attempts(), 1);
    let (result, _) = play_guess(&mut store, 1, 9).unwrap();
    assert_eq!(result, GuessResult::TooHigh(HintTier::GettingClose));
    let (result, _) = play_guess(&mut store, 1, 11).unwrap();
    assert_eq!(result, GuessResult::OutOfRange);
    let (result, game) = play_guess(&mut store, 1, 7).unwrap();
    assert_eq!(result, GuessResult::Correct);
    assert_eq!(game.attempts(), 4);
    assert!(store.get(1).is_none());
    assert_eq!(play_guess(&mut store, 1, 7).err(), Some(NotFound));
}

#[test]
fn number_guess_end_to_end() {
    let mut store = SessionStore::new();
    start_game_with(&mut store, 42, 1, 10, 7).unwrap();
    let (first, _) = play_guess(&mut store, 42, 3).unwrap();
    assert_eq!(first, GuessResult::TooLow(HintTier::GettingWarmer));
    assert_ne!(first, GuessResult::TooLow(HintTier::WayOff));
    let (second, game) = play_guess(&mut store, 42, 7).unwrap();
    assert_eq!(second, GuessResult::Correct);
    assert_eq!(game.attempts(), 2);
    assert!(store.get(42).is_none());
    assert!(!store.contains(42));
}
