use rustbot::access::{eq_ignore_ascii_case, is_protected_user};
use rustbot::facebook::extract_event_from_link;
use rustbot::help::{command_info, CommandInfo};
use rustbot::invite::invite_url;
use rustbot::roster::Roster;
use rustbot::game::{GameKind, GameMove, GameState, MoveReport};
use rustbot::hangman::{GuessResult as LetterResult, HangmanGame};
use rustbot::help::lookup_command;
use rustbot::mock::alternate;
use rustbot::number_guess::{GuessResult as NumberResult, HintTier, NumberGame};
use rustbot::text::{
    chars_of, decimal, ends_with, is_space, mark_letters, push_decimal, push_signed, replace_all,
    same_text, string_of, trim,
};
use rustbot::tictactoe::{TicTacToeGame, TurnError, TurnReport};
use rustbot::Data;

#[test]
fn test_command_info_struct() {
    let info = CommandInfo {
        name: "test",
        description: "A test command",
        usage: "-test",
        examples: vec!["-test example"],
        parameters: vec!["param - A test parameter"],
    };

    assert_eq!(info.name, "test");
    assert_eq!(info.description, "A test command");
    assert_eq!(info.usage, "-test");
    assert_eq!(info.examples.len(), 1);
    assert_eq!(info.parameters.len(), 1);
}

#[test]
fn test_help_command_signature() {
    let info = CommandInfo {
        name: "test",
        description: "Test description",
        usage: "test usage",
        examples: vec!["test example"],
        parameters: vec!["test param"],
    };
    assert_eq!(info.name, "test");
}

#[test]
fn test_invite_url_format() {
    // Test URL format is correct
    let bot_id = 123456789;
    let permissions_bits = 12345;
    let expected_url = invite_url(bot_id, permissions_bits);

    assert!(expected_url.contains("discord.com/api/oauth2/authorize"));
    assert!(expected_url.contains("client_id=123456789"));
    assert!(expected_url.contains("permissions=12345"));
    assert!(expected_url.contains("scope=bot%20applications.commands"));
}

#[test]
fn invite_link_is_exact() {
    assert_eq!(
        invite_url(1, 0),
        "https://discord.com/api/oauth2/authorize?client_id=1&permissions=0&scope=bot%20applications.commands"
    );
    assert!(invite_url(u64::MAX, u64::MAX).contains("client_id=18446744073709551615&"));
}

#[test]
fn help_knows_its_commands() {
    let dice = command_info("DiCe").unwrap();
    assert_eq!(dice.name, "dice");
    assert_eq!(dice.description, "Roll a dice with specified number of sides (defaults to 6)");
    assert_eq!(dice.usage, "`-dice [sides]` or `/dice [sides]`");
    assert_eq!(dice.examples, vec!["-dice", "-dice 20", "-dice 100", "-dice 1"]);
    assert_eq!(
        dice.parameters,
        vec!["sides (optional): Number of sides on the dice (1-1000, defaults to 6)"]
    );
    let ping = command_info("ping").unwrap();
    assert_eq!(ping.examples, vec!["-ping"]);
    assert!(ping.parameters.is_empty());
    assert_eq!(command_info("yourmom").unwrap().description, "Get a random \"your mom\" joke");
    assert_eq!(command_info("help").unwrap().examples.len(), 3);
    for name in [
        "ping", "hello", "coinflip", "dice", "uwu", "yourmom", "spamping", "pfp", "stats", "poll",
        "cleanup", "update", "kys", "invite", "react", "remind", "help",
    ] {
        assert_eq!(command_info(name).unwrap().name, name);
    }
    assert!(command_info("tictactoe").is_none());
    assert!(command_info("").is_none());
    assert!(command_info(" ping").is_none());
}

#[test]
fn protected_users_are_named_in_a_list() {
    assert!(is_protected_user("deekahy", "deekahy"));
    assert!(is_protected_user("deekahy", "DeeKahy"));
    assert!(is_protected_user("  alice\tBOB \n carol ", "bob"));
    assert!(!is_protected_user("alice bob", "bo"));
    assert!(!is_protected_user("alice bob", "alice bob"));
    assert!(!is_protected_user("", "alice"));
    assert!(!is_protected_user("alice", ""));
    // Only the letters A to Z are taken without regard to case.
    assert!(!is_protected_user("ÆGIR", "ægir"));
    assert!(is_protected_user("ægir", "ægir"));
    assert!(eq_ignore_ascii_case("AbC-z[", "aBc-Z["));
    assert!(!eq_ignore_ascii_case("@", "`"));
    assert!(!eq_ignore_ascii_case("[", "{"));
    assert!(!eq_ignore_ascii_case("abc", "abcd"));
}

#[test]
fn event_links_are_read() {
    let event = extract_event_from_link("/events/1234567890/?ref=page", "club").unwrap();
    assert_eq!(event.id, "1234567890");
    assert_eq!(event.name, "New Event");
    assert_eq!(event.url, "https://www.facebook.com/events/1234567890/?ref=page");
    assert_eq!(event.page_name, "club");
    assert!(event.description.is_none() && event.start_time.is_none() && event.location.is_none());
    let whole = extract_event_from_link("https://www.facebook.com/events/42?x=1", "p").unwrap();
    assert_eq!(whole.id, "42");
    assert_eq!(whole.url, "https://www.facebook.com/events/42?x=1");
    let plain = extract_event_from_link("x/events/7", "p").unwrap();
    assert_eq!((plain.id.as_str(), plain.url.as_str()), ("7", "https://www.facebook.comx/events/7"));
    // The first `/events/` counts.
    assert_eq!(extract_event_from_link("/events/1/events/2", "p").unwrap().id, "1");
    assert!(extract_event_from_link("/events//events/2", "p").is_none());
    assert!(extract_event_from_link("/events/", "p").is_none());
    assert!(extract_event_from_link("/events/abc", "p").is_none());
    assert!(extract_event_from_link("/events/12a/", "p").is_none());
    assert!(extract_event_from_link("/events/?id=5", "p").is_none());
    assert!(extract_event_from_link("/event/5", "p").is_none());
    assert!(extract_event_from_link("", "p").is_none());
    assert!(extract_event_from_link("/events", "p").is_none());
}

#[test]
fn numbers_are_written_in_decimal() {
    assert_eq!(decimal(0), "0");
    assert_eq!(decimal(7), "7");
    assert_eq!(decimal(10), "10");
    assert_eq!(decimal(1_000_000), "1000000");
    assert_eq!(decimal(u64::MAX), "18446744073709551615");
    let mut s = String::from("n=");
    push_decimal(&mut s, 42);
    push_signed(&mut s, -42);
    push_signed(&mut s, 0);
    push_signed(&mut s, i64::MIN);
    push_signed(&mut s, i64::MAX);
    assert_eq!(s, "n=42-420-92233720368547758089223372036854775807");
}

#[test]
fn texts_are_taken_apart_and_put_together() {
    assert_eq!(chars_of("añ🫐"), vec!['a', 'ñ', '🫐']);
    assert_eq!(string_of(&vec!['a', 'ñ', '🫐']), "añ🫐");
    assert!(chars_of("").is_empty());
    assert!(same_text("abc", "abc"));
    assert!(!same_text("abc", "abd"));
    assert!(!same_text("abc", "ab"));
    assert!(same_text("", ""));
    let replaced = |s: &str, from: &str, to: &str| string_of(&replace_all(&chars_of(s), from, to));
    assert_eq!(replaced("the other", "th", "d"), "de oder");
    assert_eq!(replaced("aaa", "aa", "b"), "ba");
    assert_eq!(replaced("abc", "abcd", "x"), "abc");
    assert_eq!(replaced("abcabc", "abc", ""), "");
    assert_eq!(replaced("", "a", "b"), "");
    assert_eq!(replaced("banana", "na", "nya"), "banyanya");
    assert!(ends_with(&chars_of("say uwu"), "uwu"));
    assert!(!ends_with(&chars_of("uwu!"), "uwu"));
    assert!(!ends_with(&chars_of("wu"), "uwu"));
    assert!(ends_with(&chars_of("x"), ""));
}

#[test]
fn roster_keeps_one_row_for_each_owner_in_order() {
    let mut roster: Roster<&str> = Roster::new();
    assert_eq!(roster.put(5, "five"), None);
    assert_eq!(roster.put(3, "three"), None);
    assert_eq!(roster.put(9, "nine"), None);
    assert_eq!(roster.put(3, "drei"), Some("three"));
    assert_eq!(roster.len(), 3);
    assert_eq!((roster.key_at(0), roster.key_at(1), roster.key_at(2)), (5, 3, 9));
    assert_eq!(roster.value_at(1), &"drei");
    assert_eq!(roster.get(9), Some(&"nine"));
    assert_eq!(roster.get(4), None);
    assert!(roster.contains(5) && !roster.contains(4));
    assert_eq!(roster.position(9), Some(2));
    assert_eq!(roster.replace_at(0, "fünf"), "five");
    assert_eq!(roster.take(3), Some("drei"));
    assert_eq!(roster.take(3), None);
    assert_eq!((roster.len(), roster.key_at(0), roster.key_at(1)), (2, 5, 9));
    assert_eq!(roster.get(5), Some(&"fünf"));
}

#[test]
fn state_starts_empty() {
    let data = Data::new();
    assert_eq!(data.tictactoe.len(), 0);
    assert_eq!(data.hangman.len(), 0);
    assert_eq!(data.numbers.len(), 0);
    assert_eq!(data.parking.profiles.len(), 0);
    assert_eq!(data.parking.schedules.len(), 0);
    assert!(data.reminders.reminders.is_empty());
    assert_eq!(data.reminders.next_id, 1);
}

#[test]
fn white_space_is_what_the_standard_library_holds_it_to_be() {
    let mut spaces = 0;
    for code in 0..=0x10FFFFu32 {
        if let Some(c) = char::from_u32(code) {
            assert_eq!(is_space(c), c.is_whitespace(), "U+{:04X}", code);
            if is_space(c) {
                spaces += 1;
            }
        }
    }
    assert_eq!(spaces, 25);
}

#[test]
fn trimming_removes_white_space_at_both_ends() {
    for text in [
        "", " ", "a", " a", "a ", "  a b  ", "\t\n x \r\n", "\u{a0}no break\u{3000}",
        " \u{2003}em\u{2003} ", "inner  space", "   ", "\u{200b}zero width\u{200b}",
    ] {
        assert_eq!(trim(text), text.trim(), "{:?}", text);
    }
    assert_eq!(trim("  a b  "), "a b");
    assert_eq!(trim(" \t "), "");
}

#[test]
fn letters_are_marked() {
    assert_eq!(mark_letters(&chars_of("aB1 é-")), vec![true, true, false, false, true, false]);
    assert!(mark_letters(&Vec::new()).is_empty());
}

#[test]
fn letters_alternate_between_the_cases_given() {
    let text = chars_of("ab-cd");
    let marks = vec![true, true, false, true, false];
    let upper = chars_of("AB_CD");
    let lower = chars_of("xy_zw");
    assert_eq!(string_of(&alternate(&text, &marks, &upper, &lower)), "xB-zd");
    assert!(alternate(&Vec::new(), &Vec::new(), &Vec::new(), &Vec::new()).is_empty());
}

#[test]
fn commands_are_looked_up_by_their_exact_name() {
    assert_eq!(lookup_command("ping").unwrap().name, "ping");
    assert!(lookup_command("Ping").is_none());
    assert!(lookup_command("pin").is_none());
}

#[test]
fn move_is_applied_to_the_game_of_its_kind() {
    let mut board = GameState::TicTacToe(TicTacToeGame::new_two_player(1, 2, 0));
    assert_eq!(board.kind(), GameKind::TicTacToe);
    assert_eq!(
        board.apply_move(GameMove::Mark { user: 1, position: 5 }),
        MoveReport::TicTacToe(Ok(TurnReport::Next { reply: None }))
    );
    assert_eq!(
        board.apply_move(GameMove::Mark { user: 1, position: 1 }),
        MoveReport::TicTacToe(Err(TurnError::NotYourTurn { expected: Some(2) }))
    );
    assert_eq!(board.apply_move(GameMove::Letter('a')), MoveReport::WrongGame);
    assert_eq!(board.apply_move(GameMove::Number(3)), MoveReport::WrongGame);

    let mut word = GameState::Hangman(HangmanGame::new_with_word("test", "c"));
    assert_eq!(word.kind(), GameKind::Hangman);
    assert_eq!(word.apply_move(GameMove::Letter('t')), MoveReport::Hangman(LetterResult::Correct(2)));
    assert_eq!(word.apply_move(GameMove::Number(3)), MoveReport::WrongGame);
    if let GameState::Hangman(game) = &word {
        assert_eq!(game.guessed_letters(), vec!['T']);
    } else {
        panic!("the game changed its kind");
    }

    let mut number = GameState::NumberGuess(NumberGame::with_secret(1, 10, 7));
    assert_eq!(number.kind(), GameKind::NumberGuess);
    assert_eq!(
        number.apply_move(GameMove::Number(3)),
        MoveReport::NumberGuess(NumberResult::TooLow(HintTier::GettingWarmer))
    );
    assert_eq!(number.apply_move(GameMove::Number(7)), MoveReport::NumberGuess(NumberResult::Correct));
    assert_eq!(number.apply_move(GameMove::Mark { user: 1, position: 1 }), MoveReport::WrongGame);
    if let GameState::NumberGuess(game) = &number {
        assert_eq!(game.attempts(), 2);
    } else {
        panic!("the game changed its kind");
    }
}
