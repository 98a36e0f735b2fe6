use rustbot::poll::{parse_poll, PollError};
use rustbot::text::split_words;

#[test]
fn test_poll_parsing() {
    let input = "Is this cool? yes no maybe";
    let poll = parse_poll(input).unwrap();

    assert_eq!(poll.question, "Is this cool");
    assert_eq!(poll.options, vec!["yes", "no", "maybe"]);
}

#[test]
fn test_poll_no_question_mark() {
    let input = "Is this cool yes no maybe";
    let parsed = parse_poll(input);

    assert_eq!(parsed.err(), Some(PollError::MissingQuestionMark));
}

#[test]
fn test_poll_empty_options() {
    let input = "Is this cool?";
    let parsed = parse_poll(input);

    assert_eq!(parsed.err(), Some(PollError::NoOptions));
    assert!(split_words("").is_empty());
}

#[test]
fn test_poll_max_options() {
    let input = "Test? 1 2 3 4 5 6 7 8 9 10 11";
    let options = split_words("1 2 3 4 5 6 7 8 9 10 11");

    assert_eq!(options.len(), 11);
    assert!(options.len() > 10);
    assert_eq!(parse_poll(input).err(), Some(PollError::TooManyOptions));
}

#[test]
fn poll_is_read_at_the_first_question_mark() {
    let poll = parse_poll("  Why?  because?  no  ").unwrap();
    assert_eq!(poll.question, "Why");
    assert_eq!(poll.options, vec!["because?", "no"]);
    let ten = parse_poll("Pick? 1 2 3 4 5 6 7 8 9 10").unwrap();
    assert_eq!(ten.options.len(), 10);
}

#[test]
fn poll_refusals() {
    assert_eq!(parse_poll("").err(), Some(PollError::Empty));
    assert_eq!(parse_poll(" \n\t ").err(), Some(PollError::Empty));
    assert_eq!(parse_poll("  ? a b").err(), Some(PollError::EmptyQuestion));
    assert_eq!(parse_poll("q?   ").err(), Some(PollError::NoOptions));
    assert_eq!(parse_poll("no mark").err(), Some(PollError::MissingQuestionMark));
}

#[test]
fn words_are_runs_between_white_space() {
    assert_eq!(split_words("  a  bc\td\n"), vec!["a", "bc", "d"]);
    assert_eq!(split_words("one"), vec!["one"]);
    assert!(split_words(" \t ").is_empty());
}
