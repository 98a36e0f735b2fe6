use rustbot::mock::mockify;

#[test]
fn test_mockify_basic() {
    let input = "hello world";
    let result = mockify(input);
    assert_eq!(result, "hElLo WoRlD");
}

#[test]
fn test_mockify_with_punctuation() {
    let input = "Hello, World!";
    let result = mockify(input);
    assert_eq!(result, "hElLo, WoRlD!");
}

#[test]
fn test_mockify_mixed_case() {
    let input = "ThIs Is A tEsT";
    let result = mockify(input);
    // Should follow alternating pattern regardless of input case
    assert_eq!(result, "tHiS iS a TeSt");
}

#[test]
fn test_mockify_numbers_and_symbols() {
    let input = "test123!@#test";
    let result = mockify(input);
    assert_eq!(result, "tEsT123!@#tEsT");
}

#[test]
fn test_mockify_empty_string() {
    let result = mockify("");
    assert_eq!(result, "");
}

#[test]
fn test_mockify_only_punctuation() {
    let input = "!@#$%^&*()";
    let result = mockify(input);
    assert_eq!(result, "!@#$%^&*()");
}

#[test]
fn test_mockify_preserves_spaces() {
    let input = "a b c d e";
    let result = mockify(input);
    assert_eq!(result, "a B c D e");
}

#[test]
fn mockify_takes_the_first_character_of_a_longer_mapping() {
    // The upper case of the sharp s is two letters; the first is kept.
    assert_eq!(mockify("aß"), "aS");
    assert_eq!(mockify("ÄÖ"), "äÖ");
}
