use rustbot::uwu::uwuify;

#[test]
fn test_uwuify_basic() {
    let input = "Hello world! This is a test.";
    let result = uwuify(input);

    // Check that basic transformations work
    assert!(result.contains("w")); // r/l -> w
    assert!(result.contains("uwu") || result.contains("owo")); // uwu expressions added
}

#[test]
fn test_uwuify_specific_patterns() {
    let input = "The cat loves running";
    let result = uwuify(input);

    // Check specific transformations
    assert!(result.contains("Teh")); // The -> Teh
    assert!(result.contains("wuvs")); // loves -> wuvs
    assert!(result.contains("wunnying")); // running -> wunnying
}

#[test]
fn test_uwuify_empty_string() {
    let result = uwuify("");
    assert_eq!(result, "");
}

#[test]
fn test_uwuify_preserves_capitalization() {
    let input = "Hello World";
    let result = uwuify(input);

    // Should preserve some capitalization structure
    assert!(!result.is_empty());
}

#[test]
fn uwuify_exact_results() {
    assert_eq!(uwuify("Hello world! This is a test."), "Hewwo wowwd. This is a test uwu");
    assert_eq!(uwuify("Hello World"), "Hewwo Wowwd uwu");
    assert_eq!(uwuify("   "), "");
    assert_eq!(uwuify("..."), "");
    assert_eq!(uwuify("the north"), "teh nyowd uwu");
    assert_eq!(uwuify("I love you"), "I wuv you uwu");
    assert_eq!(uwuify("say owo"), "say owo");
}

#[test]
fn uwuify_strews_an_expression_into_a_long_sentence() {
    assert_eq!(
        uwuify("The cat loves running"),
        "Teh cat uwu wuvs wunnying uwu"
    );
    // The second piece is long too, but only every other piece gets one.
    assert_eq!(
        uwuify("one two three four five six. one two three four five six"),
        "onye two dwee uwu fouw five six. onye two dwee fouw five six uwu"
    );
    assert_eq!(
        uwuify("a. b. one two three four five six seven"),
        "a. b. onye two dwee >w< fouw five six seven uwu"
    );
}
