use rustbot::react::{create_emoji_mapping, emoji_options, pick_emoji};

#[test]
fn test_emoji_mapping_exists() {
    let map = create_emoji_mapping();

    // Test that basic letters exist
    assert!(map.contains_key(&'a'));
    assert!(map.contains_key(&'z'));
    assert!(map.contains_key(&'l'));

    // Test that numbers exist
    assert!(map.contains_key(&'0'));
    assert!(map.contains_key(&'9'));

    // Test that 'l' has fallbacks including I
    let l_options = map.get(&'l').unwrap();
    assert!(l_options.contains(&"🇮")); // I as fallback for L
    assert!(l_options.len() > 1); // Multiple fallbacks
}

#[test]
fn test_duplicate_handling() {
    let map = create_emoji_mapping();

    // Test that 'o' has many options for handling duplicates
    let o_options = map.get(&'o').unwrap();
    assert!(o_options.len() >= 5); // Should have multiple circle-like emojis
}

#[test]
fn mapping_holds_letters_digits_and_punctuation() {
    let map = create_emoji_mapping();
    assert_eq!(map.len(), 54);
    assert_eq!(map.get(&'a').unwrap(), &vec!["🇦", "🅰️", "🔺", "🅰", "4️⃣"]);
    assert_eq!(map.get(&'\\').unwrap(), &vec!["〰️", "💨", "⚡", "🔹"]);
    assert_eq!(map.get(&'@').unwrap(), &vec!["🇦", "🅰️", "⚫", "🔘"]);
    assert_eq!(map.get(&' ').unwrap().len(), 3);
    assert_eq!(map.get(&'o').unwrap().len(), 10);
    assert!(!map.contains_key(&'A'));
    assert!(map.get(&'~').is_none());
    assert!(emoji_options('~').is_empty());
    assert_eq!(emoji_options('7'), vec!["7️⃣", "🎰", "🔧", "📐"]);
}

#[test]
fn first_unused_emoji_is_picked() {
    let map = create_emoji_mapping();
    let mut used: Vec<&'static str> = Vec::new();
    assert_eq!(pick_emoji(&map, &used, 'l'), Some("🇱"));
    used.push("🇱");
    assert_eq!(pick_emoji(&map, &used, 'l'), Some("🇮"));
    used.push("🇮");
    assert_eq!(pick_emoji(&map, &used, 'l'), Some("1️⃣"));
    assert_eq!(pick_emoji(&map, &used, 'i'), Some("ℹ️"));
    assert_eq!(pick_emoji(&map, &used, '~'), None);
    let all: Vec<&'static str> = vec!["⬜", "▫️", "⚪"];
    assert_eq!(pick_emoji(&map, &all, ' '), None);
}
