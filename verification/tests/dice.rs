use rustbot::dice::{
    announce_roll, check_sides, coin_of, dice_face, flip_coin, roll, roll_dice, Coin, DiceError,
    Roll,
};

#[test]
fn test_dice_roll_range() {
    // Test that dice rolls are within the expected range

    // Test standard 6-sided die
    for _ in 0..100 {
        let result = roll(6);
        assert!(
            result >= 1 && result <= 6,
            "6-sided die result {} out of range",
            result
        );
    }

    // Test 20-sided die
    for _ in 0..100 {
        let result = roll(20);
        assert!(
            result >= 1 && result <= 20,
            "20-sided die result {} out of range",
            result
        );
    }

    // Test 1-sided die (always 1)
    for _ in 0..10 {
        let result = roll(1);
        assert_eq!(result, 1, "1-sided die should always be 1");
    }
}

#[test]
fn test_dice_roll_distribution() {
    // Test that all outcomes are possible for a 6-sided die
    let mut outcomes = [false; 6];

    // Roll many times to ensure all outcomes occur
    for _ in 0..1000 {
        let result = roll(6) as usize;
        outcomes[result - 1] = true;
    }

    // All outcomes should have occurred at least once
    for (i, &occurred) in outcomes.iter().enumerate() {
        assert!(
            occurred,
            "Outcome {} should have occurred at least once",
            i + 1
        );
    }
}

#[test]
fn test_coinflip_outcomes() {
    // Test that the function can generate both outcomes
    let mut heads_count = 0;
    let mut tails_count = 0;

    // Run 1000 flips to ensure both outcomes are possible
    for _ in 0..1000 {
        let result = flip_coin();

        if result == Coin::Heads {
            heads_count += 1;
        } else {
            tails_count += 1;
        }
    }

    // Both outcomes should occur at least once in 1000 flips
    assert!(heads_count > 0, "Heads should occur at least once");
    assert!(tails_count > 0, "Tails should occur at least once");
    assert_eq!(heads_count + tails_count, 1000, "Total should be 1000");
}

#[test]
fn dice_have_one_to_a_thousand_sides() {
    assert_eq!(check_sides(None), Ok(6));
    assert_eq!(check_sides(Some(1)), Ok(1));
    assert_eq!(check_sides(Some(1000)), Ok(1000));
    assert_eq!(check_sides(Some(0)), Err(DiceError::NoSides));
    assert_eq!(check_sides(Some(1001)), Err(DiceError::TooManySides));
    assert_eq!(roll_dice(Some(0)), Err(DiceError::NoSides));
    assert_eq!(roll_dice(Some(u32::MAX)), Err(DiceError::TooManySides));
    assert_eq!(roll_dice(Some(1)), Ok(Roll { sides: 1, result: 1 }));
    for _ in 0..50 {
        let rolled = roll_dice(None).unwrap();
        assert_eq!(rolled.sides, 6);
        assert!(rolled.result >= 1 && rolled.result <= 6);
        let big = roll_dice(Some(1000)).unwrap();
        assert!(big.result >= 1 && big.result <= 1000);
    }
}

#[test]
fn rolls_are_announced_with_their_face() {
    let faces = ["⚀", "⚁", "⚂", "⚃", "⚄", "⚅"];
    for (i, shown) in faces.iter().enumerate() {
        assert_eq!(dice_face(Roll { sides: 6, result: i as u32 + 1 }), *shown);
    }
    assert_eq!(dice_face(Roll { sides: 4, result: 3 }), "⚂");
    assert_eq!(dice_face(Roll { sides: 7, result: 3 }), "🎲");
    assert_eq!(dice_face(Roll { sides: 6, result: 7 }), "🎲");
    assert_eq!(
        announce_roll("ann", Roll { sides: 6, result: 5 }),
        "⚄ **ann** rolled a **5** on a 6-sided dice!"
    );
    // Only a die of six sides is announced with its face.
    assert_eq!(
        announce_roll("ann", Roll { sides: 4, result: 3 }),
        "🎲 **ann** rolled a **3** on a 4-sided dice!"
    );
    assert_eq!(
        announce_roll("bo", Roll { sides: 1000, result: 512 }),
        "🎲 **bo** rolled a **512** on a 1000-sided dice!"
    );
}

#[test]
fn toss_of_zero_is_heads() {
    assert_eq!(coin_of(0), Coin::Heads);
    assert_eq!(coin_of(1), Coin::Tails);
}
