use chrono::Duration;
use rustbot::reminder::{
    format_duration, parse_lowered, parse_time_duration, RemindError, RemindersData,
};

#[test]
fn test_parse_time_duration() {
    let parsed = |text: &str| parse_time_duration(text).map(Duration::seconds);
    assert_eq!(parsed("5m"), Some(Duration::minutes(5)));
    assert_eq!(parsed("1h"), Some(Duration::hours(1)));
    assert_eq!(parsed("2d"), Some(Duration::days(2)));
    assert_eq!(parsed("1w"), Some(Duration::weeks(1)));
    assert_eq!(parsed("30s"), Some(Duration::seconds(30)));
    assert_eq!(parsed("invalid"), None);
}

#[test]
fn test_format_duration() {
    assert_eq!(format_duration(Duration::seconds(30).num_seconds()), "30s");
    assert_eq!(format_duration(Duration::minutes(5).num_seconds()), "5m");
    assert_eq!(format_duration(Duration::hours(2).num_seconds()), "2h");
    assert_eq!(format_duration(Duration::days(1).num_seconds()), "1d");
}

#[test]
fn durations_are_read_from_digits_and_a_unit() {
    assert_eq!(parse_time_duration("90 Seconds"), Some(90));
    assert_eq!(parse_time_duration(" 2 HOURS "), Some(7200));
    assert_eq!(parse_time_duration("3days"), Some(259_200));
    assert_eq!(parse_time_duration("2 weeks"), Some(1_209_600));
    assert_eq!(parse_time_duration("1hr"), Some(3600));
    assert_eq!(parse_time_duration("15min"), Some(900));
    assert_eq!(parse_time_duration("1minute"), Some(60));
    assert_eq!(parse_time_duration("0s"), Some(0));
    assert_eq!(parse_time_duration("007s"), Some(7));
    // The digits are gathered wherever they stand.
    assert_eq!(parse_time_duration("m5"), Some(300));
    assert_eq!(parse_time_duration("1m0"), Some(600));
    assert_eq!(parse_time_duration("5"), None);
    assert_eq!(parse_time_duration("m"), None);
    assert_eq!(parse_time_duration(""), None);
    assert_eq!(parse_time_duration("5 m s"), None);
    assert_eq!(parse_time_duration("5x"), None);
    assert_eq!(parse_time_duration("-5m"), None);
    assert_eq!(parse_time_duration("5.5h"), None);
}

#[test]
fn durations_too_long_are_refused() {
    assert_eq!(parse_time_duration("9223372036854775s"), Some(9_223_372_036_854_775));
    assert_eq!(parse_time_duration("9223372036854776s"), None);
    assert_eq!(parse_time_duration("9223372036854775807s"), None);
    assert_eq!(parse_time_duration("9223372036854775808s"), None);
    assert_eq!(parse_time_duration("99999999999999999999999999s"), None);
    assert_eq!(parse_time_duration("153722867280912m"), Some(9_223_372_036_854_720));
    assert_eq!(parse_time_duration("153722867280913m"), None);
    assert_eq!(parse_time_duration("15250284452w"), Some(9_223_372_036_569_600));
    assert_eq!(parse_time_duration("15250284453w"), None);
}

#[test]
fn durations_are_written_in_the_largest_unit() {
    assert_eq!(format_duration(0), "0s");
    assert_eq!(format_duration(59), "59s");
    assert_eq!(format_duration(60), "1m");
    assert_eq!(format_duration(3599), "59m");
    assert_eq!(format_duration(3600), "1h");
    assert_eq!(format_duration(86399), "23h");
    assert_eq!(format_duration(86400), "1d");
    assert_eq!(format_duration(i64::MAX), "106751991167300d");
    assert_eq!(format_duration(-5), "-5s");
    assert_eq!(format_duration(-3600), "-3600s");
    assert_eq!(format_duration(i64::MIN), "-9223372036854775808s");
}

#[test]
fn reminders_are_numbered_from_one() {
    let mut data = RemindersData::new();
    assert_eq!(data.next_id, 1);
    assert!(data.reminders.is_empty());
    let first = data.set_reminder(1000, 7, 70, "5m", Some("  tea  "), None).unwrap();
    assert_eq!(first.id, 1);
    assert_eq!(first.user_id, 7);
    assert_eq!(first.channel_id, 70);
    assert_eq!(first.message, "tea");
    assert_eq!(first.remind_at, 1300);
    assert_eq!(first.created_at, 1000);
    assert_eq!(first.reply_to_message_id, None);
    let second = data.set_reminder(1000, 8, 70, "1h", None, Some(55)).unwrap();
    assert_eq!(second.id, 2);
    assert_eq!(second.message, "⏰ Reminder");
    assert_eq!(second.reply_to_message_id, Some(55));
    let third = data.set_reminder(1000, 8, 70, "1s", Some("   "), Some(56)).unwrap();
    assert_eq!(third.message, "⏰ Reminder");
    assert_eq!(data.next_id, 4);
    assert_eq!(data.reminders.len(), 3);
    assert_eq!(data.reminders[1].id, 2);
    let fresh = RemindersData::default();
    assert_eq!((fresh.next_id, fresh.reminders.len()), (1, 0));
}

#[test]
fn reminders_that_cannot_be_set_change_nothing() {
    let mut data = RemindersData::new();
    assert_eq!(data.set_reminder(0, 1, 1, "5m", None, None).err(), Some(RemindError::MissingMessage));
    assert_eq!(
        data.set_reminder(0, 1, 1, "5m", Some(" \t"), None).err(),
        Some(RemindError::MissingMessage)
    );
    // The message is looked at before the time.
    assert_eq!(
        data.set_reminder(0, 1, 1, "soon", None, None).err(),
        Some(RemindError::MissingMessage)
    );
    assert_eq!(
        data.set_reminder(0, 1, 1, "soon", Some("x"), None).err(),
        Some(RemindError::InvalidTime)
    );
    assert_eq!(
        data.set_reminder(i64::MAX - 59, 1, 1, "1m", Some("x"), None).err(),
        Some(RemindError::InvalidTime)
    );
    assert_eq!(data.set_reminder(i64::MAX - 60, 1, 1, "1m", Some("x"), None).unwrap().remind_at, i64::MAX);
    data.next_id = u64::MAX;
    assert_eq!(data.set_reminder(0, 1, 1, "1m", Some("x"), None).err(), Some(RemindError::Full));
    assert_eq!(data.reminders.len(), 1);
    assert_eq!(data.next_id, u64::MAX);
}

fn three() -> RemindersData {
    let mut data = RemindersData::new();
    data.set_reminder(0, 1, 10, "10s", Some("a"), None).unwrap();
    data.set_reminder(0, 2, 10, "20s", Some("b"), None).unwrap();
    data.set_reminder(0, 1, 10, "30s", Some("c"), None).unwrap();
    data
}

#[test]
fn reminder_is_due_once_its_time_has_come_and_until_confirmed() {
    let mut data = three();
    assert!(data.due(9).is_empty());
    let due: Vec<u64> = data.due(10).iter().map(|r| r.id).collect();
    assert_eq!(due, vec![1]);
    let due: Vec<u64> = data.due(25).iter().map(|r| r.id).collect();
    assert_eq!(due, vec![1, 2]);
    // Delivery of 1 failed and that of 2 was confirmed: 1 is due again.
    assert!(data.confirm_sent(2));
    assert!(!data.confirm_sent(2));
    let due: Vec<u64> = data.due(26).iter().map(|r| r.id).collect();
    assert_eq!(due, vec![1]);
    let due: Vec<u64> = data.due(1000).iter().map(|r| r.id).collect();
    assert_eq!(due, vec![1, 3]);
    assert!(data.confirm_sent(1));
    assert!(data.confirm_sent(3));
    assert!(data.due(1000).is_empty());
    assert!(data.reminders.is_empty());
    assert_eq!(data.next_id, 4);
}

#[test]
fn reminders_are_listed_removed_and_cleared_by_owner() {
    let mut data = three();
    let active: Vec<u64> = data.active_for(1, 5).iter().map(|r| r.id).collect();
    assert_eq!(active, vec![1, 3]);
    let active: Vec<u64> = data.active_for(1, 10).iter().map(|r| r.id).collect();
    assert_eq!(active, vec![3]);
    assert!(data.active_for(3, 0).is_empty());
    // Only the owner removes a reminder.
    assert!(data.remove(2, 1).is_none());
    assert!(data.remove(9, 1).is_none());
    assert_eq!(data.reminders.len(), 3);
    let removed = data.remove(2, 2).unwrap();
    assert_eq!(removed.message, "b");
    assert_eq!(data.reminders.len(), 2);
    assert_eq!(data.clear_for(2), 0);
    assert_eq!(data.clear_for(1), 2);
    assert!(data.reminders.is_empty());
    let mut other = three();
    assert_eq!(other.clear_for(1), 2);
    assert_eq!(other.reminders.len(), 1);
    assert_eq!(other.reminders[0].id, 2);
}

#[test]
fn lowered_times_are_read_as_they_stand() {
    assert_eq!(parse_lowered("5m"), Some(300));
    assert_eq!(parse_lowered("2 hours"), Some(7200));
    assert_eq!(parse_lowered("5M"), None);
    assert_eq!(parse_time_duration("5M"), Some(300));
    assert_eq!(parse_lowered("1 \u{a0}d\t"), Some(86400));
}

#[test]
fn reminder_is_set_for_a_given_time_ahead() {
    let mut data = RemindersData::new();
    let set = data.set_reminder_in(100, 1, 2, Some(50), Some("x"), None).unwrap();
    assert_eq!((set.id, set.remind_at), (1, 150));
    let past = data.set_reminder_in(100, 1, 2, Some(-150), Some("x"), None).unwrap();
    assert_eq!((past.id, past.remind_at), (2, -50));
    assert_eq!(
        data.set_reminder_in(100, 1, 2, None, Some("x"), None).err(),
        Some(RemindError::InvalidTime)
    );
    assert_eq!(
        data.set_reminder_in(i64::MIN, 1, 2, Some(-1), Some("x"), None).err(),
        Some(RemindError::InvalidTime)
    );
    assert_eq!(
        data.set_reminder_in(100, 1, 2, Some(50), None, None).err(),
        Some(RemindError::MissingMessage)
    );
    assert_eq!(data.reminders.len(), 2);
}
