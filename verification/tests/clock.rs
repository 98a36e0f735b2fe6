use chrono::{TimeZone, Utc};
use chrono_tz::Europe::Copenhagen;
use rustbot::clock::{
    date_in_copenhagen, instant_in_copenhagen, is_schedule_time_match, is_valid_time, is_weekday,
    on_same_day, utc_day, LocalDate,
};

fn local(utc: i64) -> LocalDate {
    date_in_copenhagen(utc).unwrap()
}

#[test]
fn test_parking_schedule_validation() {
    // Valid times
    assert!(is_valid_time(0, 0));
    assert!(is_valid_time(23, 59));
    assert!(is_valid_time(12, 30));

    // Invalid times
    assert!(!is_valid_time(24, 0)); // Hour too high
    assert!(!is_valid_time(0, 60)); // Minute too high
    assert!(!is_valid_time(25, 30)); // Hour way too high
}

#[test]
fn test_is_weekday() {
    // Test using specific dates
    let monday = Utc.with_ymd_and_hms(2024, 1, 1, 12, 0, 0).unwrap(); // Was a Monday
    let saturday = Utc.with_ymd_and_hms(2024, 1, 6, 12, 0, 0).unwrap(); // Was a Saturday
    let sunday = Utc.with_ymd_and_hms(2024, 1, 7, 12, 0, 0).unwrap(); // Was a Sunday

    assert!(is_weekday(&local(monday.timestamp())));
    assert!(!is_weekday(&local(saturday.timestamp())));
    assert!(!is_weekday(&local(sunday.timestamp())));
}

#[test]
fn test_schedule_time_matching() {
    let schedule_time = Copenhagen.with_ymd_and_hms(2024, 1, 1, 8, 30, 0).unwrap().timestamp();

    // Exact match
    let current_time = Copenhagen.with_ymd_and_hms(2024, 1, 1, 8, 30, 0).unwrap().timestamp();
    assert!(is_schedule_time_match(schedule_time, current_time));

    // Within 30 seconds (should match)
    let current_time = Copenhagen.with_ymd_and_hms(2024, 1, 1, 8, 30, 25).unwrap().timestamp();
    assert!(is_schedule_time_match(schedule_time, current_time));

    // More than 1 minute off (should not match)
    let current_time = Copenhagen.with_ymd_and_hms(2024, 1, 1, 8, 31, 30).unwrap().timestamp();
    assert!(!is_schedule_time_match(schedule_time, current_time));
}

#[test]
fn time_match_has_a_tolerance_of_thirty_seconds_either_way() {
    assert!(is_schedule_time_match(1000, 1030));
    assert!(is_schedule_time_match(1000, 970));
    assert!(!is_schedule_time_match(1000, 1031));
    assert!(!is_schedule_time_match(1000, 969));
    assert!(!is_schedule_time_match(i64::MIN, i64::MAX));
    assert!(!is_schedule_time_match(i64::MAX, i64::MIN));
    assert!(is_schedule_time_match(i64::MAX, i64::MAX - 30));
}

#[test]
fn days_are_counted_from_the_epoch() {
    assert_eq!(utc_day(0), 0);
    assert_eq!(utc_day(86399), 0);
    assert_eq!(utc_day(86400), 1);
    assert_eq!(utc_day(-1), -1);
    assert_eq!(utc_day(-86400), -1);
    assert_eq!(utc_day(-86401), -2);
    assert_eq!(utc_day(1_704_067_200), 19723); // 2024-01-01
    assert_eq!(utc_day(i64::MAX), 106_751_991_167_300);
    assert_eq!(utc_day(i64::MIN), -106_751_991_167_301);
    assert!(on_same_day(86400, 2 * 86400 - 1));
    assert!(!on_same_day(86399, 86400));
    assert!(on_same_day(-1, -86400));
    for t in [-200_000i64, -86_401, -1, 0, 1, 86_399, 1_700_000_000] {
        let date = Utc.timestamp_opt(t, 0).unwrap().date_naive();
        let epoch = Utc.timestamp_opt(0, 0).unwrap().date_naive();
        assert_eq!(utc_day(t), (date - epoch).num_days());
    }
}

#[test]
fn copenhagen_dates_follow_the_daylight_saving_rules() {
    // 2024-01-01 12:00 UTC is a Monday at 13:00 in Copenhagen.
    let winter = Utc.with_ymd_and_hms(2024, 1, 1, 12, 0, 0).unwrap().timestamp();
    assert_eq!(local(winter), LocalDate { year: 2024, month: 1, day: 1, weekday: 0 });
    // 23:30 UTC is already the next day there.
    let late = Utc.with_ymd_and_hms(2024, 1, 5, 23, 30, 0).unwrap().timestamp();
    assert_eq!(local(late), LocalDate { year: 2024, month: 1, day: 6, weekday: 5 });
    // In summer 22:30 UTC is.
    let summer = Utc.with_ymd_and_hms(2024, 6, 30, 22, 30, 0).unwrap().timestamp();
    assert_eq!(local(summer), LocalDate { year: 2024, month: 7, day: 1, weekday: 0 });
    let before = Utc.with_ymd_and_hms(2024, 6, 30, 21, 59, 59).unwrap().timestamp();
    assert_eq!(local(before), LocalDate { year: 2024, month: 6, day: 30, weekday: 6 });
    assert_eq!(date_in_copenhagen(i64::MAX), None);
    assert_eq!(date_in_copenhagen(i64::MIN), None);
}

#[test]
fn copenhagen_instants_follow_the_daylight_saving_rules() {
    let monday = LocalDate { year: 2024, month: 1, day: 1, weekday: 0 };
    let winter = Utc.with_ymd_and_hms(2024, 1, 1, 7, 30, 0).unwrap().timestamp();
    assert_eq!(instant_in_copenhagen(monday, 8, 30), Some(winter));
    let july = LocalDate { year: 2024, month: 7, day: 1, weekday: 0 };
    let summer = Utc.with_ymd_and_hms(2024, 7, 1, 6, 30, 0).unwrap().timestamp();
    assert_eq!(instant_in_copenhagen(july, 8, 30), Some(summer));
    // What is no time of day, or no date, has no instant.
    assert_eq!(instant_in_copenhagen(monday, 24, 0), None);
    assert_eq!(instant_in_copenhagen(monday, 0, 60), None);
    let no_date = LocalDate { year: 2023, month: 2, day: 29, weekday: 0 };
    assert_eq!(instant_in_copenhagen(no_date, 8, 0), None);
    // The clocks skip 02:30 when summer time begins and show it twice when
    // it ends.
    let spring = LocalDate { year: 2024, month: 3, day: 31, weekday: 6 };
    assert_eq!(instant_in_copenhagen(spring, 2, 30), None);
    assert!(instant_in_copenhagen(spring, 3, 30).is_some());
    let autumn = LocalDate { year: 2024, month: 10, day: 27, weekday: 6 };
    assert_eq!(instant_in_copenhagen(autumn, 2, 30), None);
    assert!(instant_in_copenhagen(autumn, 1, 30).is_some());
}
