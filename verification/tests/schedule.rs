use chrono::{Duration, TimeZone, Timelike, Utc};
use chrono_tz::Europe::Copenhagen;
use rustbot::schedule::{
    cleanup_old_missed_requests, validate_danish_license_plate, validate_danish_phone_number,
    DisableOutcome, Profile, ProfileError, ScheduleData, ScheduleEntry, ScheduleError,
};
use rustbot::vault::{generate_encryption_key, VaultError};

fn at(year: i32, month: u32, day: u32, hour: u32, minute: u32, second: u32) -> i64 {
    Copenhagen.with_ymd_and_hms(year, month, day, hour, minute, second).unwrap().timestamp()
}

fn with_profile(owner: u64) -> ScheduleData {
    let mut data = ScheduleData::new();
    data.resolve_profile(owner, Some("ab12345"), Some("12345678")).unwrap();
    data
}

fn entry_of(data: &ScheduleData, owner: u64) -> &ScheduleEntry {
    data.schedules.get(owner).unwrap()
}

#[test]
fn test_validate_danish_phone_number() {
    // Valid Danish phone numbers (8 digits)
    assert!(validate_danish_phone_number("12345678"));
    assert!(validate_danish_phone_number("87654321"));

    // Invalid phone numbers
    assert!(!validate_danish_phone_number("1234567")); // Too short
    assert!(!validate_danish_phone_number("123456789")); // Too long
    assert!(!validate_danish_phone_number("1234567a")); // Contains letter
    assert!(!validate_danish_phone_number("1234-5678")); // Contains dash
    assert!(!validate_danish_phone_number("+4512345678")); // Contains country code
    assert!(!validate_danish_phone_number("")); // Empty
}

#[test]
fn test_validate_danish_license_plate() {
    // Valid Danish license plates
    assert!(validate_danish_license_plate("AB12345"));
    assert!(validate_danish_license_plate("XY98765"));
    assert!(validate_danish_license_plate("ab12345")); // Should accept lowercase

    // Invalid license plates
    assert!(!validate_danish_license_plate("")); // Empty
    assert!(!validate_danish_license_plate("A")); // Too short
    assert!(!validate_danish_license_plate("ABCDEFGHIJK")); // Too long
    assert!(!validate_danish_license_plate("AB1234567890")); // Way too long
    assert!(!validate_danish_license_plate("   ")); // Only whitespace
}

#[test]
fn test_missed_request_cleanup() {
    let now = Utc::now();
    // In the first two hours of a day "two hours ago" is yesterday; the
    // same check is then made at noon.
    let now = if now.hour() < 2 { now + Duration::hours(12) } else { now };
    let old_request = now - Duration::days(2);
    let recent_request = now - Duration::hours(2);

    let mut missed_requests = vec![old_request.timestamp(), recent_request.timestamp()];

    cleanup_old_missed_requests(&mut missed_requests, now.timestamp());

    // Should only keep requests from today
    assert_eq!(missed_requests.len(), 1);
    assert_eq!(missed_requests[0], recent_request.timestamp());
}

#[test]
fn phone_numbers_and_plates_at_their_bounds() {
    assert!(!validate_danish_phone_number("１２３４５６７８")); // full-width digits
    assert!(!validate_danish_phone_number("1234 678"));
    assert!(validate_danish_phone_number("00000000"));
    assert!(validate_danish_license_plate("AB"));
    assert!(validate_danish_license_plate("  AB  "));
    assert!(validate_danish_license_plate("ABCDEFGHIJ"));
    assert!(validate_danish_license_plate(" ABCDEFGHIJ "));
    assert!(!validate_danish_license_plate(" A "));
    // The length is counted in bytes.
    assert!(validate_danish_license_plate("Æ"));
    assert!(!validate_danish_license_plate("ÆØÅÆØÅ"));
}

#[test]
fn stale_pending_fires_are_purged() {
    let day = 86400;
    let now = 100 * day + 3600;
    let mut requests = vec![99 * day + 86399, 100 * day, 98 * day, 100 * day + 7200, 101 * day];
    cleanup_old_missed_requests(&mut requests, now);
    assert_eq!(requests, vec![100 * day, 100 * day + 7200, 101 * day]);
    let mut empty: Vec<i64> = Vec::new();
    cleanup_old_missed_requests(&mut empty, now);
    assert!(empty.is_empty());

    let mut data = with_profile(1);
    data.set_schedule(1, 8, 0).unwrap();
    let mut entry = ScheduleEntry::new(8, 0);
    entry.pending_fires = vec![99 * day, 100 * day + 5];
    entry.last_fired = Some(5);
    data.schedules.put(1, entry);
    let mut other = ScheduleEntry::new(9, 0);
    other.pending_fires = vec![1, 2, 3];
    data.schedules.put(2, other);
    data.purge_stale(now);
    assert_eq!(entry_of(&data, 1).pending_fires, vec![100 * day + 5]);
    assert_eq!(entry_of(&data, 1).last_fired, Some(5));
    assert!(entry_of(&data, 2).pending_fires.is_empty());
    assert_eq!(entry_of(&data, 2).hour, 9);
    // The stale fire is gone, so it cannot be replayed.
    let plan = data.recovery_plan(now);
    assert_eq!(plan.len(), 1);
    assert_eq!(plan[0].fire_time, 100 * day + 5);
}

#[test]
fn schedule_is_due_within_its_window_on_working_days() {
    let mut entry = ScheduleEntry::new(8, 30);
    let target = at(2024, 1, 1, 8, 30, 0);
    assert!(entry.is_due(true, Some(target), target));
    assert!(entry.is_due(true, Some(target), target + 25));
    assert!(entry.is_due(true, Some(target), target - 30));
    assert!(!entry.is_due(true, Some(target), target + 90));
    assert!(!entry.is_due(true, Some(target), target + 31));
    assert!(!entry.is_due(false, Some(target), target));
    assert!(!entry.is_due(true, None, target));
    entry.last_fired = Some(target - 3600);
    assert!(entry.has_fired_today(target));
    assert!(!entry.is_due(true, Some(target), target));
    entry.last_fired = Some(target - 86400);
    assert!(!entry.has_fired_today(target));
    assert!(entry.is_due(true, Some(target), target));
    entry.enabled = false;
    assert!(!entry.is_due(true, Some(target), target));
}

#[test]
fn tick_fires_once_a_day() {
    // 2024-01-02 is a Tuesday.
    let mut data = with_profile(1);
    data.set_schedule(1, 8, 0).unwrap();
    let target = at(2024, 1, 2, 8, 0, 0);
    let tick = target + 10;
    let fires = data.begin_tick(tick);
    assert_eq!(fires.len(), 1);
    assert_eq!(fires[0].owner_key, 1);
    assert_eq!(fires[0].fire_time, target);
    assert_eq!(fires[0].profile.plate, "AB12345");
    assert_eq!(fires[0].profile.phone_number, "12345678");
    // The fire is on the ledger while it is carried out.
    assert_eq!(entry_of(&data, 1).pending_fires, vec![target]);
    assert_eq!(entry_of(&data, 1).last_fired, None);
    assert!(data.record_outcome(1, target, tick, true));
    assert_eq!(entry_of(&data, 1).last_fired, Some(tick));
    assert!(entry_of(&data, 1).pending_fires.is_empty());
    // A second tick on the same day fires nothing.
    assert!(data.begin_tick(target + 40).is_empty());
    assert!(data.begin_tick(target + 20).is_empty());
    assert!(entry_of(&data, 1).pending_fires.is_empty());
    // The next day it is due again.
    let next = at(2024, 1, 3, 8, 0, 0);
    assert_eq!(data.begin_tick(next - 5).len(), 1);
    assert_eq!(entry_of(&data, 1).pending_fires, vec![next]);
}

#[test]
fn failed_fire_stays_pending_and_is_tried_again() {
    let mut data = with_profile(1);
    data.set_schedule(1, 8, 0).unwrap();
    let target = at(2024, 1, 2, 8, 0, 0);
    assert_eq!(data.begin_tick(target - 30).len(), 1);
    assert!(data.record_outcome(1, target, target - 29, false));
    assert_eq!(entry_of(&data, 1).pending_fires, vec![target]);
    assert_eq!(entry_of(&data, 1).last_fired, None);
    // The next tick is within the window too: the fire is begun again and
    // stands on the ledger once.
    let again = data.begin_tick(target + 30);
    assert_eq!(again.len(), 1);
    assert_eq!(again[0].fire_time, target);
    assert_eq!(entry_of(&data, 1).pending_fires, vec![target]);
    assert!(data.record_outcome(1, target, target + 31, true));
    assert!(entry_of(&data, 1).pending_fires.is_empty());
    assert_eq!(entry_of(&data, 1).last_fired, Some(target + 31));
    assert!(!data.record_outcome(9, target, target, true));
}

#[test]
fn tick_passes_over_what_is_not_due() {
    let mut data = with_profile(1);
    data.resolve_profile(2, Some("xy98765"), Some("87654321")).unwrap();
    data.resolve_profile(3, Some("cd11111"), Some("11111111")).unwrap();
    data.set_schedule(1, 8, 0).unwrap();
    data.set_schedule(2, 8, 0).unwrap();
    data.set_schedule(3, 8, 1).unwrap();
    assert_eq!(data.disable_schedule(2), DisableOutcome::Disabled);
    // An owner without a profile is passed over.
    data.schedules.put(4, ScheduleEntry::new(8, 0));
    let target = at(2024, 1, 2, 8, 0, 0);
    let fires = data.begin_tick(target + 30);
    let owners: Vec<u64> = fires.iter().map(|f| f.owner_key).collect();
    assert_eq!(owners, vec![1, 3]);
    assert_eq!(fires[1].fire_time, target + 60);
    assert!(entry_of(&data, 2).pending_fires.is_empty());
    assert!(entry_of(&data, 4).pending_fires.is_empty());
    // Saturday and Sunday.
    let mut weekend = with_profile(1);
    weekend.set_schedule(1, 8, 0).unwrap();
    assert!(weekend.begin_tick(at(2024, 1, 6, 8, 0, 0)).is_empty());
    assert!(weekend.begin_tick(at(2024, 1, 7, 8, 0, 0)).is_empty());
    assert_eq!(weekend.begin_tick(at(2024, 1, 8, 8, 0, 0)).len(), 1);
    // Summer time: 08:00 in Copenhagen is 06:00 UTC.
    let mut summer = with_profile(1);
    summer.set_schedule(1, 8, 0).unwrap();
    let utc = Utc.with_ymd_and_hms(2024, 7, 1, 6, 0, 0).unwrap().timestamp();
    assert!(summer.begin_tick(utc - 3600).is_empty());
    assert_eq!(summer.begin_tick(utc).len(), 1);
}

#[test]
fn recovery_replays_one_pending_fire_and_takes_it_off_the_ledger() {
    let day = 86400;
    let now = 19724 * day + 10 * 3600;
    for success in [true, false] {
        let mut data = with_profile(1);
        data.set_schedule(1, 8, 0).unwrap();
        let mut entry = ScheduleEntry::new(8, 0);
        entry.pending_fires = vec![19723 * day + 100, 19724 * day + 300, 19724 * day + 200];
        data.schedules.put(1, entry);
        let plan = data.recovery_plan(now);
        assert_eq!(plan.len(), 1);
        assert_eq!(plan[0].owner_key, 1);
        assert_eq!(plan[0].fire_time, 19724 * day + 300);
        assert_eq!(plan[0].profile.plate, "AB12345");
        // Planning changes nothing.
        assert_eq!(entry_of(&data, 1).pending_fires.len(), 3);
        assert!(data.record_recovery(1, plan[0].fire_time, now, success));
        assert_eq!(entry_of(&data, 1).pending_fires, vec![19723 * day + 100, 19724 * day + 200]);
        assert_eq!(entry_of(&data, 1).last_fired, if success { Some(now) } else { None });
        data.purge_stale(now);
        assert_eq!(entry_of(&data, 1).pending_fires, vec![19724 * day + 200]);
        let second = data.recovery_plan(now);
        assert_eq!(second.len(), if success { 0 } else { 1 });
    }
}

#[test]
fn recovery_passes_over_what_needs_no_replay() {
    let day = 86400;
    let now = 19724 * day + 10 * 3600;
    let mut data = with_profile(1);
    data.resolve_profile(2, Some("xy98765"), Some("87654321")).unwrap();
    data.resolve_profile(3, Some("cd11111"), Some("11111111")).unwrap();
    let pending = |times: Vec<i64>, last: Option<i64>, enabled: bool| {
        let mut entry = ScheduleEntry::new(8, 0);
        entry.pending_fires = times;
        entry.last_fired = last;
        entry.enabled = enabled;
        entry
    };
    // Already succeeded today.
    data.schedules.put(1, pending(vec![now - 60], Some(now - 30), true));
    // Disabled.
    data.schedules.put(2, pending(vec![now - 60], None, false));
    // Only stale fires.
    data.schedules.put(3, pending(vec![now - 2 * day], Some(now - 2 * day), true));
    // No profile.
    data.schedules.put(4, pending(vec![now - 60], None, true));
    assert!(data.recovery_plan(now).is_empty());
    data.schedules.put(5, pending(vec![now - 60], Some(now - day), true));
    data.resolve_profile(5, Some("ef22222"), Some("22222222")).unwrap();
    let plan = data.recovery_plan(now);
    assert_eq!(plan.len(), 1);
    assert_eq!((plan[0].owner_key, plan[0].fire_time), (5, now - 60));
    assert!(!data.record_recovery(6, now, now, true));
}

#[test]
fn expiry_is_warned_of_once() {
    let mut data = with_profile(1);
    data.set_schedule(1, 8, 0).unwrap();
    assert!(data.expiry_warnings(0).is_empty());
    let fired = 1_000_000;
    let mut entry = ScheduleEntry::new(8, 0);
    entry.last_fired = Some(fired);
    data.schedules.put(1, entry);
    let end = fired + 36000;
    assert!(data.expiry_warnings(end - 120).is_empty());
    assert!(data.expiry_warnings(end - 121).is_empty());
    let warnings = data.expiry_warnings(end - 119);
    assert_eq!(warnings.len(), 1);
    assert_eq!(warnings[0].owner_key, 1);
    assert_eq!(warnings[0].plate, "AB12345");
    assert_eq!(warnings[0].expiry_time, end);
    assert_eq!(data.expiry_warnings(end - 60).len(), 1);
    assert!(data.expiry_warnings(end - 59).is_empty());
    assert!(data.expiry_warnings(end).is_empty());
    assert_eq!(data.disable_schedule(1), DisableOutcome::Disabled);
    assert!(data.expiry_warnings(end - 60).is_empty());
    let mut far = ScheduleEntry::new(8, 0);
    far.last_fired = Some(i64::MAX - 100);
    data.schedules.put(1, far);
    assert!(data.expiry_warnings(i64::MAX).is_empty());
}

#[test]
fn schedules_are_set_disabled_and_cleared() {
    let mut data = ScheduleData::new();
    assert_eq!(data.set_schedule(1, 8, 0), Err(ScheduleError::ProfileRequired));
    assert_eq!(data.set_schedule(1, 24, 0), Err(ScheduleError::InvalidTime));
    assert_eq!(data.set_schedule(1, 8, 60), Err(ScheduleError::InvalidTime));
    assert_eq!(data.disable_schedule(1), DisableOutcome::NotFound);
    assert!(!data.clear(1));
    data.resolve_profile(1, Some("ab12345"), Some("12345678")).unwrap();
    assert_eq!(data.set_schedule(1, 23, 59), Ok(()));
    assert_eq!(data.set_schedule(1, 30, 0), Err(ScheduleError::InvalidTime));
    let entry = entry_of(&data, 1);
    assert_eq!((entry.hour, entry.minute, entry.enabled, entry.last_fired), (23, 59, true, None));
    assert!(entry.pending_fires.is_empty());
    assert_eq!(data.disable_schedule(1), DisableOutcome::Disabled);
    assert!(!entry_of(&data, 1).enabled);
    assert_eq!(entry_of(&data, 1).hour, 23);
    assert_eq!(data.disable_schedule(1), DisableOutcome::AlreadyDisabled);
    // Setting it again enables it, with a clean record.
    assert_eq!(data.set_schedule(1, 7, 5), Ok(()));
    assert!(entry_of(&data, 1).enabled);
    assert_eq!(data.schedules.len(), 1);
    assert!(data.clear(1));
    assert!(data.schedules.get(1).is_none());
    assert!(data.profiles.get(1).is_none());
    assert!(!data.clear(1));
    data.schedules.put(2, ScheduleEntry::new(1, 1));
    assert!(data.clear(2));
}

#[test]
fn profiles_are_settled_from_what_is_given_and_stored() {
    let mut data = ScheduleData::new();
    assert_eq!(data.resolve_profile(1, None, None).err(), Some(ProfileError::InformationRequired));
    assert_eq!(data.resolve_profile(1, Some("ab12345"), None).err(), Some(ProfileError::PhoneRequired));
    assert_eq!(data.resolve_profile(1, None, Some("12345678")).err(), Some(ProfileError::PlateRequired));
    // The phone number is checked first.
    assert_eq!(data.resolve_profile(1, Some("x"), Some("1")).err(), Some(ProfileError::InvalidPhone));
    assert_eq!(data.resolve_profile(1, Some("x"), Some("12345678")).err(), Some(ProfileError::InvalidPlate));
    assert_eq!(data.resolve_profile(1, Some("x"), None).err(), Some(ProfileError::InvalidPlate));
    assert_eq!(data.resolve_profile(1, None, Some("1")).err(), Some(ProfileError::InvalidPhone));
    assert_eq!(data.profiles.len(), 0);
    let both = data.resolve_profile(1, Some("ab12345"), Some("12345678")).unwrap();
    assert_eq!((both.plate.as_str(), both.phone_number.as_str()), ("AB12345", "12345678"));
    let stored = data.resolve_profile(1, None, None).unwrap();
    assert_eq!((stored.plate.as_str(), stored.phone_number.as_str()), ("AB12345", "12345678"));
    let plate = data.resolve_profile(1, Some("cd54321"), None).unwrap();
    assert_eq!((plate.plate.as_str(), plate.phone_number.as_str()), ("CD54321", "12345678"));
    let phone = data.resolve_profile(1, None, Some("87654321")).unwrap();
    assert_eq!((phone.plate.as_str(), phone.phone_number.as_str()), ("CD54321", "87654321"));
    assert_eq!(data.resolve_profile(1, Some("a"), None).err(), Some(ProfileError::InvalidPlate));
    let kept = data.profiles.get(1).unwrap();
    assert_eq!((kept.plate.as_str(), kept.phone_number.as_str()), ("CD54321", "87654321"));
    assert_eq!(data.profiles.len(), 1);
}

#[test]
fn store_is_sealed_for_its_file_and_restored_from_it() {
    let key = generate_encryption_key();
    let mut data = with_profile(1);
    data.resolve_profile(2, Some("xy98765"), Some("87654321")).unwrap();
    data.set_schedule(1, 8, 0).unwrap();
    let day = 86400;
    let mut entry = ScheduleEntry::new(8, 0);
    entry.pending_fires = vec![5 * day, 7 * day + 1];
    entry.last_fired = Some(6 * day);
    data.schedules.put(1, entry);

    let mut sealed = data.sealed_copy(&key).unwrap();
    assert_eq!(sealed.profiles.len(), 2);
    assert_eq!(sealed.profiles.key_at(0), 1);
    assert_ne!(sealed.profiles.get(1).unwrap().plate, "AB12345");
    assert_ne!(sealed.profiles.get(1).unwrap().phone_number, "12345678");
    assert_eq!(entry_of(&sealed, 1).pending_fires, vec![5 * day, 7 * day + 1]);
    // The store itself is untouched.
    assert_eq!(data.profiles.get(1).unwrap().plate, "AB12345");

    sealed.restore(&key, 7 * day + 50);
    assert_eq!(sealed.profiles.get(1).unwrap().plate, "AB12345");
    assert_eq!(sealed.profiles.get(1).unwrap().phone_number, "12345678");
    assert_eq!(sealed.profiles.get(2).unwrap().plate, "XY98765");
    assert_eq!(entry_of(&sealed, 1).pending_fires, vec![7 * day + 1]);
    assert_eq!(entry_of(&sealed, 1).last_fired, Some(6 * day));

    // A field that does not open is kept as it stands.
    let mut plain = with_profile(3);
    plain.restore(&key, 0);
    assert_eq!(plain.profiles.get(3).unwrap().plate, "AB12345");
    let mut other = data.sealed_copy(&key).unwrap();
    let sealed_plate = other.profiles.get(1).unwrap().plate.clone();
    other.restore(&generate_encryption_key(), 0);
    assert_eq!(other.profiles.get(1).unwrap().plate, sealed_plate);

    assert_eq!(data.sealed_copy(&vec![1u8; 5]).err(), Some(VaultError::InvalidKey));
    assert!(ScheduleData::new().sealed_copy(&vec![1u8; 5]).is_ok());
}

#[test]
fn copies_keep_what_they_copy() {
    let profile = Profile { phone_number: "12345678".to_string(), plate: "AB".to_string() };
    let copy = profile.duplicate();
    assert_eq!((copy.phone_number, copy.plate), ("12345678".to_string(), "AB".to_string()));
    let mut entry = ScheduleEntry::new(6, 7);
    entry.note_pending(5);
    entry.note_pending(9);
    entry.note_pending(5);
    assert_eq!(entry.pending_fires, vec![5, 9]);
    let twin = entry.duplicate();
    assert_eq!((twin.hour, twin.minute, twin.enabled, twin.last_fired), (6, 7, true, None));
    assert_eq!(twin.pending_fires, vec![5, 9]);
    entry.drop_pending(5);
    assert_eq!(entry.pending_fires, vec![9]);
    entry.drop_pending(4);
    assert_eq!(entry.pending_fires, vec![9]);
    assert_eq!(entry.latest_pending_today(86399), Some(9));
    assert_eq!(entry.latest_pending_today(86400), None);
}

#[test]
fn tick_on_given_instants() {
    let mut data = with_profile(1);
    data.resolve_profile(2, Some("xy98765"), Some("87654321")).unwrap();
    data.set_schedule(1, 8, 0).unwrap();
    data.set_schedule(2, 9, 0).unwrap();
    data.schedules.put(3, ScheduleEntry::new(8, 0));
    let now = 500_000;
    // Not a working day: nothing is due.
    let targets = vec![Some(now), Some(now), Some(now)];
    assert!(data.begin_tick_at(now, false, &targets).is_empty());
    // The second is outside its window, the third has no profile.
    let targets = vec![Some(now - 30), Some(now + 31), Some(now)];
    let fires = data.begin_tick_at(now, true, &targets);
    assert_eq!(fires.len(), 1);
    assert_eq!((fires[0].owner_key, fires[0].fire_time), (1, now - 30));
    assert_eq!(entry_of(&data, 1).pending_fires, vec![now - 30]);
    assert!(entry_of(&data, 2).pending_fires.is_empty());
    assert!(entry_of(&data, 3).pending_fires.is_empty());
    // A schedule without an instant today is never due.
    let targets = vec![None, Some(now), None];
    let fires = data.begin_tick_at(now, true, &targets);
    assert_eq!(fires.len(), 1);
    assert_eq!((fires[0].owner_key, fires[0].fire_time), (2, now));
    assert_eq!(fires[0].profile.plate, "XY98765");
}

#[test]
fn profile_is_settled_with_the_plate_as_it_is_to_be_stored() {
    let mut data = ScheduleData::new();
    let settled = data
        .settle_profile(1, Some(("ab12345", "Stored".to_string())), Some("12345678"))
        .unwrap();
    assert_eq!(settled.plate, "Stored");
    assert_eq!(data.profiles.get(1).unwrap().plate, "Stored");
    // The plate is checked as it was written.
    assert_eq!(
        data.settle_profile(1, Some(("a", "AB12345".to_string())), None).err(),
        Some(ProfileError::InvalidPlate)
    );
    assert_eq!(data.profiles.get(1).unwrap().plate, "Stored");
    let kept = data.settle_profile(1, None, None).unwrap();
    assert_eq!((kept.plate.as_str(), kept.phone_number.as_str()), ("Stored", "12345678"));
}
