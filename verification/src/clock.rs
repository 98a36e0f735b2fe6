//! Instants, days and the civil calendar of the schedule's time zone.
//!
//! An instant is a number of seconds since 1970-01-01 00:00:00 UTC. Days
//! are counted in UTC from that date. The civil calendar, with its daylight
//! saving rules, is that of Copenhagen and is asked of `chrono`.

use chrono::{Datelike, TimeZone};
use vstd::prelude::*;

verus! {

pub const SECONDS_PER_DAY: i64 = 86400;

/// A date of the civil calendar. `weekday` counts from 0 for Monday.
#[derive(Clone, Copy, PartialEq, Eq, Structural, Debug)]
pub struct LocalDate {
    pub year: i32,
    pub month: u32,
    pub day: u32,
    pub weekday: u8,
}

/// The day an instant falls on: whole days since 1970-01-01, in UTC.
pub open spec fn day_of(t: int) -> int {
    t / 86400
}

/// Two instants fall on the same day.
pub open spec fn same_day(a: int, b: int) -> bool {
    day_of(a) == day_of(b)
}

/// Monday to Friday.
pub open spec fn is_working_day(date: LocalDate) -> bool {
    date.weekday < 5
}

/// The date in Copenhagen at an instant, as `chrono` with the time zone
/// data of `chrono_tz` gives it; `None` where `chrono` cannot represent the
/// instant.
pub uninterp spec fn copenhagen_date(utc: i64) -> Option<LocalDate>;

/// The instant at which the clocks in Copenhagen show the given date, hour
/// and minute; `None` where no such date or time exists, or where the clocks
/// show it twice.
pub uninterp spec fn copenhagen_instant(year: i32, month: u32, day: u32, hour: u32, minute: u32) -> Option<
    i64,
>;

/// Asks `chrono` for the date in Copenhagen at `utc`:
/// `DateTime::from_timestamp`, then `with_timezone`, then the fields of
/// `Datelike`. The answer depends on the instant alone.
#[verifier::external_body]
fn local_date(utc: i64) -> (r: Option<LocalDate>)
    ensures
        r == copenhagen_date(utc),
{
    let at = chrono::DateTime::from_timestamp(utc, 0)?.with_timezone(&chrono_tz::Europe::Copenhagen);
    Some(
        LocalDate {
            year: at.year(),
            month: at.month(),
            day: at.day(),
            weekday: at.weekday().num_days_from_monday() as u8,
        },
    )
}

/// Asks `chrono` for the instant of a civil date and time in Copenhagen,
/// at second 0: `TimeZone::with_ymd_and_hms`, of which only a single result
/// is taken. The answer depends on the arguments alone.
#[verifier::external_body]
fn local_instant(year: i32, month: u32, day: u32, hour: u32, minute: u32) -> (r: Option<i64>)
    ensures
        r == copenhagen_instant(year, month, day, hour, minute),
{
    match chrono_tz::Europe::Copenhagen.with_ymd_and_hms(year, month, day, hour, minute, 0).single() {
        Some(at) => Some(at.timestamp()),
        None => None,
    }
}

/// The day `t` falls on.
pub fn utc_day(t: i64) -> (d: i64)
    ensures
        d == day_of(t as int),
{
    if t >= 0 {
        t / SECONDS_PER_DAY
    } else {
        let back: i64 = -(t + 1);
        -(back / SECONDS_PER_DAY) - 1
    }
}

/// Whether `a` and `b` fall on the same day.
pub fn on_same_day(a: i64, b: i64) -> (r: bool)
    ensures
        r == same_day(a as int, b as int),
{
    utc_day(a) == utc_day(b)
}

/// The date in Copenhagen at `now`.
pub fn date_in_copenhagen(now: i64) -> (r: Option<LocalDate>)
    ensures
        r == copenhagen_date(now),
{
    local_date(now)
}

/// The instant at which the clocks in Copenhagen show `hour:minute` on
/// `date`.
pub fn instant_in_copenhagen(date: LocalDate, hour: u8, minute: u8) -> (r: Option<i64>)
    ensures
        r == copenhagen_instant(date.year, date.month, date.day, hour as u32, minute as u32),
{
    local_instant(date.year, date.month, date.day, hour as u32, minute as u32)
}

/// Whether `date` is a Monday, Tuesday, Wednesday, Thursday or Friday.
pub fn is_weekday(date: &LocalDate) -> (r: bool)
    ensures
        r == is_working_day(*date),
{
    date.weekday < 5
}

/// Two instants lie within `tolerance` seconds of each other.
pub open spec fn within(a: int, b: int, tolerance: int) -> bool {
    -tolerance <= a - b <= tolerance
}

/// How far, in seconds, the clock may be from a scheduled time for the
/// schedule to be due.
pub const MATCH_TOLERANCE: i64 = 30;

/// Whether `current_time` lies within [`MATCH_TOLERANCE`] seconds of
/// `schedule_time`, before or after.
pub fn is_schedule_time_match(schedule_time: i64, current_time: i64) -> (r: bool)
    ensures
        r == within(current_time as int, schedule_time as int, MATCH_TOLERANCE as int),
{
    let gap: i128 = current_time as i128 - schedule_time as i128;
    -(MATCH_TOLERANCE as i128) <= gap && gap <= MATCH_TOLERANCE as i128
}

/// Whether `hour:minute` is a time of day.
pub fn is_valid_time(hour: u8, minute: u8) -> (r: bool)
    ensures
        r == (hour <= 23 && minute <= 59),
{
    hour <= 23 && minute <= 59
}

} // verus!
