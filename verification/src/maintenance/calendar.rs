//! Days, clock times and instants. A day is its number from the common era
//! (the first of January of the year one is day one), and an instant is a
//! number of milliseconds since the Unix epoch.
use chrono::{Datelike, TimeZone, Timelike};
use vstd::prelude::*;

verus! {

/// The first day of the calendar: the first of January of the year -262143.
pub const MIN_DAY: i32 = -95_746_129;

/// The last day of the calendar: the last of December of the year 262142.
pub const MAX_DAY: i32 = 95_745_399;

/// The first instant of the calendar.
pub const MIN_INSTANT: i64 = -8_334_601_228_800_000;

/// The last instant of the calendar.
pub const MAX_INSTANT: i64 = 8_210_266_876_799_999;

/// A number of milliseconds that every time zone's offset stays below.
pub const DAY_MILLIS: i64 = 86_400_000;

/// A day of the calendar.
pub open spec fn is_day(day: int) -> bool {
    MIN_DAY <= day <= MAX_DAY
}

/// An instant of the calendar.
pub open spec fn is_instant(at: int) -> bool {
    MIN_INSTANT <= at <= MAX_INSTANT
}

/// An instant whose local time is in the calendar in every time zone.
pub open spec fn is_local_instant(at: int) -> bool {
    MIN_INSTANT + DAY_MILLIS <= at <= MAX_INSTANT - DAY_MILLIS
}

/// A time of the day in hours and minutes.
pub open spec fn is_clock(hour: int, minute: int) -> bool {
    0 <= hour < 24 && 0 <= minute < 60
}

/// The time zone database of `chrono_tz` has a zone of a name.
pub uninterp spec fn zone_known(name: Seq<char>) -> bool;

/// Trusted: parsing a name as `chrono_tz::Tz` succeeds or fails by the name
/// alone, since the database is compiled in.
#[verifier::external_body]
pub(crate) fn is_zone(name: &str) -> (known: bool)
    ensures
        known == zone_known(name@),
{
    name.parse::<chrono_tz::Tz>().is_ok()
}

/// The hour and minute that `chrono::NaiveTime` reads from a text in the
/// format `%H:%M`.
pub uninterp spec fn clock_time(text: Seq<char>) -> Option<(u32, u32)>;

/// Trusted: `chrono::NaiveTime::parse_from_str` with the format `%H:%M` reads
/// an hour and a minute, or nothing, by the text alone.
#[verifier::external_body]
pub(crate) fn read_clock(text: &str) -> (time: Option<(u32, u32)>)
    ensures
        time == clock_time(text@),
        time matches Some((hour, minute)) ==> is_clock(hour as int, minute as int),
{
    match chrono::NaiveTime::parse_from_str(text, "%H:%M") {
        Ok(time) => Some((time.hour(), time.minute())),
        Err(_) => None,
    }
}

/// The local day of an instant in a zone.
pub uninterp spec fn zone_day(zone: Seq<char>, at: i64) -> i32;

/// Trusted: `chrono::DateTime::with_timezone` and `date_naive` give the local
/// day of an instant by the zone and the instant alone. The local time is in
/// the calendar because an offset is less than a day.
#[verifier::external_body]
pub(crate) fn local_day(zone: &str, at: i64) -> (day: i32)
    requires
        zone_known(zone@),
        is_local_instant(at as int),
    ensures
        day == zone_day(zone@, at),
        is_day(day as int),
{
    let zone: chrono_tz::Tz = zone.parse().unwrap();
    let utc = chrono::DateTime::from_timestamp_millis(at).unwrap();
    utc.with_timezone(&zone).date_naive().num_days_from_ce()
}

/// The instants at which the clocks of a zone show a local day, hour and
/// minute: none, one, or two where the clocks were set back.
pub uninterp spec fn zone_instants(zone: Seq<char>, day: i32, hour: u32, minute: u32) -> Option<
    (i64, Option<i64>),
>;

/// Trusted: `chrono::TimeZone::from_local_datetime` maps a local time to the
/// instants of the calendar that have it, by its arguments alone.
#[verifier::external_body]
pub(crate) fn local_instants(zone: &str, day: i32, hour: u32, minute: u32) -> (found: Option<
    (i64, Option<i64>),
>)
    requires
        zone_known(zone@),
        is_day(day as int),
        is_clock(hour as int, minute as int),
    ensures
        found == zone_instants(zone@, day, hour, minute),
        found matches Some((first, second)) ==> is_instant(first as int) && (second matches Some(
            other,
        ) ==> is_instant(other as int)),
{
    let zone: chrono_tz::Tz = zone.parse().unwrap();
    let date = chrono::NaiveDate::from_num_days_from_ce_opt(day).unwrap();
    let local = date.and_hms_opt(hour, minute, 0).unwrap();
    match zone.from_local_datetime(&local) {
        chrono::LocalResult::None => None,
        chrono::LocalResult::Single(at) => Some((at.timestamp_millis(), None)),
        chrono::LocalResult::Ambiguous(first, second) => {
            Some((first.timestamp_millis(), Some(second.timestamp_millis())))
        },
    }
}

/// A day as `chrono::NaiveDate` displays it.
pub uninterp spec fn day_text(day: i32) -> Seq<char>;

/// Trusted: the display form of a `chrono::NaiveDate` depends on the day
/// alone.
#[verifier::external_body]
pub(crate) fn show_day(day: i32) -> (text: String)
    requires
        is_day(day as int),
    ensures
        text@ == day_text(day),
{
    chrono::NaiveDate::from_num_days_from_ce_opt(day).unwrap().to_string()
}

/// The ISO number of a weekday: day one was a Monday.
pub open spec fn weekday(day: int) -> int {
    (day - 1) % 7 + 1
}

/// The ISO number of the weekday of a day.
pub fn weekday_of(day: i32) -> (number: u32)
    requires
        is_day(day as int),
    ensures
        number == weekday(day as int),
        1 <= number <= 7,
{
    let shifted: i64 = day as i64 - 1 + 98_000_000;
    assert(shifted % 7 == (day - 1) % 7) by (nonlinear_arith)
        requires
            shifted == day - 1 + 98_000_000,
    ;
    (shifted % 7 + 1) as u32
}

/// The instant a number of minutes after another, where the calendar has it.
pub open spec fn instant_after(at: int, minutes: int) -> Option<int> {
    if is_instant(at + minutes * 60_000) {
        Some(at + minutes * 60_000)
    } else {
        None
    }
}

/// The instant a number of minutes after another, where the calendar has it.
pub fn add_minutes(at: i64, minutes: u32) -> (later: Option<i64>)
    requires
        is_instant(at as int),
    ensures
        later is Some <==> instant_after(at as int, minutes as int) is Some,
        later matches Some(instant) ==> instant_after(at as int, minutes as int) == Some(
            instant as int,
        ),
{
    let later: i64 = at + minutes as i64 * 60_000;
    if later > MAX_INSTANT {
        None
    } else {
        Some(later)
    }
}

/// Weekdays follow each other from Monday, which is one, to Sunday, which is
/// seven, and day one was a Monday.
pub proof fn weekdays_follow_each_other(day: i32, number: u32)
    requires
        is_day(day as int),
        call_ensures(weekday_of, (day,), number),
    ensures
        1 <= number <= 7,
        (number - day) % 7 == 0,
{
    assert(((day - 1) % 7 + 1 - day) % 7 == 0) by (nonlinear_arith);
}

/// The instant after some minutes is that many minutes later, and there is one
/// unless the calendar ends before it.
pub proof fn minutes_are_added(at: i64, minutes: u32, later: Option<i64>)
    requires
        is_instant(at as int),
        call_ensures(add_minutes, (at, minutes), later),
    ensures
        later is Some <==> at + minutes * 60_000 <= MAX_INSTANT,
        later matches Some(instant) ==> instant == at + minutes * 60_000,
{
}

} // verus!
