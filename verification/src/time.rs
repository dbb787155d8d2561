//! Instants are Unix seconds (UTC). Local-time questions — which Oslo hour,
//! which weekday — are answered by the time-zone database.

use vstd::prelude::*;
use chrono::{Datelike, Timelike};

use crate::units::{valid_time, SECS_PER_HOUR};

verus! {

/// Largest distance from the epoch, in seconds, whose nanosecond count still
/// fits an `i64`; hour truncation leaves instants beyond it untouched.
pub const NANOS_RANGE_SECS: i64 = 9_223_372_036;

/// The start of the hour containing `t`; instants whose nanosecond timestamp
/// does not fit an `i64` (beyond the years 1677–2262) are returned unchanged.
pub open spec fn spec_hour_floor(t: int) -> int {
    if -NANOS_RANGE_SECS <= t <= NANOS_RANGE_SECS {
        t - t % (SECS_PER_HOUR as int)
    } else {
        t
    }
}

/// Floor an instant to the start of its hour.
pub fn hour_floor(t: i64) -> (r: i64)
    requires
        valid_time(t as int),
    ensures
        r == spec_hour_floor(t as int),
        valid_time(r as int),
        r <= t,
        t - r < SECS_PER_HOUR,
{
    if -NANOS_RANGE_SECS <= t && t <= NANOS_RANGE_SECS {
        let rem = t.checked_rem_euclid(SECS_PER_HOUR).unwrap();
        t - rem
    } else {
        t
    }
}

/// Days from the common era (0001-01-01 is day 1) of 1970-01-01.
pub const EPOCH_DAY: i32 = 719_163;

/// Largest distance in days from `EPOCH_DAY` of a calendar date the library
/// handles: every local date of a handled instant, with room to step a few
/// days on.
pub const MAX_DAY_OFFSET: i32 = 95_100_000;

/// A handled calendar date, as days from the common era.
pub open spec fn valid_day(d: int) -> bool {
    EPOCH_DAY - MAX_DAY_OFFSET <= d <= EPOCH_DAY + MAX_DAY_OFFSET
}

/// The Oslo-local calendar date (days from the common era), wall-clock hour
/// (0–23) and weekday (0 = Monday … 6 = Sunday) of an instant, as the
/// time-zone database gives them.
pub uninterp spec fn oslo_clock(t: i64) -> (i32, u32, u32);

/// Oslo-local date, hour and weekday of the instant `t`.
///
/// Trusted: converts `t` with `chrono::DateTime::from_timestamp` and
/// `with_timezone(&chrono_tz::Europe::Oslo)` and reads
/// `date_naive().num_days_from_ce()`, `hour()` and
/// `weekday().num_days_from_monday()`. The contract claims that the result is
/// what that conversion gives (named `oslo_clock`), that the hour is below 24
/// and the weekday below 7 (their documented ranges), and that the local date
/// is a handled one: Oslo's offsets from UTC are all less than a day, so the
/// local date is within a day of the UTC date, which lies within
/// `MAX_TIME / 86 400` days of the epoch.
#[verifier::external_body]
pub(crate) fn oslo_wall_clock(t: i64) -> (r: (i32, u32, u32))
    requires
        valid_time(t as int),
    ensures
        r == oslo_clock(t),
        r.1 < 24,
        r.2 < 7,
        valid_day(r.0 as int),
{
    let local = chrono::DateTime::from_timestamp(t, 0).unwrap().with_timezone(&chrono_tz::Europe::Oslo);
    (local.date_naive().num_days_from_ce(), local.hour(), local.weekday().num_days_from_monday())
}

/// The instants (earliest, latest) at which Oslo wall-clock time shows the
/// given local date and time: one instant normally, two in the autumn fold,
/// none in the spring gap or for an impossible date or time.
pub uninterp spec fn oslo_from_local(day: i32, hour: u32, minute: u32, second: u32) -> Option<(i64, i64)>;

/// Resolve an Oslo wall-clock date and time to UTC instants.
///
/// Trusted: builds the date with `chrono::NaiveDate::from_num_days_from_ce_opt`
/// and the time with `and_hms_opt`, then calls
/// `chrono_tz::Europe::Oslo.from_local_datetime`, mapping `Single(t)` to
/// `(t, t)`, `Ambiguous(a, b)` to `(a, b)` and `None` (or an invalid date or
/// time) to none, with each instant as Unix seconds. The contract claims that
/// the result is what those calls give (named `oslo_from_local`) and, as
/// chrono documents the ambiguous case as `(earliest, latest)`, that the first
/// instant is not after the second.
#[verifier::external_body]
pub(crate) fn oslo_local_instants(day: i32, hour: u32, minute: u32, second: u32) -> (r: Option<(i64, i64)>)
    ensures
        r == oslo_from_local(day, hour, minute, second),
        r matches Some((a, b)) ==> a <= b,
{
    let naive = chrono::NaiveDate::from_num_days_from_ce_opt(day)?.and_hms_opt(hour, minute, second)?;
    match chrono::TimeZone::from_local_datetime(&chrono_tz::Europe::Oslo, &naive) {
        chrono::LocalResult::Single(t) => Some((t.timestamp(), t.timestamp())),
        chrono::LocalResult::Ambiguous(a, b) => Some((a.timestamp(), b.timestamp())),
        chrono::LocalResult::None => None,
    }
}

/// The instant an RFC 3339 timestamp denotes, in whole Unix seconds, or none
/// when the text is not one.
pub uninterp spec fn rfc3339_seconds(text: Seq<char>) -> Option<i64>;

/// Parse an RFC 3339 timestamp.
///
/// Trusted: calls `chrono::DateTime::parse_from_rfc3339` and takes
/// `timestamp()` of a success. The contract claims only that the result is
/// what that call gives (named `rfc3339_seconds`).
#[verifier::external_body]
pub(crate) fn parse_rfc3339(text: &str) -> (r: Option<i64>)
    ensures
        r == rfc3339_seconds(text@),
{
    chrono::DateTime::parse_from_rfc3339(text).ok().map(|t| t.timestamp())
}

/// The local date (days from the common era) and time a text holds under a
/// `strftime`-style format, or none when it does not parse.
pub uninterp spec fn naive_datetime_in(text: Seq<char>, format: Seq<char>) -> Option<(i32, u32, u32, u32)>;

/// Parse a date and time without a zone.
///
/// Trusted: calls `chrono::NaiveDateTime::parse_from_str` and reads
/// `date().num_days_from_ce()`, `hour()`, `minute()` and `second()` of a
/// success. The contract claims that the result is what that call gives
/// (named `naive_datetime_in`) and the documented ranges of hour, minute and
/// second.
#[verifier::external_body]
pub(crate) fn parse_naive_datetime(text: &str, format: &str) -> (r: Option<(i32, u32, u32, u32)>)
    ensures
        r == naive_datetime_in(text@, format@),
        r matches Some((_, h, m, s)) ==> h < 24 && m < 60 && s < 60,
{
    let t = chrono::NaiveDateTime::parse_from_str(text, format).ok()?;
    Some((t.date().num_days_from_ce(), t.hour(), t.minute(), t.second()))
}

/// The time of day a text holds under a `strftime`-style format, or none
/// when it does not parse.
pub uninterp spec fn naive_time_in(text: Seq<char>, format: Seq<char>) -> Option<(u32, u32, u32)>;

/// Parse a time of day.
///
/// Trusted: calls `chrono::NaiveTime::parse_from_str` and reads `hour()`,
/// `minute()` and `second()` of a success. The contract claims that the
/// result is what that call gives (named `naive_time_in`) and the documented
/// ranges of hour, minute and second.
#[verifier::external_body]
pub(crate) fn parse_naive_time(text: &str, format: &str) -> (r: Option<(u32, u32, u32)>)
    ensures
        r == naive_time_in(text@, format@),
        r matches Some((h, m, s)) ==> h < 24 && m < 60 && s < 60,
{
    let t = chrono::NaiveTime::parse_from_str(text, format).ok()?;
    Some((t.hour(), t.minute(), t.second()))
}

/// True during the grid operators' cheap-rate hours: nights (22:00–06:00)
/// and all of Saturday and Sunday, Oslo time.
pub open spec fn spec_night_or_weekend(clock: (i32, u32, u32)) -> bool {
    clock.2 >= 5 || clock.1 < 6 || clock.1 >= 22
}

/// Whether a local date, hour and weekday fall in the cheap grid-rate hours.
pub fn is_night_or_weekend(clock: (i32, u32, u32)) -> (b: bool)
    ensures
        b == spec_night_or_weekend(clock),
{
    let (_, hour, weekday) = clock;
    weekday >= 5 || hour < 6 || hour >= 22
}

/// Whether `at` falls in the cheap grid-rate hours (night or weekend, Oslo).
pub fn night_or_weekend(at: i64) -> (b: bool)
    requires
        valid_time(at as int),
    ensures
        b == spec_night_or_weekend(oslo_clock(at)),
{
    is_night_or_weekend(oslo_wall_clock(at))
}

} // verus!
