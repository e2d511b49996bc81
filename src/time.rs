//! Instants as Unix seconds, and what the schedule summary reads from them:
//! the time of day and the day of the week, both in UTC.

use chrono::Datelike;
use chrono::Timelike;
use vstd::prelude::*;

verus! {

/// Seconds in one civil day.
pub const SECONDS_PER_DAY: u32 = 86400;

/// The largest distance from the Unix epoch, in seconds, that this library treats as an
/// instant (about 253,000 years each way, well inside the calendar that chrono supports).
pub const MAX_INSTANT_SECS: i64 = 8_000_000_000_000;

/// A day of the week.
#[derive(Clone, Copy, Debug, PartialEq, Eq, Structural, Hash)]
pub enum Weekday {
    Mon,
    Tue,
    Wed,
    Thu,
    Fri,
    Sat,
    Sun,
}

/// A time of day with a one-second resolution, counted from midnight.
#[derive(Clone, Copy, Debug, PartialEq, Eq, Structural, Hash)]
pub struct TimeOfDay {
    pub secs: u32,
}

/// Whether `secs` (seconds since 1970-01-01T00:00:00Z) is a representable instant.
pub open spec fn is_instant(secs: i64) -> bool {
    -MAX_INSTANT_SECS <= secs <= MAX_INSTANT_SECS
}

/// Whether an optional instant is either absent or representable.
pub open spec fn is_opt_instant(t: Option<i64>) -> bool {
    match t {
        Some(s) => is_instant(s),
        None => true,
    }
}

/// The index of a weekday, counted from Monday.
pub open spec fn weekday_index(w: Weekday) -> nat {
    match w {
        Weekday::Mon => 0,
        Weekday::Tue => 1,
        Weekday::Wed => 2,
        Weekday::Thu => 3,
        Weekday::Fri => 4,
        Weekday::Sat => 5,
        Weekday::Sun => 6,
    }
}

/// The weekday of the UTC date of an instant, counted from Monday
/// (1970-01-01 was a Thursday).
pub open spec fn utc_weekday_index(secs: i64) -> int {
    (secs as int / SECONDS_PER_DAY as int + 3) % 7
}

/// The weekday of the UTC date of an instant.
pub open spec fn utc_weekday(secs: i64) -> Weekday {
    weekday_from_index(utc_weekday_index(secs))
}

/// The weekday with index `i` counted from Monday (Sunday for any index past Saturday).
pub open spec fn weekday_from_index(i: int) -> Weekday {
    if i == 0 {
        Weekday::Mon
    } else if i == 1 {
        Weekday::Tue
    } else if i == 2 {
        Weekday::Wed
    } else if i == 3 {
        Weekday::Thu
    } else if i == 4 {
        Weekday::Fri
    } else if i == 5 {
        Weekday::Sat
    } else {
        Weekday::Sun
    }
}

/// The UTC time of day of an instant, in seconds from midnight.
pub open spec fn utc_seconds_of_day(secs: i64) -> int {
    secs as int % SECONDS_PER_DAY as int
}

/// The UTC time of day of an instant.
pub open spec fn utc_time_of_day(secs: i64) -> TimeOfDay {
    TimeOfDay { secs: utc_seconds_of_day(secs) as u32 }
}

/// Relies on chrono's `DateTime::<Utc>::from_timestamp` (which accepts every instant of
/// `is_instant`), then `Datelike::weekday` and `Weekday::num_days_from_monday`: the
/// weekday of the instant's UTC date, counted from Monday.
#[verifier::external_body]
fn chrono_weekday_index(secs: i64) -> (r: Option<u32>)
    ensures
        is_instant(secs) ==> r == Some(utc_weekday_index(secs) as u32),
{
    match chrono::DateTime::from_timestamp(secs, 0) {
        Some(dt) => Some(dt.weekday().num_days_from_monday()),
        None => None,
    }
}

/// Relies on chrono's `DateTime::<Utc>::from_timestamp` (which accepts every instant of
/// `is_instant`), then `DateTime::time` and `Timelike::num_seconds_from_midnight`: the
/// UTC time of day of the instant, in seconds.
#[verifier::external_body]
fn chrono_seconds_of_day(secs: i64) -> (r: Option<u32>)
    ensures
        is_instant(secs) ==> r == Some(utc_seconds_of_day(secs) as u32),
{
    match chrono::DateTime::from_timestamp(secs, 0) {
        Some(dt) => Some(dt.time().num_seconds_from_midnight()),
        None => None,
    }
}

impl Weekday {
    /// The weekday with the given index counted from Monday.
    pub fn from_monday_index(i: u32) -> (r: Weekday)
        requires
            i < 7,
        ensures
            r == weekday_from_index(i as int),
            weekday_index(r) == i,
    {
        if i == 0 {
            Weekday::Mon
        } else if i == 1 {
            Weekday::Tue
        } else if i == 2 {
            Weekday::Wed
        } else if i == 3 {
            Weekday::Thu
        } else if i == 4 {
            Weekday::Fri
        } else if i == 5 {
            Weekday::Sat
        } else {
            Weekday::Sun
        }
    }

    /// The index of this weekday, counted from Monday.
    pub fn num_days_from_monday(&self) -> (r: u32)
        ensures
            r == weekday_index(*self),
    {
        match self {
            Weekday::Mon => 0,
            Weekday::Tue => 1,
            Weekday::Wed => 2,
            Weekday::Thu => 3,
            Weekday::Fri => 4,
            Weekday::Sat => 5,
            Weekday::Sun => 6,
        }
    }
}

impl TimeOfDay {
    /// The time of day `hour:minute:second`.
    pub fn from_hms(hour: u32, minute: u32, second: u32) -> (r: TimeOfDay)
        requires
            hour < 24,
            minute < 60,
            second < 60,
        ensures
            r.secs == 3600 * hour + 60 * minute + second,
            r.secs < SECONDS_PER_DAY,
    {
        TimeOfDay { secs: 3600 * hour + 60 * minute + second }
    }

    /// The hour, minute and second of this time of day.
    pub fn hms(&self) -> (r: (u32, u32, u32))
        ensures
            r.0 == self.secs / 3600,
            r.1 == (self.secs % 3600) / 60,
            r.2 == self.secs % 60,
    {
        (self.secs / 3600, (self.secs % 3600) / 60, self.secs % 60)
    }
}

/// The weekday of the UTC date of an instant.
pub fn weekday_of(secs: i64) -> (r: Weekday)
    requires
        is_instant(secs),
    ensures
        r == utc_weekday(secs),
{
    let i: u32 = match chrono_weekday_index(secs) {
        Some(i) => i,
        None => 0,  // not reached: every instant is in chrono's range
    };
    Weekday::from_monday_index(i)
}

/// The UTC time of day of an instant.
pub fn time_of_day(secs: i64) -> (r: TimeOfDay)
    requires
        is_instant(secs),
    ensures
        r == utc_time_of_day(secs),
        r.secs < SECONDS_PER_DAY,
{
    let s: u32 = match chrono_seconds_of_day(secs) {
        Some(s) => s,
        None => 0,  // not reached: every instant is in chrono's range
    };
    TimeOfDay { secs: s }
}

} // verus!
