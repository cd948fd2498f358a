//! Wall-clock arithmetic of the proleptic Gregorian calendar, as chrono
//! computes it for naive (zone-less) date-times.
use vstd::prelude::*;

verus! {

/// Earliest year that a calendar date may have.
pub const MIN_YEAR: i32 = -262143;

/// Latest year that a calendar date may have.
pub const MAX_YEAR: i32 = 262142;

/// Bound on the magnitude of any timestamp computed here.
pub const TIMESTAMP_BOUND: i64 = 400000000000000;

/// Day number of 1970-01-01 when 0001-01-01 is day 1.
pub const UNIX_EPOCH_DAY: i64 = 719163;

pub open spec fn is_leap_year(y: int) -> bool {
    y % 4 == 0 && (y % 100 != 0 || y % 400 == 0)
}

pub open spec fn days_in_month(y: int, m: int) -> int {
    if m == 2 {
        if is_leap_year(y) { 29 } else { 28 }
    } else if m == 4 || m == 6 || m == 9 || m == 11 {
        30
    } else {
        31
    }
}

pub open spec fn valid_date(y: int, m: int, d: int) -> bool {
    MIN_YEAR <= y <= MAX_YEAR && 1 <= m <= 12 && 1 <= d <= days_in_month(y, m)
}

pub open spec fn valid_time(h: int, mi: int, s: int) -> bool {
    0 <= h < 24 && 0 <= mi < 60 && 0 <= s < 60
}

/// Days of year `y` that lie before the first of month `m`.
pub open spec fn days_before_month(y: int, m: int) -> int
    decreases m,
{
    if m <= 1 {
        0
    } else {
        days_before_month(y, m - 1) + days_in_month(y, m - 1)
    }
}

/// Day number of a date, January 1 of year 1 being day 1.
pub open spec fn day_number(y: int, m: int, d: int) -> int {
    365 * (y - 1) + (y - 1) / 4 - (y - 1) / 100 + (y - 1) / 400 + days_before_month(y, m) + d
}

/// Seconds since 1970-01-01T00:00:00 of a naive date-time.
pub open spec fn epoch_seconds(y: int, m: int, d: int, h: int, mi: int, s: int) -> int {
    (day_number(y, m, d) - UNIX_EPOCH_DAY) * 86400 + h * 3600 + mi * 60 + s
}

/// Relies on chrono's NaiveDate::from_ymd_opt, None exactly on a calendar day
/// that does not exist or lies outside its year range, and on
/// Datelike::num_days_from_ce, which counts January 1 of year 1 as day 1.
#[verifier::external_body]
fn ce_day_number(year: i32, month: u32, day: u32) -> (r: Option<i32>)
    ensures
        r is Some <==> valid_date(year as int, month as int, day as int),
        r matches Some(n) ==> n == day_number(year as int, month as int, day as int),
{
    match chrono::NaiveDate::from_ymd_opt(year, month, day) {
        Some(date) => Some(chrono::Datelike::num_days_from_ce(&date)),
        None => None,
    }
}

/// Relies on chrono's NaiveTime::from_hms_opt, None exactly on an hour,
/// minute or second out of range, and on Timelike::num_seconds_from_midnight.
#[verifier::external_body]
fn seconds_from_midnight(hour: u32, minute: u32, second: u32) -> (r: Option<u32>)
    ensures
        r is Some <==> valid_time(hour as int, minute as int, second as int),
        r matches Some(n) ==> n == hour * 3600 + minute * 60 + second,
{
    match chrono::NaiveTime::from_hms_opt(hour, minute, second) {
        Some(time) => Some(chrono::Timelike::num_seconds_from_midnight(&time)),
        None => None,
    }
}

/// Seconds since the epoch of a naive date-time, or None where the fields do
/// not form one.
pub fn timestamp_of(year: i32, month: u32, day: u32, hour: u32, minute: u32, second: u32) -> (r:
    Option<i64>)
    ensures
        r is Some <==> valid_date(year as int, month as int, day as int) && valid_time(
            hour as int,
            minute as int,
            second as int,
        ),
        r matches Some(t) ==> t == epoch_seconds(
            year as int,
            month as int,
            day as int,
            hour as int,
            minute as int,
            second as int,
        ),
        r matches Some(t) ==> -TIMESTAMP_BOUND <= t <= TIMESTAMP_BOUND,
{
    let days = ce_day_number(year, month, day);
    let secs = seconds_from_midnight(hour, minute, second);
    match (days, secs) {
        (Some(n), Some(s)) => {
            let shifted: i64 = n as i64 - UNIX_EPOCH_DAY;
            assert(-4294967296 <= shifted <= 4294967296);
            assert(-4294967296 * 86400 <= shifted * 86400 <= 4294967296 * 86400) by (nonlinear_arith)
                requires
                    -4294967296 <= shifted <= 4294967296,
            ;
            Some(shifted * 86400 + s as i64)
        },
        _ => None,
    }
}

/// A reading of the local wall clock, field by field.
#[derive(Debug, Clone, Copy, PartialEq, Eq, Structural)]
pub struct WallClock {
    pub year: i32,
    pub month: u32,
    pub day: u32,
    pub hour: u32,
    pub minute: u32,
    pub second: u32,
}

impl WallClock {
    /// The fields form an existing date and time of day.
    pub open spec fn wf(&self) -> bool {
        valid_date(self.year as int, self.month as int, self.day as int) && valid_time(
            self.hour as int,
            self.minute as int,
            self.second as int,
        )
    }

    pub open spec fn epoch(&self) -> int {
        epoch_seconds(
            self.year as int,
            self.month as int,
            self.day as int,
            self.hour as int,
            self.minute as int,
            self.second as int,
        )
    }

    /// Seconds since the epoch that the reading shows.
    pub fn timestamp(&self) -> (r: i64)
        requires
            self.wf(),
        ensures
            r == self.epoch(),
            -TIMESTAMP_BOUND <= r <= TIMESTAMP_BOUND,
    {
        match timestamp_of(self.year, self.month, self.day, self.hour, self.minute, self.second) {
            Some(t) => t,
            None => 0,
        }
    }
}

} // verus!
