//! Instants in UTC as a count of seconds since the Unix epoch plus a
//! sub-second part, and the calendar fields of an instant.

use chrono::{Datelike, Timelike};
use vstd::prelude::*;

verus! {

/// Seconds on either side of the epoch inside which the library works. It
/// lies well within what `chrono` represents (about 262 000 years), so that
/// a week or `i32::MAX` minutes past any admitted instant still has a date.
pub const TIME_LIMIT_SECS: i64 = 8_000_000_000_000;

/// A UTC instant: `secs` since 1970-01-01T00:00:00Z, plus `nanos`.
#[derive(Clone, Copy, Debug, PartialEq, Eq)]
pub struct UtcTime {
    pub secs: i64,
    pub nanos: u32,
}

impl UtcTime {
    /// A well-formed instant in the range the library handles.
    pub open spec fn wf(self) -> bool {
        &&& self.nanos < 1_000_000_000
        &&& -TIME_LIMIT_SECS <= self.secs <= TIME_LIMIT_SECS
    }
}

impl UtcTime {
    /// The sub-second part is below a second and the seconds lie within
    /// ±2^61: true of every instant that `chrono` or the database hands out,
    /// and enough for a difference of two of them to fit in an `i64`.
    pub open spec fn valid(self) -> bool {
        &&& self.nanos < 1_000_000_000
        &&& -0x2000_0000_0000_0000 <= self.secs <= 0x2000_0000_0000_0000
    }
}

/// `a` lies strictly after `b`.
pub open spec fn later(a: UtcTime, b: UtcTime) -> bool {
    a.secs > b.secs || (a.secs == b.secs && a.nanos > b.nanos)
}

/// `t` shifted by a whole number of minutes, as `t + Duration::minutes(m)`.
pub open spec fn plus_minutes(t: UtcTime, m: int) -> UtcTime {
    UtcTime { secs: (t.secs + m * 60) as i64, nanos: t.nanos }
}

/// Integer division rounding toward zero, as Rust's `/` does.
pub open spec fn div_trunc(x: int, d: int) -> int {
    if x >= 0 {
        x / d
    } else {
        -((-x) / d)
    }
}

/// `(a - b).num_seconds()`: whole seconds between two instants, rounded
/// toward zero.
pub open spec fn seconds_between(a: UtcTime, b: UtcTime) -> int {
    div_trunc((a.secs - b.secs) * 1_000_000_000 + (a.nanos - b.nanos), 1_000_000_000)
}

/// `(a - b).num_minutes()`: whole minutes between two instants, rounded
/// toward zero.
pub open spec fn minutes_between(a: UtcTime, b: UtcTime) -> int {
    div_trunc(seconds_between(a, b), 60)
}

/// `t` shifted by a whole number of seconds, as `t + Duration::seconds(n)`.
pub open spec fn plus_seconds(t: UtcTime, n: int) -> UtcTime {
    UtcTime { secs: (t.secs + n) as i64, nanos: t.nanos }
}

/// When something made at `now` that lives `ttl_secs` seconds expires.
/// A positive lifetime ends strictly after `now`.
pub fn expires_at(now: UtcTime, ttl_secs: i64) -> (r: UtcTime)
    requires
        now.wf(),
        0 <= ttl_secs <= TIME_LIMIT_SECS,
    ensures
        r == plus_seconds(now, ttl_secs as int),
        ttl_secs > 0 ==> later(r, now),
{
    UtcTime { secs: now.secs + ttl_secs, nanos: now.nanos }
}

/// `(a - b).num_seconds()`.
pub fn seconds_since(a: UtcTime, b: UtcTime) -> (r: i64)
    requires
        a.valid(),
        b.valid(),
    ensures
        r == seconds_between(a, b),
{
    let mut secs: i64 = a.secs - b.secs;
    let nanos: u32;
    if a.nanos >= b.nanos {
        nanos = a.nanos - b.nanos;
    } else {
        secs = secs - 1;
        nanos = a.nanos + 1_000_000_000 - b.nanos;
    }
    let whole: i64 = if secs < 0 && nanos > 0 {
        secs + 1
    } else {
        secs
    };
    proof {
        let t = (a.secs - b.secs) * 1_000_000_000 + (a.nanos - b.nanos);
        assert(t == secs * 1_000_000_000 + nanos);
        assert(whole == div_trunc(t, 1_000_000_000)) by (nonlinear_arith)
            requires
                t == secs * 1_000_000_000 + nanos,
                0 <= nanos < 1_000_000_000,
                whole == (if secs < 0 && nanos > 0 {
                    secs + 1
                } else {
                    secs as int
                }),
        {
        }
    }
    whole
}

/// `(a - b).num_minutes()`.
pub fn minutes_since(a: UtcTime, b: UtcTime) -> (r: i64)
    requires
        a.valid(),
        b.valid(),
    ensures
        r == minutes_between(a, b),
{
    seconds_since(a, b) / 60
}

/// The proleptic Gregorian date (year, month, day) of the day `days` days
/// after 1970-01-01 (before it where negative): days counted in eras of
/// 400 years, each 146 097 days long, from a March 1st so that the leap
/// day falls at the end of the year.
pub open spec fn civil_from_days(days: int) -> (int, int, int) {
    let z = days + 719468;
    let era = z / 146097;
    let doe = z - era * 146097;
    let yoe = (doe - doe / 1460 + doe / 36524 - doe / 146096) / 365;
    let doy = doe - (365 * yoe + yoe / 4 - yoe / 100);
    let mp = (5 * doy + 2) / 153;
    let d = doy - (153 * mp + 2) / 5 + 1;
    let m = if mp < 10 {
        mp + 3
    } else {
        mp - 9
    };
    (yoe + era * 400 + (if m <= 2 {
        1int
    } else {
        0
    }), m, d)
}

/// The day of month and month of the UTC date that contains the instant
/// `secs`.
pub open spec fn utc_day_month(secs: i64) -> (u32, u32) {
    let c = civil_from_days(secs / 86400);
    (c.2 as u32, c.1 as u32)
}

/// Minute, hour, day of month, month and day of week (0 = Sunday) of the
/// instant `secs`. Minutes, hours and weekdays follow from the count of
/// seconds alone, since UTC as `chrono` counts it has no leap seconds and
/// 1970-01-01 was a Thursday.
pub open spec fn cal_fields(secs: i64) -> (u32, u32, u32, u32, u32) {
    let dm = utc_day_month(secs);
    (
        ((secs / 60) % 60) as u32,
        ((secs / 3600) % 24) as u32,
        dm.0,
        dm.1,
        ((secs / 86400 + 4) % 7) as u32,
    )
}

/// Calendar fields of an instant, read through `chrono::DateTime::from_timestamp`.
///
/// The contract claims that chrono's minute, hour, day of month, month and
/// weekday are those of `cal_fields`: UTC without leap seconds on the
/// proleptic Gregorian calendar, the date as `civil_from_days` gives it,
/// with the day of month in 1..=31 and the month in 1..=12.
#[verifier::external_body]
pub(crate) fn utc_calendar(secs: i64) -> (r: (u32, u32, u32, u32, u32))
    requires
        -8_100_000_000_000 <= secs <= 8_100_000_000_000,
    ensures
        r == cal_fields(secs),
        (r.2, r.3) == utc_day_month(secs),
        1 <= r.2 <= 31,
        1 <= r.3 <= 12,
{
    let dt = chrono::DateTime::from_timestamp(secs, 0).unwrap();
    (dt.minute(), dt.hour(), dt.day(), dt.month(), dt.weekday().num_days_from_sunday())
}

/// The current instant, read through `chrono::Utc::now`.
///
/// The contract claims what `Utc::now` shows of every outcome: it panics on
/// a clock set before 1970 and on one past the last date chrono represents
/// (`DateTime::from_timestamp(..).unwrap()`), so the seconds lie in
/// `0..=8_210_266_876_799` (the end of the year 262142), and the sub-second part is `subsec_nanos`, below
/// a second. Which instant comes back is left open.
#[verifier::external_body]
pub(crate) fn utc_now() -> (r: UtcTime)
    ensures
        0 <= r.secs <= 8_210_266_876_799,
        r.nanos < 1_000_000_000,
{
    let now = chrono::Utc::now();
    UtcTime { secs: now.timestamp(), nanos: now.timestamp_subsec_nanos() }
}

} // verus!
