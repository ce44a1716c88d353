//! Local wall-clock timestamps as plain numbers.

use vstd::prelude::*;

verus! {

/// Seconds in one calendar day of the local wall clock.
pub const SECONDS_PER_DAY: u32 = 86400;

/// A naive local date and time, to the second.
///
/// `day` counts days of the proleptic Gregorian calendar with January 1 of
/// year 1 as day 1; `second` counts the seconds past that day's midnight.
#[derive(Clone, Copy, Debug, PartialEq, Eq, Structural)]
pub struct Timestamp {
    pub day: i32,
    pub second: u32,
}

impl Timestamp {
    pub open spec fn wf(self) -> bool {
        self.second < SECONDS_PER_DAY
    }

    /// Position of the timestamp on one continuous scale of seconds.
    pub open spec fn total_seconds(self) -> int {
        self.day * SECONDS_PER_DAY + self.second
    }
}

/// Whole minutes in a signed number of seconds, the remainder dropped
/// toward zero.
pub open spec fn minutes_toward_zero(seconds: int) -> int {
    if seconds >= 0 {
        seconds / 60
    } else {
        -((-seconds) / 60)
    }
}

/// Whole minutes from `from` to `to`, negative when `to` comes first.
pub fn minutes_between(from: Timestamp, to: Timestamp) -> (r: i64)
    requires
        from.wf(),
        to.wf(),
    ensures
        r == minutes_toward_zero(to.total_seconds() - from.total_seconds()),
{
    let days: i64 = to.day as i64 - from.day as i64;
    let diff: i64 = days * 86400 + (to.second as i64 - from.second as i64);
    if diff >= 0 {
        diff / 60
    } else {
        -((-diff) / 60)
    }
}

/// A reading of the local clock: the wall-clock time, the offset of the
/// local time zone from UTC in seconds, and the nanoseconds past the second
/// (beyond a billion within a leap second).
#[derive(Clone, Copy, Debug, PartialEq, Eq, Structural)]
pub struct ClockReading {
    pub local: Timestamp,
    pub offset: i32,
    pub nanos: u32,
}

impl ClockReading {
    pub open spec fn wf(self) -> bool {
        &&& self.local.wf()
        &&& self.local.day < i32::MAX
        &&& -86400 < self.offset < 86400
        &&& self.nanos < 2_000_000_000
    }
}

/// Relies on chrono's `Local::now`, taken as a naive local date and time
/// and its offset: `Timelike::num_seconds_from_midnight` is below 86400 and
/// `Timelike::nanosecond` below two billion, `NaiveDate` ends in year
/// 262142, and a `FixedOffset` lies strictly within a day of UTC.
#[verifier::external_body]
pub(crate) fn local_now() -> (r: ClockReading)
    ensures
        r.wf(),
{
    let now = chrono::Local::now();
    let naive = now.naive_local();
    ClockReading {
        local: Timestamp {
            day: chrono::Datelike::num_days_from_ce(&naive),
            second: chrono::Timelike::num_seconds_from_midnight(&naive),
        },
        offset: now.offset().local_minus_utc(),
        nanos: chrono::Timelike::nanosecond(&naive),
    }
}

/// Relies on chrono's `TimeZone::offset_from_local_datetime` for `Local`:
/// the offset in force at the local time `t`, the earlier one where the clock
/// shows `t` twice, none where the clock skips `t` or `t` is out of chrono's
/// range. A `FixedOffset` lies strictly within a day of UTC.
#[verifier::external_body]
pub(crate) fn local_offset_at(t: Timestamp) -> (r: Option<i32>)
    ensures
        r matches Some(o) ==> -86400 < o < 86400,
{
    let date = chrono::NaiveDate::from_num_days_from_ce_opt(t.day)?;
    let time = chrono::NaiveTime::from_num_seconds_from_midnight_opt(t.second, 0)?;
    let naive = chrono::NaiveDateTime::new(date, time);
    match chrono::TimeZone::offset_from_local_datetime(&chrono::Local, &naive).earliest() {
        Some(offset) => Some(offset.local_minus_utc()),
        None => None,
    }
}

} // verus!
