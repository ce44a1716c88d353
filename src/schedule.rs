//! When the daily report is due.

use vstd::prelude::*;
use vstd::string::StringSliceAdditionalSpecFns;
use crate::timestamp::{ClockReading, Timestamp, SECONDS_PER_DAY};

verus! {

/// Why no wait until the next report can be computed.
#[derive(Clone, Copy, Debug, PartialEq, Eq, Structural)]
pub enum ScheduleError {
    /// The send time is not two fields separated by one colon.
    InvalidFormat,
    /// A field of the send time is not an unsigned 32-bit decimal number.
    InvalidNumber,
    /// The hour is 24 or more.
    HourOutOfRange,
    /// The minute is 60 or more.
    MinuteOutOfRange,
    /// The delay after the send time is negative.
    NegativeDelay,
}

/// The wall-clock time of the daily report and the wait that follows it.
#[derive(Clone, Copy, Debug, PartialEq, Eq, Structural)]
pub struct ScheduleTarget {
    pub hour: u32,
    pub minute: u32,
    /// Seconds to wait once the send time is reached.
    pub post_delay: u32,
}

pub const COLON: u8 = 58;

pub const PLUS: u8 = 43;

pub open spec fn is_digit(b: u8) -> bool {
    48 <= b <= 57
}

/// The value of a run of decimal digits.
pub open spec fn digits_value(d: Seq<u8>) -> nat
    decreases d.len(),
{
    if d.len() == 0 {
        0
    } else {
        digits_value(d.drop_last()) * 10 + (d.last() - 48) as nat
    }
}

/// The digits of a number after an optional leading plus sign.
pub open spec fn unsigned_digits(b: Seq<u8>) -> Seq<u8> {
    if b.len() > 0 && b[0] == PLUS {
        b.drop_first()
    } else {
        b
    }
}

/// An unsigned 32-bit decimal number: an optional plus sign, then one or
/// more digits whose value fits.
pub open spec fn parse_number(b: Seq<u8>) -> Option<u32> {
    let d = unsigned_digits(b);
    if d.len() > 0 && (forall|i: int| 0 <= i < d.len() ==> is_digit(#[trigger] d[i]))
        && digits_value(d) <= u32::MAX {
        Some(digits_value(d) as u32)
    } else {
        None
    }
}

/// `k` is the position of the only colon of `b`.
pub open spec fn single_colon_at(b: Seq<u8>, k: int) -> bool {
    &&& 0 <= k < b.len()
    &&& b[k] == COLON
    &&& forall|j: int| 0 <= j < b.len() && j != k ==> b[j] != COLON
}

/// An hour and a minute written `H:M`, each an unsigned decimal number.
pub open spec fn parse_time_spec(b: Seq<u8>) -> Result<(u32, u32), ScheduleError> {
    if exists|k: int| single_colon_at(b, k) {
        let k = choose|k: int| single_colon_at(b, k);
        match (parse_number(b.subrange(0, k)), parse_number(b.subrange(k + 1, b.len() as int))) {
            (Some(h), Some(m)) => Ok((h, m)),
            _ => Err(ScheduleError::InvalidNumber),
        }
    } else {
        Err(ScheduleError::InvalidFormat)
    }
}

/// The number in `b[lo..hi]`.
fn parse_number_in(b: &[u8], lo: usize, hi: usize) -> (r: Option<u32>)
    requires
        lo <= hi <= b@.len(),
    ensures
        r == parse_number(b@.subrange(lo as int, hi as int)),
{
    let ghost whole = b@.subrange(lo as int, hi as int);
    let mut start = lo;
    if lo < hi && b[lo] == PLUS {
        start = lo + 1;
    }
    let ghost d = b@.subrange(start as int, hi as int);
    assert(unsigned_digits(whole) =~= d);
    if start == hi {
        return None;
    }
    let mut value: u64 = 0;
    let mut over = false;
    let mut i = start;
    assert(b@.subrange(start as int, start as int) =~= Seq::<u8>::empty());
    while i < hi
        invariant
            lo <= start < hi <= b@.len(),
            start <= i <= hi,
            d == b@.subrange(start as int, hi as int),
            unsigned_digits(b@.subrange(lo as int, hi as int)) == d,
            forall|j: int| start <= j < i ==> is_digit(#[trigger] b@[j]),
            value <= u32::MAX,
            !over ==> value == digits_value(b@.subrange(start as int, i as int)),
            over ==> digits_value(b@.subrange(start as int, i as int)) > u32::MAX,
        decreases hi - i,
    {
        let c = b[i];
        if c < 48 || c > 57 {
            assert(!is_digit(d[i - start]));
            return None;
        }
        let ghost prev = b@.subrange(start as int, i as int);
        assert(b@.subrange(start as int, i + 1).drop_last() =~= prev);
        if !over {
            let next = value * 10 + (c - 48) as u64;
            if next > u32::MAX as u64 {
                over = true;
            } else {
                value = next;
            }
        } else {
            assert(digits_value(b@.subrange(start as int, i + 1)) >= digits_value(prev));
        }
        i = i + 1;
    }
    assert(b@.subrange(start as int, i as int) =~= d);
    assert(forall|j: int| 0 <= j < d.len() ==> is_digit(#[trigger] d[j])) by {
        assert(forall|j: int| 0 <= j < d.len() ==> d[j] == b@[start + j]);
    }
    if over {
        None
    } else {
        Some(value as u32)
    }
}

/// Reads a send time written `HH:MM`: one colon between two unsigned decimal
/// numbers. The ranges of hour and minute are not checked here.
pub fn parse_time(time_str: &str) -> (r: Result<(u32, u32), ScheduleError>)
    ensures
        r == parse_time_spec(time_str.spec_bytes()),
{
    let b = time_str.as_bytes();
    let ghost s = b@;
    let mut found: Option<usize> = None;
    let mut i: usize = 0;
    while i < b.len()
        invariant
            s == b@,
            s == time_str.spec_bytes(),
            0 <= i <= s.len(),
            found is None ==> forall|j: int| 0 <= j < i ==> s[j] != COLON,
            found is Some ==> {
                let k = found->0 as int;
                &&& k < i
                &&& s[k] == COLON
                &&& forall|j: int| 0 <= j < i && j != k ==> s[j] != COLON
            },
        decreases s.len() - i,
    {
        if b[i] == COLON {
            if let Some(k) = found {
                assert forall|k2: int| !single_colon_at(s, k2) by {
                    if k2 != k as int {
                        assert(s[k as int] == COLON);
                    } else {
                        assert(s[i as int] == COLON);
                    }
                }
                return Err(ScheduleError::InvalidFormat);
            }
            found = Some(i);
        }
        i = i + 1;
    }
    match found {
        None => {
            assert forall|k2: int| !single_colon_at(s, k2) by {
                if 0 <= k2 < s.len() {
                    assert(s[k2] != COLON);
                }
            }
            Err(ScheduleError::InvalidFormat)
        },
        Some(k) => {
            assert(single_colon_at(s, k as int));
            assert forall|k2: int| single_colon_at(s, k2) implies k2 == k as int by {
                if k2 != k as int {
                    assert(s[k as int] != COLON);
                }
            }
            let hour = parse_number_in(b, 0, k);
            let minute = parse_number_in(b, k + 1, b.len());
            match (hour, minute) {
                (Some(h), Some(m)) => Ok((h, m)),
                _ => Err(ScheduleError::InvalidNumber),
            }
        },
    }
}

impl ScheduleTarget {
    /// Hour and minute name a time of day.
    pub open spec fn is_valid(self) -> bool {
        self.hour < 24 && self.minute < 60
    }

    /// Seconds past midnight of the send time.
    pub open spec fn second_of_day(self) -> int {
        self.hour * 3600 + self.minute * 60
    }

    /// What is wrong with hour or minute, if anything.
    pub open spec fn range_error(self) -> Option<ScheduleError> {
        if self.hour >= 24 {
            Some(ScheduleError::HourOutOfRange)
        } else if self.minute >= 60 {
            Some(ScheduleError::MinuteOutOfRange)
        } else {
            None
        }
    }
}

/// Seconds from `now_second` to the next time the clock shows
/// `target_second`: later today, or else tomorrow.
pub open spec fn seconds_to_target(now_second: int, target_second: int) -> int {
    if target_second > now_second {
        target_second - now_second
    } else {
        target_second + SECONDS_PER_DAY - now_second
    }
}

/// Seconds from `now` until the report is due, the delay included.
pub open spec fn wait_seconds(now: Timestamp, target: ScheduleTarget) -> int {
    seconds_to_target(now.second as int, target.second_of_day()) + target.post_delay
}

/// The next moment after `now` at which the wall clock shows `send_time`
/// (hour, minute), to the second: today if that is still ahead, else on the
/// next calendar day.
pub fn next_send_time(now: Timestamp, send_time: (u32, u32)) -> (r: Timestamp)
    requires
        now.wf(),
        now.day < i32::MAX,
        send_time.0 < 24,
        send_time.1 < 60,
    ensures
        r.wf(),
        r.second == send_time.0 * 3600 + send_time.1 * 60,
        r.day == (if r.second > now.second { now.day as int } else { now.day + 1 }),
        r.total_seconds() - now.total_seconds() == seconds_to_target(
            now.second as int,
            r.second as int,
        ),
{
    let second = send_time.0 * 3600 + send_time.1 * 60;
    if second > now.second {
        Timestamp { day: now.day, second }
    } else {
        Timestamp { day: now.day + 1, second }
    }
}

/// Seconds to sleep from `now` until the report is due: to the next time the
/// wall clock shows the target, then the target's delay.
pub fn seconds_until_next_run(now: Timestamp, target: &ScheduleTarget) -> (r: Result<u64, ScheduleError>)
    requires
        now.wf(),
    ensures
        match target.range_error() {
            Some(e) => r == Err::<u64, ScheduleError>(e),
            None => r == Ok::<u64, ScheduleError>(wait_seconds(now, *target) as u64),
        },
{
    if target.hour >= 24 {
        return Err(ScheduleError::HourOutOfRange);
    }
    if target.minute >= 60 {
        return Err(ScheduleError::MinuteOutOfRange);
    }
    let second = target.hour * 3600 + target.minute * 60;
    let until: u32 = if second > now.second {
        second - now.second
    } else {
        second + SECONDS_PER_DAY - now.second
    };
    Ok(until as u64 + target.post_delay as u64)
}

/// The offset in force at a candidate send time, or the present one where
/// the time zone gives none (the clock skips that time).
pub open spec fn offset_or(offset: Option<i32>, fallback: i32) -> int {
    match offset {
        Some(o) => o as int,
        None => fallback as int,
    }
}

/// Whole seconds that really pass from `now` until the next moment the local
/// clock shows the target, then the target's delay. The candidate is today's
/// send time if that moment is still ahead, else the send time of the next
/// calendar day; `today_offset` and `tomorrow_offset` are the zone's offsets
/// at those two local times. Sub-second parts of the wait are dropped.
pub open spec fn zoned_wait(
    now: ClockReading,
    target: ScheduleTarget,
    today_offset: Option<i32>,
    tomorrow_offset: Option<i32>,
) -> int {
    let now_at = now.local.total_seconds() - now.offset;
    let today_at = now.local.day * SECONDS_PER_DAY + target.second_of_day() - offset_or(
        today_offset,
        now.offset,
    );
    let next_at = if today_at > now_at {
        today_at
    } else {
        (now.local.day + 1) * SECONDS_PER_DAY + target.second_of_day() - offset_or(
            tomorrow_offset,
            now.offset,
        )
    };
    let exact_nanos = (next_at - now_at) * 1_000_000_000 - now.nanos;
    let whole = if exact_nanos > 0 {
        exact_nanos / 1_000_000_000
    } else {
        0
    };
    whole + target.post_delay
}

/// Seconds to sleep from the clock reading `now` until the report is due,
/// with the time zone's offsets at today's and tomorrow's send time.
pub fn seconds_until_next_run_zoned(
    now: ClockReading,
    target: &ScheduleTarget,
    today_offset: Option<i32>,
    tomorrow_offset: Option<i32>,
) -> (r: Result<u64, ScheduleError>)
    requires
        now.wf(),
        today_offset matches Some(o) ==> -86400 < o < 86400,
        tomorrow_offset matches Some(o) ==> -86400 < o < 86400,
    ensures
        match target.range_error() {
            Some(e) => r == Err::<u64, ScheduleError>(e),
            None => r == Ok::<u64, ScheduleError>(
                zoned_wait(now, *target, today_offset, tomorrow_offset) as u64,
            ),
        },
{
    if target.hour >= 24 {
        return Err(ScheduleError::HourOutOfRange);
    }
    if target.minute >= 60 {
        return Err(ScheduleError::MinuteOutOfRange);
    }
    let second = (target.hour * 3600 + target.minute * 60) as i64;
    let day = now.local.day as i64;
    let now_at: i64 = day * 86400 + now.local.second as i64 - now.offset as i64;
    let today_off: i64 = match today_offset {
        Some(o) => o as i64,
        None => now.offset as i64,
    };
    let today_at: i64 = day * 86400 + second - today_off;
    let next_at: i64 = if today_at > now_at {
        today_at
    } else {
        let tomorrow_off: i64 = match tomorrow_offset {
            Some(o) => o as i64,
            None => now.offset as i64,
        };
        (day + 1) * 86400 + second - tomorrow_off
    };
    let exact_nanos: i64 = (next_at - now_at) * 1_000_000_000 - now.nanos as i64;
    let whole: i64 = if exact_nanos > 0 {
        exact_nanos / 1_000_000_000
    } else {
        0
    };
    assert(0 <= whole <= 6 * 86400) by (nonlinear_arith)
        requires
            exact_nanos <= (next_at - now_at) * 1_000_000_000,
            -3 * 86400 <= next_at - now_at <= 4 * 86400,
            whole == (if exact_nanos > 0 { exact_nanos / 1_000_000_000 } else { 0 }),
    ;
    Ok(whole as u64 + target.post_delay as u64)
}

/// Where the zone keeps one offset and the clock reads a whole second, the
/// real wait is the wall-clock wait.
pub proof fn lemma_fixed_offset_is_wall_clock(now: ClockReading, target: ScheduleTarget)
    requires
        now.wf(),
        now.nanos == 0,
        target.is_valid(),
    ensures
        zoned_wait(now, target, Some(now.offset), Some(now.offset)) == wait_seconds(now.local, target),
        zoned_wait(now, target, None, None) == wait_seconds(now.local, target),
{
    let gap = seconds_to_target(now.local.second as int, target.second_of_day());
    assert(gap * 1_000_000_000 / 1_000_000_000 == gap) by (nonlinear_arith)
        requires
            gap > 0,
    ;
}

/// The wait until the next report is at least the target's delay and less
/// than a day more than it, except when the clock shows the send time to the
/// second, where it is exactly one day more.
pub proof fn lemma_wait_within_a_day(now: Timestamp, target: ScheduleTarget)
    requires
        now.wf(),
        target.is_valid(),
    ensures
        target.post_delay < wait_seconds(now, target),
        now.second != target.second_of_day() ==> wait_seconds(now, target) < SECONDS_PER_DAY
            + target.post_delay,
        now.second == target.second_of_day() ==> wait_seconds(now, target) == SECONDS_PER_DAY
            + target.post_delay,
{
}

} // verus!
