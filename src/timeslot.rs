use vstd::arithmetic::div_mod::{lemma_div_multiples_vanish_fancy, lemma_fundamental_div_mod};
use vstd::prelude::*;

verus! {

/// Seconds in one calendar day.
pub const SECONDS_PER_DAY: i64 = 86400;

/// Seconds in one booking unit of thirty minutes.
pub const HALF_HOUR_SECONDS: i64 = 1800;

/// The fixed offset of local time from UTC, in seconds (UTC+8).
pub const LOCAL_OFFSET_SECONDS: i64 = 28800;

/// A time range `[start_time, end_time)` in seconds since the epoch.
#[derive(Clone, Copy, Debug, PartialEq, Eq, Structural)]
pub struct TimeSlot {
    pub start_time: i64,
    pub end_time: i64,
}

/// The slot is well formed: it does not end before it starts.
pub open spec fn slot_valid(s: TimeSlot) -> bool {
    s.start_time <= s.end_time
}

pub open spec fn max_int(a: int, b: int) -> int {
    if a >= b { a } else { b }
}

pub open spec fn min_int(a: int, b: int) -> int {
    if a <= b { a } else { b }
}

/// Half-open overlap: touching endpoints do not overlap.
pub open spec fn slots_overlap(a: TimeSlot, b: TimeSlot) -> bool {
    max_int(a.start_time as int, b.start_time as int) < min_int(a.end_time as int, b.end_time as int)
}

/// The instant lies inside the half-open slot.
pub open spec fn slot_contains(s: TimeSlot, t: int) -> bool {
    s.start_time <= t && t < s.end_time
}

/// The local calendar day (days since the epoch, local time) of an instant.
pub open spec fn local_day(t: int) -> int {
    (t + LOCAL_OFFSET_SECONDS) / (SECONDS_PER_DAY as int)
}

/// The first half-hour boundary strictly after `now`.
pub open spec fn next_half_hour(now: int) -> int {
    (now / (HALF_HOUR_SECONDS as int)) * HALF_HOUR_SECONDS + HALF_HOUR_SECONDS
}

/// The first second of the local day `day`, as an instant.
pub open spec fn day_start(day: int) -> int {
    day * SECONDS_PER_DAY - LOCAL_OFFSET_SECONDS
}

/// 23:59:59 local time on the day of `now`.
pub open spec fn end_of_day(now: int) -> int {
    day_start(local_day(now)) + SECONDS_PER_DAY - 1
}

/// Day of the week of a local day, Monday being 0 (the epoch fell on a Thursday).
pub open spec fn weekday_of(day: int) -> int {
    (day + 3) % 7
}

/// Saturday or Sunday.
pub open spec fn is_weekend(day: int) -> bool {
    weekday_of(day) >= 5
}

impl TimeSlot {
    pub fn new(start_time: i64, end_time: i64) -> (r: TimeSlot)
        ensures
            r.start_time == start_time,
            r.end_time == end_time,
    {
        TimeSlot { start_time, end_time }
    }

    /// Whether the slot does not end before it starts.
    pub fn is_valid(&self) -> (r: bool)
        ensures
            r == slot_valid(*self),
    {
        self.start_time <= self.end_time
    }

    /// Half-open overlap with another slot.
    pub fn overlaps(&self, other: &TimeSlot) -> (r: bool)
        ensures
            r == slots_overlap(*self, *other),
    {
        let lo = if self.start_time >= other.start_time {
            self.start_time
        } else {
            other.start_time
        };
        let hi = if self.end_time <= other.end_time {
            self.end_time
        } else {
            other.end_time
        };
        lo < hi
    }

    /// Whether the instant lies inside the slot.
    pub fn contains(&self, t: i64) -> (r: bool)
        ensures
            r == slot_contains(*self, t as int),
    {
        self.start_time <= t && t < self.end_time
    }
}

/// Floor division by a positive divisor.
fn floor_div(x: i128, d: i128) -> (r: i128)
    requires
        0 < d <= SECONDS_PER_DAY,
        -0x1_0000_0000_0000_0000 <= x <= 0x1_0000_0000_0000_0000,
    ensures
        r == x / d,
        -0x1_0000_0000_0000_0001 <= r <= 0x1_0000_0000_0000_0000,
{
    if x >= 0 {
        let q = x / d;
        assert(q <= x) by (nonlinear_arith)
            requires q == x / d, x >= 0, d > 0,
        {
            lemma_fundamental_div_mod(x as int, d as int);
        }
        q
    } else {
        let y = -x - 1;
        let q = y / d;
        proof {
            lemma_fundamental_div_mod(y as int, d as int);
            let rr = y as int % d as int;
            assert(x as int == d * (-q - 1) + (d - rr - 1)) by (nonlinear_arith)
                requires y as int == d * q + rr, x == -y - 1,
            ;
            lemma_div_multiples_vanish_fancy(-q - 1, d - rr - 1, d as int);
            assert(q <= y) by (nonlinear_arith)
                requires q == y / d, y >= 0, d > 0,
            {
                lemma_fundamental_div_mod(y as int, d as int);
            }
        }
        -q - 1
    }
}

/// The local calendar day of an instant.
pub fn local_day_of(t: i64) -> (r: i64)
    ensures
        r == local_day(t as int),
        -0x1_0000_0000_0000 <= r <= 0x1_0000_0000_0000,
{
    let x: i128 = t as i128 + LOCAL_OFFSET_SECONDS as i128;
    let q = floor_div(x, SECONDS_PER_DAY as i128);
    proof {
        vstd::arithmetic::div_mod::lemma_div_is_ordered(
            i64::MIN as int + LOCAL_OFFSET_SECONDS, x as int, SECONDS_PER_DAY as int);
        vstd::arithmetic::div_mod::lemma_div_is_ordered(
            x as int, i64::MAX as int + LOCAL_OFFSET_SECONDS, SECONDS_PER_DAY as int);
    }
    q as i64
}

/// Whether two instants fall on the same local calendar day.
pub fn same_local_day(t1: i64, t2: i64) -> (r: bool)
    ensures
        r == (local_day(t1 as int) == local_day(t2 as int)),
{
    local_day_of(t1) == local_day_of(t2)
}

/// The first half-hour boundary strictly after `now` (10:12 gives 10:30,
/// 10:45 gives 11:00, 23:40 gives midnight of the next day).
pub fn next_half_hour_after(now: i64) -> (r: i128)
    ensures
        r == next_half_hour(now as int),
        now < r <= now + HALF_HOUR_SECONDS,
{
    let q = floor_div(now as i128, HALF_HOUR_SECONDS as i128);
    proof {
        lemma_fundamental_div_mod(now as int, HALF_HOUR_SECONDS as int);
    }
    q * (HALF_HOUR_SECONDS as i128) + HALF_HOUR_SECONDS as i128
}

/// 23:59:59 local time on the day of `now`.
pub fn end_of_day_of(now: i64) -> (r: i128)
    ensures
        r == end_of_day(now as int),
{
    let day = local_day_of(now);
    assert(-0x1_0000_0000_0000_0000_0000 <= day * SECONDS_PER_DAY <= 0x1_0000_0000_0000_0000_0000)
        by (nonlinear_arith)
        requires -0x1_0000_0000_0000 <= day <= 0x1_0000_0000_0000,
    ;
    (day as i128) * (SECONDS_PER_DAY as i128) - LOCAL_OFFSET_SECONDS as i128 + SECONDS_PER_DAY as i128 - 1
}

/// The instant at `hour:minute:second` local time on local day `day`.
pub fn local_instant(day: i64, hour: i64, minute: i64, second: i64) -> (r: i128)
    requires
        -0x1_0000_0000_0000 <= day <= 0x1_0000_0000_0000,
        0 <= hour <= 24,
        0 <= minute < 60,
        0 <= second < 60,
    ensures
        r == day_start(day as int) + hour * 3600 + minute * 60 + second,
{
    assert(-0x1_0000_0000_0000_0000_0000 <= day * SECONDS_PER_DAY <= 0x1_0000_0000_0000_0000_0000)
        by (nonlinear_arith)
        requires -0x1_0000_0000_0000 <= day <= 0x1_0000_0000_0000,
    ;
    (day as i128) * (SECONDS_PER_DAY as i128) - LOCAL_OFFSET_SECONDS as i128 + (hour as i128) * 3600
        + (minute as i128) * 60 + second as i128
}

/// Whether the local day `day` is a Saturday or a Sunday.
pub fn is_weekend_day(day: i64) -> (r: bool)
    ensures
        r == is_weekend(day as int),
{
    let x: i128 = day as i128 + 3;
    let q = floor_div(x, 7);
    let w = x - q * 7;
    proof {
        lemma_fundamental_div_mod(x as int, 7);
    }
    w >= 5
}

} // verus!
