//! Points in time.
use vstd::prelude::*;

verus! {

/// A point in time: whole seconds since the Unix epoch and nanoseconds beyond
/// them, both of the same sign.
#[derive(Clone, Copy, Debug, PartialEq, Eq, Structural)]
pub struct Timestamp {
    pub second: i64,
    pub nanosecond: i32,
}

/// The Unix epoch.
pub open spec fn epoch() -> Timestamp {
    Timestamp { second: 0, nanosecond: 0 }
}

impl Default for Timestamp {
    fn default() -> (r: Self)
        ensures
            r == epoch(),
    {
        Timestamp { second: 0, nanosecond: 0 }
    }
}

/// A point in time that a clock can show: one within the years -9999 to 9999, with
/// nanoseconds that stay below a second and have the sign of the seconds.
pub open spec fn on_the_clock(t: Timestamp) -> bool {
    &&& -377_705_023_201 <= t.second <= 253_402_207_200
    &&& -1_000_000_000 < t.nanosecond < 1_000_000_000
    &&& t.second > 0 ==> t.nanosecond >= 0
    &&& t.second < 0 ==> t.nanosecond <= 0
}

/// `jiff::Timestamp::now`, by its whole seconds and the nanoseconds beyond them:
/// the current time, of which nothing is known but that a clock can show it. A
/// system clock that is out of this range is a panic.
#[verifier::external_body]
pub(crate) fn now() -> (r: Timestamp)
    ensures
        on_the_clock(r),
{
    let now = jiff::Timestamp::now();
    Timestamp { second: now.as_second(), nanosecond: now.subsec_nanosecond() }
}

/// The second that a point in time falls into.
pub open spec fn second_of(t: Timestamp) -> int {
    if t.nanosecond < 0 {
        t.second - 1
    } else {
        t.second as int
    }
}

/// The second in which a span of seconds from `start` ends; the last one that can
/// be written where that is too far off, or lies before the epoch.
pub open spec fn end_of(start: Timestamp, seconds: u64) -> i64 {
    if 0 <= second_of(start) + seconds <= i64::MAX {
        (second_of(start) + seconds) as i64
    } else {
        i64::MAX
    }
}

/// The second in which a span of seconds from `start` ends.
pub fn after(start: Timestamp, seconds: u64) -> (r: i64)
    ensures
        r == end_of(start, seconds),
{
    let mut sum: i128 = start.second as i128 + seconds as i128;
    if start.nanosecond < 0 {
        sum -= 1;
    }
    if 0 <= sum && sum <= i64::MAX as i128 {
        sum as i64
    } else {
        i64::MAX
    }
}

} // verus!
