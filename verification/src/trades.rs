//! Trades as the offline pipeline reads them from a recorded feed, and the
//! calendar arithmetic on their times.

use vstd::prelude::*;
use crate::types::Side;

verus! {

/// Nanoseconds in a millisecond.
pub const NANOS_PER_MILLI: i64 = 1_000_000;

/// Nanoseconds in a second.
pub const NANOS_PER_SECOND: i64 = 1_000_000_000;

/// Nanoseconds in a minute.
pub const NANOS_PER_MINUTE: i64 = 60_000_000_000;

/// Nanoseconds in a day.
pub const NANOS_PER_DAY: i64 = 86_400_000_000_000;

/// Milliseconds in an hour.
pub const MILLIS_PER_HOUR: u64 = 3_600_000;

/// Earliest time the pipeline works with, in nanoseconds since the epoch:
/// some 285 years before it.
pub const MIN_TIME: i64 = -9_000_000_000_000_000_000;

/// A recorded trade: event time in nanoseconds since the epoch, price in
/// price units.
#[derive(Clone, Debug, PartialEq, Eq)]
pub struct Trade {
    pub ts_event: i64,
    pub price: i64,
    pub size: u64,
    pub side: Side,
    pub symbol: String,
}

/// A time the pipeline works with.
pub open spec fn valid_time(nanos: i64) -> bool {
    nanos >= MIN_TIME
}

/// The start of the second that a time falls into.
pub open spec fn spec_second_start(nanos: i64) -> i64 {
    ((nanos as int / NANOS_PER_SECOND as int) * NANOS_PER_SECOND) as i64
}

/// The start of the minute that a time falls into.
pub open spec fn spec_minute_start(nanos: i64) -> i64 {
    ((nanos as int / NANOS_PER_MINUTE as int) * NANOS_PER_MINUTE) as i64
}

/// The day that a time falls into, in days since the epoch, by UTC.
pub open spec fn spec_day_of(nanos: i64) -> i64 {
    (nanos as int / NANOS_PER_DAY as int) as i64
}

/// A time in milliseconds since the epoch, rounded down.
pub open spec fn spec_millis_of(nanos: i64) -> i64 {
    (nanos as int / NANOS_PER_MILLI as int) as i64
}

/// The hour of the day, by UTC, of a time in milliseconds since the epoch.
pub open spec fn spec_hour_of(millis: u64) -> u32 {
    ((millis / MILLIS_PER_HOUR) % 24) as u32
}

/// The start of the second that a time falls into.
pub fn second_start(nanos: i64) -> (start: i64)
    requires
        valid_time(nanos),
    ensures
        start == spec_second_start(nanos),
        start <= nanos < start + NANOS_PER_SECOND,
{
    if nanos >= 0 {
        (nanos / NANOS_PER_SECOND) * NANOS_PER_SECOND
    } else {
        (-((-(nanos + 1)) / NANOS_PER_SECOND) - 1) * NANOS_PER_SECOND
    }
}

/// The start of the minute that a time falls into.
pub fn minute_start(nanos: i64) -> (start: i64)
    requires
        valid_time(nanos),
    ensures
        start == spec_minute_start(nanos),
        start <= nanos < start + NANOS_PER_MINUTE,
{
    if nanos >= 0 {
        (nanos / NANOS_PER_MINUTE) * NANOS_PER_MINUTE
    } else {
        (-((-(nanos + 1)) / NANOS_PER_MINUTE) - 1) * NANOS_PER_MINUTE
    }
}

/// The day that a time falls into, in days since the epoch.
pub fn day_of(nanos: i64) -> (day: i64)
    ensures
        day == spec_day_of(nanos),
{
    if nanos >= 0 {
        nanos / NANOS_PER_DAY
    } else {
        -((-(nanos + 1)) / NANOS_PER_DAY) - 1
    }
}

/// A time in milliseconds since the epoch, rounded down.
pub fn millis_of(nanos: i64) -> (millis: i64)
    ensures
        millis == spec_millis_of(nanos),
{
    if nanos >= 0 {
        nanos / NANOS_PER_MILLI
    } else {
        -((-(nanos + 1)) / NANOS_PER_MILLI) - 1
    }
}

/// The hour of the day of a time in milliseconds.
pub fn hour_of(millis: u64) -> (hour: u32)
    ensures
        hour == spec_hour_of(millis),
        hour < 24,
{
    ((millis / MILLIS_PER_HOUR) % 24) as u32
}

/// Direction of an impulse move.
#[derive(Clone, Copy, Debug, PartialEq, Eq, Structural)]
pub enum ImpulseDirection {
    Up,
    Down,
}

impl ImpulseDirection {
    /// Direction of a move from `open` to `close`: up where the price rose,
    /// down otherwise.
    pub open spec fn spec_of_move(open: i64, close: i64) -> ImpulseDirection {
        if close > open {
            ImpulseDirection::Up
        } else {
            ImpulseDirection::Down
        }
    }

    /// Direction of a move from `open` to `close`.
    pub fn of_move(open: i64, close: i64) -> (direction: ImpulseDirection)
        ensures
            direction == ImpulseDirection::spec_of_move(open, close),
    {
        if close > open {
            ImpulseDirection::Up
        } else {
            ImpulseDirection::Down
        }
    }

    /// The name at the serialization edge.
    pub fn as_str(&self) -> (name: &'static str)
        ensures
            name@ == (match *self {
                ImpulseDirection::Up => "Up"@,
                ImpulseDirection::Down => "Down"@,
            }),
    {
        match self {
            ImpulseDirection::Up => "Up",
            ImpulseDirection::Down => "Down",
        }
    }
}

} // verus!
