//! Presentation timestamps: ticks of the 90 kHz clock as a time of day.

use chrono::{NaiveTime, Timelike};
use vstd::pervasive::unreached;
use vstd::prelude::*;

verus! {

/// A time of day: whole seconds since midnight and the nanoseconds past
/// that second.
#[derive(Debug, Clone, Copy, PartialEq, Eq)]
pub struct Timestamp {
    pub seconds: u32,
    pub nanos: u32,
}

/// The pairs of seconds and nanoseconds that name a time of day. A
/// nanosecond count of a second or more stands for a leap second, which
/// only the last second of a minute can have.
pub open spec fn is_time_of_day(seconds: u32, nanos: u32) -> bool {
    seconds < 86_400 && nanos < 2_000_000_000 && (nanos < 1_000_000_000 || seconds % 60 == 59)
}

/// The time of day that a count of 90 kHz ticks stands for, to the
/// millisecond: `ticks / 90` milliseconds after midnight.
pub open spec fn timestamp_of(ticks: u32) -> Timestamp {
    Timestamp {
        seconds: (ticks / 90 / 1000) as u32,
        nanos: (((ticks / 90) % 1000) * 1_000_000) as u32,
    }
}

/// Trusted: `chrono::NaiveTime::from_num_seconds_from_midnight_opt`, read
/// back through `Timelike::num_seconds_from_midnight` and
/// `Timelike::nanosecond`. The constructor accepts exactly the pairs of
/// `is_time_of_day`, and the two getters return the pair it was made from.
#[verifier::external_body]
fn time_of_day(seconds: u32, nanos: u32) -> (r: Option<(u32, u32)>)
    ensures
        r == (if is_time_of_day(seconds, nanos) {
            Some((seconds, nanos))
        } else {
            None
        }),
{
    match NaiveTime::from_num_seconds_from_midnight_opt(seconds, nanos) {
        Some(time) => Some((time.num_seconds_from_midnight(), time.nanosecond())),
        None => None,
    }
}

/// Converts a presentation timestamp to a time of day. Every `u32` count
/// of ticks lies within the first day, so the conversion never fails.
pub fn convert_ts(ts: u32) -> (t: Timestamp)
    ensures
        t == timestamp_of(ts),
        is_time_of_day(t.seconds, t.nanos),
        t.seconds as int * 1000 + t.nanos as int / 1_000_000 == ts as int / 90,
{
    let millis = ts / 90;
    let seconds = millis / 1000;
    let nanos = (millis % 1000) * 1_000_000;
    match time_of_day(seconds, nanos) {
        Some((seconds, nanos)) => Timestamp { seconds, nanos },
        None => unreached(),
    }
}

} // verus!
