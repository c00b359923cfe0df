//! Points in time, and the two things asked of the calendar: what instant a
//! date denotes, and what time it is.

use chrono::{DateTime, Utc};
use vstd::prelude::*;

verus! {

/// A point in time: whole seconds since 1970-01-01T00:00:00Z and the
/// nanoseconds into that second.
#[derive(Debug, Clone, Copy, PartialEq, Eq, Structural)]
pub struct UtcInstant {
    pub secs: i64,
    pub nanos: u32,
}

impl UtcInstant {
    /// Strictly later than `other`.
    pub open spec fn after(self, other: UtcInstant) -> bool {
        self.secs > other.secs || (self.secs == other.secs && self.nanos > other.nanos)
    }

    /// Nanoseconds since 1970-01-01T00:00:00Z.
    pub open spec fn total_nanos(self) -> int {
        self.secs * 1_000_000_000 + self.nanos
    }

    /// Strictly later than `other`.
    pub fn is_after(&self, other: &UtcInstant) -> (later: bool)
        ensures
            later == self.after(*other),
    {
        self.secs > other.secs || (self.secs == other.secs && self.nanos > other.nanos)
    }
}

/// The instant that an RFC 3339 date-time denotes, as `chrono` reads it;
/// nothing for a text that `chrono` refuses.
pub uninterp spec fn rfc3339_instant(text: Seq<char>) -> Option<UtcInstant>;

/// Calls `chrono::DateTime::parse_from_rfc3339` and hands out the result's
/// `timestamp()` and `timestamp_subsec_nanos()`. The contract only gives the
/// outcome its name: the same text always denotes the same instant.
#[verifier::external_body]
pub(crate) fn parse_rfc3339(text: &str) -> (instant: Option<UtcInstant>)
    ensures
        instant == rfc3339_instant(text@),
{
    match DateTime::parse_from_rfc3339(text) {
        Ok(t) => Some(UtcInstant { secs: t.timestamp(), nanos: t.timestamp_subsec_nanos() }),
        Err(_) => None,
    }
}

/// Calls `chrono::Utc::now` and hands out its `timestamp()` and
/// `timestamp_subsec_nanos()`. Nothing is claimed of the result. `chrono`
/// stops the program if the system clock stands before 1970.
#[verifier::external_body]
pub(crate) fn utc_now() -> UtcInstant {
    let now = Utc::now();
    UtcInstant { secs: now.timestamp(), nanos: now.timestamp_subsec_nanos() }
}

/// Whole days from `now` to `then`, rounded toward zero; negative when `then`
/// is past.
pub open spec fn whole_days_between(now: UtcInstant, then: UtcInstant) -> int {
    let nanos = then.total_nanos() - now.total_nanos();
    if nanos >= 0 {
        nanos / 86_400_000_000_000
    } else {
        -((-nanos) / 86_400_000_000_000)
    }
}

/// Whole days from `now` to `then`, rounded toward zero.
pub fn days_between(now: UtcInstant, then: UtcInstant) -> (days: i64)
    ensures
        days == whole_days_between(now, then),
{
    let a: i128 = (then.secs as i128) * 1_000_000_000 + (then.nanos as i128);
    let b: i128 = (now.secs as i128) * 1_000_000_000 + (now.nanos as i128);
    let nanos: i128 = a - b;
    if nanos >= 0 {
        (nanos / 86_400_000_000_000) as i64
    } else {
        let days: i128 = (-nanos) / 86_400_000_000_000;
        (-days) as i64
    }
}

/// The whole seconds of an instant, counted from 1970; zero for an instant
/// before that.
pub open spec fn unix_seconds(now: UtcInstant) -> u64 {
    if now.secs < 0 {
        0
    } else {
        now.secs as u64
    }
}

/// The whole milliseconds of an instant, counted from 1970; zero for an
/// instant before that, and at most the largest 64-bit number.
pub open spec fn unix_millis(now: UtcInstant) -> u64 {
    if now.secs < 0 {
        0
    } else if now.secs * 1000 + now.nanos / 1_000_000 > u64::MAX {
        u64::MAX
    } else {
        (now.secs * 1000 + now.nanos / 1_000_000) as u64
    }
}

/// The nanoseconds of an instant, counted from 1970; zero for an instant
/// before that.
pub open spec fn unix_nanos(now: UtcInstant) -> u128 {
    if now.secs < 0 {
        0
    } else {
        (now.secs * 1_000_000_000 + now.nanos) as u128
    }
}

/// The whole seconds of an instant, counted from 1970.
pub fn seconds_of(now: UtcInstant) -> (secs: u64)
    ensures
        secs == unix_seconds(now),
{
    if now.secs < 0 {
        0
    } else {
        now.secs as u64
    }
}

/// The whole milliseconds of an instant, counted from 1970.
pub fn millis_of(now: UtcInstant) -> (millis: u64)
    ensures
        millis == unix_millis(now),
{
    if now.secs < 0 {
        0
    } else {
        let wide: u128 = (now.secs as u128) * 1000 + (now.nanos as u128) / 1_000_000;
        if wide > u64::MAX as u128 {
            u64::MAX
        } else {
            wide as u64
        }
    }
}

/// The nanoseconds of an instant, counted from 1970.
pub fn nanos_of(now: UtcInstant) -> (nanos: u128)
    ensures
        nanos == unix_nanos(now),
{
    if now.secs < 0 {
        0
    } else {
        (now.secs as u128) * 1_000_000_000 + (now.nanos as u128)
    }
}

/// Seconds since 1970 at the time of the call: the whole seconds of the
/// instant that the clock shows.
pub(crate) fn unix_now() -> (secs: u64)
    ensures
        exists|now: UtcInstant| secs == #[trigger] unix_seconds(now),
{
    let now = utc_now();
    let secs = seconds_of(now);
    assert(secs == unix_seconds(now));
    secs
}

/// Nanoseconds since 1970 at the time of the call: those of the instant
/// that the clock shows.
pub(crate) fn now_nanos() -> (nanos: u128)
    ensures
        exists|now: UtcInstant| nanos == #[trigger] unix_nanos(now),
{
    let now = utc_now();
    let nanos = nanos_of(now);
    assert(nanos == unix_nanos(now));
    nanos
}

/// Milliseconds since 1970 at the time of the call: the whole milliseconds
/// of the instant that the clock shows.
pub(crate) fn now_millis() -> (millis: u64)
    ensures
        exists|now: UtcInstant| millis == #[trigger] unix_millis(now),
{
    let now = utc_now();
    let millis = millis_of(now);
    assert(millis == unix_millis(now));
    millis
}

} // verus!
