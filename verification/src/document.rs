//! Named checklists with the time they were last modified.
use vstd::prelude::*;
use crate::checklist::Checklist;

verus! {

/// A point in time in UTC: whole seconds since the Unix epoch and the
/// nanoseconds past them.
#[derive(Clone, Copy, PartialEq, Eq, Structural, Debug)]
pub struct Timestamp {
    pub seconds: i64,
    pub nanos: u32,
}

/// A named checklist with the time it was last modified.
pub struct Document {
    pub name: String,
    pub checklist: Checklist,
    pub last_modified: Timestamp,
}

/// `std::time::UNIX_EPOCH.elapsed()`: by the system clock, how long ago the
/// Unix epoch was, as (whole seconds, nanoseconds), or, as `Err`, how far
/// ahead it still is when the clock reads earlier than 1970. Only that the
/// nanoseconds are below one second is stated (`Duration::subsec_nanos`); the
/// values come from the clock.
#[verifier::external_body]
fn clock_since_epoch() -> (r: Result<(u64, u32), (u64, u32)>)
    ensures
        match r {
            Ok(d) => d.1 < 1_000_000_000,
            Err(d) => d.1 < 1_000_000_000,
        },
{
    match std::time::UNIX_EPOCH.elapsed() {
        Ok(d) => Ok((d.as_secs(), d.subsec_nanos())),
        Err(e) => Err((e.duration().as_secs(), e.duration().subsec_nanos())),
    }
}

/// A reading of the system clock as `clock_since_epoch` gives it: the
/// nanoseconds are below one second.
pub open spec fn clock_reading(r: Result<(u64, u32), (u64, u32)>) -> bool {
    match r {
        Ok(d) => d.1 < 1_000_000_000,
        Err(d) => d.1 < 1_000_000_000,
    }
}

/// The time stamp of a clock reading: `Ok` is that long after the Unix epoch,
/// `Err` that long before it (negative seconds, nanoseconds counted forward
/// from them); seconds beyond the `i64` range stop at its ends.
pub open spec fn clock_timestamp(r: Result<(u64, u32), (u64, u32)>) -> Timestamp {
    match r {
        Ok((secs, nanos)) => Timestamp {
            seconds: if secs <= i64::MAX { secs as i64 } else { i64::MAX },
            nanos,
        },
        Err((secs, nanos)) => {
            let whole: int = if secs < i64::MAX { secs as int } else { i64::MAX - 1 };
            if nanos == 0 {
                Timestamp { seconds: (-whole) as i64, nanos: 0 }
            } else {
                Timestamp { seconds: (-whole - 1) as i64, nanos: (1_000_000_000 - nanos) as u32 }
            }
        },
    }
}

/// `t` is the time stamp of some reading of the system clock.
pub open spec fn clock_stamp(t: Timestamp) -> bool {
    exists|r: Result<(u64, u32), (u64, u32)>| clock_reading(r) && clock_timestamp(r) == t
}

/// The time stamp of a clock reading (see `clock_timestamp`).
pub fn timestamp_from_clock(reading: Result<(u64, u32), (u64, u32)>) -> (t: Timestamp)
    requires
        clock_reading(reading),
    ensures
        t == clock_timestamp(reading),
        t.nanos < 1_000_000_000,
{
    match reading {
        Ok((secs, nanos)) => {
            let seconds: i64 = if secs <= 9_223_372_036_854_775_807u64 {
                secs as i64
            } else {
                9_223_372_036_854_775_807i64
            };
            Timestamp { seconds, nanos }
        },
        Err((secs, nanos)) => {
            let whole: i64 = if secs < 9_223_372_036_854_775_807u64 {
                secs as i64
            } else {
                9_223_372_036_854_775_806i64
            };
            if nanos == 0 {
                Timestamp { seconds: -whole, nanos: 0 }
            } else {
                Timestamp { seconds: -whole - 1, nanos: 1_000_000_000 - nanos }
            }
        },
    }
}

/// The current time by the system clock, also before 1970.
pub(crate) fn current_time() -> (t: Timestamp)
    ensures
        clock_stamp(t),
        t.nanos < 1_000_000_000,
{
    let reading = clock_since_epoch();
    let t = timestamp_from_clock(reading);
    assert(clock_reading(reading) && clock_timestamp(reading) == t);
    t
}

} // verus!
