//! Points in time as counted from the start of 1970.

use std::time::{SystemTime, UNIX_EPOCH};
use vstd::prelude::*;

verus! {

/// A point in time of the system clock.
#[verifier::external_type_specification]
#[verifier::external_body]
pub struct ExSystemTime(SystemTime);

/// The distance of a point in time from the start of 1970: whole seconds and the
/// nanoseconds beyond them, after or before.
#[derive(Debug, Clone, Copy)]
pub enum EpochOffset {
    After { secs: u64, nanos: u32 },
    Before { secs: u64, nanos: u32 },
}

impl EpochOffset {
    /// Whether the nanoseconds are less than a second, and a time before 1970 lies
    /// at some distance from it.
    pub open spec fn well_formed(self) -> bool {
        match self {
            EpochOffset::After { nanos, .. } => nanos < 1_000_000_000,
            EpochOffset::Before { secs, nanos } => nanos < 1_000_000_000 && (secs > 0 || nanos
                > 0),
        }
    }

    /// The nanoseconds from the start of 1970 to the time, negative before that.
    pub open spec fn nanoseconds(self) -> int {
        match self {
            EpochOffset::After { secs, nanos } => secs * 1_000_000_000 + nanos,
            EpochOffset::Before { secs, nanos } => -(secs * 1_000_000_000 + nanos),
        }
    }

    /// The whole seconds since 1970, if the time lies there.
    pub open spec fn seconds(self) -> Option<u64> {
        match self {
            EpochOffset::After { secs, .. } => Some(secs),
            EpochOffset::Before { .. } => None,
        }
    }

    /// The whole milliseconds since 1970, if the time lies there.
    pub open spec fn millis(self) -> Option<nat> {
        match self {
            EpochOffset::After { secs, nanos } => Some(
                (secs * 1000 + nanos / 1_000_000) as nat,
            ),
            EpochOffset::Before { .. } => None,
        }
    }

    /// The whole seconds since 1970, if the time lies there.
    pub fn epoch_secs(self) -> (r: Option<u64>)
        ensures
            r == self.seconds(),
    {
        match self {
            EpochOffset::After { secs, .. } => Some(secs),
            EpochOffset::Before { .. } => None,
        }
    }

    /// The whole milliseconds since 1970, if the time lies there.
    pub fn epoch_millis(self) -> (r: Option<u128>)
        ensures
            match r {
                Some(ms) => self.millis() == Some(ms as nat),
                None => self.millis() is None,
            },
    {
        match self {
            EpochOffset::After { secs, nanos } => Some(
                secs as u128 * 1000 + (nanos / 1_000_000) as u128,
            ),
            EpochOffset::Before { .. } => None,
        }
    }
}

/// The distance of a point in time from the start of 1970.
pub uninterp spec fn epoch_offset(value: SystemTime) -> EpochOffset;

/// `SystemTime::duration_since(UNIX_EPOCH)` of std: how far the time lies after
/// 1970, or in its error, which comes only for an earlier time, how far before. It
/// is a property of the point in time, named by `epoch_offset`; the nanoseconds of
/// a duration stay below a second.
#[verifier::external_body]
fn measure(value: SystemTime) -> (r: EpochOffset)
    ensures
        r == epoch_offset(value),
        r.well_formed(),
{
    match value.duration_since(UNIX_EPOCH) {
        Ok(d) => EpochOffset::After { secs: d.as_secs(), nanos: d.subsec_nanos() },
        Err(e) => EpochOffset::Before {
            secs: e.duration().as_secs(),
            nanos: e.duration().subsec_nanos(),
        },
    }
}

/// `SystemTime::now` of std. Nothing is stated of what the clock shows.
#[verifier::external_body]
fn now() -> SystemTime {
    SystemTime::now()
}

/// The seconds since 1970 of a point in time, rounded down, unless it lies before
/// that.
pub fn system_time_to_epoch(value: SystemTime) -> (r: Option<u64>)
    ensures
        epoch_offset(value).well_formed(),
        r == epoch_offset(value).seconds(),
        r is None <==> epoch_offset(value).nanoseconds() < 0,
        r matches Some(secs) ==> secs * 1_000_000_000 <= epoch_offset(value).nanoseconds() < (secs
            + 1) * 1_000_000_000,
{
    measure(value).epoch_secs()
}

/// The seconds since 1970 at a point in time; zero if it lies before that.
pub open spec fn seconds_at(reading: SystemTime) -> u64 {
    match epoch_offset(reading).seconds() {
        Some(secs) => secs,
        None => 0,
    }
}

/// The milliseconds since 1970 at a point in time; zero if it lies before that.
pub open spec fn millis_at(reading: SystemTime) -> nat {
    match epoch_offset(reading).millis() {
        Some(ms) => ms,
        None => 0,
    }
}

/// The seconds since 1970 at a point in time; zero if it lies before that.
pub fn epoch_secs_at(reading: SystemTime) -> (r: u64)
    ensures
        epoch_offset(reading).well_formed(),
        r == seconds_at(reading),
{
    match measure(reading).epoch_secs() {
        Some(secs) => secs,
        None => 0,
    }
}

/// The milliseconds since 1970 at a point in time; zero if it lies before that.
pub fn epoch_millis_at(reading: SystemTime) -> (r: u128)
    ensures
        epoch_offset(reading).well_formed(),
        r == millis_at(reading),
{
    match measure(reading).epoch_millis() {
        Some(ms) => ms,
        None => 0,
    }
}

/// The seconds since 1970 on the system clock; zero if it shows an earlier time.
pub fn epoch_secs() -> (r: u64)
    ensures
        exists|reading: SystemTime|
            epoch_offset(reading).well_formed() && r == #[trigger] seconds_at(reading),
{
    epoch_secs_at(now())
}

/// The milliseconds since 1970 on the system clock; zero if it shows an earlier
/// time.
pub fn epoch_millis() -> (r: u128)
    ensures
        exists|reading: SystemTime|
            epoch_offset(reading).well_formed() && r == #[trigger] millis_at(reading),
{
    epoch_millis_at(now())
}

} // verus!
