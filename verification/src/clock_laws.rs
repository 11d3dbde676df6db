//! What holds of the seconds and milliseconds of a point in time.

use crate::clock::{epoch_offset, millis_at, seconds_at, EpochOffset};
use std::time::SystemTime;
use vstd::prelude::*;

verus! {

/// Seconds and milliseconds are rounded down: the time lies less than one of them
/// after what they count. There are none exactly if the time lies before 1970.
pub proof fn times_are_rounded_down(offset: EpochOffset)
    requires
        offset.well_formed(),
    ensures
        offset.seconds() is None <==> offset.nanoseconds() < 0,
        offset.millis() is None <==> offset.nanoseconds() < 0,
        offset.seconds() matches Some(secs) ==> secs * 1_000_000_000 <= offset.nanoseconds() < (secs
            + 1) * 1_000_000_000,
        offset.millis() matches Some(ms) ==> ms * 1_000_000 <= offset.nanoseconds() < (ms + 1)
            * 1_000_000,
{
}

/// At one clock reading the seconds are the milliseconds over a thousand, rounded
/// down; both are zero before 1970.
pub proof fn seconds_are_milliseconds_over_a_thousand(reading: SystemTime)
    requires
        epoch_offset(reading).well_formed(),
    ensures
        seconds_at(reading) as nat == millis_at(reading) / 1000,
        epoch_offset(reading).nanoseconds() < 0 ==> seconds_at(reading) == 0 && millis_at(reading)
            == 0,
{
}

/// The seconds and nanoseconds of a time after 1970 count from its start, and those
/// of an earlier time back from it.
pub proof fn offsets_count_from_1970(reading: SystemTime, secs: u64, nanos: u32)
    ensures
        ({
            let after = EpochOffset::After { secs, nanos };
            let before = EpochOffset::Before { secs, nanos };
            &&& after.nanoseconds() == secs * 1_000_000_000 + nanos
            &&& before.nanoseconds() == -(secs * 1_000_000_000 + nanos)
            &&& after.seconds() == Some(secs)
            &&& after.millis() == Some((secs * 1000 + nanos / 1_000_000) as nat)
            &&& before.seconds() is None && before.millis() is None
            &&& after.well_formed() <==> nanos < 1_000_000_000
            &&& before.well_formed() <==> nanos < 1_000_000_000 && secs + nanos > 0
            &&& epoch_offset(reading) == after ==> seconds_at(reading) == secs && millis_at(reading)
                == secs * 1000 + nanos / 1_000_000
            &&& epoch_offset(reading) == before ==> seconds_at(reading) == 0 && millis_at(reading)
                == 0
        }),
{
}

} // verus!
