//! A point in time as the platform reports it for file metadata.

use vstd::prelude::*;

verus! {

/// Seconds and nanoseconds of a platform timestamp.
#[derive(Clone, Copy, Debug, PartialEq, Eq, Structural)]
pub struct TimeSpec {
    pub sec: i64,
    pub nsec: i64,
}

impl TimeSpec {
    /// Packs the two fields of a platform timestamp.
    pub fn new(sec: i64, nsec: i64) -> (r: TimeSpec)
        ensures
            r.sec == sec,
            r.nsec == nsec,
    {
        TimeSpec { sec, nsec }
    }
}

} // verus!
