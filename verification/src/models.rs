//! The data that the sync logic reads from upstream and from the cache.

pub mod collection;
pub mod curseforge;
pub mod modrinth;
pub mod task_run;
pub mod translate;

use vstd::prelude::*;

verus! {

/// Dates read from upstream come as RFC 3339 text and dates read from the
/// cache as BSON dates; both are kept, and written back, the way BSON
/// stores them: whole milliseconds since the epoch.
pub struct FlexDateTime;

impl FlexDateTime {
    /// The stored form of an instant given as whole seconds since the
    /// epoch and the nanoseconds past them (a leap second runs past a
    /// billion): the milliseconds, with what is finer dropped.
    pub fn millis(secs: i64, subsec_nanos: u32) -> (ms: i64)
        requires
            subsec_nanos < 2_000_000_000,
            i64::MIN <= secs * 1000,
            secs * 1000 + 1999 <= i64::MAX,
        ensures
            ms == secs * 1000 + subsec_nanos / 1_000_000,
    {
        secs * 1000 + (subsec_nanos / 1_000_000) as i64
    }
}

} // verus!
