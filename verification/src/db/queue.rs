//! The Redis sets that mcim-rust-api fills with lookups it could not answer.

pub mod key;

use vstd::prelude::*;

verus! {

/// How many members one pop takes from a set.
pub const DRAIN_BATCH: usize = 1000;

/// Draining pops members batch by batch, each member popped being this
/// run's own; it goes on only while a batch came back full, so an empty or
/// short batch means the set is spent and what the API adds later stays
/// for the next run.
pub fn drain_more(batch_len: usize) -> (more: bool)
    ensures
        more == (batch_len >= DRAIN_BATCH),
{
    batch_len >= DRAIN_BATCH
}

} // verus!
