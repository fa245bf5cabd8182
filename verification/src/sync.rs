//! What one entry's sync came to, and the tally of a batch.

pub mod curseforge;
pub mod modrinth;

use vstd::prelude::*;
use crate::error::{message_spec, status_spec, Error, Result};

verus! {

/// How syncing one entry ended, short of failing.
#[derive(Debug)]
pub enum Outcome<T> {
    Synced(T),
    /// Upstream answered 404: trying again makes no sense.
    NotFound,
    /// Not something the cache takes in.
    Skipped,
}

/// A batch's results. Failed ids are kept, with why, so that they can go
/// back to the queue.
#[derive(Debug)]
pub struct Report<I, T> {
    pub synced: Vec<T>,
    pub not_found: Vec<I>,
    pub skipped: Vec<I>,
    pub failed: Vec<(I, String)>,
}

/// `after` is `before` with the result for `id` filed under its kind.
pub open spec fn recorded<I, T>(before: Report<I, T>, after: Report<I, T>, id: I, result: Result<Outcome<T>>) -> bool {
    match result {
        Ok(Outcome::Synced(v)) => {
            &&& after.synced@ == before.synced@.push(v)
            &&& after.not_found@ == before.not_found@
            &&& after.skipped@ == before.skipped@
            &&& after.failed@ == before.failed@
        },
        Ok(Outcome::NotFound) => {
            &&& after.synced@ == before.synced@
            &&& after.not_found@ == before.not_found@.push(id)
            &&& after.skipped@ == before.skipped@
            &&& after.failed@ == before.failed@
        },
        Ok(Outcome::Skipped) => {
            &&& after.synced@ == before.synced@
            &&& after.not_found@ == before.not_found@
            &&& after.skipped@ == before.skipped@.push(id)
            &&& after.failed@ == before.failed@
        },
        Err(e) => {
            &&& after.synced@ == before.synced@
            &&& after.not_found@ == before.not_found@
            &&& after.skipped@ == before.skipped@
            &&& after.failed@.len() == before.failed@.len() + 1
            &&& after.failed@.drop_last() == before.failed@
            &&& after.failed@.last().0 == id
            &&& after.failed@.last().1@ == message_spec(e)
        },
    }
}

pub open spec fn total_spec<I, T>(r: Report<I, T>) -> nat {
    r.synced@.len() + r.not_found@.len() + r.skipped@.len() + r.failed@.len()
}

impl<I, T> Report<I, T> {
    pub fn new() -> (r: Self)
        ensures
            r.synced@.len() == 0,
            r.not_found@.len() == 0,
            r.skipped@.len() == 0,
            r.failed@.len() == 0,
    {
        Report { synced: Vec::new(), not_found: Vec::new(), skipped: Vec::new(), failed: Vec::new() }
    }

    /// Files the result for `id`.
    pub fn record(&mut self, id: I, result: Result<Outcome<T>>)
        ensures
            recorded(*old(self), *final(self), id, result),
    {
        match result {
            Ok(Outcome::Synced(value)) => self.synced.push(value),
            Ok(Outcome::NotFound) => self.not_found.push(id),
            Ok(Outcome::Skipped) => self.skipped.push(id),
            Err(error) => {
                let message = error.message();
                self.failed.push((id, message));
                assert(self.failed@.drop_last() =~= old(self).failed@);
            },
        }
    }

    /// How many entries were filed.
    pub fn total(&self) -> (n: usize)
        requires
            total_spec(*self) <= usize::MAX,
        ensures
            n == total_spec(*self),
    {
        self.synced.len() + self.not_found.len() + self.skipped.len() + self.failed.len()
    }
}

impl<I, T> Default for Report<I, T> {
    fn default() -> (r: Self)
        ensures
            r.synced@.len() == 0,
            r.not_found@.len() == 0,
            r.skipped@.len() == 0,
            r.failed@.len() == 0,
    {
        Report::new()
    }
}

/// Each result is counted exactly once: filing one more result raises the
/// total by one.
pub proof fn law_record_counts_once<I, T>(before: Report<I, T>, after: Report<I, T>, id: I, result: Result<Outcome<T>>)
    requires
        recorded(before, after, id, result),
    ensures
        total_spec(after) == total_spec(before) + 1,
{
}

/// A report's total is the number of results filed since it was made: along
/// a run of reports that starts empty and files one result per step, the
/// `k`-th report totals `k`.
pub proof fn law_total_counts_records<I, T>(
    reports: Seq<Report<I, T>>,
    ids: Seq<I>,
    results: Seq<Result<Outcome<T>>>,
)
    requires
        reports.len() > 0,
        total_spec(reports[0]) == 0,
        ids.len() + 1 == reports.len(),
        results.len() + 1 == reports.len(),
        forall|k: int|
            0 <= k < ids.len() ==> recorded(#[trigger] reports[k], reports[k + 1], ids[k], results[k]),
    ensures
        forall|k: int| 0 <= k < reports.len() ==> total_spec(#[trigger] reports[k]) == k,
    decreases reports.len(),
{
    if reports.len() > 1 {
        let n = reports.len() - 1;
        law_total_counts_records(reports.drop_last(), ids.drop_last(), results.drop_last());
        assert forall|k: int| 0 <= k < reports.len() implies total_spec(#[trigger] reports[k]) == k by {
            if k < n {
                assert(reports.drop_last()[k] == reports[k]);
            } else {
                assert(reports.drop_last()[n - 1] == reports[n - 1]);
                assert(recorded(reports[n - 1], reports[n], ids[n - 1], results[n - 1]));
                law_record_counts_once(reports[n - 1], reports[n], ids[n - 1], results[n - 1]);
            }
        }
    }
}

/// Only a real failure is worth putting back on the queue: a 404 or an
/// entry outside the cache's scope never lands among the failures, and
/// a failure keeps its id.
pub proof fn law_only_failures_are_requeued<I, T>(before: Report<I, T>, after: Report<I, T>, id: I, result: Result<Outcome<T>>)
    requires
        recorded(before, after, id, result),
    ensures
        (result is Ok) ==> after.failed@ == before.failed@,
        (result is Err) ==> after.failed@.last().0 == id,
{
}

/// A fetch whose 404 means the entry is gone: `None` for it, the value
/// when there is one, and any other error passed on.
pub fn found<T>(result: Result<T>) -> (r: Result<Option<T>>)
    ensures
        match result {
            Ok(v) => r == Ok::<Option<T>, Error>(Some(v)),
            Err(e) => if status_spec(e) == Some(404u16) {
                r == Ok::<Option<T>, Error>(None)
            } else {
                r == Err::<Option<T>, Error>(e)
            },
        },
{
    match result {
        Ok(v) => Ok(Some(v)),
        Err(e) => if e.is_not_found() {
            Ok(None)
        } else {
            Err(e)
        },
    }
}

/// How many CurseForge mods are synced at once: as configured, and at least one.
pub fn curseforge_concurrency(workers: usize) -> (n: usize)
    ensures
        n == (if workers < 1 { 1 } else { workers }),
{
    if workers < 1 {
        1
    } else {
        workers
    }
}

/// How many Modrinth projects are synced at once: one project's answer can
/// hold a large graph of versions and files, so never more than two,
/// whatever is configured, and at least one.
pub fn modrinth_concurrency(workers: usize) -> (n: usize)
    ensures
        n == (if workers < 1 { 1 } else if workers > 2 { 2 } else { workers }),
{
    if workers < 1 {
        1
    } else if workers > 2 {
        2
    } else {
        workers
    }
}

/// The bounds of consecutive chunks of at most `size` (at least one) that
/// cover `0..len` in order; only the last one may be shorter.
pub open spec fn chunked(bounds: Seq<(usize, usize)>, len: usize, size: usize) -> bool {
    let s = if size < 1 { 1 } else { size as int };
    &&& (len == 0 <==> bounds.len() == 0)
    &&& bounds.len() > 0 ==> bounds[0].0 == 0 && bounds.last().1 == len
    &&& forall|k: int| 0 <= k < bounds.len() - 1 ==> #[trigger] bounds[k].1 == bounds[k + 1].0
    &&& forall|k: int| 0 <= k < bounds.len() ==> 0 < #[trigger] bounds[k].1 - bounds[k].0 <= s
    &&& forall|k: int| 0 <= k < bounds.len() - 1 ==> #[trigger] bounds[k].1 - bounds[k].0 == s
}

/// How a list of `len` ids is cut into requests of `size` ids each.
pub fn chunk_bounds(len: usize, size: usize) -> (bounds: Vec<(usize, usize)>)
    ensures
        chunked(bounds@, len, size),
{
    let s: usize = if size < 1 { 1 } else { size };
    let mut bounds: Vec<(usize, usize)> = Vec::new();
    let mut start: usize = 0;
    while start < len
        invariant
            start <= len,
            s == (if size < 1 { 1 } else { size as int }),
            (start == 0 <==> bounds@.len() == 0),
            bounds@.len() > 0 ==> bounds@[0].0 == 0 && bounds@.last().1 == start,
            forall|k: int| 0 <= k < bounds@.len() - 1 ==> #[trigger] bounds@[k].1 == bounds@[k + 1].0,
            forall|k: int| 0 <= k < bounds@.len() ==> 0 < #[trigger] bounds@[k].1 - bounds@[k].0 <= s,
            forall|k: int| 0 <= k < bounds@.len() ==> #[trigger] bounds@[k].1 - bounds@[k].0 == s || bounds@[k].1 == len,
            forall|k: int| 0 <= k < bounds@.len() - 1 ==> #[trigger] bounds@[k].1 - bounds@[k].0 == s,
        decreases len - start,
    {
        let end: usize = if len - start > s { start + s } else { len };
        let ghost before = bounds@;
        bounds.push((start, end));
        assert(bounds@.drop_last() == before);
        proof {
            if before.len() > 0 {
                let last = before.len() - 1;
                assert(before[last].1 == start);
                assert(bounds@[last] == before[last]);
                assert(before[last].1 - before[last].0 == s || before[last].1 == len);
            }
        }
        start = end;
    }
    bounds
}

} // verus!
