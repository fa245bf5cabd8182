//! Task results, and the decisions the tasks make between upstream calls.

pub mod curseforge;
pub mod modrinth;

use vstd::prelude::*;
use crate::error::{Error, Result};
use crate::models::task_run::TaskRunStats;
use crate::sync::{total_spec, Report};
use crate::text::{format_i32, signed_decimal};

verus! {

/// The counts of one task run.
#[derive(Debug, Clone, Copy, PartialEq, Eq, Structural)]
pub struct TaskSummary {
    pub total: usize,
    pub synced: usize,
    pub not_found: usize,
    pub skipped: usize,
    pub failed: usize,
    pub requeued: usize,
    pub versions: usize,
    pub files: usize,
    pub discovered: usize,
    pub removed: usize,
}

impl TaskSummary {
    pub open spec fn zero() -> TaskSummary {
        TaskSummary {
            total: 0,
            synced: 0,
            not_found: 0,
            skipped: 0,
            failed: 0,
            requeued: 0,
            versions: 0,
            files: 0,
            discovered: 0,
            removed: 0,
        }
    }

    /// A run with no failed entry; any failure makes the exit code non-zero
    /// so that an outside scheduler can tell.
    pub fn is_clean(&self) -> (r: bool)
        ensures
            r == (self.failed == 0),
    {
        self.failed == 0
    }
}

impl Default for TaskSummary {
    fn default() -> (r: Self)
        ensures
            r == TaskSummary::zero(),
    {
        TaskSummary {
            total: 0,
            synced: 0,
            not_found: 0,
            skipped: 0,
            failed: 0,
            requeued: 0,
            versions: 0,
            files: 0,
            discovered: 0,
            removed: 0,
        }
    }
}

pub open spec fn merged(a: TaskSummary, b: TaskSummary) -> TaskSummary {
    TaskSummary {
        total: (a.total + b.total) as usize,
        synced: (a.synced + b.synced) as usize,
        not_found: (a.not_found + b.not_found) as usize,
        skipped: (a.skipped + b.skipped) as usize,
        failed: (a.failed + b.failed) as usize,
        requeued: (a.requeued + b.requeued) as usize,
        versions: (a.versions + b.versions) as usize,
        files: (a.files + b.files) as usize,
        discovered: (a.discovered + b.discovered) as usize,
        removed: (a.removed + b.removed) as usize,
    }
}

pub open spec fn can_merge(a: TaskSummary, b: TaskSummary) -> bool {
    &&& a.total + b.total <= usize::MAX
    &&& a.synced + b.synced <= usize::MAX
    &&& a.not_found + b.not_found <= usize::MAX
    &&& a.skipped + b.skipped <= usize::MAX
    &&& a.failed + b.failed <= usize::MAX
    &&& a.requeued + b.requeued <= usize::MAX
    &&& a.versions + b.versions <= usize::MAX
    &&& a.files + b.files <= usize::MAX
    &&& a.discovered + b.discovered <= usize::MAX
    &&& a.removed + b.removed <= usize::MAX
}

/// Whether adding `b` to `a` keeps every count within `usize`.
pub fn mergeable(a: &TaskSummary, b: &TaskSummary) -> (r: bool)
    ensures
        r == can_merge(*a, *b),
{
    a.total <= usize::MAX - b.total && a.synced <= usize::MAX - b.synced && a.not_found <= usize::MAX
        - b.not_found && a.skipped <= usize::MAX - b.skipped && a.failed <= usize::MAX - b.failed
        && a.requeued <= usize::MAX - b.requeued && a.versions <= usize::MAX - b.versions && a.files
        <= usize::MAX - b.files && a.discovered <= usize::MAX - b.discovered && a.removed <= usize::MAX
        - b.removed
}

/// Adds the counts of `other` to `total`, field by field.
pub fn merge(total: &mut TaskSummary, other: TaskSummary)
    requires
        can_merge(*old(total), other),
    ensures
        *final(total) == merged(*old(total), other),
{
    total.total = total.total + other.total;
    total.synced = total.synced + other.synced;
    total.not_found = total.not_found + other.not_found;
    total.skipped = total.skipped + other.skipped;
    total.failed = total.failed + other.failed;
    total.requeued = total.requeued + other.requeued;
    total.versions = total.versions + other.versions;
    total.files = total.files + other.files;
    total.discovered = total.discovered + other.discovered;
    total.removed = total.removed + other.removed;
}

/// Merging keeps a run clean exactly when both parts were clean.
pub proof fn law_merge_clean(a: TaskSummary, b: TaskSummary)
    requires
        can_merge(a, b),
    ensures
        (merged(a, b).failed == 0) == (a.failed == 0 && b.failed == 0),
{
}

/// What a run of steps comes to, given each step's result in order: the
/// first error, or the counts of all steps added up field by field.
pub open spec fn combined(results: Seq<Result<TaskSummary>>) -> Result<TaskSummary>
    decreases results.len(),
{
    if results.len() == 0 {
        Ok(TaskSummary::zero())
    } else {
        match combined(results.drop_last()) {
            Err(e) => Err(e),
            Ok(total) => match results.last() {
                Err(e) => Err(e),
                Ok(s) => Ok(merged(total, s)),
            },
        }
    }
}

/// Whether adding up the steps' counts, up to the first error, keeps every
/// count within `usize`.
pub open spec fn combinable_spec(results: Seq<Result<TaskSummary>>) -> bool
    decreases results.len(),
{
    if results.len() == 0 {
        true
    } else {
        &&& combinable_spec(results.drop_last())
        &&& match (combined(results.drop_last()), results.last()) {
            (Ok(total), Ok(s)) => can_merge(total, s),
            _ => true,
        }
    }
}

proof fn lemma_combinable_prefix(results: Seq<Result<TaskSummary>>, j: int)
    requires
        combinable_spec(results),
        0 <= j <= results.len(),
    ensures
        combinable_spec(results.take(j)),
    decreases results.len(),
{
    if j < results.len() {
        assert(results.drop_last().take(j) =~= results.take(j));
        lemma_combinable_prefix(results.drop_last(), j);
    } else {
        assert(results.take(j) =~= results);
    }
}

/// Whether `combine` may add up these results.
pub fn combinable(results: &Vec<Result<TaskSummary>>) -> (r: bool)
    ensures
        r == combinable_spec(results@),
{
    let mut total = TaskSummary {
        total: 0,
        synced: 0,
        not_found: 0,
        skipped: 0,
        failed: 0,
        requeued: 0,
        versions: 0,
        files: 0,
        discovered: 0,
        removed: 0,
    };
    let mut failed = false;
    let mut i: usize = 0;
    while i < results.len()
        invariant
            i <= results@.len(),
            combinable_spec(results@.take(i as int)),
            if failed {
                combined(results@.take(i as int)) is Err
            } else {
                combined(results@.take(i as int)) == Ok::<TaskSummary, Error>(total)
            },
        decreases results.len() - i,
    {
        assert(results@.take(i + 1).drop_last() =~= results@.take(i as int));
        assert(results@.take(i + 1).last() == results@[i as int]);
        if !failed {
            match &results[i] {
                Ok(s) => {
                    if !mergeable(&total, s) {
                        proof {
                            if combinable_spec(results@) {
                                lemma_combinable_prefix(results@, i + 1);
                            }
                        }
                        return false;
                    }
                    merge(&mut total, *s);
                },
                Err(_) => {
                    failed = true;
                },
            }
        }
        i = i + 1;
    }
    assert(results@.take(i as int) =~= results@);
    true
}

/// The result of a run of steps: the first error among the steps' results,
/// or their counts added up field by field.
pub fn combine(results: Vec<Result<TaskSummary>>) -> (r: Result<TaskSummary>)
    requires
        combinable_spec(results@),
    ensures
        r == combined(results@),
{
    let ghost all = results@;
    let mut rs = results;
    let mut total = TaskSummary {
        total: 0,
        synced: 0,
        not_found: 0,
        skipped: 0,
        failed: 0,
        requeued: 0,
        versions: 0,
        files: 0,
        discovered: 0,
        removed: 0,
    };
    let mut i: usize = 0;
    while i < rs.len()
        invariant
            rs@ == all,
            all == results@,
            i <= all.len(),
            combinable_spec(all),
            combined(all.take(i as int)) == Ok::<TaskSummary, Error>(total),
        decreases rs.len() - i,
    {
        assert(all.take(i + 1).drop_last() =~= all.take(i as int));
        assert(all.take(i + 1).last() == all[i as int]);
        proof {
            lemma_combinable_prefix(all, i + 1);
        }
        let failed = rs[i].is_err();
        if failed {
            let first = rs.remove(i);
            proof {
                lemma_first_error_decides(all, i as int);
            }
            return first;
        }
        match &rs[i] {
            Ok(s) => merge(&mut total, *s),
            Err(_) => {},
        }
        i = i + 1;
    }
    assert(all.take(i as int) =~= all);
    Ok(total)
}

/// Once a step fails, the run's result is that step's error, whatever
/// follows.
proof fn lemma_first_error_decides(results: Seq<Result<TaskSummary>>, k: int)
    requires
        0 <= k < results.len(),
        combined(results.take(k)) is Ok,
        results[k] is Err,
    ensures
        combined(results) == results[k],
    decreases results.len(),
{
    if k + 1 == results.len() {
        assert(results.drop_last() =~= results.take(k));
    } else {
        assert(results.drop_last().take(k) =~= results.take(k));
        lemma_first_error_decides(results.drop_last(), k);
    }
}

/// The counts of several runs added up field by field, in order.
pub open spec fn summed(parts: Seq<TaskSummary>) -> TaskSummary
    decreases parts.len(),
{
    if parts.len() == 0 {
        TaskSummary::zero()
    } else {
        merged(summed(parts.drop_last()), parts.last())
    }
}

/// When every step succeeds, the run's counts are the steps' counts added
/// up field by field.
pub proof fn law_run_adds_up(results: Seq<Result<TaskSummary>>)
    requires
        forall|j: int| 0 <= j < results.len() ==> (#[trigger] results[j]) is Ok,
    ensures
        combined(results) == Ok::<TaskSummary, Error>(summed(results.map_values(|r: Result<TaskSummary>| r->Ok_0))),
    decreases results.len(),
{
    if results.len() > 0 {
        let rest = results.drop_last();
        assert forall|j: int| 0 <= j < rest.len() implies (#[trigger] rest[j]) is Ok by {
            assert(rest[j] == results[j]);
        }
        law_run_adds_up(rest);
        assert(results.map_values(|r: Result<TaskSummary>| r->Ok_0).drop_last() =~= rest.map_values(
            |r: Result<TaskSummary>| r->Ok_0,
        ));
        assert(results.last() == results[results.len() - 1]);
    }
}

/// When a step fails, the run's result is the first failure, whatever the
/// later steps gave.
pub proof fn law_run_stops_at_first_failure(results: Seq<Result<TaskSummary>>, k: int)
    requires
        0 <= k < results.len(),
        forall|j: int| 0 <= j < k ==> (#[trigger] results[j]) is Ok,
        results[k] is Err,
    ensures
        combined(results) == results[k],
{
    let before = results.take(k);
    assert forall|j: int| 0 <= j < before.len() implies (#[trigger] before[j]) is Ok by {
        assert(before[j] == results[j]);
    }
    law_run_adds_up(before);
    lemma_first_error_decides(results, k);
}

/// The counts as the history record stores them.
pub fn stats(summary: &TaskSummary) -> (r: TaskRunStats)
    ensures
        r.total == summary.total as i64,
        r.synced == summary.synced as i64,
        r.not_found == summary.not_found as i64,
        r.skipped == summary.skipped as i64,
        r.failed == summary.failed as i64,
        r.requeued == summary.requeued as i64,
        r.versions == summary.versions as i64,
        r.files == summary.files as i64,
        r.discovered == summary.discovered as i64,
        r.removed == summary.removed as i64,
{
    TaskRunStats {
        total: summary.total as i64,
        synced: summary.synced as i64,
        not_found: summary.not_found as i64,
        skipped: summary.skipped as i64,
        failed: summary.failed as i64,
        requeued: summary.requeued as i64,
        versions: summary.versions as i64,
        files: summary.files as i64,
        discovered: summary.discovered as i64,
        removed: summary.removed as i64,
    }
}

/// A batch report as task counts; nothing is requeued yet.
pub fn summarize<I, T>(report: &Report<I, T>) -> (r: TaskSummary)
    requires
        total_spec(*report) <= usize::MAX,
    ensures
        r.total == total_spec(*report),
        r.synced == report.synced@.len(),
        r.not_found == report.not_found@.len(),
        r.skipped == report.skipped@.len(),
        r.failed == report.failed@.len(),
        r.requeued == 0,
        r.versions == 0 && r.files == 0 && r.discovered == 0 && r.removed == 0,
{
    TaskSummary {
        total: report.total(),
        synced: report.synced.len(),
        not_found: report.not_found.len(),
        skipped: report.skipped.len(),
        failed: report.failed.len(),
        requeued: 0,
        versions: 0,
        files: 0,
        discovered: 0,
        removed: 0,
    }
}

/// The whole second, counted from the epoch, that a millisecond falls in.
pub open spec fn second_of(ms: int) -> int {
    ms / 1000
}

fn floor_second(ms: i64) -> (r: i64)
    ensures
        r == second_of(ms as int),
{
    let q = ms / 1000;
    let m = ms % 1000;
    if m < 0 {
        q - 1
    } else {
        q
    }
}

/// Two instants agree when they fall in the same second: the cache keeps
/// milliseconds where upstream sends microseconds, so finer differences
/// mean nothing. Two missing instants agree; a missing and a present one
/// do not.
pub open spec fn same_second_spec(a: Option<i64>, b: Option<i64>) -> bool {
    match (a, b) {
        (Some(x), Some(y)) => second_of(x as int) == second_of(y as int),
        (None, None) => true,
        _ => false,
    }
}

pub fn same_second(a: Option<i64>, b: Option<i64>) -> (r: bool)
    ensures
        r == same_second_spec(a, b),
{
    match (a, b) {
        (Some(x), Some(y)) => floor_second(x) == floor_second(y),
        (None, None) => true,
        _ => false,
    }
}

/// Keeping an instant in milliseconds keeps its second: an upstream time
/// with finer digits and the same time as the cache stored it (see
/// `FlexDateTime::millis`) are never taken for a change.
pub proof fn law_storing_keeps_the_second(secs: int, nanos_a: int, nanos_b: int)
    requires
        0 <= nanos_a < 1_000_000_000,
        0 <= nanos_b < 1_000_000_000,
    ensures
        second_of(secs * 1000 + nanos_a / 1_000_000) == secs,
        second_of(secs * 1000 + nanos_a / 1_000_000) == second_of(secs * 1000 + nanos_b / 1_000_000),
{
    assert(0 <= nanos_a / 1_000_000 < 1000);
    assert(0 <= nanos_b / 1_000_000 < 1000);
    assert((secs * 1000 + nanos_a / 1_000_000) / 1000 == secs) by (nonlinear_arith)
        requires
            0 <= nanos_a / 1_000_000 < 1000,
    ;
    assert((secs * 1000 + nanos_b / 1_000_000) / 1000 == secs) by (nonlinear_arith)
        requires
            0 <= nanos_b / 1_000_000 < 1000,
    ;
}

/// The members to put back on a queue after a batch: the ids that failed,
/// in the order they failed, as the queue spells them. A 404 or an entry
/// out of scope is not put back, or it would come round for ever.
pub fn requeue_members<T>(report: &Report<String, T>) -> (members: Vec<String>)
    ensures
        members@.len() == report.failed@.len(),
        forall|k: int| 0 <= k < members@.len() ==> #[trigger] members@[k]@ == report.failed@[k].0@,
{
    let mut members: Vec<String> = Vec::new();
    let mut i: usize = 0;
    while i < report.failed.len()
        invariant
            i <= report.failed@.len(),
            members@.len() == i,
            forall|k: int| 0 <= k < i ==> #[trigger] members@[k]@ == report.failed@[k].0@,
        decreases report.failed.len() - i,
    {
        members.push(String::from_str(report.failed[i].0.as_str()));
        i = i + 1;
    }
    members
}

/// The same for numeric ids, written in decimal.
pub fn requeue_members_i32<T>(report: &Report<i32, T>) -> (members: Vec<String>)
    ensures
        members@.len() == report.failed@.len(),
        forall|k: int| 0 <= k < members@.len() ==> #[trigger] members@[k]@ == signed_decimal(report.failed@[k].0 as int),
{
    let mut members: Vec<String> = Vec::new();
    let mut i: usize = 0;
    while i < report.failed.len()
        invariant
            i <= report.failed@.len(),
            members@.len() == i,
            forall|k: int| 0 <= k < i ==> #[trigger] members@[k]@ == signed_decimal(report.failed@[k].0 as int),
        decreases report.failed.len() - i,
    {
        members.push(format_i32(report.failed[i].0));
        i = i + 1;
    }
    members
}

/// The summary of a run that refreshes a whole table, or makes indexes
/// ready: every entry written counts as attempted and synced.
pub fn synced_summary(count: usize) -> (s: TaskSummary)
    ensures
        s == (TaskSummary { total: count, synced: count, ..TaskSummary::zero() }),
{
    TaskSummary { total: count, synced: count, ..TaskSummary::default() }
}

} // verus!
