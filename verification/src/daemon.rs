//! The daemon's scheduling decisions: reading the schedule, how long to
//! sleep, which jobs are due, and keeping one job from overlapping itself.
//! Times are Unix milliseconds, in UTC.

use vstd::prelude::*;
use crate::cli::Command;
use crate::error::{Error, Result};

verus! {

/// Whether croner reads `text` as a cron pattern.
pub uninterp spec fn cron_accepts(text: Seq<char>) -> bool;

/// The time, in Unix milliseconds, that croner finds for `pattern` after
/// `after`, read in UTC; none when the pattern does not read or no match
/// lies within croner's search.
pub uninterp spec fn croner_next(pattern: Seq<char>, after: i64) -> Option<i64>;

/// croner's `Cron::from_str`. Whether a pattern is accepted depends on its
/// text alone, which `cron_accepts` names; the error's wording is croner's.
#[verifier::external_body]
fn parse_cron(text: &str) -> (r: std::result::Result<(), String>)
    ensures
        r is Ok == cron_accepts(text@),
{
    text.parse::<croner::Cron>().map(|_| ()).map_err(|e| e.to_string())
}

/// croner's `Cron::find_next_occurrence` for the pattern read by
/// `Cron::from_str`, searching forward from `after`, which is excluded, in
/// UTC. What it finds depends on the pattern and the time alone, which
/// `croner_next` names. croner walks whole seconds from the second after
/// `after`, so what it finds lies strictly later. It finds nothing for a
/// pattern that does not read, when no match lies within its search, or
/// when `after` is out of chrono's range.
#[verifier::external_body]
fn next_after(pattern: &str, after: i64) -> (r: Option<i64>)
    ensures
        r == croner_next(pattern@, after),
        r matches Some(t) ==> t > after,
        !cron_accepts(pattern@) ==> r is None,
{
    let cron = pattern.parse::<croner::Cron>().ok()?;
    let start = chrono::DateTime::from_timestamp_millis(after)?;
    cron.find_next_occurrence(&start, false).ok().map(|t| t.timestamp_millis())
}

/// The longest single sleep: after the system clock is set, the daemon
/// does not keep sleeping towards a stale deadline.
pub const MAX_SLEEP_MS: u64 = 60000;

/// One schedule entry as read from the configuration, its subcommand
/// already parsed (or why it could not be).
pub struct ScheduleItem {
    pub name: String,
    pub cron: String,
    pub command: std::result::Result<Command, String>,
}

/// A scheduled job, its cron pattern, and when it fires next.
pub struct Job {
    pub name: String,
    pub pattern: String,
    pub command: Command,
    pub next: i64,
}

/// A schedule entry that can never be a job: its subcommand is not one,
/// or is the daemon itself (which would run daemons inside daemons), or
/// its cron pattern does not read.
pub open spec fn item_invalid(item: ScheduleItem) -> bool {
    ||| item.command is Err
    ||| item.command == Ok::<Command, String>(Command::Daemon)
    ||| !cron_accepts(item.cron@)
}

/// The error for a bad schedule entry: `schedule.`, the entry's name, what
/// is wrong with it, and the detail.
fn entry_error(name: &String, what: &str, detail: &str) -> (e: Error)
    ensures
        e is Config,
        e->Config_0@ == "schedule."@ + name@ + what@ + detail@,
{
    let s = String::from_str("schedule.");
    let s = s.concat(name.as_str());
    let s = s.concat(what);
    Error::Config(s.concat(detail))
}

/// The job for a schedule entry, given what croner made of its pattern
/// (`parsed`) and the first time it found after now (`next`). The
/// subcommand must be a task other than the daemon, the pattern must read,
/// and it must fire at some time.
pub fn schedule_job(
    item: &ScheduleItem,
    parsed: std::result::Result<(), String>,
    next: Option<i64>,
) -> (r: Result<Job>)
    ensures
        r is Ok <==> (item.command is Ok && item.command != Ok::<Command, String>(Command::Daemon)
            && parsed is Ok && next is Some),
        r matches Err(e) ==> e is Config,
        r matches Ok(job) ==> {
            &&& job.name@ == item.name@
            &&& job.pattern@ == item.cron@
            &&& item.command == Ok::<Command, String>(job.command)
            &&& next == Some(job.next)
        },
{
    let command = match &item.command {
        Ok(c) => *c,
        Err(reason) => return Err(entry_error(&item.name, " 的 args 无效: ", reason.as_str())),
    };
    if let Command::Daemon = command {
        return Err(entry_error(&item.name, " 的 args 无效: ", "daemon 不能排进计划"));
    }
    if let Err(reason) = parsed {
        return Err(entry_error(&item.name, " 的 cron 无效: ", reason.as_str()));
    }
    match next {
        Some(t) => Ok(Job { name: item.name.clone(), pattern: item.cron.clone(), command, next: t }),
        None => Err(entry_error(&item.name, " 的 cron 永远不会触发", "")),
    }
}

/// Turns the schedule into jobs, each with the first time it fires after
/// `now`. One bad entry fails the whole schedule rather than being skipped
/// where nobody would notice.
pub fn build(items: &Vec<ScheduleItem>, now: i64) -> (r: Result<Vec<Job>>)
    ensures
        r is Ok <==> forall|k: int| 0 <= k < items@.len() ==> !item_invalid(#[trigger] items@[k])
            && croner_next(items@[k].cron@, now) is Some,
        r matches Err(e) ==> e is Config,
        r matches Ok(jobs) ==> {
            &&& jobs@.len() == items@.len()
            &&& forall|k: int| 0 <= k < jobs@.len() ==> {
                &&& (#[trigger] jobs@[k]).name@ == items@[k].name@
                &&& jobs@[k].pattern@ == items@[k].cron@
                &&& items@[k].command == Ok::<Command, String>(jobs@[k].command)
                &&& croner_next(items@[k].cron@, now) == Some(jobs@[k].next)
                &&& jobs@[k].next > now
            }
        },
{
    let mut jobs: Vec<Job> = Vec::new();
    let mut i: usize = 0;
    while i < items.len()
        invariant
            i <= items.len(),
            jobs@.len() == i,
            forall|k: int| 0 <= k < i ==> !item_invalid(#[trigger] items@[k]) && croner_next(items@[k].cron@, now) is Some,
            forall|k: int| 0 <= k < jobs@.len() ==> {
                &&& (#[trigger] jobs@[k]).name@ == items@[k].name@
                &&& jobs@[k].pattern@ == items@[k].cron@
                &&& items@[k].command == Ok::<Command, String>(jobs@[k].command)
                &&& croner_next(items@[k].cron@, now) == Some(jobs@[k].next)
                &&& jobs@[k].next > now
            },
        decreases items.len() - i,
    {
        let item = &items[i];
        let parsed = parse_cron(item.cron.as_str());
        let next = next_after(item.cron.as_str(), now);
        let job = match schedule_job(item, parsed, next) {
            Ok(job) => job,
            Err(e) => return Err(e),
        };
        jobs.push(job);
        i = i + 1;
    }
    Ok(jobs)
}

/// The earliest time any job fires; none without jobs.
pub open spec fn earliest(jobs: Seq<Job>) -> Option<i64>
    decreases jobs.len(),
{
    if jobs.len() == 0 {
        None
    } else {
        match earliest(jobs.drop_last()) {
            Some(t) => if jobs.last().next < t { Some(jobs.last().next) } else { Some(t) },
            None => Some(jobs.last().next),
        }
    }
}

/// How long to sleep before the earliest job is due: nothing when one is
/// overdue or there is none, and never more than `MAX_SLEEP_MS`.
pub open spec fn sleep_spec(jobs: Seq<Job>, now: i64) -> int {
    match earliest(jobs) {
        None => 0,
        Some(t) => if t <= now { 0 } else if t - now > MAX_SLEEP_MS { MAX_SLEEP_MS as int } else { t - now },
    }
}

pub fn until_next(jobs: &Vec<Job>, now: i64) -> (ms: u64)
    ensures
        ms == sleep_spec(jobs@, now),
{
    let mut best: Option<i64> = None;
    let mut i: usize = 0;
    while i < jobs.len()
        invariant
            i <= jobs.len(),
            best == earliest(jobs@.take(i as int)),
        decreases jobs.len() - i,
    {
        assert(jobs@.take(i + 1).drop_last() =~= jobs@.take(i as int));
        let t = jobs[i].next;
        best = match best {
            Some(b) => if t < b { Some(t) } else { Some(b) },
            None => Some(t),
        };
        i = i + 1;
    }
    assert(jobs@.take(i as int) =~= jobs@);
    match best {
        None => 0,
        Some(t) => {
            if t <= now {
                0
            } else {
                let gap: i128 = t as i128 - now as i128;
                if gap > MAX_SLEEP_MS as i128 {
                    MAX_SLEEP_MS
                } else {
                    gap as u64
                }
            }
        },
    }
}

/// The sleep is capped, and an overdue job is not waited for.
pub proof fn law_sleep_bounds(jobs: Seq<Job>, now: i64)
    ensures
        0 <= sleep_spec(jobs, now) <= MAX_SLEEP_MS,
        (exists|k: int| 0 <= k < jobs.len() && jobs[k].next <= now) ==> sleep_spec(jobs, now) == 0,
    decreases jobs.len(),
{
    if jobs.len() > 0 {
        law_sleep_bounds(jobs.drop_last(), now);
        lemma_earliest_is_least(jobs);
        if exists|k: int| 0 <= k < jobs.len() && jobs[k].next <= now {
            let k = choose|k: int| 0 <= k < jobs.len() && jobs[k].next <= now;
            assert(earliest(jobs).unwrap() <= jobs[k].next);
        }
    }
}

proof fn lemma_earliest_is_least(jobs: Seq<Job>)
    ensures
        jobs.len() > 0 ==> earliest(jobs) is Some,
        jobs.len() > 0 ==> exists|k: int| 0 <= k < jobs.len() && #[trigger] jobs[k].next == earliest(jobs).unwrap(),
        forall|k: int| 0 <= k < jobs.len() ==> earliest(jobs).unwrap() <= #[trigger] jobs[k].next,
    decreases jobs.len(),
{
    if jobs.len() > 0 {
        lemma_earliest_is_least(jobs.drop_last());
        let n = jobs.len() - 1;
        assert(jobs[n] == jobs.last());
        if jobs.len() > 1 {
            let k = choose|k: int| 0 <= k < jobs.drop_last().len() && #[trigger] jobs.drop_last()[k].next == earliest(jobs.drop_last()).unwrap();
            assert(jobs[k] == jobs.drop_last()[k]);
        }
        assert forall|k: int| 0 <= k < jobs.len() implies earliest(jobs).unwrap() <= #[trigger] jobs[k].next by {
            if k < jobs.len() - 1 {
                assert(jobs.drop_last()[k] == jobs[k]);
            }
        }
    }
}

/// Without an overdue job the daemon sleeps until the earliest job is
/// due, but never past `MAX_SLEEP_MS`: no job comes due during the sleep,
/// and one comes due as it ends unless the cap cut it short.
pub proof fn law_sleep_until_earliest(jobs: Seq<Job>, now: i64)
    requires
        jobs.len() > 0,
        forall|k: int| 0 <= k < jobs.len() ==> #[trigger] jobs[k].next > now,
    ensures
        forall|k: int| 0 <= k < jobs.len() ==> now + sleep_spec(jobs, now) <= #[trigger] jobs[k].next,
        sleep_spec(jobs, now) > 0,
        sleep_spec(jobs, now) == MAX_SLEEP_MS || exists|k: int| 0 <= k < jobs.len() && #[trigger] jobs[k].next == now
            + sleep_spec(jobs, now),
{
    lemma_earliest_is_least(jobs);
    let k = choose|k: int| 0 <= k < jobs.len() && #[trigger] jobs[k].next == earliest(jobs).unwrap();
    assert(jobs[k].next > now);
}

/// The time a due job moves on to: the next one croner finds after `now`,
/// or the end of time when it finds none, which stops the job.
pub open spec fn moved_on(pattern: Seq<char>, now: i64) -> i64 {
    match croner_next(pattern, now) {
        Some(t) => t,
        None => i64::MAX,
    }
}

/// The jobs due at `now`, in schedule order; each moves on to its next
/// time after `now`, or to the end of time when croner finds none. Missed
/// runs are not made up: a job overdue by several periods runs once.
pub fn advance_due(jobs: &mut Vec<Job>, now: i64) -> (due: Vec<usize>)
    ensures
        final(jobs)@.len() == old(jobs)@.len(),
        forall|k: int| 0 <= k < due@.len() ==> due@[k] < old(jobs)@.len() && old(jobs)@[due@[k] as int].next <= now,
        forall|k: int| 0 <= k < old(jobs)@.len() && old(jobs)@[k].next <= now ==> due@.contains(k as usize),
        forall|a: int, b: int| 0 <= a < b < due@.len() ==> due@[a] < due@[b],
        now < i64::MAX ==> forall|k: int| 0 <= k < final(jobs)@.len() ==> #[trigger] final(jobs)@[k].next > now,
        forall|k: int| 0 <= k < final(jobs)@.len() ==> {
            &&& (#[trigger] final(jobs)@[k]).name == old(jobs)@[k].name
            &&& final(jobs)@[k].pattern == old(jobs)@[k].pattern
            &&& final(jobs)@[k].command == old(jobs)@[k].command
            &&& if old(jobs)@[k].next <= now {
                &&& final(jobs)@[k].next == moved_on(old(jobs)@[k].pattern@, now)
                &&& (final(jobs)@[k].next > now || final(jobs)@[k].next == i64::MAX)
            } else {
                final(jobs)@[k].next == old(jobs)@[k].next
            }
        },
{
    let mut due: Vec<usize> = Vec::new();
    let mut i: usize = 0;
    while i < jobs.len()
        invariant
            i <= jobs.len(),
            jobs@.len() == old(jobs)@.len(),
            forall|k: int| 0 <= k < due@.len() ==> due@[k] < i && old(jobs)@[due@[k] as int].next <= now,
            forall|k: int| 0 <= k < i && old(jobs)@[k].next <= now ==> due@.contains(k as usize),
            forall|a: int, b: int| 0 <= a < b < due@.len() ==> due@[a] < due@[b],
            forall|k: int| i <= k < jobs@.len() ==> #[trigger] jobs@[k] == old(jobs)@[k],
            forall|k: int| 0 <= k < i ==> {
                &&& (#[trigger] jobs@[k]).name == old(jobs)@[k].name
                &&& jobs@[k].pattern == old(jobs)@[k].pattern
                &&& jobs@[k].command == old(jobs)@[k].command
                &&& if old(jobs)@[k].next <= now {
                    &&& jobs@[k].next == moved_on(old(jobs)@[k].pattern@, now)
                    &&& (jobs@[k].next > now || jobs@[k].next == i64::MAX)
                } else {
                    jobs@[k].next == old(jobs)@[k].next
                }
            },
        decreases jobs.len() - i,
    {
        if jobs[i].next <= now {
            let next = match next_after(jobs[i].pattern.as_str(), now) {
                Some(t) => t,
                None => i64::MAX,
            };
            jobs[i].next = next;
            let ghost before = due@;
            due.push(i);
            proof {
                assert(due@[due@.len() - 1] == i);
                assert forall|k: int| 0 <= k < i + 1 && old(jobs)@[k].next <= now implies due@.contains(k as usize) by {
                    if k < i {
                        let m = choose|m: int| 0 <= m < before.len() && before[m] == k as usize;
                        assert(due@[m] == k as usize);
                    } else {
                        assert(due@[due@.len() - 1] == k as usize);
                    }
                }
            }
        }
        i = i + 1;
    }
    due
}

/// What claiming a slot at `now` does: a free slot is taken; a taken one
/// stays as it was and answers how long its run has gone on.
pub open spec fn claim_post(before: Slot, after: Slot, now: i64, r: std::result::Result<(), i64>) -> bool {
    match before.started {
        Some(since) => {
            &&& after == before
            &&& r == Err::<(), i64>(
                if now - since < 0 { 0 } else if now - since > i64::MAX { i64::MAX } else { (now - since) as i64 },
            )
        },
        None => r is Ok && after.started == Some(now),
    }
}

/// Whether a job is running, and since when.
#[derive(Debug, Clone, Copy, PartialEq, Eq, Structural)]
pub struct Slot {
    pub started: Option<i64>,
}

impl Slot {
    pub fn new() -> (s: Slot)
        ensures
            s.started is None,
    {
        Slot { started: None }
    }

    /// Takes the slot for a run starting at `now`. A job that is already
    /// running is not started again; the answer is how long it has run.
    /// Only a job overlapping itself is held back; different jobs run side
    /// by side.
    pub fn claim(&mut self, now: i64) -> (r: std::result::Result<(), i64>)
        ensures
            claim_post(*old(self), *final(self), now, r),
    {
        match self.started {
            Some(since) => {
                let elapsed: i128 = now as i128 - since as i128;
                Err(if elapsed < 0 { 0 } else if elapsed > i64::MAX as i128 { i64::MAX } else { elapsed as i64 })
            },
            None => {
                self.started = Some(now);
                Ok(())
            },
        }
    }

    /// Frees the slot once the run is over, however it ended.
    pub fn release(&mut self)
        ensures
            final(self).started is None,
    {
        self.started = None;
    }
}

/// A job cannot overlap itself: a second claim before the first run is
/// released fails and changes nothing.
pub proof fn law_claim_excludes_overlap(s0: Slot, s1: Slot, s2: Slot, t1: i64, t2: i64, r1: std::result::Result<(), i64>, r2: std::result::Result<(), i64>)
    requires
        s0.started is None,
        claim_post(s0, s1, t1, r1),
        claim_post(s1, s2, t2, r2),
    ensures
        r1 is Ok,
        r2 is Err,
        s2 == s1,
{
}

/// A released slot can always be claimed.
pub proof fn law_release_frees(released: Slot, after: Slot, now: i64, r: std::result::Result<(), i64>)
    requires
        released.started is None,
        claim_post(released, after, now, r),
    ensures
        r is Ok,
        after.started == Some(now),
{
}

/// A daemon with nothing scheduled has nothing to do: that is a
/// configuration error, not an idle process.
pub fn check_schedule(jobs: &Vec<Job>) -> (r: Result<()>)
    ensures
        r is Ok <==> jobs@.len() > 0,
        r matches Err(e) ==> e is Config,
{
    if jobs.len() == 0 {
        Err(Error::Config(String::from_str("schedule 是空的，没有任务可排")))
    } else {
        Ok(())
    }
}

/// A job's run of consecutive failures after one more run: a run that
/// completes, cleanly or not, ends it; a failed run adds one (wrapping, as
/// the shared counter does). With no exit code to read, a lasting fault
/// shows here.
pub fn failure_streak(previous: u32, completed: bool) -> (streak: u32)
    ensures
        streak == (if completed { 0 } else if previous == u32::MAX { 0 } else { (previous + 1) as u32 }),
{
    if completed {
        0
    } else {
        previous.wrapping_add(1)
    }
}

} // verus!
