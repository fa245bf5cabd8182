//! The history record of one task run.

use vstd::prelude::*;
use crate::cli::{Command, CurseforgeTask, ModrinthTask};
use crate::text::{chars_of, string_of};

verus! {

pub const RUNNING: &'static str = "running";

pub const SUCCESS: &'static str = "success";

pub const PARTIAL_FAILURE: &'static str = "partial_failure";

pub const ERROR: &'static str = "error";

pub const INTERRUPTED: &'static str = "interrupted";

/// The most characters of an error message that a record keeps.
pub const MAX_ERROR_CHARS: usize = 1024;

#[derive(Debug, Clone, Copy, Default, PartialEq, Eq, Structural)]
pub struct TaskRunStats {
    pub total: i64,
    pub synced: i64,
    pub not_found: i64,
    pub skipped: i64,
    pub failed: i64,
    pub requeued: i64,
    pub versions: i64,
    pub files: i64,
    pub discovered: i64,
    pub removed: i64,
}

/// A `task_runs` document. Times are Unix milliseconds.
#[derive(Debug, Clone)]
pub struct TaskRun {
    /// The twelve bytes of the document's ObjectId.
    pub id: [u8; 12],
    pub task: String,
    pub provider: String,
    pub operation: String,
    pub status: String,
    pub started_at: i64,
    pub finished_at: Option<i64>,
    pub duration_ms: Option<i64>,
    pub stats: TaskRunStats,
    pub error: Option<String>,
    pub version: String,
}

pub open spec fn curseforge_operation_spec(task: CurseforgeTask) -> Seq<char> {
    match task {
        CurseforgeTask::Queue => "queue"@,
        CurseforgeTask::Refresh => "refresh"@,
        CurseforgeTask::Search { .. } => "search"@,
        CurseforgeTask::Categories { .. } => "categories"@,
    }
}

pub open spec fn modrinth_operation_spec(task: ModrinthTask) -> Seq<char> {
    match task {
        ModrinthTask::Queue => "queue"@,
        ModrinthTask::Refresh => "refresh"@,
        ModrinthTask::RefreshFull => "refresh-full"@,
        ModrinthTask::Search { .. } => "search"@,
        ModrinthTask::Tags => "tags"@,
    }
}

pub fn curseforge_operation(task: &CurseforgeTask) -> (r: &'static str)
    ensures
        r@ == curseforge_operation_spec(*task),
{
    match task {
        CurseforgeTask::Queue => "queue",
        CurseforgeTask::Refresh => "refresh",
        CurseforgeTask::Search { .. } => "search",
        CurseforgeTask::Categories { .. } => "categories",
    }
}

pub fn modrinth_operation(task: &ModrinthTask) -> (r: &'static str)
    ensures
        r@ == modrinth_operation_spec(*task),
{
    match task {
        ModrinthTask::Queue => "queue",
        ModrinthTask::Refresh => "refresh",
        ModrinthTask::RefreshFull => "refresh-full",
        ModrinthTask::Search { .. } => "search",
        ModrinthTask::Tags => "tags",
    }
}

/// The first `MAX_ERROR_CHARS` characters of `s`.
pub open spec fn clipped(s: Seq<char>) -> Seq<char> {
    if s.len() <= MAX_ERROR_CHARS {
        s
    } else {
        s.take(MAX_ERROR_CHARS as int)
    }
}

fn clip(s: &str) -> (r: String)
    ensures
        r@ == clipped(s@),
{
    let mut chars = chars_of(s);
    if chars.len() > MAX_ERROR_CHARS {
        chars.truncate(MAX_ERROR_CHARS);
    }
    string_of(&chars)
}

impl TaskRun {
    /// A record for a run that is starting now, under the document id `id`
    /// (a fresh ObjectId's twelve bytes). Index builds and the daemon itself
    /// are not sync tasks and get none.
    pub fn new(id: [u8; 12], task: &str, command: &Command, started_at: i64, version: &str) -> (r: Option<TaskRun>)
        ensures
            (r is None) <==> (*command is Indexes || *command is Daemon),
            r matches Some(run) ==> {
                &&& run.id == id
                &&& run.task@ == task@
                &&& run.provider@ == (match *command {
                    Command::Curseforge(_) => "curseforge"@,
                    _ => "modrinth"@,
                })
                &&& run.operation@ == (match *command {
                    Command::Curseforge(t) => curseforge_operation_spec(t),
                    Command::Modrinth(t) => modrinth_operation_spec(t),
                    _ => Seq::empty(),
                })
                &&& run.status@ == "running"@
                &&& run.started_at == started_at
                &&& run.finished_at is None
                &&& run.duration_ms is None
                &&& run.stats == TaskRunStats::default_spec()
                &&& run.error is None
                &&& run.version@ == version@
            },
    {
        let (provider, operation) = match command {
            Command::Curseforge(t) => ("curseforge", curseforge_operation(t)),
            Command::Modrinth(t) => ("modrinth", modrinth_operation(t)),
            _ => return None,
        };
        Some(TaskRun {
            id,
            task: String::from_str(task),
            provider: String::from_str(provider),
            operation: String::from_str(operation),
            status: String::from_str(RUNNING),
            started_at,
            finished_at: None,
            duration_ms: None,
            stats: TaskRunStats::new(),
            error: None,
            version: String::from_str(version),
        })
    }

    /// Closes the record: the final status, when it ended, how long it ran
    /// (never negative), the counts, and at most `MAX_ERROR_CHARS`
    /// characters of the error.
    pub fn finish(&mut self, status: &str, finished_at: i64, stats: TaskRunStats, error: Option<&str>)
        requires
            i64::MIN <= finished_at - old(self).started_at <= i64::MAX,
        ensures
            final(self).id == old(self).id,
            final(self).task == old(self).task,
            final(self).provider == old(self).provider,
            final(self).operation == old(self).operation,
            final(self).started_at == old(self).started_at,
            final(self).version == old(self).version,
            final(self).status@ == status@,
            final(self).finished_at == Some(finished_at),
            final(self).duration_ms == Some(
                if finished_at - old(self).started_at > 0 { (finished_at - old(self).started_at) as i64 } else { 0i64 },
            ),
            final(self).stats == stats,
            match error {
                Some(e) => final(self).error matches Some(m) && m@ == clipped(e@),
                None => final(self).error is None,
            },
    {
        self.status = String::from_str(status);
        self.finished_at = Some(finished_at);
        let elapsed = finished_at - self.started_at;
        self.duration_ms = Some(if elapsed > 0 { elapsed } else { 0 });
        self.stats = stats;
        self.error = match error {
            Some(e) => Some(clip(e)),
            None => None,
        };
    }
}

impl TaskRunStats {
    pub open spec fn default_spec() -> TaskRunStats {
        TaskRunStats {
            total: 0,
            synced: 0,
            not_found: 0,
            skipped: 0,
            failed: 0,
            requeued: 0,
            versions: 0,
            files: 0,
            discovered: 0,
            removed: 0,
        }
    }

    pub fn new() -> (r: TaskRunStats)
        ensures
            r == TaskRunStats::default_spec(),
    {
        TaskRunStats {
            total: 0,
            synced: 0,
            not_found: 0,
            skipped: 0,
            failed: 0,
            requeued: 0,
            versions: 0,
            files: 0,
            discovered: 0,
            removed: 0,
        }
    }
}

/// A kept error message is the start of the message, and never more than
/// `MAX_ERROR_CHARS` characters; one that fits is kept whole.
pub proof fn law_clipped_keeps_the_start(s: Seq<char>)
    ensures
        clipped(s).len() == (if s.len() <= MAX_ERROR_CHARS { s.len() } else { MAX_ERROR_CHARS as nat }),
        forall|i: int| 0 <= i < clipped(s).len() ==> #[trigger] clipped(s)[i] == s[i],
{
}

} // verus!
