//! What the daemon's metrics record: labels, the item counts of a task
//! run, the last result, and memory figures read from the kernel's text.

use vstd::prelude::*;
use crate::cli::{Command, CurseforgeTask, ModrinthTask};
use crate::task::TaskSummary;
use crate::text::{
    char_is_whitespace, chars_eq, chars_of, is_whitespace, lines, parse_u64, parse_unsigned,
    split_lines, split_words, string_of, words,
};

verus! {

#[derive(Debug, Clone, PartialEq, Eq)]
pub struct TaskLabels {
    pub task: String,
}

#[derive(Debug, Clone, PartialEq, Eq)]
pub struct TaskResultLabels {
    pub task: String,
    pub result: String,
}

#[derive(Debug, Clone, PartialEq, Eq)]
pub struct ItemLabels {
    pub task: String,
    pub provider: String,
    pub entity: String,
    pub operation: String,
    pub result: String,
}

pub fn task_labels(name: &str) -> (l: TaskLabels)
    ensures
        l.task@ == name@,
{
    TaskLabels { task: String::from_str(name) }
}

pub fn task_result_labels(name: &str, result: &str) -> (l: TaskResultLabels)
    ensures
        l.task@ == name@,
        l.result@ == result@,
{
    TaskResultLabels { task: String::from_str(name), result: String::from_str(result) }
}

/// Whose items a command syncs and how: provider, operation and the entity
/// counted. Tag and category refreshes, index builds and the daemon count
/// no items.
pub open spec fn item_source(command: Command) -> Option<(Seq<char>, Seq<char>, Seq<char>)> {
    match command {
        Command::Modrinth(t) => match t {
            ModrinthTask::Queue => Some(("modrinth"@, "queue"@, "project"@)),
            ModrinthTask::Refresh => Some(("modrinth"@, "refresh"@, "project"@)),
            ModrinthTask::RefreshFull => Some(("modrinth"@, "refresh_full"@, "project"@)),
            ModrinthTask::Search { .. } => Some(("modrinth"@, "search"@, "project"@)),
            ModrinthTask::Tags => None,
        },
        Command::Curseforge(t) => match t {
            CurseforgeTask::Queue => Some(("curseforge"@, "queue"@, "mod"@)),
            CurseforgeTask::Refresh => Some(("curseforge"@, "refresh"@, "mod"@)),
            CurseforgeTask::Search { .. } => Some(("curseforge"@, "search"@, "mod"@)),
            CurseforgeTask::Categories { .. } => None,
        },
        _ => None,
    }
}

/// Every count of a run with its entity and result label, in the order the
/// counter family receives them: the project or mod counts, then the
/// versions (Modrinth only), then the files.
pub open spec fn item_counts(provider: Seq<char>, entity: Seq<char>, s: TaskSummary) -> Seq<(Seq<char>, Seq<char>, int)> {
    seq![
        (entity, "attempted"@, s.total as int),
        (entity, "synced"@, s.synced as int),
        (entity, "not_found"@, s.not_found as int),
        (entity, "skipped"@, s.skipped as int),
        (entity, "failed"@, s.failed as int),
        (entity, "requeued"@, s.requeued as int),
        (entity, "discovered"@, s.discovered as int),
        (entity, "removed"@, s.removed as int),
    ] + (if provider == "modrinth"@ { seq![("version"@, "synced"@, s.versions as int)] } else { Seq::empty() })
        + seq![("file"@, "synced"@, s.files as int)]
}

/// The counts that are not zero; a zero count creates no series.
pub open spec fn nonzero(items: Seq<(Seq<char>, Seq<char>, int)>) -> Seq<(Seq<char>, Seq<char>, int)>
    decreases items.len(),
{
    if items.len() == 0 {
        Seq::empty()
    } else {
        let rest = nonzero(items.drop_last());
        if items.last().2 != 0 {
            rest.push(items.last())
        } else {
            rest
        }
    }
}

/// One increment of the `items` counter family.
#[derive(Debug, Clone)]
pub struct ItemIncrement {
    pub labels: ItemLabels,
    pub count: u64,
}

pub open spec fn increments_match(r: Seq<ItemIncrement>, task: Seq<char>, provider: Seq<char>, operation: Seq<char>, items: Seq<(Seq<char>, Seq<char>, int)>) -> bool {
    &&& r.len() == items.len()
    &&& forall|k: int| 0 <= k < r.len() ==> {
        &&& (#[trigger] r[k]).labels.task@ == task
        &&& r[k].labels.provider@ == provider
        &&& r[k].labels.operation@ == operation
        &&& r[k].labels.entity@ == items[k].0
        &&& r[k].labels.result@ == items[k].1
        &&& r[k].count as int == items[k].2
    }
}

proof fn lemma_nonzero_step(items: Seq<(Seq<char>, Seq<char>, int)>, n: int)
    requires
        0 <= n < items.len(),
    ensures
        nonzero(items.take(n + 1)) == (if items[n].2 != 0 {
            nonzero(items.take(n)).push(items[n])
        } else {
            nonzero(items.take(n))
        }),
{
    assert(items.take(n + 1).drop_last() =~= items.take(n));
    assert(items.take(n + 1).last() == items[n]);
}

fn push_count(
    r: &mut Vec<ItemIncrement>,
    task: &str,
    provider: &str,
    operation: &str,
    entity: &str,
    result: &str,
    count: usize,
    Ghost(items): Ghost<Seq<(Seq<char>, Seq<char>, int)>>,
    Ghost(n): Ghost<int>,
)
    requires
        0 <= n < items.len(),
        items[n] == (entity@, result@, count as int),
        increments_match(old(r)@, task@, provider@, operation@, nonzero(items.take(n))),
    ensures
        increments_match(final(r)@, task@, provider@, operation@, nonzero(items.take(n + 1))),
{
    proof {
        lemma_nonzero_step(items, n);
    }
    if count == 0 {
        return;
    }
    r.push(ItemIncrement {
        labels: ItemLabels {
            task: String::from_str(task),
            provider: String::from_str(provider),
            entity: String::from_str(entity),
            operation: String::from_str(operation),
            result: String::from_str(result),
        },
        count: count as u64,
    });
    proof {
        let target = nonzero(items.take(n + 1));
        assert forall|k: int| 0 <= k < r@.len() implies {
            &&& (#[trigger] r@[k]).labels.task@ == task@
            &&& r@[k].labels.provider@ == provider@
            &&& r@[k].labels.operation@ == operation@
            &&& r@[k].labels.entity@ == target[k].0
            &&& r@[k].labels.result@ == target[k].1
            &&& r@[k].count as int == target[k].2
        } by {
            if k < old(r)@.len() {
                assert(r@[k] == old(r)@[k]);
            }
        }
    }
}

/// The item counts that a finished run adds to the `items` counter family.
pub fn item_increments(task_name: &str, command: &Command, summary: &TaskSummary) -> (r: Vec<ItemIncrement>)
    ensures
        match item_source(*command) {
            None => r@.len() == 0,
            Some((provider, operation, entity)) => increments_match(r@, task_name@, provider, operation, nonzero(item_counts(provider, entity, *summary))),
        },
{
    let (provider, operation, entity): (&str, &str, &str) = match command {
        Command::Modrinth(t) => match t {
            ModrinthTask::Queue => ("modrinth", "queue", "project"),
            ModrinthTask::Refresh => ("modrinth", "refresh", "project"),
            ModrinthTask::RefreshFull => ("modrinth", "refresh_full", "project"),
            ModrinthTask::Search { .. } => ("modrinth", "search", "project"),
            ModrinthTask::Tags => return Vec::new(),
        },
        Command::Curseforge(t) => match t {
            CurseforgeTask::Queue => ("curseforge", "queue", "mod"),
            CurseforgeTask::Refresh => ("curseforge", "refresh", "mod"),
            CurseforgeTask::Search { .. } => ("curseforge", "search", "mod"),
            CurseforgeTask::Categories { .. } => return Vec::new(),
        },
        _ => return Vec::new(),
    };
    let is_modrinth = match command {
        Command::Modrinth(_) => true,
        _ => false,
    };
    proof {
        reveal_strlit("modrinth");
        reveal_strlit("curseforge");
    }
    let ghost items = item_counts(provider@, entity@, *summary);
    proof {
        if !is_modrinth {
            assert(provider@[0] != "modrinth"@[0]);
        }
    }
    assert(is_modrinth == (provider@ == "modrinth"@));
    let mut r: Vec<ItemIncrement> = Vec::new();
    assert(items.take(0) =~= Seq::<(Seq<char>, Seq<char>, int)>::empty());
    push_count(&mut r, task_name, provider, operation, entity, "attempted", summary.total, Ghost(items), Ghost(0));
    push_count(&mut r, task_name, provider, operation, entity, "synced", summary.synced, Ghost(items), Ghost(1));
    push_count(&mut r, task_name, provider, operation, entity, "not_found", summary.not_found, Ghost(items), Ghost(2));
    push_count(&mut r, task_name, provider, operation, entity, "skipped", summary.skipped, Ghost(items), Ghost(3));
    push_count(&mut r, task_name, provider, operation, entity, "failed", summary.failed, Ghost(items), Ghost(4));
    push_count(&mut r, task_name, provider, operation, entity, "requeued", summary.requeued, Ghost(items), Ghost(5));
    push_count(&mut r, task_name, provider, operation, entity, "discovered", summary.discovered, Ghost(items), Ghost(6));
    push_count(&mut r, task_name, provider, operation, entity, "removed", summary.removed, Ghost(items), Ghost(7));
    if is_modrinth {
        push_count(&mut r, task_name, provider, operation, "version", "synced", summary.versions, Ghost(items), Ghost(8));
        push_count(&mut r, task_name, provider, operation, "file", "synced", summary.files, Ghost(items), Ghost(9));
        assert(items.take(10) =~= items);
    } else {
        push_count(&mut r, task_name, provider, operation, "file", "synced", summary.files, Ghost(items), Ghost(8));
        assert(items.take(9) =~= items);
    }
    r
}

/// The entity, result label and count of each increment.
pub open spec fn increment_view(r: Seq<ItemIncrement>) -> Seq<(Seq<char>, Seq<char>, int)> {
    r.map_values(|x: ItemIncrement| (x.labels.entity@, x.labels.result@, x.count as int))
}

/// Whether an entry is labelled `entity` and `result`.
pub open spec fn labelled(x: (Seq<char>, Seq<char>, int), entity: Seq<char>, result: Seq<char>) -> bool {
    x.0 == entity && x.1 == result
}

/// A count of `n` under `entity` and `result`: one entry with that count
/// when `n` is not zero, none when it is, and never two.
pub open spec fn counted_once(items: Seq<(Seq<char>, Seq<char>, int)>, entity: Seq<char>, result: Seq<char>, n: int) -> bool {
    &&& n != 0 ==> exists|k: int| 0 <= k < items.len() && #[trigger] items[k] == (entity, result, n)
    &&& n == 0 ==> forall|k: int| 0 <= k < items.len() ==> !labelled(#[trigger] items[k], entity, result)
    &&& forall|k1: int, k2: int|
        0 <= k1 < items.len() && 0 <= k2 < items.len() && labelled(#[trigger] items[k1], entity, result)
            && labelled(#[trigger] items[k2], entity, result) ==> k1 == k2
}

/// No two entries share both labels.
pub open spec fn labels_distinct(items: Seq<(Seq<char>, Seq<char>, int)>) -> bool {
    forall|i: int, j: int|
        0 <= i < j < items.len() ==> !labelled(#[trigger] items[i], (#[trigger] items[j]).0, items[j].1)
}

proof fn lemma_nonzero_from(items: Seq<(Seq<char>, Seq<char>, int)>)
    ensures
        forall|k: int|
            0 <= k < nonzero(items).len() ==> items.contains(#[trigger] nonzero(items)[k]) && nonzero(items)[k].2 != 0,
    decreases items.len(),
{
    if items.len() > 0 {
        let d = items.drop_last();
        lemma_nonzero_from(d);
        assert forall|k: int| 0 <= k < nonzero(items).len() implies items.contains(#[trigger] nonzero(items)[k])
            && nonzero(items)[k].2 != 0 by {
            if k < nonzero(d).len() {
                assert(nonzero(items)[k] == nonzero(d)[k]);
                let i = choose|i: int| 0 <= i < d.len() && d[i] == nonzero(d)[k];
                assert(items[i] == d[i]);
            } else {
                assert(nonzero(items)[k] == items[items.len() - 1]);
            }
        }
    }
}

proof fn lemma_nonzero_counted(items: Seq<(Seq<char>, Seq<char>, int)>, j: int)
    requires
        labels_distinct(items),
        0 <= j < items.len(),
    ensures
        counted_once(nonzero(items), items[j].0, items[j].1, items[j].2),
    decreases items.len(),
{
    let d = items.drop_last();
    let x = items.last();
    let n1 = nonzero(d);
    let n = nonzero(items);
    let (e, res) = (items[j].0, items[j].1);
    assert(labels_distinct(d)) by {
        assert forall|a: int, b: int| 0 <= a < b < d.len() implies !labelled(#[trigger] d[a], (#[trigger] d[b]).0, d[b].1) by {
            assert(d[a] == items[a] && d[b] == items[b]);
        }
    }
    lemma_nonzero_from(d);
    if j == items.len() - 1 {
        assert forall|k: int| 0 <= k < n1.len() implies !labelled(#[trigger] n1[k], e, res) by {
            let i = choose|i: int| 0 <= i < d.len() && d[i] == n1[k];
            assert(d[i] == items[i]);
        }
        if x.2 != 0 {
            assert(n == n1.push(x));
            assert(n[n1.len() as int] == x);
        } else {
            assert(n == n1);
        }
    } else {
        assert(d[j] == items[j]);
        lemma_nonzero_counted(d, j);
        assert(!labelled(x, e, res));
        if x.2 != 0 {
            assert(n == n1.push(x));
            assert forall|k: int| 0 <= k < n1.len() implies #[trigger] n[k] == n1[k] by {}
            if items[j].2 != 0 {
                let k = choose|k: int| 0 <= k < n1.len() && #[trigger] n1[k] == (e, res, items[j].2);
                assert(n[k] == n1[k]);
            }
        } else {
            assert(n == n1);
        }
    }
}

/// What a finished run adds to the `items` counters: each of its figures
/// that is not zero once, under its entity and result (the project or mod
/// counts, the synced versions of a Modrinth run, the synced files of a run
/// of either provider), no figure twice, and nothing else.
pub proof fn law_each_figure_counted_once(command: Command, s: TaskSummary, task: Seq<char>, r: Seq<ItemIncrement>)
    requires
        item_source(command) is Some,
        increments_match(
            r,
            task,
            item_source(command)->Some_0.0,
            item_source(command)->Some_0.1,
            nonzero(item_counts(item_source(command)->Some_0.0, item_source(command)->Some_0.2, s)),
        ),
    ensures
        ({
            let (provider, operation, entity) = item_source(command)->Some_0;
            let v = increment_view(r);
            &&& command is Modrinth ==> provider == "modrinth"@ && entity == "project"@
            &&& command is Curseforge ==> provider == "curseforge"@ && entity == "mod"@
            &&& counted_once(v, entity, "attempted"@, s.total as int)
            &&& counted_once(v, entity, "synced"@, s.synced as int)
            &&& counted_once(v, entity, "not_found"@, s.not_found as int)
            &&& counted_once(v, entity, "skipped"@, s.skipped as int)
            &&& counted_once(v, entity, "failed"@, s.failed as int)
            &&& counted_once(v, entity, "requeued"@, s.requeued as int)
            &&& counted_once(v, entity, "discovered"@, s.discovered as int)
            &&& counted_once(v, entity, "removed"@, s.removed as int)
            &&& counted_once(v, "version"@, "synced"@, if command is Modrinth { s.versions as int } else { 0 })
            &&& counted_once(v, "file"@, "synced"@, s.files as int)
            &&& forall|k: int| 0 <= k < v.len() ==> #[trigger] v[k].0 == entity || v[k].0 == "version"@ || v[k].0 == "file"@
        }),
{
    let (provider, operation, entity) = item_source(command)->Some_0;
    let items = item_counts(provider, entity, s);
    let v = increment_view(r);
    assert(v =~= nonzero(items));
    reveal_strlit("modrinth");
    reveal_strlit("curseforge");
    reveal_strlit("project");
    reveal_strlit("mod");
    reveal_strlit("version");
    reveal_strlit("file");
    reveal_strlit("attempted");
    reveal_strlit("synced");
    reveal_strlit("not_found");
    reveal_strlit("skipped");
    reveal_strlit("failed");
    reveal_strlit("requeued");
    reveal_strlit("discovered");
    reveal_strlit("removed");
    assert(entity == "project"@ || entity == "mod"@);
    assert(entity != "version"@ && entity != "file"@) by {
        assert("project"@[0] != "version"@[0] && "project"@[0] != "file"@[0]);
        assert("mod"@.len() != "version"@.len() && "mod"@.len() != "file"@.len());
    }
    assert("version"@ != "file"@) by {
        assert("version"@.len() != "file"@.len());
    }
    let results = seq!["attempted"@, "synced"@, "not_found"@, "skipped"@, "failed"@, "requeued"@, "discovered"@, "removed"@];
    assert forall|i: int, j: int| 0 <= i < j < 8 implies results[i] != results[j] by {
        assert(results[i][0] != results[j][0] || results[i].len() != results[j].len() || results[i][1] != results[j][1]);
    }
    let modrinth = provider == "modrinth"@;
    assert(modrinth <==> command is Modrinth) by {
        assert("modrinth"@[0] != "curseforge"@[0]);
    }
    assert(labels_distinct(items)) by {
        assert forall|i: int, j: int| 0 <= i < j < items.len() implies !labelled(#[trigger] items[i], (#[trigger] items[j]).0, items[j].1) by {
            if j < 8 {
                assert(items[i].1 == results[i] && items[j].1 == results[j]);
            }
        }
    }
    lemma_nonzero_from(items);
    let last = items.len() - 1;
    assert(items[0] == (entity, "attempted"@, s.total as int));
    lemma_nonzero_counted(items, 0);
    lemma_nonzero_counted(items, 1);
    lemma_nonzero_counted(items, 2);
    lemma_nonzero_counted(items, 3);
    lemma_nonzero_counted(items, 4);
    lemma_nonzero_counted(items, 5);
    lemma_nonzero_counted(items, 6);
    lemma_nonzero_counted(items, 7);
    lemma_nonzero_counted(items, last);
    if modrinth {
        lemma_nonzero_counted(items, 8);
    } else {
        assert forall|k: int| 0 <= k < v.len() implies !labelled(#[trigger] v[k], "version"@, "synced"@) by {
            assert(items.contains(v[k]));
        }
    }
    assert forall|k: int| 0 <= k < v.len() implies #[trigger] v[k].0 == entity || v[k].0 == "version"@ || v[k].0 == "file"@ by {
        assert(items.contains(v[k]));
    }
}

/// The `last_result` gauges of a task: 1 for the result it had, 0 for the others.
pub fn last_result_values(result: &str) -> (r: Vec<(&'static str, i64)>)
    ensures
        r@.len() == 3,
        r@[0].0@ == "success"@ && r@[0].1 == (if result@ == "success"@ { 1i64 } else { 0i64 }),
        r@[1].0@ == "partial_failure"@ && r@[1].1 == (if result@ == "partial_failure"@ { 1i64 } else { 0i64 }),
        r@[2].0@ == "error"@ && r@[2].1 == (if result@ == "error"@ { 1i64 } else { 0i64 }),
{
    let given = String::from_str(result);
    let mut r: Vec<(&'static str, i64)> = Vec::new();
    let known = String::from_str("success");
    r.push(("success", if known == given { 1 } else { 0 }));
    let known = String::from_str("partial_failure");
    r.push(("partial_failure", if known == given { 1 } else { 0 }));
    let known = String::from_str("error");
    r.push(("error", if known == given { 1 } else { 0 }));
    r
}

/// `value` KiB in bytes, saturating at `u64::MAX`.
pub fn kib_to_bytes(value: u64) -> (r: u64)
    ensures
        r == (if value * 1024 > u64::MAX { u64::MAX as int } else { value * 1024 }),
{
    if value > u64::MAX / 1024 {
        u64::MAX
    } else {
        value * 1024
    }
}

/// The process figures of `/proc/self/status`, in KiB.
#[derive(Debug, Clone, Copy, Default, PartialEq, Eq, Structural)]
pub struct ProcStatus {
    pub rss_kb: Option<u64>,
    pub vmsize_kb: Option<u64>,
    pub hwm_kb: Option<u64>,
}

/// The name of a status line: what comes before its first colon.
pub open spec fn key_of(line: Seq<char>) -> Seq<char>
    decreases line.len(),
{
    if line.len() == 0 || line[0] == ':' {
        Seq::empty()
    } else {
        seq![line[0]] + key_of(line.drop_first())
    }
}

/// The number a status line carries: its second word, read as a `u64`.
pub open spec fn value_of(line: Seq<char>) -> Option<u64> {
    let w = words(line);
    if w.len() >= 2 {
        match parse_unsigned(w[1], u64::MAX as int) {
            Some(v) => Some(v as u64),
            None => None,
        }
    } else {
        None
    }
}

/// The figures after reading `ls` in order: each VmRSS, VmSize or VmHWM
/// line sets its figure, the last such line winning, even when its number
/// does not read.
pub open spec fn proc_fold(ls: Seq<Seq<char>>) -> ProcStatus
    decreases ls.len(),
{
    if ls.len() == 0 {
        ProcStatus { rss_kb: None, vmsize_kb: None, hwm_kb: None }
    } else {
        let p = proc_fold(ls.drop_last());
        let line = ls.last();
        let key = key_of(line);
        if key == "VmRSS"@ {
            ProcStatus { rss_kb: value_of(line), ..p }
        } else if key == "VmSize"@ {
            ProcStatus { vmsize_kb: value_of(line), ..p }
        } else if key == "VmHWM"@ {
            ProcStatus { hwm_kb: value_of(line), ..p }
        } else {
            p
        }
    }
}

/// Each figure read from the status text is the number on the last line
/// named for it (`VmRSS`, `VmSize`, `VmHWM`), and none when no line is.
pub proof fn law_status_figures_come_from_their_last_line(ls: Seq<Seq<char>>)
    ensures
        (forall|k: int| 0 <= k < ls.len() ==> key_of(#[trigger] ls[k]) != "VmRSS"@) ==> proc_fold(ls).rss_kb is None,
        (exists|k: int| 0 <= k < ls.len() && key_of(#[trigger] ls[k]) == "VmRSS"@) ==> exists|k: int|
            0 <= k < ls.len() && key_of(#[trigger] ls[k]) == "VmRSS"@ && proc_fold(ls).rss_kb == value_of(ls[k])
                && forall|j: int| k < j < ls.len() ==> key_of(#[trigger] ls[j]) != "VmRSS"@,
        (forall|k: int| 0 <= k < ls.len() ==> key_of(#[trigger] ls[k]) != "VmSize"@) ==> proc_fold(ls).vmsize_kb is None,
        (exists|k: int| 0 <= k < ls.len() && key_of(#[trigger] ls[k]) == "VmSize"@) ==> exists|k: int|
            0 <= k < ls.len() && key_of(#[trigger] ls[k]) == "VmSize"@ && proc_fold(ls).vmsize_kb == value_of(ls[k])
                && forall|j: int| k < j < ls.len() ==> key_of(#[trigger] ls[j]) != "VmSize"@,
        (forall|k: int| 0 <= k < ls.len() ==> key_of(#[trigger] ls[k]) != "VmHWM"@) ==> proc_fold(ls).hwm_kb is None,
        (exists|k: int| 0 <= k < ls.len() && key_of(#[trigger] ls[k]) == "VmHWM"@) ==> exists|k: int|
            0 <= k < ls.len() && key_of(#[trigger] ls[k]) == "VmHWM"@ && proc_fold(ls).hwm_kb == value_of(ls[k])
                && forall|j: int| k < j < ls.len() ==> key_of(#[trigger] ls[j]) != "VmHWM"@,
    decreases ls.len(),
{
    reveal_strlit("VmRSS");
    reveal_strlit("VmSize");
    reveal_strlit("VmHWM");
    assert("VmRSS"@ != "VmSize"@ && "VmRSS"@ != "VmHWM"@ && "VmSize"@ != "VmHWM"@) by {
        assert("VmRSS"@[2] != "VmSize"@[2] && "VmRSS"@[2] != "VmHWM"@[2] && "VmSize"@[2] != "VmHWM"@[2]);
    }
    if ls.len() > 0 {
        let d = ls.drop_last();
        let n = ls.len() - 1;
        law_status_figures_come_from_their_last_line(d);
        assert(ls[n] == ls.last());
        if exists|k: int| 0 <= k < d.len() && key_of(#[trigger] d[k]) == "VmRSS"@ {
            let k = choose|k: int|
                0 <= k < d.len() && key_of(#[trigger] d[k]) == "VmRSS"@ && proc_fold(d).rss_kb == value_of(d[k])
                    && forall|j: int| k < j < d.len() ==> key_of(#[trigger] d[j]) != "VmRSS"@;
            assert(ls[k] == d[k]);
            if key_of(ls[n]) != "VmRSS"@ {
                assert forall|j: int| k < j < ls.len() implies key_of(#[trigger] ls[j]) != "VmRSS"@ by {
                    if j < n {
                        assert(ls[j] == d[j]);
                    }
                }
            }
        }
        assert forall|k: int| 0 <= k < ls.len() && key_of(#[trigger] ls[k]) == "VmRSS"@ && k < n implies
            key_of(d[k]) == "VmRSS"@ by {
            assert(ls[k] == d[k]);
        }
        if exists|k: int| 0 <= k < d.len() && key_of(#[trigger] d[k]) == "VmSize"@ {
            let k = choose|k: int|
                0 <= k < d.len() && key_of(#[trigger] d[k]) == "VmSize"@ && proc_fold(d).vmsize_kb == value_of(d[k])
                    && forall|j: int| k < j < d.len() ==> key_of(#[trigger] d[j]) != "VmSize"@;
            assert(ls[k] == d[k]);
            if key_of(ls[n]) != "VmSize"@ {
                assert forall|j: int| k < j < ls.len() implies key_of(#[trigger] ls[j]) != "VmSize"@ by {
                    if j < n {
                        assert(ls[j] == d[j]);
                    }
                }
            }
        }
        assert forall|k: int| 0 <= k < ls.len() && key_of(#[trigger] ls[k]) == "VmSize"@ && k < n implies
            key_of(d[k]) == "VmSize"@ by {
            assert(ls[k] == d[k]);
        }
        if exists|k: int| 0 <= k < d.len() && key_of(#[trigger] d[k]) == "VmHWM"@ {
            let k = choose|k: int|
                0 <= k < d.len() && key_of(#[trigger] d[k]) == "VmHWM"@ && proc_fold(d).hwm_kb == value_of(d[k])
                    && forall|j: int| k < j < d.len() ==> key_of(#[trigger] d[j]) != "VmHWM"@;
            assert(ls[k] == d[k]);
            if key_of(ls[n]) != "VmHWM"@ {
                assert forall|j: int| k < j < ls.len() implies key_of(#[trigger] ls[j]) != "VmHWM"@ by {
                    if j < n {
                        assert(ls[j] == d[j]);
                    }
                }
            }
        }
        assert forall|k: int| 0 <= k < ls.len() && key_of(#[trigger] ls[k]) == "VmHWM"@ && k < n implies
            key_of(d[k]) == "VmHWM"@ by {
            assert(ls[k] == d[k]);
        }
    }
}

fn line_key(line: &Vec<char>) -> (k: Vec<char>)
    ensures
        k@ == key_of(line@),
{
    let mut k: Vec<char> = Vec::new();
    let mut i: usize = 0;
    assert(line@.skip(0) =~= line@);
    assert(k@ + key_of(line@) =~= key_of(line@));
    while i < line.len() && line[i] != ':'
        invariant
            i <= line.len(),
            forall|j: int| 0 <= j < i ==> line@[j] != ':',
            key_of(line@) == k@ + key_of(line@.skip(i as int)),
        decreases line.len() - i,
    {
        assert(line@.skip(i as int).drop_first() =~= line@.skip(i + 1));
        assert(k@.push(line[i as int]) =~= k@ + seq![line@[i as int]]);
        k.push(line[i]);
        i = i + 1;
    }
    proof {
        if i == line.len() {
            assert(line@.skip(i as int) =~= Seq::<char>::empty());
        }
        assert(k@ + key_of(line@.skip(i as int)) =~= k@);
    }
    k
}

fn line_value(line: &Vec<char>) -> (v: Option<u64>)
    ensures
        v == value_of(line@),
{
    let w = split_words(line);
    if w.len() >= 2 {
        let text = string_of(&w[1]);
        parse_u64(text.as_str())
    } else {
        None
    }
}

/// Reads the memory figures out of `/proc/self/status`.
pub fn parse_proc_status(status: &str) -> (r: ProcStatus)
    ensures
        r == proc_fold(lines(status@)),
{
    let chars = chars_of(status);
    let ls = split_lines(&chars);
    let mut r = ProcStatus { rss_kb: None, vmsize_kb: None, hwm_kb: None };
    let mut i: usize = 0;
    while i < ls.len()
        invariant
            i <= ls.len(),
            ls@.len() == lines(status@).len(),
            forall|k: int| 0 <= k < ls@.len() ==> #[trigger] ls@[k]@ == lines(status@)[k],
            r == proc_fold(lines(status@).take(i as int)),
        decreases ls.len() - i,
    {
        let line = &ls[i];
        assert(lines(status@).take(i + 1).drop_last() =~= lines(status@).take(i as int));
        assert(lines(status@).take(i + 1).last() == line@);
        let key = line_key(line);
        if chars_eq(&key, "VmRSS") {
            r.rss_kb = line_value(line);
        } else if chars_eq(&key, "VmSize") {
            r.vmsize_kb = line_value(line);
        } else if chars_eq(&key, "VmHWM") {
            r.hwm_kb = line_value(line);
        }
        i = i + 1;
    }
    assert(lines(status@).take(i as int) =~= lines(status@));
    r
}

/// `s` without whitespace at either end, as `str::trim` gives it.
pub open spec fn trim_start(s: Seq<char>) -> Seq<char>
    decreases s.len(),
{
    if s.len() > 0 && is_whitespace(s[0]) {
        trim_start(s.drop_first())
    } else {
        s
    }
}

pub open spec fn trim_end(s: Seq<char>) -> Seq<char>
    decreases s.len(),
{
    if s.len() > 0 && is_whitespace(s.last()) {
        trim_end(s.drop_last())
    } else {
        s
    }
}

pub open spec fn trimmed(s: Seq<char>) -> Seq<char> {
    trim_end(trim_start(s))
}

pub fn trim(s: &str) -> (r: String)
    ensures
        r@ == trimmed(s@),
{
    let chars = chars_of(s);
    let mut start: usize = 0;
    assert(chars@.skip(0) =~= chars@);
    while start < chars.len() && char_is_whitespace(chars[start])
        invariant
            start <= chars.len(),
            chars@ == s@,
            trim_start(s@) == trim_start(chars@.skip(start as int)),
        decreases chars.len() - start,
    {
        assert(chars@.skip(start as int).drop_first() =~= chars@.skip(start + 1));
        start = start + 1;
    }
    let mut rest: Vec<char> = Vec::new();
    let mut i: usize = start;
    while i < chars.len()
        invariant
            start <= i <= chars.len(),
            rest@ == chars@.subrange(start as int, i as int),
        decreases chars.len() - i,
    {
        rest.push(chars[i]);
        assert(chars@.subrange(start as int, i + 1) =~= chars@.subrange(start as int, i as int).push(chars@[i as int]));
        i = i + 1;
    }
    assert(rest@ =~= chars@.skip(start as int));
    assert(trim_start(s@) == rest@);
    while rest.len() > 0 && char_is_whitespace(rest[rest.len() - 1])
        invariant
            trim_end(trim_start(s@)) == trim_end(rest@),
        decreases rest.len(),
    {
        let ghost before = rest@;
        rest.pop();
        assert(rest@ =~= before.drop_last());
    }
    string_of(&rest)
}

/// A cgroup memory file's figure; `max` means no limit.
pub fn parse_memory_value(text: &str) -> (r: Option<u64>)
    ensures
        trimmed(text@) == "max"@ ==> r is None,
        trimmed(text@) != "max"@ ==> match r {
            Some(v) => parse_unsigned(trimmed(text@), u64::MAX as int) == Some(v as int),
            None => parse_unsigned(trimmed(text@), u64::MAX as int) is None,
        },
{
    let value = trim(text);
    let chars = chars_of(value.as_str());
    if chars_eq(&chars, "max") {
        None
    } else {
        parse_u64(value.as_str())
    }
}

/// Trimming drops exactly the whitespace at both ends: what is left is a
/// stretch of the text, neither starting nor ending with whitespace, and
/// only whitespace lies before and after it.
pub proof fn law_trim_drops_only_outer_whitespace(s: Seq<char>)
    ensures
        exists|a: int, b: int|
            #![trigger s.subrange(a, b)]
            0 <= a <= b <= s.len() && trimmed(s) == s.subrange(a, b) && (forall|i: int| 0 <= i < a ==> is_whitespace(
                #[trigger] s[i],
            )) && (forall|i: int| b <= i < s.len() ==> is_whitespace(#[trigger] s[i])),
        trimmed(s).len() > 0 ==> !is_whitespace(trimmed(s)[0]) && !is_whitespace(trimmed(s).last()),
{
    lemma_trim_start_shape(s);
    let a = s.len() - trim_start(s).len();
    let t = trim_start(s);
    lemma_trim_end_shape(t);
    let b = a + trim_end(t).len();
    assert(t =~= s.skip(a));
    assert(trim_end(t) =~= t.take(trim_end(t).len() as int));
    assert(trimmed(s) =~= s.subrange(a, b));
    assert forall|i: int| b <= i < s.len() implies is_whitespace(#[trigger] s[i]) by {
        assert(t[i - a] == s[i]);
    }
    if trimmed(s).len() > 0 {
        assert(trimmed(s)[0] == t[0]);
    }
}

proof fn lemma_trim_start_shape(s: Seq<char>)
    ensures
        trim_start(s).len() <= s.len(),
        trim_start(s) == s.skip(s.len() - trim_start(s).len()),
        forall|i: int| 0 <= i < s.len() - trim_start(s).len() ==> is_whitespace(#[trigger] s[i]),
        trim_start(s).len() > 0 ==> !is_whitespace(trim_start(s)[0]),
    decreases s.len(),
{
    if s.len() > 0 && is_whitespace(s[0]) {
        let d = s.drop_first();
        lemma_trim_start_shape(d);
        assert(d.skip(d.len() - trim_start(d).len()) =~= s.skip(s.len() - trim_start(s).len()));
        assert forall|i: int| 0 <= i < s.len() - trim_start(s).len() implies is_whitespace(#[trigger] s[i]) by {
            if i > 0 {
                assert(d[i - 1] == s[i]);
            }
        }
    } else {
        assert(s.skip(0) =~= s);
    }
}

proof fn lemma_trim_end_shape(s: Seq<char>)
    ensures
        trim_end(s) == s.take(trim_end(s).len() as int),
        trim_end(s).len() <= s.len(),
        forall|i: int| trim_end(s).len() <= i < s.len() ==> is_whitespace(#[trigger] s[i]),
        trim_end(s).len() > 0 ==> !is_whitespace(trim_end(s).last()),
        trim_end(s).len() > 0 && s.len() > 0 ==> trim_end(s)[0] == s[0],
    decreases s.len(),
{
    if s.len() > 0 && is_whitespace(s.last()) {
        let d = s.drop_last();
        lemma_trim_end_shape(d);
        assert(d.take(trim_end(d).len() as int) =~= s.take(trim_end(s).len() as int));
        assert forall|i: int| trim_end(s).len() <= i < s.len() implies is_whitespace(#[trigger] s[i]) by {
            if i < d.len() {
                assert(d[i] == s[i]);
            }
        }
    } else {
        assert(s.take(s.len() as int) =~= s);
    }
}

} // verus!
