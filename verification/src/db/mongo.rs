//! What the cache database is asked for that is this program's own: the
//! indexes it keeps, the freshness figures, and when a refresh is refused.

use vstd::prelude::*;
use crate::error::{Error, Result};
use crate::models::collection::{
    CURSEFORGE_CATEGORIES, CURSEFORGE_FILES, CURSEFORGE_MODS, MODRINTH_FILES, MODRINTH_PROJECTS,
    MODRINTH_VERSIONS, TASK_RUNS,
};
use crate::text::{format_i32, signed_decimal};

verus! {

pub const HOUR_MS: i64 = 3_600_000;

pub const DAY_MS: i64 = 86_400_000;

/// How many entries were checked within the last 2 hours, 24 hours and 7 days.
#[derive(Debug, Clone, Copy, PartialEq, Eq, Structural)]
pub struct CheckedWithin {
    pub h2: u64,
    pub h24: u64,
    pub d7: u64,
}

/// The freshness of one collection; times are milliseconds since the epoch.
#[derive(Debug, Clone, Copy, PartialEq, Eq, Structural)]
pub struct FreshnessCollection {
    pub total: u64,
    pub checked_within: CheckedWithin,
    pub never_checked: u64,
    pub oldest_checked_at: Option<i64>,
    pub newest_sync_at: Option<i64>,
}

/// Where the three freshness windows start.
#[derive(Debug, Clone, Copy, PartialEq, Eq, Structural)]
pub struct FreshnessWindows {
    pub h2: i64,
    pub h24: i64,
    pub d7: i64,
}

/// The starts of the windows that end at `now`: 2 hours, 24 hours and
/// 7 days before it.
pub fn freshness_windows(now: i64) -> (w: FreshnessWindows)
    requires
        now - 7 * DAY_MS >= i64::MIN,
    ensures
        w.h2 == now - 2 * HOUR_MS,
        w.h24 == now - 24 * HOUR_MS,
        w.d7 == now - 7 * DAY_MS,
        w.d7 < w.h24 < w.h2 < now,
{
    FreshnessWindows { h2: now - 2 * HOUR_MS, h24: now - 24 * HOUR_MS, d7: now - 7 * DAY_MS }
}

/// The figures of one collection from its counts. The total is the
/// database's estimate and may lag behind the exact count of checked
/// entries, so those never checked are what it has beyond them, and never
/// fewer than none.
pub fn freshness_collection(
    total: u64,
    checked: CheckedWithin,
    checked_total: u64,
    oldest_checked_at: Option<i64>,
    newest_sync_at: Option<i64>,
) -> (f: FreshnessCollection)
    ensures
        f.total == total,
        f.checked_within == checked,
        f.never_checked == (if total >= checked_total { total - checked_total } else { 0 }),
        f.oldest_checked_at == oldest_checked_at,
        f.newest_sync_at == newest_sync_at,
{
    FreshnessCollection {
        total,
        checked_within: checked,
        never_checked: total.saturating_sub(checked_total),
        oldest_checked_at,
        newest_sync_at,
    }
}

/// An index the database keeps: its collection, its keys with their
/// direction (1 ascending, -1 descending), and its name.
#[derive(Debug, Clone)]
pub struct IndexSpec {
    pub collection: &'static str,
    pub keys: Vec<(&'static str, i32)>,
    pub name: String,
}

pub open spec fn keys_view(keys: Seq<(&'static str, i32)>) -> Seq<(Seq<char>, i32)> {
    keys.map_values(|k: (&'static str, i32)| (k.0@, k.1))
}

/// MongoDB's own name for an index on `keys`: each field followed by its
/// direction, all joined by `_`, such as `task_1_started_at_-1`.
pub open spec fn index_name_spec(keys: Seq<(Seq<char>, i32)>) -> Seq<char>
    decreases keys.len(),
{
    if keys.len() == 0 {
        Seq::empty()
    } else {
        let part = keys.last().0 + "_"@ + signed_decimal(keys.last().1 as int);
        if keys.len() == 1 {
            part
        } else {
            index_name_spec(keys.drop_last()) + "_"@ + part
        }
    }
}

fn index_name(keys: &Vec<(&'static str, i32)>) -> (name: String)
    ensures
        name@ == index_name_spec(keys_view(keys@)),
{
    let mut name = String::new();
    let mut i: usize = 0;
    while i < keys.len()
        invariant
            i <= keys.len(),
            name@ == index_name_spec(keys_view(keys@.take(i as int))),
        decreases keys.len() - i,
    {
        let (field, direction) = keys[i];
        assert(keys_view(keys@.take(i + 1)).drop_last() =~= keys_view(keys@.take(i as int)));
        assert(keys_view(keys@.take(i + 1)).last() == (field@, direction));
        if i > 0 {
            name = name.concat("_");
        }
        name = name.concat(field);
        name = name.concat("_");
        let d = format_i32(direction);
        name = name.concat(d.as_str());
        proof {
            reveal_strlit("_");
            if i == 0 {
                assert(name@ =~= field@ + "_"@ + signed_decimal(direction as int));
            }
        }
        i = i + 1;
    }
    assert(keys@.take(i as int) =~= keys@);
    name
}

fn index(collection: &'static str, keys: Vec<(&'static str, i32)>) -> (spec: IndexSpec)
    ensures
        spec.collection == collection,
        spec.keys@ == keys@,
        spec.name@ == index_name_spec(keys_view(keys@)),
{
    let name = index_name(&keys);
    IndexSpec { collection, keys, name }
}

/// The indexes, in the order they are made ready: each collection and the
/// keys of each of its indexes.
pub open spec fn index_plan_spec() -> Seq<(Seq<char>, Seq<(Seq<char>, i32)>)> {
    seq![
        (CURSEFORGE_FILES@, seq![("modId"@, 1i32)]),
        (CURSEFORGE_FILES@, seq![("fileFingerprint"@, 1i32)]),
        (CURSEFORGE_CATEGORIES@, seq![("gameId"@, 1i32)]),
        (MODRINTH_PROJECTS@, seq![("slug"@, 1i32)]),
        (MODRINTH_VERSIONS@, seq![("project_id"@, 1i32)]),
        (CURSEFORGE_MODS@, seq![("checked_at"@, 1i32)]),
        (MODRINTH_PROJECTS@, seq![("checked_at"@, 1i32)]),
        (CURSEFORGE_MODS@, seq![("sync_at"@, 1i32)]),
        (MODRINTH_PROJECTS@, seq![("sync_at"@, 1i32)]),
        (MODRINTH_FILES@, seq![("_id.sha1"@, 1i32)]),
        (MODRINTH_FILES@, seq![("_id.sha512"@, 1i32)]),
        (MODRINTH_FILES@, seq![("version_id"@, 1i32)]),
        (MODRINTH_FILES@, seq![("project_id"@, 1i32)]),
        (MODRINTH_FILES@, seq![("project_id"@, 1i32), ("version_id"@, 1i32), ("filename"@, 1i32)]),
        (TASK_RUNS@, seq![("task"@, 1i32), ("started_at"@, -1i32)]),
        (TASK_RUNS@, seq![("status"@, 1i32), ("started_at"@, -1i32)]),
    ]
}

pub open spec fn plan_view(plan: Seq<IndexSpec>) -> Seq<(Seq<char>, Seq<(Seq<char>, i32)>)> {
    plan.map_values(|s: IndexSpec| (s.collection@, keys_view(s.keys@)))
}

/// The indexes this program keeps, each named by MongoDB's own rule for
/// its keys, so that making them ready again finds them already there.
pub fn index_plan() -> (plan: Vec<IndexSpec>)
    ensures
        plan_view(plan@) == index_plan_spec(),
        forall|k: int| 0 <= k < plan@.len() ==> (#[trigger] plan@[k]).name@ == index_name_spec(keys_view(plan@[k].keys@)),
{
    let plan = vec![
        index(CURSEFORGE_FILES, vec![("modId", 1)]),
        index(CURSEFORGE_FILES, vec![("fileFingerprint", 1)]),
        index(CURSEFORGE_CATEGORIES, vec![("gameId", 1)]),
        index(MODRINTH_PROJECTS, vec![("slug", 1)]),
        index(MODRINTH_VERSIONS, vec![("project_id", 1)]),
        index(CURSEFORGE_MODS, vec![("checked_at", 1)]),
        index(MODRINTH_PROJECTS, vec![("checked_at", 1)]),
        index(CURSEFORGE_MODS, vec![("sync_at", 1)]),
        index(MODRINTH_PROJECTS, vec![("sync_at", 1)]),
        index(MODRINTH_FILES, vec![("_id.sha1", 1)]),
        index(MODRINTH_FILES, vec![("_id.sha512", 1)]),
        index(MODRINTH_FILES, vec![("version_id", 1)]),
        index(MODRINTH_FILES, vec![("project_id", 1)]),
        index(MODRINTH_FILES, vec![("project_id", 1), ("version_id", 1), ("filename", 1)]),
        index(TASK_RUNS, vec![("task", 1), ("started_at", -1)]),
        index(TASK_RUNS, vec![("status", 1), ("started_at", -1)]),
    ];
    assert(plan_view(plan@) =~~= index_plan_spec());
    plan
}

/// How a ready index is reported: `collection.name`.
pub fn index_label(collection: &str, name: &str) -> (label: String)
    ensures
        label@ == collection@ + "."@ + name@,
{
    let label = String::from_str(collection);
    let label = label.concat(".");
    proof {
        reveal_strlit(".");
    }
    label.concat(name)
}

/// A dictionary collection is refreshed by writing the new entries before
/// dropping the old ones; with nothing new the refresh is refused, since
/// it would leave readers an empty table.
pub fn check_refresh(name: &str, count: usize) -> (r: Result<()>)
    ensures
        r is Ok <==> count > 0,
        r matches Err(e) ==> e is Config,
{
    if count == 0 {
        let message = String::from_str(name);
        Err(Error::Config(message.concat(" 的新数据为空，拒绝刷新")))
    } else {
        Ok(())
    }
}

} // verus!
