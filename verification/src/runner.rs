//! What a command runs, what its run is recorded as, and how the process
//! exits: the decisions around one run of a task.

use vstd::prelude::*;
use crate::cli::{game_ids, Command, CurseforgeTask, ModrinthTask};
use crate::error::{Error, Result};
use crate::models::task_run::{ERROR, PARTIAL_FAILURE, SUCCESS};
use crate::task::{combined, merged, TaskSummary};

verus! {

/// Exit code of a run that finished with some entries not synced.
pub const EXIT_COMPLETED_WITH_FAILURES: u8 = 1;

/// Exit code of a run that failed as a whole.
pub const EXIT_ERROR: u8 = 2;

/// The name a command's runs are recorded under.
pub open spec fn command_name_spec(command: Command) -> Seq<char> {
    match command {
        Command::Curseforge(CurseforgeTask::Queue) => "curseforge-queue"@,
        Command::Curseforge(CurseforgeTask::Refresh) => "curseforge-refresh"@,
        Command::Curseforge(CurseforgeTask::Search { .. }) => "curseforge-search"@,
        Command::Curseforge(CurseforgeTask::Categories { .. }) => "curseforge-categories"@,
        Command::Modrinth(ModrinthTask::Queue) => "modrinth-queue"@,
        Command::Modrinth(ModrinthTask::Refresh) => "modrinth-refresh"@,
        Command::Modrinth(ModrinthTask::RefreshFull) => "modrinth-refresh-full"@,
        Command::Modrinth(ModrinthTask::Search { .. }) => "modrinth-search"@,
        Command::Modrinth(ModrinthTask::Tags) => "modrinth-tags"@,
        Command::Indexes => "indexes"@,
        Command::Daemon => "daemon"@,
    }
}

pub fn command_name(command: &Command) -> (r: &'static str)
    ensures
        r@ == command_name_spec(*command),
{
    match command {
        Command::Curseforge(CurseforgeTask::Queue) => "curseforge-queue",
        Command::Curseforge(CurseforgeTask::Refresh) => "curseforge-refresh",
        Command::Curseforge(CurseforgeTask::Search { .. }) => "curseforge-search",
        Command::Curseforge(CurseforgeTask::Categories { .. }) => "curseforge-categories",
        Command::Modrinth(ModrinthTask::Queue) => "modrinth-queue",
        Command::Modrinth(ModrinthTask::Refresh) => "modrinth-refresh",
        Command::Modrinth(ModrinthTask::RefreshFull) => "modrinth-refresh-full",
        Command::Modrinth(ModrinthTask::Search { .. }) => "modrinth-search",
        Command::Modrinth(ModrinthTask::Tags) => "modrinth-tags",
        Command::Indexes => "indexes",
        Command::Daemon => "daemon",
    }
}

/// One unit of work of a command; a command over several games runs one
/// step per game and adds their summaries up.
#[derive(Debug, Clone, Copy, PartialEq, Eq, Structural)]
pub enum Step {
    CurseforgeQueue,
    CurseforgeRefresh,
    CurseforgeSearch { game_id: i32, max_pages: i64, full: bool },
    CurseforgeCategories { game_id: i32 },
    Indexes,
    ModrinthQueue,
    ModrinthRefresh,
    ModrinthRefreshFull,
    ModrinthSearch { max_pages: i64, full: bool },
    ModrinthTags,
}

/// The games a CurseForge task covers.
pub open spec fn games_spec(explicit: Option<i32>) -> Seq<i32> {
    match explicit {
        Some(g) => seq![g],
        None => seq![432i32, 78022i32],
    }
}

pub open spec fn search_steps(games: Seq<i32>, max_pages: i64, full: bool) -> Seq<Step> {
    games.map_values(|g: i32| Step::CurseforgeSearch { game_id: g, max_pages, full })
}

pub open spec fn category_steps(games: Seq<i32>) -> Seq<Step> {
    games.map_values(|g: i32| Step::CurseforgeCategories { game_id: g })
}

/// The steps a command runs, in order; the daemon is no task and runs none.
pub open spec fn steps_spec(command: Command) -> Option<Seq<Step>> {
    match command {
        Command::Curseforge(CurseforgeTask::Queue) => Some(seq![Step::CurseforgeQueue]),
        Command::Curseforge(CurseforgeTask::Refresh) => Some(seq![Step::CurseforgeRefresh]),
        Command::Curseforge(CurseforgeTask::Search { game_id, max_pages, full }) =>
            Some(search_steps(games_spec(game_id), max_pages, full)),
        Command::Curseforge(CurseforgeTask::Categories { game_id }) =>
            Some(category_steps(games_spec(game_id))),
        Command::Indexes => Some(seq![Step::Indexes]),
        Command::Modrinth(ModrinthTask::Queue) => Some(seq![Step::ModrinthQueue]),
        Command::Modrinth(ModrinthTask::Refresh) => Some(seq![Step::ModrinthRefresh]),
        Command::Modrinth(ModrinthTask::RefreshFull) => Some(seq![Step::ModrinthRefreshFull]),
        Command::Modrinth(ModrinthTask::Search { max_pages, full }) =>
            Some(seq![Step::ModrinthSearch { max_pages, full }]),
        Command::Modrinth(ModrinthTask::Tags) => Some(seq![Step::ModrinthTags]),
        Command::Daemon => None,
    }
}

fn one(step: Step) -> (v: Vec<Step>)
    ensures
        v@ == seq![step],
{
    let v = vec![step];
    assert(v@ =~= seq![step]);
    v
}

/// The steps of `command`; asking the daemon to run as a task is a
/// configuration error.
pub fn steps(command: &Command) -> (r: Result<Vec<Step>>)
    ensures
        match steps_spec(*command) {
            Some(s) => r matches Ok(v) && v@ == s,
            None => r matches Err(e) && e is Config,
        },
{
    match command {
        Command::Curseforge(CurseforgeTask::Queue) => Ok(one(Step::CurseforgeQueue)),
        Command::Curseforge(CurseforgeTask::Refresh) => Ok(one(Step::CurseforgeRefresh)),
        Command::Curseforge(CurseforgeTask::Search { game_id, max_pages, full }) => {
            let games = game_ids(*game_id);
            let mut v: Vec<Step> = Vec::new();
            let mut i: usize = 0;
            while i < games.len()
                invariant
                    i <= games@.len(),
                    v@ == search_steps(games@.take(i as int), *max_pages, *full),
                decreases games.len() - i,
            {
                v.push(Step::CurseforgeSearch { game_id: games[i], max_pages: *max_pages, full: *full });
                assert(search_steps(games@.take(i + 1), *max_pages, *full) =~= search_steps(
                    games@.take(i as int),
                    *max_pages,
                    *full,
                ).push(Step::CurseforgeSearch { game_id: games@[i as int], max_pages: *max_pages, full: *full }));
                i = i + 1;
            }
            assert(games@.take(i as int) =~= games@);
            Ok(v)
        },
        Command::Curseforge(CurseforgeTask::Categories { game_id }) => {
            let games = game_ids(*game_id);
            let mut v: Vec<Step> = Vec::new();
            let mut i: usize = 0;
            while i < games.len()
                invariant
                    i <= games@.len(),
                    v@ == category_steps(games@.take(i as int)),
                decreases games.len() - i,
            {
                v.push(Step::CurseforgeCategories { game_id: games[i] });
                assert(category_steps(games@.take(i + 1)) =~= category_steps(games@.take(i as int)).push(
                    Step::CurseforgeCategories { game_id: games@[i as int] },
                ));
                i = i + 1;
            }
            assert(games@.take(i as int) =~= games@);
            Ok(v)
        },
        Command::Indexes => Ok(one(Step::Indexes)),
        Command::Modrinth(ModrinthTask::Queue) => Ok(one(Step::ModrinthQueue)),
        Command::Modrinth(ModrinthTask::Refresh) => Ok(one(Step::ModrinthRefresh)),
        Command::Modrinth(ModrinthTask::RefreshFull) => Ok(one(Step::ModrinthRefreshFull)),
        Command::Modrinth(ModrinthTask::Search { max_pages, full }) => Ok(
            one(Step::ModrinthSearch { max_pages: *max_pages, full: *full }),
        ),
        Command::Modrinth(ModrinthTask::Tags) => Ok(one(Step::ModrinthTags)),
        Command::Daemon => Err(Error::Config(String::from_str("daemon 不是可执行的任务"))),
    }
}

/// What a finished run is recorded as.
pub open spec fn run_status_spec(result: Result<TaskSummary>) -> Seq<char> {
    match result {
        Ok(s) => if s.failed == 0 { SUCCESS@ } else { PARTIAL_FAILURE@ },
        Err(_) => ERROR@,
    }
}

pub fn run_status(result: &Result<TaskSummary>) -> (r: &'static str)
    ensures
        r@ == run_status_spec(*result),
{
    match result {
        Ok(summary) => if summary.is_clean() {
            SUCCESS
        } else {
            PARTIAL_FAILURE
        },
        Err(_) => ERROR,
    }
}

/// How a one-shot run ends: a clean run exits 0, a run with failed
/// entries 1, and a run that failed as a whole 2, so that an outside
/// supervisor can tell whether to retry.
pub open spec fn exit_code_spec(result: Result<TaskSummary>) -> u8 {
    match result {
        Ok(s) => if s.failed == 0 { 0 } else { EXIT_COMPLETED_WITH_FAILURES },
        Err(_) => EXIT_ERROR,
    }
}

pub fn exit_code(result: &Result<TaskSummary>) -> (code: u8)
    ensures
        code == exit_code_spec(*result),
{
    match result {
        Ok(summary) => if summary.is_clean() {
            0
        } else {
            EXIT_COMPLETED_WITH_FAILURES
        },
        Err(_) => EXIT_ERROR,
    }
}

/// The daemon never finishes a task; it only stops cleanly or with an error.
pub fn daemon_exit_code(result: &Result<()>) -> (code: u8)
    ensures
        code == (if result is Ok { 0u8 } else { EXIT_ERROR }),
{
    match result {
        Ok(()) => 0,
        Err(_) => EXIT_ERROR,
    }
}

/// The exit code and the recorded status tell the same story: 0 exactly
/// for a success, 1 for a partial failure, 2 for an error.
pub proof fn law_exit_code_matches_status(result: Result<TaskSummary>)
    ensures
        (exit_code_spec(result) == 0) <==> (run_status_spec(result) == SUCCESS@),
        (exit_code_spec(result) == EXIT_COMPLETED_WITH_FAILURES) <==> (run_status_spec(result)
            == PARTIAL_FAILURE@),
        (exit_code_spec(result) == EXIT_ERROR) <==> (run_status_spec(result) == ERROR@),
{
    reveal_strlit("success");
    reveal_strlit("partial_failure");
    reveal_strlit("error");
    assert(SUCCESS@.len() == 7 && PARTIAL_FAILURE@.len() == 15 && ERROR@.len() == 5);
}

/// What a run over the games comes to, given each game's result in the
/// order the games run: with no game named, both games run, 432 then
/// 78022, and the run is the first failure or the two counts added up field
/// by field; with a game named, that game alone runs and the run is its
/// result. A run stops at a failure, so the game after a failed one does
/// not change the result.
pub open spec fn games_result(game_id: Option<i32>, first: Result<TaskSummary>, second: Result<TaskSummary>) -> Result<TaskSummary> {
    match game_id {
        Some(_) => first,
        None => match first {
            Err(e) => Err(e),
            Ok(a) => match second {
                Err(e) => Err(e),
                Ok(b) => Ok(merged(a, b)),
            },
        },
    }
}

/// A CurseForge search or categories run is the sum of its per-game runs:
/// the steps are one per game, 432 then 78022 when no game is named, and
/// adding up their results (`combine`, as a run does) gives the first
/// failure or the field-by-field sum; a named game's run is that game's
/// result.
pub proof fn law_curseforge_run_is_the_sum_of_its_games(
    game_id: Option<i32>,
    max_pages: i64,
    full: bool,
    first: Result<TaskSummary>,
    second: Result<TaskSummary>,
)
    ensures
        steps_spec(Command::Curseforge(CurseforgeTask::Search { game_id, max_pages, full })) == Some(
            match game_id {
                Some(g) => seq![Step::CurseforgeSearch { game_id: g, max_pages, full }],
                None => seq![
                    Step::CurseforgeSearch { game_id: 432, max_pages, full },
                    Step::CurseforgeSearch { game_id: 78022, max_pages, full },
                ],
            },
        ),
        steps_spec(Command::Curseforge(CurseforgeTask::Categories { game_id })) == Some(
            match game_id {
                Some(g) => seq![Step::CurseforgeCategories { game_id: g }],
                None => seq![
                    Step::CurseforgeCategories { game_id: 432 },
                    Step::CurseforgeCategories { game_id: 78022 },
                ],
            },
        ),
        game_id is None ==> combined(seq![first, second]) == games_result(game_id, first, second),
        game_id is None && first is Err ==> combined(seq![first]) == games_result(game_id, first, second),
        game_id is Some ==> combined(seq![first]) == games_result(game_id, first, second),
{
    let one = seq![first];
    let two = seq![first, second];
    assert(one.drop_last() =~= Seq::<Result<TaskSummary>>::empty());
    assert(two.drop_last() =~= one);
    assert(combined(Seq::<Result<TaskSummary>>::empty()) == Ok::<TaskSummary, Error>(TaskSummary::zero()));
    assert(one.last() == first);
    assert(two.last() == second);
    if let Ok(a) = first {
        assert(merged(TaskSummary::zero(), a) == a);
        assert(combined(one) == Ok::<TaskSummary, Error>(a));
    } else {
        assert(combined(one) == first);
    }
    assert(search_steps(games_spec(game_id), max_pages, full) =~= match game_id {
        Some(g) => seq![Step::CurseforgeSearch { game_id: g, max_pages, full }],
        None => seq![
            Step::CurseforgeSearch { game_id: 432, max_pages, full },
            Step::CurseforgeSearch { game_id: 78022, max_pages, full },
        ],
    });
    assert(category_steps(games_spec(game_id)) =~= match game_id {
        Some(g) => seq![Step::CurseforgeCategories { game_id: g }],
        None => seq![
            Step::CurseforgeCategories { game_id: 432 },
            Step::CurseforgeCategories { game_id: 78022 },
        ],
    });
}

} // verus!
