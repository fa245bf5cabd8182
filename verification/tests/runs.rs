use mcim_rust_sync::cli::{game_ids, Command, CurseforgeTask, ModrinthTask};
use mcim_rust_sync::error::Error;
use mcim_rust_sync::metrics::{
    item_increments, kib_to_bytes, last_result_values, parse_memory_value, parse_proc_status,
    task_labels, task_result_labels, trim,
};
use mcim_rust_sync::models::task_run::{TaskRun, TaskRunStats, MAX_ERROR_CHARS};
use mcim_rust_sync::runner::{
    command_name, daemon_exit_code, exit_code, run_status, steps, Step,
    EXIT_COMPLETED_WITH_FAILURES, EXIT_ERROR,
};
use mcim_rust_sync::task::{stats, summarize, synced_summary, TaskSummary};
use mcim_rust_sync::sync::{Outcome, Report};

#[test]
fn parses_process_memory_fields() {
    let status = "VmSize: 123 kB\nVmRSS: 45 kB\nVmHWM: 67 kB\n";
    let parsed = parse_proc_status(status);
    assert_eq!(parsed.vmsize_kb, Some(123));
    assert_eq!(parsed.rss_kb, Some(45));
    assert_eq!(parsed.hwm_kb, Some(67));
}

#[test]
fn last_status_line_wins_even_when_unreadable() {
    let parsed = parse_proc_status("VmRSS: 45 kB\nName: sync\nVmRSS: lots kB\n");
    assert_eq!(parsed.rss_kb, None);
    assert_eq!(parsed.vmsize_kb, None);
}

#[test]
fn memory_figures_convert_and_read() {
    assert_eq!(kib_to_bytes(45), 46080);
    assert_eq!(kib_to_bytes(u64::MAX), u64::MAX);
    assert_eq!(parse_memory_value("max\n"), None);
    assert_eq!(parse_memory_value(" 1048576\n"), Some(1048576));
    assert_eq!(trim("  a b \n"), "a b");
}

fn fresh_id() -> [u8; 12] {
    bson::oid::ObjectId::new().bytes()
}

#[test]
fn indexes_are_not_recorded_as_sync_task_runs() {
    assert!(TaskRun::new(fresh_id(), "indexes", &Command::Indexes, 1_788_343_260_000, "0.1.0").is_none());
    assert!(TaskRun::new(fresh_id(), "daemon", &Command::Daemon, 1_788_343_260_000, "0.1.0").is_none());
}

#[test]
fn new_run_starts_running() {
    let command = Command::Modrinth(ModrinthTask::Refresh);
    let id = fresh_id();
    let run = TaskRun::new(id, "nightly-refresh", &command, 1_788_343_260_000, "0.1.0").expect("task run");
    assert_eq!(run.id, id);
    assert_eq!(run.task, "nightly-refresh");
    assert_eq!(run.provider, "modrinth");
    assert_eq!(run.operation, "refresh");
    assert_eq!(run.status, "running");
    assert_eq!(run.started_at, 1_788_343_260_000);
    assert_eq!(run.finished_at, None);
    assert_eq!(run.stats, TaskRunStats::default());
    let other = TaskRun::new(fresh_id(), "nightly-refresh", &command, 1_788_343_260_000, "0.1.0").expect("task run");
    assert_ne!(run.id, other.id);
}

#[test]
fn finished_run_keeps_a_clipped_error_and_a_non_negative_duration() {
    let command = Command::Curseforge(CurseforgeTask::Search { game_id: None, max_pages: 0, full: false });
    let mut run = TaskRun::new(fresh_id(), "curseforge-search", &command, 10_000, "0.1.0").expect("task run");
    assert_eq!(run.operation, "search");
    let long = "错".repeat(MAX_ERROR_CHARS + 10);
    run.finish("error", 9_000, TaskRunStats::default(), Some(&long));
    assert_eq!(run.status, "error");
    assert_eq!(run.finished_at, Some(9_000));
    assert_eq!(run.duration_ms, Some(0));
    assert_eq!(run.error.as_ref().map(|e| e.chars().count()), Some(MAX_ERROR_CHARS));
}

#[test]
fn summary_becomes_run_stats() {
    let summary = TaskSummary { total: 5, synced: 3, failed: 2, versions: 7, ..TaskSummary::default() };
    let s = stats(&summary);
    assert_eq!((s.total, s.synced, s.failed, s.versions, s.files), (5, 3, 2, 7, 0));
}

#[test]
fn report_becomes_a_summary() {
    let mut report: Report<i32, &str> = Report::default();
    report.record(1, Ok(Outcome::Synced("ok")));
    report.record(2, Err(Error::Config("x".to_string())));
    let summary = summarize(&report);
    assert_eq!((summary.total, summary.synced, summary.failed, summary.requeued), (2, 1, 1, 0));
}

#[test]
fn command_names_follow_the_subcommands() {
    assert_eq!(command_name(&Command::Curseforge(CurseforgeTask::Queue)), "curseforge-queue");
    assert_eq!(command_name(&Command::Modrinth(ModrinthTask::RefreshFull)), "modrinth-refresh-full");
    assert_eq!(command_name(&Command::Curseforge(CurseforgeTask::Categories { game_id: None })), "curseforge-categories");
    assert_eq!(command_name(&Command::Indexes), "indexes");
    assert_eq!(command_name(&Command::Daemon), "daemon");
}

#[test]
fn search_over_both_games_runs_one_step_per_game() {
    let command = Command::Curseforge(CurseforgeTask::Search { game_id: None, max_pages: 3, full: true });
    let s = steps(&command).expect("steps");
    assert_eq!(
        s,
        vec![
            Step::CurseforgeSearch { game_id: 432, max_pages: 3, full: true },
            Step::CurseforgeSearch { game_id: 78022, max_pages: 3, full: true },
        ]
    );
    assert_eq!(game_ids(Some(78022)), vec![78022]);
    let one = steps(&Command::Curseforge(CurseforgeTask::Categories { game_id: Some(432) })).expect("steps");
    assert_eq!(one, vec![Step::CurseforgeCategories { game_id: 432 }]);
    assert_eq!(steps(&Command::Indexes).expect("steps"), vec![Step::Indexes]);
}

#[test]
fn daemon_is_not_a_task() {
    assert!(matches!(steps(&Command::Daemon), Err(Error::Config(_))));
}

#[test]
fn exit_code_tells_clean_partial_and_failed_runs_apart() {
    let clean: Result<TaskSummary, Error> = Ok(TaskSummary { total: 3, synced: 3, ..TaskSummary::default() });
    let partial: Result<TaskSummary, Error> = Ok(TaskSummary { total: 3, synced: 2, failed: 1, ..TaskSummary::default() });
    let failed: Result<TaskSummary, Error> = Err(Error::Config("x".to_string()));
    assert_eq!(exit_code(&clean), 0);
    assert_eq!(exit_code(&partial), EXIT_COMPLETED_WITH_FAILURES);
    assert_eq!(exit_code(&failed), EXIT_ERROR);
    assert_eq!(run_status(&clean), "success");
    assert_eq!(run_status(&partial), "partial_failure");
    assert_eq!(run_status(&failed), "error");
    assert_eq!(daemon_exit_code(&Ok(())), 0);
    assert_eq!(daemon_exit_code(&Err(Error::Config("x".to_string()))), 2);
}

#[test]
fn index_run_counts_every_index_as_synced() {
    let s = synced_summary(15);
    assert_eq!((s.total, s.synced, s.failed), (15, 15, 0));
}

#[test]
fn item_counters_skip_zero_counts() {
    let summary = TaskSummary { total: 4, synced: 3, failed: 1, versions: 9, files: 0, ..TaskSummary::default() };
    let increments = item_increments("modrinth-refresh", &Command::Modrinth(ModrinthTask::Refresh), &summary);
    let seen: Vec<(&str, &str, u64)> = increments
        .iter()
        .map(|i| (i.labels.entity.as_str(), i.labels.result.as_str(), i.count))
        .collect();
    assert_eq!(seen, vec![("project", "attempted", 4), ("project", "synced", 3), ("project", "failed", 1), ("version", "synced", 9)]);
    assert!(increments.iter().all(|i| i.labels.operation == "refresh" && i.labels.provider == "modrinth"));
    assert!(item_increments("modrinth-tags", &Command::Modrinth(ModrinthTask::Tags), &summary).is_empty());
}

#[test]
fn last_result_marks_only_the_result_given() {
    assert_eq!(last_result_values("partial_failure"), vec![("success", 0), ("partial_failure", 1), ("error", 0)]);
    assert_eq!(task_labels("t").task, "t");
    assert_eq!(task_result_labels("t", "error").result, "error");
}
