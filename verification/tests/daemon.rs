use mcim_rust_sync::cli::{Command, CurseforgeTask, ModrinthTask};
use mcim_rust_sync::daemon::{
    advance_due, build, check_schedule, failure_streak, schedule_job, until_next, ScheduleItem, Slot,
    MAX_SLEEP_MS,
};

/// 2026-09-02T10:01:00Z
const AT_10_01: i64 = 1788343260000;
/// 2026-09-02T10:05:00Z
const AT_10_05: i64 = 1788343500000;
/// 2026-09-03T00:00:00Z
const AT_NEXT_MIDNIGHT: i64 = 1788393600000;
/// 2026-09-02T09:00:00Z
const AT_09_00: i64 = 1788339600000;

fn item(name: &str, cron: &str, command: Result<Command, String>) -> ScheduleItem {
    ScheduleItem { name: name.to_string(), cron: cron.to_string(), command }
}

#[test]
fn builds_jobs_with_next_fire_time() {
    let jobs = build(
        &vec![
            item("curseforge-queue", "*/5 * * * *", Ok(Command::Curseforge(CurseforgeTask::Queue))),
            item("modrinth-tags", "0 0 * * *", Ok(Command::Modrinth(ModrinthTask::Tags))),
        ],
        AT_10_01,
    )
    .expect("解析计划失败");

    assert_eq!(jobs.len(), 2);
    assert_eq!(jobs[0].name, "curseforge-queue");
    assert_eq!(jobs[0].next, AT_10_05);
    assert_eq!(jobs[1].next, AT_NEXT_MIDNIGHT);
}

#[test]
fn parses_task_arguments() {
    let search = Command::Curseforge(CurseforgeTask::Search { game_id: Some(432), max_pages: 20, full: false });
    let jobs = build(&vec![item("curseforge-search", "0 * * * *", Ok(search))], AT_10_01).expect("解析计划失败");

    match &jobs[0].command {
        Command::Curseforge(CurseforgeTask::Search { game_id, max_pages, full }) => {
            assert_eq!(*game_id, Some(432));
            assert_eq!(*max_pages, 20);
            assert!(!*full);
        }
        other => panic!("解析出了别的任务: {:?}", other),
    }
}

#[test]
fn defaults_come_from_the_same_clap_definition() {
    let search = Command::Modrinth(ModrinthTask::Search { max_pages: 0, full: false });
    let jobs = build(&vec![item("modrinth-search", "0 * * * *", Ok(search))], AT_10_01).expect("解析计划失败");

    match &jobs[0].command {
        Command::Modrinth(ModrinthTask::Search { max_pages, full }) => {
            assert_eq!(*max_pages, 0);
            assert!(!*full);
        }
        other => panic!("解析出了别的任务: {:?}", other),
    }
}

#[test]
fn invalid_cron_is_an_error() {
    let result = build(&vec![item("坏计划", "每两小时", Ok(Command::Modrinth(ModrinthTask::Tags)))], AT_10_01);
    assert!(result.is_err());
}

#[test]
fn unknown_task_is_an_error() {
    let result = build(
        &vec![item("坏计划", "0 * * * *", Err("unrecognized subcommand '不存在的任务'".to_string()))],
        AT_10_01,
    );
    assert!(result.is_err());
}

#[test]
fn daemon_cannot_be_scheduled() {
    let result = build(&vec![item("套娃", "0 * * * *", Ok(Command::Daemon))], AT_10_01);
    assert!(result.is_err());
}

#[test]
fn one_bad_entry_fails_the_whole_schedule() {
    let result = build(
        &vec![
            item("modrinth-tags", "0 0 * * *", Ok(Command::Modrinth(ModrinthTask::Tags))),
            item("坏计划", "每两小时", Ok(Command::Modrinth(ModrinthTask::Tags))),
        ],
        AT_10_01,
    );
    match result {
        Err(mcim_rust_sync::error::Error::Config(message)) => assert!(message.starts_with("schedule.坏计划")),
        _ => panic!("a bad entry must fail the schedule"),
    }
}

#[test]
fn sleep_is_capped() {
    let jobs = build(&vec![item("modrinth-tags", "0 0 * * *", Ok(Command::Modrinth(ModrinthTask::Tags)))], AT_10_01)
        .expect("解析计划失败");
    assert_eq!(until_next(&jobs, AT_10_01), MAX_SLEEP_MS);
}

#[test]
fn overdue_job_does_not_wait() {
    let mut jobs = build(&vec![item("modrinth-tags", "0 0 * * *", Ok(Command::Modrinth(ModrinthTask::Tags)))], AT_10_01)
        .expect("解析计划失败");
    jobs[0].next = AT_09_00;
    assert_eq!(until_next(&jobs, AT_10_01), 0);
}

#[test]
fn sleep_runs_until_the_earliest_job() {
    let jobs = build(&vec![item("curseforge-queue", "*/5 * * * *", Ok(Command::Curseforge(CurseforgeTask::Queue)))], AT_10_01)
        .expect("解析计划失败");
    assert_eq!(until_next(&jobs, AT_10_05 - 1000), 1000);
    assert_eq!(until_next(&Vec::new(), AT_10_01), 0);
}

#[test]
fn due_jobs_move_to_their_next_time_without_catching_up() {
    let mut jobs = build(
        &vec![
            item("curseforge-queue", "*/5 * * * *", Ok(Command::Curseforge(CurseforgeTask::Queue))),
            item("modrinth-tags", "0 0 * * *", Ok(Command::Modrinth(ModrinthTask::Tags))),
        ],
        AT_10_01,
    )
    .expect("解析计划失败");
    jobs[0].next = AT_09_00;
    let due = advance_due(&mut jobs, AT_10_01);
    assert_eq!(due, vec![0]);
    assert_eq!(jobs[0].next, AT_10_05);
    assert_eq!(jobs[1].next, AT_NEXT_MIDNIGHT);
}

#[test]
fn running_job_cannot_be_claimed_twice() {
    let mut slot = Slot::new();
    assert!(slot.claim(AT_10_01).is_ok(), "第一次应该占得住");
    assert!(slot.claim(AT_10_05).is_err(), "同一个任务不应该重叠");

    slot.release();
    assert!(slot.claim(AT_10_05).is_ok(), "上一轮结束后应该能重新排上");
}

#[test]
fn refused_claim_says_how_long_the_run_has_gone_on() {
    let mut slot = Slot::new();
    slot.claim(AT_10_01).expect("free slot");
    assert_eq!(slot.claim(AT_10_05), Err(AT_10_05 - AT_10_01));
    assert_eq!(slot.started, Some(AT_10_01));
}

#[test]
fn empty_schedule_is_a_configuration_error() {
    assert!(check_schedule(&Vec::new()).is_err());
    let jobs = build(&vec![item("modrinth-tags", "0 0 * * *", Ok(Command::Modrinth(ModrinthTask::Tags)))], AT_10_01)
        .expect("解析计划失败");
    assert!(check_schedule(&jobs).is_ok());
}

#[test]
fn failure_streak_counts_consecutive_failures() {
    assert_eq!(failure_streak(0, false), 1);
    assert_eq!(failure_streak(2, false), 3);
    assert_eq!(failure_streak(5, true), 0);
    assert_eq!(failure_streak(u32::MAX, false), 0);
}

#[test]
fn entry_becomes_a_job_only_when_every_part_reads() {
    let tags = item("modrinth-tags", "0 0 * * *", Ok(Command::Modrinth(ModrinthTask::Tags)));
    let job = schedule_job(&tags, Ok(()), Some(AT_NEXT_MIDNIGHT)).expect("job");
    assert_eq!(job.name, "modrinth-tags");
    assert_eq!(job.pattern, "0 0 * * *");
    assert_eq!(job.next, AT_NEXT_MIDNIGHT);
    assert!(schedule_job(&tags, Err("bad pattern".to_string()), Some(AT_NEXT_MIDNIGHT)).is_err());
    assert!(schedule_job(&tags, Ok(()), None).is_err());
    let daemon = item("套娃", "0 0 * * *", Ok(Command::Daemon));
    match schedule_job(&daemon, Ok(()), Some(AT_NEXT_MIDNIGHT)) {
        Err(mcim_rust_sync::error::Error::Config(message)) => assert_eq!(message, "schedule.套娃 的 args 无效: daemon 不能排进计划"),
        _ => panic!("the daemon cannot be scheduled"),
    }
}
