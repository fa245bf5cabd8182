use mcim_rust_sync::error::Error;
use mcim_rust_sync::task_api::{
    parse_query, public_error, query_param, route, task_runs_limit, timestamp_param, Route,
    ScheduleState,
};

#[test]
fn query_pairs_split_at_the_first_equals_sign() {
    let params = parse_query("task=curseforge-queue&status=&x&from=1=2");
    assert_eq!(
        params,
        vec![
            ("task".to_string(), "curseforge-queue".to_string()),
            ("status".to_string(), String::new()),
            ("from".to_string(), "1=2".to_string()),
        ]
    );
}

#[test]
fn repeated_parameter_keeps_its_last_value() {
    let params = parse_query("limit=5&limit=7");
    assert_eq!(query_param(&params, "limit"), Some("7".to_string()));
    assert_eq!(query_param(&params, "task"), None);
}

#[test]
fn limit_defaults_to_a_hundred_and_stays_in_range() {
    assert_eq!(task_runs_limit(None), 100);
    assert_eq!(task_runs_limit(Some(&"abc".to_string())), 100);
    assert_eq!(task_runs_limit(Some(&"0".to_string())), 1);
    assert_eq!(task_runs_limit(Some(&"20".to_string())), 20);
    assert_eq!(task_runs_limit(Some(&"100000".to_string())), 500);
}

#[test]
fn time_filters_are_milliseconds() {
    assert_eq!(timestamp_param(Some(&"1788343260000".to_string())), Some(1788343260000));
    assert_eq!(timestamp_param(Some(&"yesterday".to_string())), None);
    assert_eq!(timestamp_param(Some(&"9223372036854775807".to_string())), None);
    assert_eq!(timestamp_param(None), None);
}

#[test]
fn timestamps_hold_exactly_chrono_range() {
    let at = |ms: i64| timestamp_param(Some(&ms.to_string()));
    assert_eq!(at(-8334601228800000), Some(-8334601228800000));
    assert_eq!(at(-8334601228800001), None);
    assert_eq!(at(8210266876799999), Some(8210266876799999));
    assert_eq!(at(8210266876800000), None);
    assert_eq!(at(-1), Some(-1));
    assert_eq!(at(i64::MIN), None);
}

#[test]
fn errors_tell_the_caller_little() {
    assert_eq!(public_error(&Error::Mongo("connection refused at 10.0.0.3".to_string())), "database error");
    assert_eq!(public_error(&Error::Config("x".to_string())), "request failed");
}

#[test]
fn paths_route_to_their_resources() {
    assert_eq!(route("/healthz"), Route::Health);
    assert_eq!(route("/api/task-runs"), Route::TaskRuns);
    assert_eq!(route("/api/tasks"), Route::Tasks);
    assert_eq!(route("/api/tasks/"), Route::NotFound);
}

#[test]
fn schedule_lists_tasks_in_name_order() {
    let mut schedule = ScheduleState::new();
    schedule.replace(&vec![
        ("modrinth-tags".to_string(), 30),
        ("curseforge-queue".to_string(), 10),
        ("modrinth-tags".to_string(), 40),
    ]);
    assert_eq!(schedule.snapshot(), vec![("curseforge-queue".to_string(), 10), ("modrinth-tags".to_string(), 40)]);
    schedule.set_next("curseforge-queue", 15);
    schedule.set_next("curseforge-categories", 20);
    assert_eq!(
        schedule.snapshot(),
        vec![
            ("curseforge-categories".to_string(), 20),
            ("curseforge-queue".to_string(), 15),
            ("modrinth-tags".to_string(), 40),
        ]
    );
    assert!(ScheduleState::default().snapshot().is_empty());
}
