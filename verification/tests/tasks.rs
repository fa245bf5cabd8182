use mcim_rust_sync::api::curseforge::SearchSlice;
use mcim_rust_sync::ids::{parse_ids_i32, parse_ids_i64, sorted_unique, sorted_unique_strings};
use mcim_rust_sync::models::curseforge::ModStamp;
use mcim_rust_sync::models::modrinth::ProjectStamp;
use mcim_rust_sync::models::FlexDateTime;
use mcim_rust_sync::task::curseforge::{
    fresh_ids, outdated_mods, queue_targets, refresh_ids, search_plan, search_slices, SearchCursor,
    SearchStep, MIN_MOD_ID,
};
use mcim_rust_sync::task::modrinth::{classify_projects, fresh_projects, is_outdated, same_set, ModrinthSearch};
use mcim_rust_sync::error::Error;
use mcim_rust_sync::task::{combinable, combine, merge, same_second, TaskSummary};

fn strings(values: &[&str]) -> Vec<String> {
    values.iter().map(|s| s.to_string()).collect()
}

#[test]
fn unparsable_members_are_separated() {
    let raw = vec![
        "946010".to_string(),
        "".to_string(),
        "abc".to_string(),
        "238222".to_string(),
        "false".to_string(),
    ];
    let (ids, invalid) = parse_ids_i32(&raw);
    assert_eq!(ids, vec![946010, 238222]);
    assert_eq!(invalid, vec!["".to_string(), "abc".to_string(), "false".to_string()]);
}

#[test]
fn fingerprints_parse_as_i64() {
    let raw = vec!["4294967296".to_string(), "1232253386".to_string()];
    let (ids, invalid) = parse_ids_i64(&raw);
    assert_eq!(ids, vec![4294967296i64, 1232253386i64]);
    assert!(invalid.is_empty());
}

#[test]
fn tiny_ids_are_filtered_out() {
    let kept = queue_targets(&vec![1, 42, 29999, 30000, 946010]);
    assert_eq!(kept, vec![30000, 946010]);
    assert_eq!(MIN_MOD_ID, 30000);
}

#[test]
fn queue_targets_are_sorted_and_unique() {
    assert_eq!(queue_targets(&vec![946010, 238222, 946010, 30000]), vec![30000, 238222, 946010]);
    assert_eq!(sorted_unique(&vec![3, 1, 3, 2]), vec![1, 2, 3]);
}

#[test]
fn i32_overflow_is_not_an_id() {
    let (ids, invalid) = parse_ids_i32(&strings(&["2147483648", "+7", "-1"]));
    assert_eq!(ids, vec![7, -1]);
    assert_eq!(invalid, strings(&["2147483648"]));
}

fn stamp(updated: i64, versions: &[&str], game_versions: &[&str]) -> ProjectStamp {
    ProjectStamp {
        id: "Wnxd13zP".to_string(),
        updated: Some(updated),
        versions: Some(strings(versions)),
        game_versions: Some(strings(game_versions)),
    }
}

/// 2026-06-09T23:48:35Z in seconds.
const SECS_23_48_35: i64 = 1781048915;

#[test]
fn identical_project_is_not_outdated() {
    // "2026-06-09T23:48:35.117Z" as stored, "2026-06-09T23:48:35.117961Z" from upstream
    let local = stamp(FlexDateTime::millis(SECS_23_48_35, 117_000_000), &["a", "b"], &["1.20"]);
    let remote = stamp(FlexDateTime::millis(SECS_23_48_35, 117_961_000), &["a", "b"], &["1.20"]);
    assert!(!is_outdated(&local, &remote));
}

#[test]
fn newer_updated_is_outdated() {
    let local = stamp(FlexDateTime::millis(SECS_23_48_35, 0), &["a"], &["1.20"]);
    let remote = stamp(FlexDateTime::millis(SECS_23_48_35 + 25, 0), &["a"], &["1.20"]);
    assert!(is_outdated(&local, &remote));
}

#[test]
fn new_version_is_outdated() {
    let local = stamp(FlexDateTime::millis(SECS_23_48_35, 0), &["a"], &["1.20"]);
    let remote = stamp(FlexDateTime::millis(SECS_23_48_35, 0), &["a", "b"], &["1.20"]);
    assert!(is_outdated(&local, &remote));
}

#[test]
fn reordered_versions_are_not_outdated() {
    let local = stamp(FlexDateTime::millis(SECS_23_48_35, 0), &["a", "b"], &["1.20", "1.21"]);
    let remote = stamp(FlexDateTime::millis(SECS_23_48_35, 0), &["b", "a"], &["1.21", "1.20"]);
    assert!(!is_outdated(&local, &remote));
}

#[test]
fn set_comparison_ignores_order() {
    let left = vec!["a".to_string(), "b".to_string()];
    let right = vec!["b".to_string(), "a".to_string()];
    assert!(same_set(Some(&left), Some(&right)));
    assert!(same_set(None, None));
    assert!(!same_set(Some(&left), None));
}

#[test]
fn duplicates_do_not_change_a_set() {
    let left = strings(&["a", "a", "b"]);
    let right = strings(&["b", "a"]);
    assert!(same_set(Some(&left), Some(&right)));
    assert!(same_set(Some(&Vec::new()), None));
}

#[test]
fn same_second_drops_milliseconds() {
    assert!(same_second(Some(1_000), Some(1_999)));
    assert!(!same_second(Some(999), Some(1_000)));
    assert!(same_second(Some(-1), Some(-999)));
    assert!(!same_second(Some(-1), Some(0)));
    assert!(same_second(None, None));
    assert!(!same_second(None, Some(0)));
}

#[test]
fn changed_mods_are_outdated() {
    let batch = vec![
        ModStamp { id: 30001, date_modified: Some(5_000) },
        ModStamp { id: 30002, date_modified: Some(5_000) },
        ModStamp { id: 30003, date_modified: None },
    ];
    let remote = vec![
        ModStamp { id: 30001, date_modified: Some(5_500) },
        ModStamp { id: 30002, date_modified: Some(6_000) },
        ModStamp { id: 30003, date_modified: Some(6_000) },
        ModStamp { id: 40000, date_modified: Some(6_000) },
    ];
    assert_eq!(outdated_mods(&batch, &remote), vec![30002, 30003, 40000]);
    assert_eq!(refresh_ids(&vec![ModStamp { id: 12, date_modified: None }, ModStamp { id: 30001, date_modified: None }]), vec![30001]);
}

#[test]
fn stored_projects_are_refreshed_or_removed() {
    let batch = vec![
        stamp(FlexDateTime::millis(SECS_23_48_35, 0), &["a"], &["1.20"]),
        ProjectStamp { id: "gone".to_string(), updated: None, versions: None, game_versions: None },
    ];
    let remote = vec![stamp(FlexDateTime::millis(SECS_23_48_35, 0), &["a", "b"], &["1.20"])];
    let (outdated, dead) = classify_projects(&batch, &remote);
    assert_eq!(outdated, strings(&["Wnxd13zP"]));
    assert_eq!(dead, strings(&["gone"]));
}

#[test]
fn search_keeps_only_new_ids() {
    assert_eq!(fresh_ids(&vec![30001, 12, 30002, 30003], &vec![30002]), vec![30001, 30003]);
    assert_eq!(fresh_projects(&strings(&["a", "b", "c"]), &strings(&["b"])), strings(&["a", "c"]));
    assert_eq!(sorted_unique_strings(&strings(&["b", "a", "b", "Z", "ab"])), strings(&["Z", "a", "ab", "b"]));
}

#[test]
fn full_search_adds_categories_that_are_not_classes() {
    let plain = search_slices(78022, false, Some(vec![6913, 100]));
    assert_eq!(plain.len(), 5);
    assert_eq!(plain[0], SearchSlice::Class(4984));
    let full = search_slices(78022, true, Some(vec![6913, 100]));
    assert_eq!(full.len(), 6);
    assert_eq!(full[5], SearchSlice::Category(100));
    assert_eq!(search_slices(78022, true, None).len(), 5);
}

#[test]
fn search_cursor_walks_each_slice_until_a_short_page() {
    let plan = search_plan(vec![SearchSlice::Class(6), SearchSlice::Class(12)], 0, false);
    let mut cursor = SearchCursor::new();
    assert_eq!(cursor.next_step(&plan), SearchStep::Fetch { slice: SearchSlice::Class(6), index: 0, descending: true });
    cursor.after_page(&plan, 50, false);
    assert_eq!(cursor.next_step(&plan), SearchStep::Fetch { slice: SearchSlice::Class(6), index: 50, descending: true });
    cursor.after_page(&plan, 10, false);
    assert_eq!(cursor.next_step(&plan), SearchStep::Fetch { slice: SearchSlice::Class(12), index: 0, descending: true });
    cursor.after_page(&plan, 50, true);
    assert_eq!(cursor.next_step(&plan), SearchStep::Done);
}

#[test]
fn full_search_scans_both_orders_and_respects_max_pages() {
    let plan = search_plan(vec![SearchSlice::Category(100)], 1, true);
    let mut cursor = SearchCursor::new();
    assert_eq!(cursor.next_step(&plan), SearchStep::Fetch { slice: SearchSlice::Category(100), index: 0, descending: true });
    cursor.after_page(&plan, 50, true);
    assert_eq!(cursor.next_step(&plan), SearchStep::Fetch { slice: SearchSlice::Category(100), index: 0, descending: false });
    cursor.after_page(&plan, 50, true);
    assert_eq!(cursor.next_step(&plan), SearchStep::Done);
}

#[test]
fn full_search_visits_every_slice_newest_first_then_oldest_first() {
    let slices = vec![SearchSlice::Class(6), SearchSlice::Class(12), SearchSlice::Category(100)];
    let plan = search_plan(slices.clone(), 0, true);
    let mut cursor = SearchCursor::new();
    let mut seen = Vec::new();
    loop {
        match cursor.next_step(&plan) {
            SearchStep::Fetch { slice, index, descending } => {
                assert_eq!(index, 0);
                seen.push((slice, descending));
                cursor.after_page(&plan, 3, false);
            }
            SearchStep::Done => break,
        }
    }
    let mut expected = Vec::new();
    for descending in [true, false] {
        for slice in &slices {
            expected.push((*slice, descending));
        }
    }
    assert_eq!(seen, expected);
}

#[test]
fn modrinth_search_stops_at_stored_projects_unless_full() {
    let mut search = ModrinthSearch::new(0, false);
    assert_eq!(search.next_offset(), Some(0));
    search.after_page(100, false);
    assert_eq!(search.next_offset(), Some(100));
    search.after_page(100, true);
    assert_eq!(search.next_offset(), None);

    let mut full = ModrinthSearch::new(2, true);
    full.after_page(100, true);
    assert_eq!(full.next_offset(), Some(100));
    full.after_page(100, true);
    assert_eq!(full.next_offset(), None);
}

#[test]
fn merged_summaries_add_up() {
    let mut total = TaskSummary::default();
    merge(&mut total, TaskSummary { total: 3, synced: 2, failed: 1, ..TaskSummary::default() });
    merge(&mut total, TaskSummary { total: 4, synced: 4, ..TaskSummary::default() });
    assert_eq!(total.total, 7);
    assert_eq!(total.synced, 6);
    assert_eq!(total.failed, 1);
    assert!(!total.is_clean());
}

#[test]
fn a_run_of_several_games_adds_their_counts() {
    let a = TaskSummary { total: 3, synced: 2, failed: 1, discovered: 5, ..TaskSummary::default() };
    let b = TaskSummary { total: 4, synced: 4, discovered: 1, ..TaskSummary::default() };
    let results = vec![Ok(a), Ok(b)];
    assert!(combinable(&results));
    let total = combine(results).unwrap();
    assert_eq!(total, TaskSummary { total: 7, synced: 6, failed: 1, discovered: 6, ..TaskSummary::default() });
    assert_eq!(combine(Vec::new()).unwrap(), TaskSummary::default());
}

#[test]
fn a_run_stops_at_its_first_failure() {
    let a = TaskSummary { total: 3, synced: 3, ..TaskSummary::default() };
    let results = vec![
        Ok(a),
        Err(Error::Config("first".to_string())),
        Err(Error::Config("second".to_string())),
    ];
    assert!(combinable(&results));
    match combine(results) {
        Err(Error::Config(message)) => assert_eq!(message, "first"),
        other => panic!("unexpected {other:?}"),
    }
}

#[test]
fn counts_that_would_overflow_are_not_combined() {
    let big = TaskSummary { total: usize::MAX, ..TaskSummary::default() };
    let one = TaskSummary { total: 1, ..TaskSummary::default() };
    assert!(!combinable(&vec![Ok(big), Ok(one)]));
    assert!(combinable(&vec![Ok(big), Err(Error::Config("x".to_string())), Ok(one)]));
}

#[test]
fn deep_paging_stops_at_ten_thousand_results() {
    let plan = search_plan(vec![SearchSlice::Class(6), SearchSlice::Class(12)], 0, true);
    let mut cursor = SearchCursor::new();
    let mut pages = 0;
    loop {
        match cursor.next_step(&plan) {
            SearchStep::Fetch { slice: SearchSlice::Class(6), index, descending: true } => {
                assert!(index + 50 <= 10_000);
                pages += 1;
                cursor.after_page(&plan, 50, true);
            }
            SearchStep::Fetch { slice, index, descending } => {
                assert_eq!((slice, index, descending), (SearchSlice::Class(12), 0, true));
                break;
            }
            SearchStep::Done => panic!("the second slice was never reached"),
        }
    }
    assert_eq!(pages, 200);
}

#[test]
fn requeued_ids_read_back_as_the_same_ids() {
    let mut report: mcim_rust_sync::sync::Report<i32, ()> = mcim_rust_sync::sync::Report::default();
    report.record(946010, Err(mcim_rust_sync::error::Error::Config("x".to_string())));
    report.record(-7, Err(mcim_rust_sync::error::Error::Config("y".to_string())));
    report.record(30000, Ok(mcim_rust_sync::sync::Outcome::NotFound));
    let members = mcim_rust_sync::task::requeue_members_i32(&report);
    assert_eq!(members, strings(&["946010", "-7"]));
    let (ids, invalid) = parse_ids_i32(&members);
    assert_eq!(ids, vec![946010, -7]);
    assert!(invalid.is_empty());
}

#[test]
fn decimal_spellings_read_back() {
    for n in [0u64, 7, 10, 4294967296, u64::MAX] {
        assert_eq!(mcim_rust_sync::text::parse_u64(&mcim_rust_sync::text::format_u64(n)), Some(n));
    }
    for n in [i64::MIN, -1, 0, 1788343260000, i64::MAX] {
        assert_eq!(mcim_rust_sync::text::parse_i64(&mcim_rust_sync::text::format_i64(n)), Some(n));
    }
    assert_eq!(mcim_rust_sync::text::parse_u64("18446744073709551616"), None);
    assert_eq!(mcim_rust_sync::text::parse_u64("+12"), Some(12));
    assert_eq!(mcim_rust_sync::text::parse_u64(""), None);
    assert_eq!(mcim_rust_sync::text::parse_bool("true"), Some(true));
    assert_eq!(mcim_rust_sync::text::parse_bool("True"), None);
}
