use mcim_rust_sync::error::Error;
use mcim_rust_sync::sync::modrinth::{check_versions, is_incomplete_versions};
use mcim_rust_sync::sync::{
    chunk_bounds, curseforge_concurrency, found, modrinth_concurrency, Outcome, Report,
};
use mcim_rust_sync::sync::curseforge::{files_complete, mod_in_scope, FilePager};
use mcim_rust_sync::api::curseforge::Pagination;

#[test]
fn failures_keep_their_ids() {
    let mut report: Report<i32, &str> = Report::default();
    report.record(1, Ok(Outcome::Synced("ok")));
    report.record(2, Ok(Outcome::NotFound));
    report.record(3, Ok(Outcome::Skipped));
    report.record(4, Err(Error::Config("炸了".to_string())));
    report.record(5, Err(Error::Config("又炸了".to_string())));

    assert_eq!(report.synced, vec!["ok"]);
    assert_eq!(report.not_found, vec![2]);
    assert_eq!(report.skipped, vec![3]);
    let failed: Vec<i32> = report.failed.iter().map(|(id, _)| *id).collect();
    assert_eq!(failed, vec![4, 5]);
    assert_eq!(report.total(), 5);
}

#[test]
fn only_real_failures_are_worth_requeueing() {
    let mut report: Report<i32, &str> = Report::default();
    report.record(7, Ok(Outcome::NotFound));
    report.record(8, Ok(Outcome::Skipped));
    assert!(report.failed.is_empty());
}

#[test]
fn failure_keeps_the_error_message() {
    let mut report: Report<i32, &str> = Report::default();
    report.record(4, Err(Error::Config("炸了".to_string())));
    assert_eq!(report.failed, vec![(4, "config: 炸了".to_string())]);
}

#[test]
fn brand_new_project_without_versions_is_fine() {
    assert!(!is_incomplete_versions(0, 0));
}

#[test]
fn empty_response_for_a_project_with_versions_is_incomplete() {
    assert!(is_incomplete_versions(0, 12));
}

#[test]
fn non_empty_response_is_always_accepted() {
    assert!(!is_incomplete_versions(12, 12));
    assert!(!is_incomplete_versions(11, 12));
    assert!(!is_incomplete_versions(13, 12));
}

#[test]
fn incomplete_version_list_is_refused_with_its_count() {
    match check_versions("AANobbMI", 0, 12) {
        Err(Error::Config(message)) => {
            assert_eq!(message, "项目 AANobbMI 声明有 12 个版本，版本接口却返回空，响应不完整")
        }
        other => panic!("unexpected: {:?}", other),
    }
    assert!(check_versions("AANobbMI", 0, 0).is_ok());
}

#[test]
fn not_found_means_gone_and_other_errors_pass() {
    let gone: Result<i32, Error> = Err(Error::Request { http_status: Some(404), message: "x".to_string() });
    assert!(matches!(found(gone), Ok(None)));
    let broken: Result<i32, Error> = Err(Error::Request { http_status: Some(500), message: "x".to_string() });
    assert!(matches!(found(broken), Err(Error::Request { http_status: Some(500), .. })));
    assert!(matches!(found::<i32>(Ok(7)), Ok(Some(7))));
}

#[test]
fn modrinth_syncs_at_most_two_projects_at_once() {
    assert_eq!(modrinth_concurrency(0), 1);
    assert_eq!(modrinth_concurrency(1), 1);
    assert_eq!(modrinth_concurrency(2), 2);
    assert_eq!(modrinth_concurrency(16), 2);
    assert_eq!(curseforge_concurrency(0), 1);
    assert_eq!(curseforge_concurrency(16), 16);
}

#[test]
fn chunks_cover_the_list_in_order() {
    assert_eq!(chunk_bounds(0, 3), vec![]);
    assert_eq!(chunk_bounds(7, 3), vec![(0, 3), (3, 6), (6, 7)]);
    assert_eq!(chunk_bounds(6, 3), vec![(0, 3), (3, 6)]);
    assert_eq!(chunk_bounds(2, 0), vec![(0, 1), (1, 2)]);
}

#[test]
fn only_accepted_games_are_in_scope() {
    assert!(mod_in_scope(Some(432)));
    assert!(mod_in_scope(Some(78022)));
    assert!(!mod_in_scope(Some(1)));
    assert!(!mod_in_scope(None));
}

#[test]
fn short_file_list_is_not_complete() {
    let page = Pagination { index: 0, page_size: 10000, result_count: 50, total_count: 50 };
    assert!(files_complete(&page, 50));
    assert!(!files_complete(&page, 49));
    let short = Pagination { index: 0, page_size: 10000, result_count: 40, total_count: 50 };
    assert!(!files_complete(&short, 40));
}

#[test]
fn pager_stops_at_an_empty_page_or_the_total() {
    let mut pager = FilePager::new();
    pager.after_page(120, 50);
    assert_eq!(pager.index, 50);
    assert!(!pager.done);
    pager.after_page(120, 50);
    pager.after_page(120, 50);
    assert_eq!(pager.index, 150);
    assert!(pager.done);
    let mut empty = FilePager::new();
    empty.after_page(120, 0);
    assert_eq!(empty.index, 1);
    assert!(empty.done);
}
