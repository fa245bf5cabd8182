use mcim_rust_sync::db::mongo::{
    check_refresh, freshness_collection, freshness_windows, index_label, index_plan, CheckedWithin,
};
use mcim_rust_sync::models::FlexDateTime;
use mcim_rust_sync::models::translate::{translation_update, Translation};
use mcim_rust_sync::profile::{heap_file_name, proc_memory, project_selected, safe_label};

#[test]
fn indexes_carry_mongodb_default_names() {
    let plan = index_plan();
    assert_eq!(plan.len(), 16);
    assert_eq!(plan[0].collection, "curseforge_files");
    assert_eq!(plan[0].name, "modId_1");
    assert_eq!(plan[9].name, "_id.sha1_1");
    assert_eq!(plan[12].collection, "modrinth_files");
    assert_eq!(plan[12].name, "project_id_1");
    assert_eq!(plan[13].name, "project_id_1_version_id_1_filename_1");
    assert_eq!(plan[14].collection, "task_runs");
    assert_eq!(plan[14].name, "task_1_started_at_-1");
    assert_eq!(plan[15].name, "status_1_started_at_-1");
    assert_eq!(index_label(plan[15].collection, &plan[15].name), "task_runs.status_1_started_at_-1");
}

#[test]
fn index_plan_labels_cover_lookups_and_deletes() {
    let labels: Vec<String> = index_plan().iter().map(|s| index_label(s.collection, &s.name)).collect();
    for wanted in [
        "curseforge_files.modId_1",
        "modrinth_files._id.sha1_1",
        "modrinth_files._id.sha512_1",
        "modrinth_files.project_id_1",
    ] {
        assert!(labels.iter().any(|l| l == wanted), "{wanted} missing");
    }
}

#[test]
fn no_collection_has_two_indexes_of_one_name() {
    let plan = index_plan();
    for (i, a) in plan.iter().enumerate() {
        for b in plan.iter().skip(i + 1) {
            assert!(a.collection != b.collection || a.name != b.name);
        }
    }
}

#[test]
fn freshness_windows_end_now() {
    let now = 1_788_343_260_000;
    let w = freshness_windows(now);
    assert_eq!(w.h2, now - 7_200_000);
    assert_eq!(w.h24, now - 86_400_000);
    assert_eq!(w.d7, now - 604_800_000);
}

#[test]
fn freshness_figures_keep_their_counts() {
    let checked = CheckedWithin { h2: 1, h24: 2, d7: 3 };
    let item = freshness_collection(3, checked, 2, Some(10), Some(20));
    assert_eq!(item.total, 3);
    assert_eq!(item.never_checked, 1);
    assert_eq!(item.checked_within.h2, 1);
    assert_eq!(item.checked_within.h24, 2);
    assert_eq!(item.checked_within.d7, 3);
    assert_eq!(item.oldest_checked_at, Some(10));
    assert_eq!(item.newest_sync_at, Some(20));
}

#[test]
fn estimated_total_below_the_checked_count_never_goes_negative() {
    let item = freshness_collection(4, CheckedWithin { h2: 0, h24: 0, d7: 0 }, 5, None, None);
    assert_eq!(item.never_checked, 0);
}

#[test]
fn refresh_with_nothing_new_is_refused() {
    assert!(check_refresh("modrinth_loaders", 0).is_err());
    assert!(check_refresh("modrinth_loaders", 3).is_ok());
}

#[test]
fn stored_dates_keep_whole_milliseconds() {
    assert_eq!(FlexDateTime::millis(1_781_048_915, 117_961_000), 1_781_048_915_117);
    assert_eq!(FlexDateTime::millis(-1, 999_999_999), -1);
    assert_eq!(FlexDateTime::millis(0, 1_500_000_000), 1_500);
}

#[test]
fn unchanged_description_needs_no_marker() {
    let existing = Translation { id: 7, translated: Some("译文".to_string()), original: Some("text".to_string()), need_to_update: false, translated_at: Some(5) };
    assert!(translation_update(7, Some(existing.clone()), Some("text".to_string())).is_none());
    let marker = translation_update(7, Some(existing), Some("new".to_string())).expect("marker");
    assert!(marker.need_to_update);
    assert_eq!(marker.original.as_deref(), Some("new"));
    assert_eq!(marker.translated.as_deref(), Some("译文"));
    assert_eq!(marker.translated_at, Some(5));
    let first = translation_update(8, None, None).expect("marker");
    assert!(first.need_to_update && first.translated.is_none());
}

#[test]
fn profiling_selects_projects_and_names_dumps() {
    assert!(project_selected(Some(""), "AANobbMI"));
    assert!(project_selected(Some("AANobbMI"), "AANobbMI"));
    assert!(!project_selected(Some("other"), "AANobbMI"));
    assert!(!project_selected(None, "AANobbMI"));
    assert_eq!(safe_label("after files/upsert #2"), "after_files_upsert__2");
    assert_eq!(heap_file_name(1788343260000, "before-versions"), "1788343260000-before-versions.heap");
}

#[test]
fn profile_reads_resident_memory() {
    assert_eq!(proc_memory("Name:\tsync\nVmHWM:\t  2048 kB\nVmRSS:\t  1024 kB\n"), (Some(1024), Some(2048)));
    assert_eq!(proc_memory("VmRSS: x kB\n"), (None, None));
}
