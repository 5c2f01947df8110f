use picnest::error::AppError;
use picnest::models::{AppSettings, RemoveSourcePreviewEntry};
use picnest::sources::{
    collect_removed_roots, ensure_source_exists, path_in_scope, plan_source_removal,
    preview_remove, rules_for_paths, source_rules, LocationRow,
};

fn settings_with(root: &str, child: &str) -> AppSettings {
    AppSettings {
        configured: true,
        library_path: "C:\\Library".to_string(),
        source_paths: vec![root.to_string(), child.to_string()],
        source_recursive: vec![(root.to_string(), true), (child.to_string(), true)],
        locale: "zh-CN".to_string(),
        cloud_ai_enabled: false,
        ai_base_url: String::new(),
        vision_model: String::new(),
        embedding_model: String::new(),
        ai_batch_limit: 20,
        api_key_configured: false,
        telemetry_enabled: false,
    }
}

fn row(id: i64, asset_id: i64, path: &str) -> LocationRow {
    LocationRow { id, asset_id, path: path.to_string() }
}

fn paths_of(rows: &[LocationRow]) -> Vec<String> {
    rows.iter().map(|r| r.path.clone()).collect()
}

/// Index entries left after the planned deletions.
fn remaining_rows(rows: &[LocationRow], deleted: &[i64]) -> Vec<LocationRow> {
    rows.iter().filter(|r| !deleted.contains(&r.id)).cloned().collect()
}

/// Pictures left: those with at least one index entry.
fn remaining_assets(rows: &[LocationRow]) -> Vec<i64> {
    let mut ids: Vec<i64> = rows.iter().map(|r| r.asset_id).collect();
    ids.sort();
    ids.dedup();
    ids
}

#[test]
fn source_scope_handles_recursive_and_immediate_paths() {
    let root = r"D:\src";
    assert!(path_in_scope(r"D:\src\a.jpg", root, false));
    assert!(!path_in_scope(r"D:\src\sub\a.jpg", root, false));
    assert!(path_in_scope(r"D:\src\sub\a.jpg", root, true));
    assert!(!path_in_scope(r"D:\src-old\a.jpg", root, true));
}

#[test]
fn preview_and_removal_cover_selected_scope() {
    let root = r"D:\src";
    let child = r"D:\src\child";
    let settings = settings_with(root, child);
    let rows = vec![
        row(1, 1, r"D:\src\a.jpg"),
        row(2, 2, r"D:\src\child\b.jpg"),
        row(3, 3, r"D:\src\other\c.jpg"),
    ];

    let preview = preview_remove(&settings, root, &paths_of(&rows)).expect("preview");
    assert_eq!(preview.current.monitored_count, 1);
    assert_eq!(preview.current.index_count, 2);
    assert_eq!(preview.with_subdirs.monitored_count, 2);
    assert_eq!(preview.with_subdirs.index_count, 3);

    let result = plan_source_removal(&settings, root, true, &rows).expect("remove");
    assert_eq!(result.removed_paths.len(), 2);
    assert_eq!(result.deleted_locations.len(), 3);
    assert!(result.source_paths.is_empty());
    let left = remaining_rows(&rows, &result.deleted_locations);
    assert_eq!(remaining_assets(&left).len(), 0);
}

#[test]
fn removal_protects_indexes_owned_by_overlapping_child_source() {
    let root = r"D:\src";
    let child = r"D:\src\child";
    let mut settings = settings_with(root, child);
    settings.source_recursive = vec![(root.to_string(), true), (child.to_string(), false)];
    let rows = vec![row(1, 1, r"D:\src\child\b.jpg")];

    let preview = preview_remove(&settings, root, &paths_of(&rows)).expect("preview");
    assert_eq!(preview.current.index_count, 0);
    assert_eq!(preview.with_subdirs.index_count, 1);

    let result = plan_source_removal(&settings, root, false, &rows).expect("remove");
    assert_eq!(result.deleted_locations.len(), 0);
    assert_eq!(result.source_paths, vec![child.to_string()]);
    let left = remaining_rows(&rows, &result.deleted_locations);
    assert_eq!(left.len(), 1);
}

#[test]
fn removal_preserves_organized_photos_and_cleans_orphans() {
    let root = r"D:\src";
    let mut settings = settings_with(root, r"D:\unused");
    settings.source_paths = vec![root.to_string()];
    settings.source_recursive = vec![(root.to_string(), true)];
    let rows = vec![row(1, 1, r"D:\src\a.jpg"), row(2, 2, r"D:\Library\2026\08\b.jpg")];
    // Picture 1 is in an album and has a search row.
    let album_assets = vec![(1i64, 1i64)];
    let search_rows = vec![1i64];

    let result = plan_source_removal(&settings, root, false, &rows).expect("remove");
    assert_eq!(result.deleted_locations.len(), 1);
    let left = remaining_rows(&rows, &result.deleted_locations);
    let assets = remaining_assets(&left);
    assert_eq!(assets.len(), 1);
    assert_eq!(left.len(), 1);
    // Affected pictures without entries are orphans: their album links and
    // search rows go with them.
    let orphans: Vec<i64> =
        result.affected_assets.iter().copied().filter(|a| !assets.contains(a)).collect();
    let album_left = album_assets.iter().filter(|(_, a)| !orphans.contains(a)).count();
    let search_left = search_rows.iter().filter(|a| !orphans.contains(a)).count();
    assert_eq!(album_left, 0);
    assert_eq!(search_left, 0);
}

#[test]
fn removing_an_unmonitored_folder_is_refused() {
    let settings = settings_with(r"D:\src", r"D:\src\child");
    assert_eq!(ensure_source_exists(&settings, r"D:\elsewhere"), Err(AppError::SourceNotMonitored));
    assert_eq!(ensure_source_exists(&settings, r"d:\SRC\"), Ok(()));
    assert!(matches!(
        plan_source_removal(&settings, r"D:\elsewhere", true, &Vec::new()),
        Err(AppError::SourceNotMonitored)
    ));
    assert!(matches!(
        preview_remove(&settings, r"D:\elsewhere", &Vec::new()),
        Err(AppError::SourceNotMonitored)
    ));
    assert_eq!(AppError::SourceNotMonitored.message(), "该文件夹不在监控列表中");
}

#[test]
fn rules_keep_recursion_choices() {
    let mut settings = settings_with(r"D:\src", r"D:\src\child");
    settings.source_recursive = vec![(r"D:\src\child".to_string(), false)];
    let rules = source_rules(&settings);
    assert_eq!(rules.len(), 2);
    assert!(rules[0].recursive);
    assert!(!rules[1].recursive);
    let only_child = rules_for_paths(&settings, &vec![r"d:\src\CHILD\".to_string()]);
    assert_eq!(only_child.len(), 1);
    assert_eq!(only_child[0].path, r"D:\src\child");
    assert_eq!(collect_removed_roots(&settings, r"D:\src", false), vec![r"D:\src".to_string()]);
    assert_eq!(collect_removed_roots(&settings, r"D:\src", true).len(), 2);
}

#[test]
fn removal_plan_reports_its_changes() {
    let root = r"D:\src";
    let child = r"D:\src\child";
    let settings = settings_with(root, child);
    let rows = vec![
        row(10, 1, r"D:\src\a.jpg"),
        row(11, 1, r"D:\src\b.jpg"),
        row(12, 2, r"D:\src\child\c.jpg"),
    ];
    let plan = plan_source_removal(&settings, root, false, &rows).expect("plan");
    assert_eq!(plan.removed_paths, vec![root.to_string()]);
    assert_eq!(plan.deleted_locations, vec![10, 11]);
    assert_eq!(plan.affected_assets, vec![1]);
    assert_eq!(plan.source_paths, vec![child.to_string()]);
    assert_eq!(plan.source_recursive, vec![(child.to_string(), true)]);
    assert_eq!(plan.activity_detail, "移除了 1 个监控目录，清理 2 条本地索引");
    let preview = preview_remove(&settings, root, &paths_of(&rows)).expect("preview");
    assert_eq!(preview.current, RemoveSourcePreviewEntry { monitored_count: 1, index_count: 2 });
}
