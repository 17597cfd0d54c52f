use cr_ui::scan::{distinct_paths, merge_scan_storage, scan_target_for_path, MergeSource};
use cr_ui::session::{watcher_rescans_deferred, ScanTarget};

#[test]
fn watcher_rescans_wait_for_scans_and_incoming_operations() {
    assert!(!watcher_rescans_deferred(false, false));
    assert!(watcher_rescans_deferred(true, false));
    assert!(watcher_rescans_deferred(false, true));
    assert!(watcher_rescans_deferred(true, true));
}

/// A book of the storage: its id and its file path (and its title, to
/// tell a database copy from the scan's copy).
#[derive(Clone)]
struct Book {
    id: u128,
    path: &'static str,
    title: &'static str,
}

fn book(id: u128, path: &'static str) -> Book {
    Book { id, path, title: "" }
}

fn ids_of(books: &[Book]) -> Vec<u128> {
    books.iter().map(|b| b.id).collect()
}

/// Runs the merge plan and resolves it into the merged books.
fn merge(worker: &[Book], db: &[Book], removed: &[u128], touched: &[u128]) -> Vec<Book> {
    merge_scan_storage(&ids_of(worker), &ids_of(db), removed, touched)
        .into_iter()
        .map(|source| match source {
            MergeSource::Worker(i) => worker[i].clone(),
            MergeSource::Database(j) => db[j].clone(),
        })
        .collect()
}

fn paths(books: &[Book]) -> Vec<&'static str> {
    let mut v: Vec<&'static str> = books.iter().map(|b| b.path).collect();
    v.sort();
    v
}

#[test]
fn merge_without_side_effects_takes_the_worker_storage() {
    let a = book(1, "a.cbz");
    let b = book(2, "b.cbz");
    let worker = vec![a.clone(), b.clone()];
    let db = vec![a, b];
    let merged = merge(&worker, &db, &[], &[]);
    assert_eq!(paths(&merged), vec!["a.cbz", "b.cbz"]);
}

#[test]
fn merge_keeps_books_added_mid_scan() {
    let a = book(1, "a.cbz");
    let worker = vec![a.clone()];
    let db = vec![a, book(2, "added-mid-scan.cbz")];
    let merged = merge(&worker, &db, &[], &[]);
    assert_eq!(paths(&merged), vec!["a.cbz", "added-mid-scan.cbz"]);
}

#[test]
fn merge_keeps_the_database_copy_for_touched_books() {
    let a = book(1, "a.cbz");
    let b = book(2, "b.cbz");
    let mut edited = a.clone();
    edited.title = "Edited Mid-Scan";
    let touched = vec![a.id];
    let worker = vec![a, b.clone()];
    let db = vec![edited, b];
    let merged = merge(&worker, &db, &[], &touched);
    assert_eq!(paths(&merged), vec!["a.cbz", "b.cbz"]);
    assert_eq!(merged[0].title, "Edited Mid-Scan");
}

#[test]
fn merge_drops_removed_books_everywhere() {
    let a = book(1, "a.cbz");
    let removed_book = book(2, "removed-mid-scan.cbz");
    let removed = vec![removed_book.id];
    let worker = vec![a.clone(), removed_book];
    let db = vec![a];
    let merged = merge(&worker, &db, &removed, &[]);
    assert_eq!(paths(&merged), vec!["a.cbz"]);
}

#[test]
fn merge_pump_added_books_do_not_duplicate() {
    let a = book(1, "a.cbz");
    let pumped = book(2, "pumped.cbz");
    let worker = vec![a.clone(), pumped.clone()];
    let db = vec![a, pumped];
    let merged = merge(&worker, &db, &[], &[]);
    assert_eq!(paths(&merged), vec!["a.cbz", "pumped.cbz"]);
}

#[test]
fn merge_touched_pump_added_book_keeps_the_database_copy() {
    let a = book(1, "a.cbz");
    let pumped = book(2, "pumped.cbz");
    let mut edited = pumped.clone();
    edited.title = "Edited After Pump";
    let touched = vec![pumped.id];
    let worker = vec![a.clone(), pumped];
    let db = vec![a, edited];
    let merged = merge(&worker, &db, &[], &touched);
    assert_eq!(merged[1].title, "Edited After Pump");
}

#[test]
fn merge_plan_lists_the_scan_first_then_the_added_books() {
    // Scan: a b c; database: b x c y (x, y added meanwhile); b removed,
    // c changed meanwhile.
    let plan = merge_scan_storage(&[1, 2, 3], &[2, 10, 3, 11], &[2], &[3]);
    assert_eq!(
        plan,
        vec![
            MergeSource::Worker(0),
            MergeSource::Database(2),
            MergeSource::Database(1),
            MergeSource::Database(3),
        ]
    );
}

#[test]
fn merge_plan_of_a_touched_book_missing_from_the_database_keeps_the_scan_copy() {
    let plan = merge_scan_storage(&[7], &[], &[], &[7]);
    assert_eq!(plan, vec![MergeSource::Worker(0)]);
}

#[test]
fn merge_plan_takes_the_last_database_copy_of_a_touched_book() {
    let plan = merge_scan_storage(&[5], &[5, 5], &[], &[5]);
    assert_eq!(plan, vec![MergeSource::Database(1)]);
}

#[test]
fn distinct_paths_drop_empties_and_duplicates() {
    let paths = distinct_paths(vec![
        "a.cbz".to_string(),
        String::new(),
        "a.cbz".to_string(),
        "b.cbz".to_string(),
    ]);
    assert_eq!(paths, vec!["a.cbz".to_string(), "b.cbz".to_string()]);
}

#[test]
fn distinct_paths_keep_the_first_seen_order() {
    let paths = distinct_paths(vec![
        "c.cbz".to_string(),
        "a.cbz".to_string(),
        "c.cbz".to_string(),
        String::new(),
    ]);
    assert_eq!(paths, vec!["c.cbz".to_string(), "a.cbz".to_string()]);
}

#[test]
fn folder_scan_routing_is_component_aware() {
    let roots = vec!["/comics/incoming".to_string()];
    assert_eq!(
        scan_target_for_path("/COMICS/incoming/", &roots, false),
        ScanTarget::Incoming
    );
    // Below the root the incoming configuration's own verdict decides.
    assert_eq!(
        scan_target_for_path("/comics/incoming/series", &roots, true),
        ScanTarget::Incoming
    );
    assert_eq!(
        scan_target_for_path("/comics/incoming-old", &roots, false),
        ScanTarget::Library
    );
}

#[test]
fn routing_treats_backslashes_as_separators() {
    let roots = vec!["C:\\Comics\\Incoming\\".to_string()];
    assert_eq!(
        scan_target_for_path("c:/comics/incoming", &roots, false),
        ScanTarget::Incoming
    );
    assert_eq!(
        scan_target_for_path("c:/comics", &roots, false),
        ScanTarget::Library
    );
}

#[test]
fn routing_never_matches_an_empty_path() {
    let roots = vec!["/".to_string()];
    assert_eq!(scan_target_for_path("//", &roots, false), ScanTarget::Library);
    assert_eq!(scan_target_for_path("", &roots, true), ScanTarget::Incoming);
}
