use std::sync::atomic::{AtomicBool, Ordering};
use std::sync::Arc;

use cr_ui::session::{
    abort_remove_books, abort_scan, is_library_scanning, is_scanning, record_scan_problems,
    record_scan_removal, record_scan_touch, remove_books_progress, remove_job_line,
    scan_location, skip_current_scan_file, take_scan_completion_error, take_scan_problem_summary,
    take_scan_side_effects, RemoveBooksOutcome, RemoveJob, ScanProblemSummary, ScanSession, ScanTarget,
};
use cr_ui::session::{
    finish_remove_outcome, land_remove_batch, queue_scan, remove_worker_next, RemoveWorker, remove_job_batch, remove_job_ended, remove_job_started, remove_request_refused, scan_finished,
    scan_progress, scan_started,
};
use cr_ui::text::{decimal, page_subtitle};

#[test]
fn the_problem_message_lists_each_nonzero_count() {
    let summary = ScanProblemSummary { unreadable: 2, mismatched: 0, timed_out: 1, skipped: 0, skipped_known_bad: 3 };
    assert_eq!(summary.total(), 3);
    assert!(!summary.is_empty());
    assert_eq!(
        summary.message(),
        "2 could not be read\n1 took too long and were abandoned\n3 were left alone because they failed before and have not changed"
    );
    assert!(ScanProblemSummary::default().is_empty());
    assert_eq!(ScanProblemSummary::default().message(), "");
}

#[test]
fn problems_add_up_over_a_run() {
    let mut tally = ScanProblemSummary::default();
    let run = ScanProblemSummary { unreadable: 1, mismatched: 2, timed_out: 0, skipped: 4, skipped_known_bad: 1 };
    record_scan_problems(&mut tally, &run);
    record_scan_problems(&mut tally, &run);
    assert_eq!(tally, ScanProblemSummary { unreadable: 2, mismatched: 4, timed_out: 0, skipped: 8, skipped_known_bad: 2 });
    assert_eq!(tally.total(), 14);
}

#[test]
fn changes_are_recorded_only_while_a_library_scan_runs() {
    let mut session: ScanSession<u32> = ScanSession::new();
    record_scan_removal(&mut session, 7);
    assert!(session.removed_ids.is_empty());
    session.in_flight = true;
    assert!(is_scanning(&session));
    assert!(is_library_scanning(&session));
    record_scan_removal(&mut session, 7);
    record_scan_removal(&mut session, 7);
    record_scan_touch(&mut session, 8);
    let (removed, touched) = take_scan_side_effects(&mut session);
    assert_eq!(removed, vec![7]);
    assert_eq!(touched, vec![8]);
    assert!(session.removed_ids.is_empty() && session.touched_ids.is_empty());
    session.target = ScanTarget::Incoming;
    assert!(!is_library_scanning(&session));
    record_scan_touch(&mut session, 9);
    assert!(session.touched_ids.is_empty());
}

#[test]
fn aborting_a_scan_drops_the_queue_and_raises_the_stop_flag() {
    let mut session: ScanSession<u32> = ScanSession::new();
    let stop = Arc::new(AtomicBool::new(false));
    let skip = Arc::new(AtomicBool::new(false));
    session.queue = vec![1, 2, 3];
    session.in_flight = true;
    session.location = "/comics".to_string();
    session.stop = Some(Arc::clone(&stop));
    session.skip = Some(Arc::clone(&skip));
    assert_eq!(scan_location(&session), "/comics");
    assert!(skip_current_scan_file(&session));
    assert!(skip.load(Ordering::Relaxed));
    abort_scan(&mut session);
    assert!(session.queue.is_empty());
    assert!(stop.load(Ordering::Relaxed));
    assert!(session.in_flight);
}

#[test]
fn taking_the_tally_and_the_error_resets_them() {
    let mut session: ScanSession<u32> = ScanSession::new();
    session.problems.unreadable = 5;
    session.completion_error = Some((ScanTarget::Library, "disk full".to_string()));
    assert_eq!(take_scan_problem_summary(&mut session).unreadable, 5);
    assert_eq!(session.problems, ScanProblemSummary::default());
    assert_eq!(
        take_scan_completion_error(&mut session),
        Some((ScanTarget::Library, "disk full".to_string()))
    );
    assert_eq!(take_scan_completion_error(&mut session), None);
}

#[test]
fn the_remove_job_line_reports_progress() {
    let mut job = RemoveJob::new();
    assert_eq!(remove_books_progress(&job), None);
    assert_eq!(remove_job_line(&job), None);
    assert!(!abort_remove_books(&job));
    let stop = Arc::new(AtomicBool::new(false));
    job.in_flight = true;
    job.progress = (3, 10);
    job.stop = Some(Arc::clone(&stop));
    assert_eq!(remove_books_progress(&job), Some((3, 10)));
    assert_eq!(remove_job_line(&job), Some("Deleting books \u{2014} 3 of 10".to_string()));
    assert!(abort_remove_books(&job));
    assert!(stop.load(Ordering::Relaxed));
}

#[test]
fn numbers_and_page_counters_read_in_decimal() {
    assert_eq!(decimal(0), "0");
    assert_eq!(decimal(1905), "1905");
    assert_eq!(decimal(u64::MAX), u64::MAX.to_string());
    assert_eq!(page_subtitle(2, 20), "Page 3 of 20");
    assert_eq!(page_subtitle(0, 0), "No pages");
}

#[test]
fn a_request_waits_while_a_scan_runs_and_comes_out_when_it_ends() {
    let mut session: ScanSession<&str> = ScanSession::new();
    assert_eq!(queue_scan(&mut session, "first"), Some("first"));
    let stop = Arc::new(AtomicBool::new(false));
    let skip = Arc::new(AtomicBool::new(false));
    scan_started(&mut session, ScanTarget::Library, "/comics".to_string(), stop, skip);
    assert!(is_library_scanning(&session));
    assert_eq!(queue_scan(&mut session, "second"), None);
    assert_eq!(queue_scan(&mut session, "third"), None);
    scan_progress(&mut session, "/comics/a.cbz".to_string());
    assert_eq!(scan_location(&session), "/comics/a.cbz");
    assert_eq!(scan_finished(&mut session, None), Some("second"));
    assert!(!is_scanning(&session));
    assert_eq!(scan_location(&session), "");
    assert!(session.stop.is_none() && session.skip.is_none());
    assert_eq!(session.completion_error, None);
    assert_eq!(scan_finished(&mut session, Some("disk full".to_string())), Some("third"));
    assert_eq!(session.completion_error, Some((ScanTarget::Library, "disk full".to_string())));
    assert_eq!(scan_finished(&mut session, None), None);
}

#[test]
fn a_remove_job_counts_its_batches() {
    let mut job = RemoveJob::new();
    assert!(!remove_request_refused(&job, false));
    assert!(remove_request_refused(&job, true));
    remove_job_started(&mut job, 5, Arc::new(AtomicBool::new(false)));
    assert!(remove_request_refused(&job, false));
    assert_eq!(remove_job_batch(&mut job, &[true, false, true]), (2, 1));
    assert_eq!(remove_books_progress(&job), Some((3, 5)));
    assert_eq!(remove_job_batch(&mut job, &[]), (0, 0));
    assert_eq!(remove_job_batch(&mut job, &[false, false]), (0, 2));
    assert_eq!(remove_job_line(&job), Some("Deleting books \u{2014} 5 of 5".to_string()));
    remove_job_ended(&mut job);
    assert_eq!(remove_books_progress(&job), None);
    assert!(job.stop.is_none());
}

#[test]
fn the_remove_outcome_collects_landed_ids_in_order() {
    let mut outcome = RemoveBooksOutcome::new();
    land_remove_batch(&mut outcome, &[(7, true), (8, false), (9, true)]);
    land_remove_batch(&mut outcome, &[(10, true)]);
    assert_eq!(outcome.removed_ids, vec![7, 9, 10]);
    assert_eq!(outcome.removed, 3);
    assert_eq!(outcome.failed, 1);
    assert!(!outcome.canceled);
    assert!(outcome.deleted_paths.is_empty());
}

#[test]
fn a_refused_remove_request_is_answered_canceled() {
    let mut job = RemoveJob::new();
    remove_job_started(&mut job, 2, Arc::new(AtomicBool::new(false)));
    assert!(remove_request_refused(&job, false));
    let answer = RemoveBooksOutcome::refused();
    assert!(answer.canceled);
    assert_eq!((answer.removed, answer.failed), (0, 0));
    assert!(answer.removed_ids.is_empty());
}

#[test]
fn a_stopped_worker_ends_canceled_before_the_next_file() {
    let mut worker = RemoveWorker::new(3);
    assert!(remove_worker_next(&mut worker, false));
    assert!(!remove_worker_next(&mut worker, true));
    assert_eq!(worker, RemoveWorker { processed: 1, total: 3, canceled: true });
    // Once stopped it stays stopped.
    assert!(!remove_worker_next(&mut worker, false));
    let mut outcome = RemoveBooksOutcome::new();
    land_remove_batch(&mut outcome, &[(4, true)]);
    finish_remove_outcome(&mut outcome, &worker);
    assert!(outcome.canceled);
    assert_eq!(outcome.removed_ids, vec![4]);
}

#[test]
fn an_unstopped_worker_walks_every_item() {
    let mut worker = RemoveWorker::new(2);
    assert!(remove_worker_next(&mut worker, false));
    assert!(remove_worker_next(&mut worker, false));
    assert!(!remove_worker_next(&mut worker, true));
    assert_eq!(worker, RemoveWorker { processed: 2, total: 2, canceled: false });
    let mut outcome = RemoveBooksOutcome::new();
    finish_remove_outcome(&mut outcome, &worker);
    assert!(!outcome.canceled);
}
