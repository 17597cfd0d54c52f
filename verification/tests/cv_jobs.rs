use std::sync::atomic::{AtomicBool, Ordering};
use std::sync::Arc;

use cr_ui::session::{
    abort_cv_job, cv_job, cv_job_active, end_cv_job, set_cv_job_progress, start_cv_job, CvJobKind,
    CvJobSlot,
};

fn flag() -> Arc<AtomicBool> {
    Arc::new(AtomicBool::new(false))
}

#[test]
fn the_job_slot_holds_one_job_at_a_time() {
    let mut slot = CvJobSlot::new();
    end_cv_job(&mut slot);
    assert!(!cv_job_active(&slot));
    assert!(start_cv_job(&mut slot, CvJobKind::Sweep, flag()));
    assert!(cv_job_active(&slot));
    assert!(!start_cv_job(&mut slot, CvJobKind::Warm, flag()));
    assert_eq!(cv_job(&slot).map(|j| j.kind), Some(CvJobKind::Sweep));
    end_cv_job(&mut slot);
    assert!(!cv_job_active(&slot));
    assert!(start_cv_job(&mut slot, CvJobKind::Warm, flag()));
    end_cv_job(&mut slot);
}

#[test]
fn the_job_text_reads_as_a_sentence() {
    let mut slot = CvJobSlot::new();
    end_cv_job(&mut slot);
    assert!(start_cv_job(&mut slot, CvJobKind::Sweep, flag()));
    assert_eq!(
        cv_job(&slot).map(|j| j.text()),
        Some("Updating the Comic Vine cache".to_string())
    );
    set_cv_job_progress(&mut slot, "page 3 of 53".into(), 300, 5300);
    let job = cv_job(&slot).expect("a job runs");
    assert_eq!(
        job.text(),
        "Updating the Comic Vine cache \u{2014} page 3 of 53"
    );
    assert_eq!(job.done, 300);
    assert_eq!(job.total, 5300);
    end_cv_job(&mut slot);
}

#[test]
fn progress_after_the_job_ended_is_dropped() {
    let mut slot = CvJobSlot::new();
    end_cv_job(&mut slot);
    set_cv_job_progress(&mut slot, "ghost".into(), 1, 2);
    assert_eq!(cv_job(&slot), None);
}

#[test]
fn the_abort_reaches_the_worker_flag() {
    let mut slot = CvJobSlot::new();
    end_cv_job(&mut slot);
    let cancel = flag();
    assert!(start_cv_job(&mut slot, CvJobKind::Warm, Arc::clone(&cancel)));
    assert!(!cancel.load(Ordering::Relaxed));
    abort_cv_job(&slot);
    assert!(cancel.load(Ordering::Relaxed), "the worker can see it");
    end_cv_job(&mut slot);
}

#[test]
fn an_abort_with_no_job_is_harmless() {
    let mut slot = CvJobSlot::new();
    end_cv_job(&mut slot);
    assert!(!abort_cv_job(&slot));
    assert!(!cv_job_active(&slot));
}

#[test]
fn every_kind_has_a_label() {
    for kind in [CvJobKind::Import, CvJobKind::Sweep, CvJobKind::Warm] {
        assert!(!kind.label().is_empty());
    }
}

#[test]
fn a_refused_start_leaves_the_running_job_and_its_flag() {
    let mut slot = CvJobSlot::new();
    let first = flag();
    let second = flag();
    assert!(start_cv_job(&mut slot, CvJobKind::Import, Arc::clone(&first)));
    set_cv_job_progress(&mut slot, "book 1 of 9".into(), 1, 9);
    assert!(!start_cv_job(&mut slot, CvJobKind::Sweep, Arc::clone(&second)));
    let job = cv_job(&slot).expect("the first job still runs");
    assert_eq!(job.kind, CvJobKind::Import);
    assert_eq!(job.detail, "book 1 of 9");
    assert!(abort_cv_job(&slot));
    assert!(first.load(Ordering::Relaxed));
    assert!(!second.load(Ordering::Relaxed));
}

#[test]
fn a_new_job_starts_without_progress() {
    let mut slot = CvJobSlot::new();
    assert!(start_cv_job(&mut slot, CvJobKind::MissingIssuesGap, flag()));
    let job = cv_job(&slot).expect("a job runs");
    assert_eq!((job.done, job.total), (0, 0));
    assert_eq!(job.text(), CvJobKind::MissingIssuesGap.label());
}
