//! The library session's job state: the single Comic Vine cache job slot,
//! the scan run (its queue, abort and skip flags, problem tally and the
//! records of what changed while it ran) and the bulk remove job.

use std::sync::atomic::AtomicBool;
use std::sync::Arc;

use vstd::prelude::*;

use crate::text::{decimal_usize, spec_decimal};

verus! {

/// Which collection a scan feeds.
#[derive(Clone, Copy, Debug, PartialEq, Eq, Structural)]
pub enum ScanTarget {
    Library,
    Incoming,
}

/// Which Comic Vine cache job runs.
#[derive(Clone, Copy, Debug, PartialEq, Eq, Structural)]
pub enum CvJobKind {
    Import,
    Sweep,
    Warm,
    IncomingRefresh,
    MissingIssuesGap,
    LinkSeriesSearch,
    SeriesMetadataPropagation,
    CacheManager,
}

/// The heading a job kind shows in the status bar and the task list.
pub open spec fn spec_label(kind: CvJobKind) -> Seq<char> {
    match kind {
        CvJobKind::Import => "Importing an MCL file"@,
        CvJobKind::Sweep => "Updating the Comic Vine cache"@,
        CvJobKind::Warm => "Warming the Comic Vine cache"@,
        CvJobKind::IncomingRefresh => "Refreshing Incoming from Comic Vine"@,
        CvJobKind::MissingIssuesGap => "Computing the Missing Issues report"@,
        CvJobKind::LinkSeriesSearch => "Searching Comic Vine for a series"@,
        CvJobKind::SeriesMetadataPropagation => "Applying cached series metadata"@,
        CvJobKind::CacheManager => "Updating one Comic Vine series"@,
    }
}

impl CvJobKind {
    /// The heading the status bar and the task list show.
    pub fn label(self) -> (r: &'static str)
        ensures
            r@ == spec_label(self),
    {
        match self {
            CvJobKind::Import => "Importing an MCL file",
            CvJobKind::Sweep => "Updating the Comic Vine cache",
            CvJobKind::Warm => "Warming the Comic Vine cache",
            CvJobKind::IncomingRefresh => "Refreshing Incoming from Comic Vine",
            CvJobKind::MissingIssuesGap => "Computing the Missing Issues report",
            CvJobKind::LinkSeriesSearch => "Searching Comic Vine for a series",
            CvJobKind::SeriesMetadataPropagation => "Applying cached series metadata",
            CvJobKind::CacheManager => "Updating one Comic Vine series",
        }
    }
}

/// The running Comic Vine cache job: its kind, the progress line, and the
/// work done and expected (`total` zero when unknown).
#[derive(Debug, PartialEq, Eq)]
pub struct CvJob {
    pub kind: CvJobKind,
    pub detail: String,
    pub done: i64,
    pub total: i64,
}

/// The job line: the heading alone, or the heading, a dash and the detail.
pub open spec fn spec_job_text(kind: CvJobKind, detail: Seq<char>) -> Seq<char> {
    if detail.len() == 0 {
        spec_label(kind)
    } else {
        spec_label(kind) + " \u{2014} "@ + detail
    }
}

impl CvJob {
    /// "Updating the Comic Vine cache — page 12 of 53".
    pub fn text(&self) -> (r: String)
        ensures
            r@ == spec_job_text(self.kind, self.detail@),
    {
        let mut s = String::from_str(self.kind.label());
        if self.detail.as_str().unicode_len() == 0 {
            return s;
        }
        s.append(" \u{2014} ");
        s.append(self.detail.as_str());
        s
    }
}

/// What is known of the job slot: the job's kind, detail, done and total,
/// or nothing when no job runs.
pub type JobView = Option<(CvJobKind, Seq<char>, i64, i64)>;

/// Claiming the slot succeeds only when it is free; the new job has no
/// detail and no progress.
pub open spec fn spec_start(s: JobView, kind: CvJobKind) -> (JobView, bool) {
    if s is None {
        (Some((kind, Seq::empty(), 0i64, 0i64)), true)
    } else {
        (s, false)
    }
}

/// Progress updates the running job and is dropped when none runs.
pub open spec fn spec_progress(s: JobView, detail: Seq<char>, done: i64, total: i64) -> JobView {
    match s {
        Some((kind, _, _, _)) => Some((kind, detail, done, total)),
        None => None,
    }
}

/// The slot holds one job at a time: once a job is started, starting
/// another is refused and the first job stays.
pub proof fn law_one_job_at_a_time(s: JobView, first: CvJobKind, second: CvJobKind)
    requires
        spec_start(s, first).1,
    ensures
        !spec_start(spec_start(s, first).0, second).1,
        spec_start(spec_start(s, first).0, second).0 == spec_start(s, first).0,
        spec_start(s, first).0 matches Some((kind, detail, done, total)) && kind == first && detail.len() == 0
            && done == 0 && total == 0,
{
}

/// Ending a job frees the slot: the next start succeeds whatever ran
/// before.
pub proof fn law_slot_free_after_end(kind: CvJobKind)
    ensures
        spec_start(None, kind).1,
{
}

/// Progress reported after the job ended is dropped; progress for a
/// running job replaces its detail and counts and keeps its kind.
pub proof fn law_progress_only_for_a_running_job(s: JobView, detail: Seq<char>, done: i64, total: i64)
    ensures
        s is None ==> spec_progress(s, detail, done, total) is None,
        s matches Some((kind, _, _, _)) ==> spec_progress(s, detail, done, total) == Some(
            (kind, detail, done, total),
        ),
{
}

/// The single slot for the Comic Vine cache job, with the running job's
/// abort flag. One job at a time: the cache jobs share one sweep position
/// and one request budget.
pub struct CvJobSlot {
    job: Option<CvJob>,
    cancel: Option<Arc<AtomicBool>>,
}

impl CvJobSlot {
    #[verifier::type_invariant]
    spec fn inv(self) -> bool {
        self.job is Some <==> self.cancel is Some
    }

    /// The running job, if any.
    pub closed spec fn view(self) -> JobView {
        match self.job {
            Some(j) => Some((j.kind, j.detail@, j.done, j.total)),
            None => None,
        }
    }

    /// The running job's abort flag, if any.
    pub closed spec fn cancel_flag(self) -> Option<Arc<AtomicBool>> {
        self.cancel
    }

    /// An empty slot.
    pub fn new() -> (r: CvJobSlot)
        ensures
            r.view() is None,
            r.cancel_flag() is None,
    {
        CvJobSlot { job: None, cancel: None }
    }
}

/// Claims the job slot for a job of `kind` whose abort flag is `cancel`.
/// Refused (and the slot unchanged) when a job already runs.
pub fn start_cv_job(slot: &mut CvJobSlot, kind: CvJobKind, cancel: Arc<AtomicBool>) -> (r: bool)
    ensures
        (final(slot).view(), r) == spec_start(old(slot).view(), kind),
        r ==> final(slot).cancel_flag() == Some(cancel),
        !r ==> final(slot).cancel_flag() == old(slot).cancel_flag(),
{
    proof {
        use_type_invariant(&*slot);
    }
    if slot.job.is_some() {
        return false;
    }
    let job = CvJob { kind, detail: String::new(), done: 0, total: 0 };
    *slot = CvJobSlot { job: Some(job), cancel: Some(cancel) };
    true
}

/// Updates the running job's progress; dropped when no job runs.
pub fn set_cv_job_progress(slot: &mut CvJobSlot, detail: String, done: i64, total: i64)
    ensures
        final(slot).view() == spec_progress(old(slot).view(), detail@, done, total),
        final(slot).cancel_flag() == old(slot).cancel_flag(),
{
    proof {
        use_type_invariant(&*slot);
    }
    let ghost d = detail@;
    let mut taken = CvJobSlot { job: None, cancel: None };
    std::mem::swap(slot, &mut taken);
    proof {
        use_type_invariant(&taken);
    }
    let CvJobSlot { job, cancel } = taken;
    match job {
        Some(j) => {
            let updated = CvJob { kind: j.kind, detail, done, total };
            *slot = CvJobSlot { job: Some(updated), cancel };
        },
        None => {
            *slot = CvJobSlot { job: None, cancel };
        },
    }
}

/// Releases the slot.
pub fn end_cv_job(slot: &mut CvJobSlot)
    ensures
        final(slot).view() is None,
        final(slot).cancel_flag() is None,
{
    *slot = CvJobSlot { job: None, cancel: None };
}

/// A copy of the running job, or `None`.
pub fn cv_job(slot: &CvJobSlot) -> (r: Option<CvJob>)
    ensures
        slot.view() is None ==> r is None,
        slot.view() matches Some((kind, detail, done, total)) ==> (r matches Some(j) && j.kind == kind
            && j.detail@ == detail && j.done == done && j.total == total),
{
    match &slot.job {
        Some(j) => Some(CvJob { kind: j.kind, detail: j.detail.clone(), done: j.done, total: j.total }),
        None => None,
    }
}

/// Whether a job runs (the status-bar lamp).
pub fn cv_job_active(slot: &CvJobSlot) -> (r: bool)
    ensures
        r == (slot.view() is Some),
{
    slot.job.is_some()
}

/// Asks the running job to stop by raising its abort flag (the worker
/// reads it between steps). Harmless when no job runs; the slot itself is
/// unchanged.
pub fn abort_cv_job(slot: &CvJobSlot) -> (requested: bool)
    ensures
        requested == (slot.view() is Some),
        requested == (slot.cancel_flag() is Some),
{
    proof {
        use_type_invariant(slot);
    }
    match &slot.cancel {
        Some(flag) => {
            flag.store(true, std::sync::atomic::Ordering::Relaxed);
            true
        },
        None => false,
    }
}

/// The problems found since the current run of scans began.
#[derive(Clone, Copy, Debug, Default, PartialEq, Eq, Structural)]
pub struct ScanProblemSummary {
    pub unreadable: usize,
    pub mismatched: usize,
    pub timed_out: usize,
    pub skipped: usize,
    pub skipped_known_bad: usize,
}

/// The problems that count against a scan (the known-bad skips do not).
pub open spec fn spec_total(s: ScanProblemSummary) -> int {
    s.unreadable + s.mismatched + s.timed_out + s.skipped
}

/// The summary with every count zero.
pub open spec fn spec_no_problems() -> ScanProblemSummary {
    ScanProblemSummary { unreadable: 0, mismatched: 0, timed_out: 0, skipped: 0, skipped_known_bad: 0 }
}

/// The report line of one problem count, or nothing when it is zero.
pub open spec fn problem_line(count: usize, text: Seq<char>) -> Seq<Seq<char>> {
    if count > 0 {
        seq![spec_decimal(count as nat) + text]
    } else {
        Seq::empty()
    }
}

/// The report lines, in the order the report lists them.
pub open spec fn spec_problem_lines(s: ScanProblemSummary) -> Seq<Seq<char>> {
    problem_line(s.unreadable, " could not be read"@) + problem_line(
        s.timed_out,
        " took too long and were abandoned"@,
    ) + problem_line(s.skipped, " were skipped by hand"@) + problem_line(
        s.mismatched,
        " have contents that do not match their file name (these were imported)"@,
    ) + problem_line(
        s.skipped_known_bad,
        " were left alone because they failed before and have not changed"@,
    )
}

/// Lines joined with line breaks.
pub open spec fn spec_join_lines(lines: Seq<Seq<char>>) -> Seq<char>
    decreases lines.len(),
{
    if lines.len() == 0 {
        Seq::empty()
    } else if lines.len() == 1 {
        lines[0]
    } else {
        spec_join_lines(lines.drop_last()) + "\n"@ + lines.last()
    }
}

/// Appends one report line.
fn push_problem_line(lines: &mut Vec<String>, count: usize, text: &str)
    ensures
        final(lines)@.map_values(|s: String| s@) == old(lines)@.map_values(|s: String| s@) + problem_line(
            count,
            text@,
        ),
{
    let ghost before = lines@.map_values(|s: String| s@);
    if count > 0 {
        let mut line = decimal_usize(count);
        line.append(text);
        lines.push(line);
        assert(lines@.map_values(|s: String| s@) =~= before + problem_line(count, text@));
    } else {
        assert(lines@.map_values(|s: String| s@) =~= before + problem_line(count, text@));
    }
}

impl ScanProblemSummary {
    /// The problems that count against the scan.
    pub fn total(&self) -> (r: usize)
        requires
            spec_total(*self) <= usize::MAX,
        ensures
            r == spec_total(*self),
    {
        self.unreadable + self.mismatched + self.timed_out + self.skipped
    }

    pub fn is_empty(&self) -> (r: bool)
        requires
            spec_total(*self) <= usize::MAX,
        ensures
            r == (spec_total(*self) == 0),
    {
        self.total() == 0
    }

    /// The one-paragraph report shown after a scan: one line per nonzero
    /// count.
    pub fn message(&self) -> (r: String)
        ensures
            r@ == spec_join_lines(spec_problem_lines(*self)),
    {
        let mut lines: Vec<String> = Vec::new();
        assert(lines@.map_values(|s: String| s@) =~= Seq::<Seq<char>>::empty());
        push_problem_line(&mut lines, self.unreadable, " could not be read");
        push_problem_line(&mut lines, self.timed_out, " took too long and were abandoned");
        push_problem_line(&mut lines, self.skipped, " were skipped by hand");
        push_problem_line(
            &mut lines,
            self.mismatched,
            " have contents that do not match their file name (these were imported)",
        );
        push_problem_line(
            &mut lines,
            self.skipped_known_bad,
            " were left alone because they failed before and have not changed",
        );
        assert(lines@.map_values(|s: String| s@) =~= spec_problem_lines(*self));
        join_lines(&lines)
    }
}

/// Lines joined with line breaks.
fn join_lines(lines: &Vec<String>) -> (r: String)
    ensures
        r@ == spec_join_lines(lines@.map_values(|s: String| s@)),
{
    let ghost views = lines@.map_values(|s: String| s@);
    let mut out = String::new();
    let mut i: usize = 0;
    while i < lines.len()
        invariant
            i <= lines@.len(),
            views == lines@.map_values(|s: String| s@),
            out@ == spec_join_lines(views.take(i as int)),
        decreases lines@.len() - i,
    {
        if i > 0 {
            out.append("\n");
        }
        out.append(lines[i].as_str());
        proof {
            assert(views.take(i + 1).drop_last() =~= views.take(i as int));
            if i == 0 {
                assert(views.take(1) =~= seq![views[0]]);
            }
        }
        i = i + 1;
    }
    proof {
        assert(views.take(lines@.len() as int) =~= views);
    }
    out
}

/// Adds one scan's problem counts to the run's tally.
pub fn record_scan_problems(summary: &mut ScanProblemSummary, run: &ScanProblemSummary)
    requires
        old(summary).unreadable + run.unreadable <= usize::MAX,
        old(summary).mismatched + run.mismatched <= usize::MAX,
        old(summary).timed_out + run.timed_out <= usize::MAX,
        old(summary).skipped + run.skipped <= usize::MAX,
        old(summary).skipped_known_bad + run.skipped_known_bad <= usize::MAX,
    ensures
        final(summary).unreadable == old(summary).unreadable + run.unreadable,
        final(summary).mismatched == old(summary).mismatched + run.mismatched,
        final(summary).timed_out == old(summary).timed_out + run.timed_out,
        final(summary).skipped == old(summary).skipped + run.skipped,
        final(summary).skipped_known_bad == old(summary).skipped_known_bad + run.skipped_known_bad,
{
    summary.unreadable = summary.unreadable + run.unreadable;
    summary.mismatched = summary.mismatched + run.mismatched;
    summary.timed_out = summary.timed_out + run.timed_out;
    summary.skipped = summary.skipped + run.skipped;
    summary.skipped_known_bad = summary.skipped_known_bad + run.skipped_known_bad;
}

/// The state of the scan run: the requests waiting behind the running scan,
/// whether one runs, what it feeds and where it walks, its abort and skip
/// flags, the problem tally, a failure that kept it from landing, and the
/// book ids removed or changed while it ran.
pub struct ScanSession<Q> {
    pub queue: Vec<Q>,
    pub in_flight: bool,
    pub target: ScanTarget,
    pub location: String,
    pub stop: Option<Arc<AtomicBool>>,
    pub skip: Option<Arc<AtomicBool>>,
    pub problems: ScanProblemSummary,
    pub completion_error: Option<(ScanTarget, String)>,
    pub removed_ids: Vec<u128>,
    pub touched_ids: Vec<u128>,
}

impl<Q> ScanSession<Q> {
    /// An idle session has no location and no stop or skip flag.
    pub open spec fn wf(self) -> bool {
        !self.in_flight ==> self.location@.len() == 0 && self.stop is None && self.skip is None
    }

    /// An idle session.
    pub fn new() -> (r: ScanSession<Q>)
        ensures
            r.queue@.len() == 0,
            !r.in_flight,
            r.target == ScanTarget::Library,
            r.location@.len() == 0,
            r.stop is None,
            r.skip is None,
            r.problems == spec_no_problems(),
            r.completion_error is None,
            r.removed_ids@.len() == 0,
            r.touched_ids@.len() == 0,
            r.wf(),
    {
        ScanSession {
            queue: Vec::new(),
            in_flight: false,
            target: ScanTarget::Library,
            location: String::new(),
            stop: None,
            skip: None,
            problems: ScanProblemSummary {
                unreadable: 0,
                mismatched: 0,
                timed_out: 0,
                skipped: 0,
                skipped_known_bad: 0,
            },
            completion_error: None,
            removed_ids: Vec::new(),
            touched_ids: Vec::new(),
        }
    }
}

/// Whether a scan runs (the status-bar scan lamp).
pub fn is_scanning<Q>(session: &ScanSession<Q>) -> (r: bool)
    ensures
        r == session.in_flight,
{
    session.in_flight
}

/// Whether a scan of the library (not of Incoming) runs.
pub fn is_library_scanning<Q>(session: &ScanSession<Q>) -> (r: bool)
    ensures
        r == (session.in_flight && session.target == ScanTarget::Library),
{
    is_scanning(session) && session.target == ScanTarget::Library
}

/// The location the running scan walks (empty when idle).
pub fn scan_location<Q>(session: &ScanSession<Q>) -> (r: String)
    ensures
        r@ == session.location@,
        session.wf() && !session.in_flight ==> r@.len() == 0,
{
    session.location.clone()
}

/// Aborts scanning: drops the waiting requests and raises the running
/// scan's stop flag (it stops at the next file; what it found so far
/// stays).
pub fn abort_scan<Q>(session: &mut ScanSession<Q>)
    ensures
        final(session).queue@.len() == 0,
        final(session).in_flight == old(session).in_flight,
        final(session).target == old(session).target,
        final(session).location == old(session).location,
        final(session).stop == old(session).stop,
        final(session).skip == old(session).skip,
        final(session).problems == old(session).problems,
        final(session).completion_error == old(session).completion_error,
        final(session).removed_ids == old(session).removed_ids,
        final(session).touched_ids == old(session).touched_ids,
        old(session).wf() ==> final(session).wf(),
{
    session.queue.clear();
    match &session.stop {
        Some(flag) => flag.store(true, std::sync::atomic::Ordering::Relaxed),
        None => {},
    }
}

/// Abandons the file the running scan reads now and lets it go on with the
/// next one, by raising its skip flag. Returns whether a scan was there to
/// receive it.
pub fn skip_current_scan_file<Q>(session: &ScanSession<Q>) -> (requested: bool)
    ensures
        requested == (session.skip is Some),
{
    match &session.skip {
        Some(flag) => {
            flag.store(true, std::sync::atomic::Ordering::Relaxed);
            true
        },
        None => false,
    }
}

/// Takes the run's problem tally and resets it.
pub fn take_scan_problem_summary<Q>(session: &mut ScanSession<Q>) -> (r: ScanProblemSummary)
    ensures
        r == old(session).problems,
        final(session).problems == spec_no_problems(),
        final(session).queue == old(session).queue,
        final(session).in_flight == old(session).in_flight,
        final(session).completion_error == old(session).completion_error,
        old(session).wf() ==> final(session).wf(),
{
    let r = session.problems;
    session.problems = ScanProblemSummary {
        unreadable: 0,
        mismatched: 0,
        timed_out: 0,
        skipped: 0,
        skipped_known_bad: 0,
    };
    r
}

/// Takes a failure that kept a scan from landing.
pub fn take_scan_completion_error<Q>(session: &mut ScanSession<Q>) -> (r: Option<(ScanTarget, String)>)
    ensures
        r == old(session).completion_error,
        final(session).completion_error is None,
        final(session).problems == old(session).problems,
        final(session).queue == old(session).queue,
        final(session).in_flight == old(session).in_flight,
        old(session).wf() ==> final(session).wf(),
{
    session.completion_error.take()
}

/// `ids` with `id` added when it is not there yet.
pub open spec fn spec_record_id(ids: Seq<u128>, id: u128) -> Seq<u128> {
    if ids.contains(id) {
        ids
    } else {
        ids.push(id)
    }
}

fn add_id(ids: &mut Vec<u128>, id: u128)
    ensures
        final(ids)@ == spec_record_id(old(ids)@, id),
{
    let mut i: usize = 0;
    while i < ids.len()
        invariant
            i <= ids@.len(),
            forall|j: int| 0 <= j < i ==> ids@[j] != id,
        decreases ids@.len() - i,
    {
        if ids[i] == id {
            assert(ids@[i as int] == id);
            return;
        }
        i = i + 1;
    }
    ids.push(id);
}

/// Records a book removed while a library scan runs, so the scan's landing
/// does not bring it back. Nothing is recorded when no library scan runs.
pub fn record_scan_removal<Q>(session: &mut ScanSession<Q>, id: u128)
    ensures
        final(session).removed_ids@ == (if old(session).in_flight && old(session).target == ScanTarget::Library {
            spec_record_id(old(session).removed_ids@, id)
        } else {
            old(session).removed_ids@
        }),
        final(session).touched_ids == old(session).touched_ids,
        final(session).in_flight == old(session).in_flight,
        final(session).target == old(session).target,
        old(session).wf() ==> final(session).wf(),
{
    if is_library_scanning(session) {
        add_id(&mut session.removed_ids, id);
    }
}

/// Records a book changed while a library scan runs, so the landing keeps
/// the database copy of it.
pub fn record_scan_touch<Q>(session: &mut ScanSession<Q>, id: u128)
    ensures
        final(session).touched_ids@ == (if old(session).in_flight && old(session).target == ScanTarget::Library {
            spec_record_id(old(session).touched_ids@, id)
        } else {
            old(session).touched_ids@
        }),
        final(session).removed_ids == old(session).removed_ids,
        final(session).in_flight == old(session).in_flight,
        final(session).target == old(session).target,
        old(session).wf() ==> final(session).wf(),
{
    if is_library_scanning(session) {
        add_id(&mut session.touched_ids, id);
    }
}

/// Takes the records of books removed and changed during the scan (for the
/// landing merge) and clears them.
pub fn take_scan_side_effects<Q>(session: &mut ScanSession<Q>) -> (r: (Vec<u128>, Vec<u128>))
    ensures
        r.0@ == old(session).removed_ids@,
        r.1@ == old(session).touched_ids@,
        final(session).removed_ids@.len() == 0,
        final(session).touched_ids@.len() == 0,
        final(session).in_flight == old(session).in_flight,
        final(session).target == old(session).target,
        old(session).wf() ==> final(session).wf(),
{
    let mut removed: Vec<u128> = Vec::new();
    std::mem::swap(&mut session.removed_ids, &mut removed);
    let mut touched: Vec<u128> = Vec::new();
    std::mem::swap(&mut session.touched_ids, &mut touched);
    (removed, touched)
}

/// Admits a scan request: with a scan running it waits in the queue and
/// nothing starts (`None`); otherwise it comes back to be started now.
/// One scan runs at a time.
pub fn queue_scan<Q>(session: &mut ScanSession<Q>, request: Q) -> (start_now: Option<Q>)
    ensures
        old(session).in_flight ==> start_now is None && final(session).queue@ == old(session).queue@.push(request),
        !old(session).in_flight ==> start_now == Some(request) && final(session).queue@ == old(session).queue@,
        final(session).in_flight == old(session).in_flight,
        final(session).target == old(session).target,
        final(session).location == old(session).location,
        final(session).problems == old(session).problems,
        final(session).stop == old(session).stop,
        final(session).skip == old(session).skip,
        final(session).completion_error == old(session).completion_error,
        final(session).removed_ids == old(session).removed_ids,
        final(session).touched_ids == old(session).touched_ids,
        old(session).wf() ==> final(session).wf(),
{
    if session.in_flight {
        session.queue.push(request);
        None
    } else {
        Some(request)
    }
}

/// A scan starts: it runs, feeds `target`, walks `location`, and can be
/// stopped and skipped through the two flags.
pub fn scan_started<Q>(
    session: &mut ScanSession<Q>,
    target: ScanTarget,
    location: String,
    stop: Arc<AtomicBool>,
    skip: Arc<AtomicBool>,
)
    ensures
        final(session).in_flight,
        final(session).target == target,
        final(session).location@ == location@,
        final(session).stop == Some(stop),
        final(session).skip == Some(skip),
        final(session).queue == old(session).queue,
        final(session).problems == old(session).problems,
        final(session).completion_error == old(session).completion_error,
        final(session).removed_ids == old(session).removed_ids,
        final(session).touched_ids == old(session).touched_ids,
        final(session).wf(),
{
    session.in_flight = true;
    session.target = target;
    session.location = location;
    session.stop = Some(stop);
    session.skip = Some(skip);
}

/// The running scan now reads `path`.
pub fn scan_progress<Q>(session: &mut ScanSession<Q>, path: String)
    requires
        old(session).in_flight,
    ensures
        final(session).location@ == path@,
        final(session).in_flight == old(session).in_flight,
        final(session).target == old(session).target,
        final(session).problems == old(session).problems,
        final(session).queue == old(session).queue,
        final(session).stop == old(session).stop,
        final(session).skip == old(session).skip,
        final(session).completion_error == old(session).completion_error,
        final(session).removed_ids == old(session).removed_ids,
        final(session).touched_ids == old(session).touched_ids,
        final(session).wf(),
{
    session.location = path;
}

/// The running scan ended, landed or failed (`error`): the state goes idle
/// (no location, no flags), a failure is kept for the report, and the
/// request that has waited longest comes out to start next: queued
/// requests run in arrival order.
pub fn scan_finished<Q>(session: &mut ScanSession<Q>, error: Option<String>) -> (next: Option<Q>)
    ensures
        !final(session).in_flight,
        final(session).location@.len() == 0,
        final(session).stop is None,
        final(session).skip is None,
        final(session).target == old(session).target,
        final(session).problems == old(session).problems,
        error matches Some(e) ==> final(session).completion_error == Some((old(session).target, e)),
        error is None ==> final(session).completion_error == old(session).completion_error,
        old(session).queue@.len() == 0 ==> next is None && final(session).queue@.len() == 0,
        old(session).queue@.len() > 0 ==> next == Some(old(session).queue@[0]) && final(session).queue@
            == old(session).queue@.drop_first(),
        final(session).removed_ids == old(session).removed_ids,
        final(session).touched_ids == old(session).touched_ids,
        final(session).wf(),
{
    session.in_flight = false;
    session.location = String::new();
    session.stop = None;
    session.skip = None;
    match error {
        Some(e) => {
            session.completion_error = Some((session.target, e));
        },
        None => {},
    }
    if session.queue.len() == 0 {
        None
    } else {
        Some(session.queue.remove(0))
    }
}

/// Folder-watch rescans wait while a scan or an Incoming operation runs.
pub fn watcher_rescans_deferred(scanning: bool, operation_active: bool) -> (r: bool)
    ensures
        r == (scanning || operation_active),
{
    scanning || operation_active
}

/// The bulk remove job: whether it runs, its abort flag, and its
/// (processed, total) progress.
pub struct RemoveJob {
    pub in_flight: bool,
    pub stop: Option<Arc<AtomicBool>>,
    pub progress: (usize, usize),
}

impl RemoveJob {
    /// The processed count never passes the total, and an idle job has no
    /// progress and no flag.
    pub open spec fn wf(self) -> bool {
        &&& self.progress.0 <= self.progress.1
        &&& !self.in_flight ==> self.progress == (0usize, 0usize) && self.stop is None
    }

    /// An idle job.
    pub fn new() -> (r: RemoveJob)
        ensures
            !r.in_flight,
            r.stop is None,
            r.progress == (0usize, 0usize),
            r.wf(),
    {
        RemoveJob { in_flight: false, stop: None, progress: (0, 0) }
    }
}

/// Whether a bulk remove job runs.
pub fn remove_books_in_flight(job: &RemoveJob) -> (r: bool)
    ensures
        r == job.in_flight,
{
    job.in_flight
}

/// The running job's (processed, total), or `None` when idle.
pub fn remove_books_progress(job: &RemoveJob) -> (r: Option<(usize, usize)>)
    ensures
        r == (if job.in_flight {
            Some(job.progress)
        } else {
            None
        }),
        job.wf() ==> (r matches Some((done, total)) ==> done <= total),
{
    if !remove_books_in_flight(job) {
        return None;
    }
    Some(job.progress)
}

/// The task list's line for the running job: "Deleting books — 3 of 10".
pub fn remove_job_line(job: &RemoveJob) -> (r: Option<String>)
    ensures
        !job.in_flight ==> r is None,
        job.in_flight ==> (r matches Some(s) && s@ == "Deleting books \u{2014} "@ + spec_decimal(
            job.progress.0 as nat,
        ) + " of "@ + spec_decimal(job.progress.1 as nat)),
{
    match remove_books_progress(job) {
        Some((done, total)) => {
            let mut s = String::from_str("Deleting books \u{2014} ");
            s.append(decimal_usize(done).as_str());
            s.append(" of ");
            s.append(decimal_usize(total).as_str());
            Some(s)
        },
        None => None,
    }
}

/// Whether a bulk remove request is turned away (answered as canceled):
/// while another remove job or an Incoming operation runs.
pub fn remove_request_refused(job: &RemoveJob, operation_active: bool) -> (r: bool)
    ensures
        r == (job.in_flight || operation_active),
{
    remove_books_in_flight(job) || operation_active
}

/// A remove job of `total` books starts, stoppable through `stop`.
pub fn remove_job_started(job: &mut RemoveJob, total: usize, stop: Arc<AtomicBool>)
    ensures
        final(job).in_flight,
        final(job).stop == Some(stop),
        final(job).progress == (0usize, total),
        final(job).wf(),
{
    job.in_flight = true;
    job.stop = Some(stop);
    job.progress = (0, total);
}

/// How many of the outcomes are successes.
pub open spec fn count_true(s: Seq<bool>) -> nat
    decreases s.len(),
{
    if s.len() == 0 {
        0
    } else {
        count_true(s.drop_last()) + if s.last() {
            1nat
        } else {
            0nat
        }
    }
}

/// A batch of processed books comes back from the worker, one outcome per
/// book (removed, or its file could not be deleted): the progress advances
/// by the batch, and the batch's (removed, failed) counts come back.
pub fn remove_job_batch(job: &mut RemoveJob, outcomes: &[bool]) -> (r: (usize, usize))
    requires
        old(job).progress.0 + outcomes@.len() <= usize::MAX,
    ensures
        final(job).progress == ((old(job).progress.0 + outcomes@.len()) as usize, old(job).progress.1),
        final(job).in_flight == old(job).in_flight,
        final(job).stop == old(job).stop,
        r.0 == count_true(outcomes@),
        r.0 + r.1 == outcomes@.len(),
        old(job).wf() && old(job).progress.0 + outcomes@.len() <= old(job).progress.1 ==> final(job).wf(),
{
    let mut removed: usize = 0;
    let mut failed: usize = 0;
    let mut i: usize = 0;
    while i < outcomes.len()
        invariant
            i <= outcomes@.len(),
            removed == count_true(outcomes@.subrange(0, i as int)),
            removed + failed == i,
        decreases outcomes@.len() - i,
    {
        proof {
            assert(outcomes@.subrange(0, i + 1).drop_last() =~= outcomes@.subrange(0, i as int));
        }
        if outcomes[i] {
            removed = removed + 1;
        } else {
            failed = failed + 1;
        }
        i = i + 1;
    }
    assert(outcomes@.subrange(0, outcomes@.len() as int) =~= outcomes@);
    job.progress = (job.progress.0 + outcomes.len(), job.progress.1);
    (removed, failed)
}

/// The remove job ended: idle, no flag, no progress.
pub fn remove_job_ended(job: &mut RemoveJob)
    ensures
        !final(job).in_flight,
        final(job).stop is None,
        final(job).progress == (0usize, 0usize),
        final(job).wf(),
{
    job.in_flight = false;
    job.stop = None;
    job.progress = (0, 0);
}

/// What a bulk remove job hands back: how many books left the library, how
/// many could not (their file was not deleted), whether it was canceled,
/// the ids that left in the order they landed, and the files it deleted.
pub struct RemoveBooksOutcome {
    pub removed: usize,
    pub failed: usize,
    pub canceled: bool,
    pub removed_ids: Vec<u128>,
    pub deleted_paths: Vec<String>,
}

/// The ids of a batch whose books left the library, in order.
pub open spec fn spec_landed_ids(batch: Seq<(u128, bool)>) -> Seq<u128>
    decreases batch.len(),
{
    if batch.len() == 0 {
        Seq::empty()
    } else {
        let rest = spec_landed_ids(batch.drop_last());
        if batch.last().1 {
            rest.push(batch.last().0)
        } else {
            rest
        }
    }
}

proof fn lemma_landed_ids_len(batch: Seq<(u128, bool)>)
    ensures
        spec_landed_ids(batch).len() <= batch.len(),
    decreases batch.len(),
{
    if batch.len() > 0 {
        lemma_landed_ids_len(batch.drop_last());
    }
}

impl RemoveBooksOutcome {
    /// Nothing removed or failed yet.
    pub fn new() -> (r: RemoveBooksOutcome)
        ensures
            r.removed == 0,
            r.failed == 0,
            !r.canceled,
            r.removed_ids@.len() == 0,
            r.deleted_paths@.len() == 0,
    {
        RemoveBooksOutcome { removed: 0, failed: 0, canceled: false, removed_ids: Vec::new(), deleted_paths: Vec::new() }
    }

    /// The answer to a request turned away (see [`remove_request_refused`]):
    /// canceled, with nothing removed or failed.
    pub fn refused() -> (r: RemoveBooksOutcome)
        ensures
            r.canceled,
            r.removed == 0,
            r.failed == 0,
            r.removed_ids@.len() == 0,
            r.deleted_paths@.len() == 0,
    {
        RemoveBooksOutcome { removed: 0, failed: 0, canceled: true, removed_ids: Vec::new(), deleted_paths: Vec::new() }
    }
}

/// The remove worker's walk over its items: how many it processed, out of
/// how many, and whether it was stopped.
#[derive(Clone, Copy, Debug, PartialEq, Eq, Structural)]
pub struct RemoveWorker {
    pub processed: usize,
    pub total: usize,
    pub canceled: bool,
}

impl RemoveWorker {
    /// A worker about to walk `total` items.
    pub fn new(total: usize) -> (r: RemoveWorker)
        ensures
            r == (RemoveWorker { processed: 0, total, canceled: false }),
    {
        RemoveWorker { processed: 0, total, canceled: false }
    }
}

/// The worker's check before its next item, with the stop flag as it reads
/// it now: a raised flag stops it before that item (it is canceled); else
/// it processes the item, until all are done. Returns whether to process the
/// next item.
pub fn remove_worker_next(worker: &mut RemoveWorker, stop_raised: bool) -> (go: bool)
    requires
        old(worker).processed <= old(worker).total,
    ensures
        go == (!old(worker).canceled && old(worker).processed < old(worker).total && !stop_raised),
        go ==> *final(worker) == (RemoveWorker { processed: (old(worker).processed + 1) as usize, ..*old(worker) }),
        !go && !old(worker).canceled && old(worker).processed < old(worker).total ==> *final(worker) == (RemoveWorker {
            canceled: true,
            ..*old(worker)
        }),
        !go && (old(worker).canceled || old(worker).processed == old(worker).total) ==> *final(worker) == *old(worker),
        final(worker).processed <= final(worker).total,
{
    if worker.canceled || worker.processed == worker.total {
        return false;
    }
    if stop_raised {
        worker.canceled = true;
        return false;
    }
    worker.processed = worker.processed + 1;
    true
}

/// The job's answer at its end: the landed outcome, marked canceled when
/// the worker was stopped.
pub fn finish_remove_outcome(outcome: &mut RemoveBooksOutcome, worker: &RemoveWorker)
    ensures
        final(outcome).canceled == worker.canceled,
        final(outcome).removed == old(outcome).removed,
        final(outcome).failed == old(outcome).failed,
        final(outcome).removed_ids == old(outcome).removed_ids,
        final(outcome).deleted_paths == old(outcome).deleted_paths,
{
    outcome.canceled = worker.canceled;
}

/// Lands a batch of (id, file deleted) results into the outcome: each book
/// whose file went leaves the library and is counted removed, each other
/// one is counted failed.
pub fn land_remove_batch(outcome: &mut RemoveBooksOutcome, batch: &[(u128, bool)])
    requires
        old(outcome).removed + batch@.len() <= usize::MAX,
        old(outcome).failed + batch@.len() <= usize::MAX,
    ensures
        final(outcome).removed_ids@ == old(outcome).removed_ids@ + spec_landed_ids(batch@),
        final(outcome).removed == old(outcome).removed + spec_landed_ids(batch@).len(),
        final(outcome).failed == old(outcome).failed + batch@.len() - spec_landed_ids(batch@).len(),
        final(outcome).canceled == old(outcome).canceled,
        final(outcome).deleted_paths == old(outcome).deleted_paths,
{
    let ghost start = outcome.removed_ids@;
    let ghost removed0 = outcome.removed as int;
    let ghost failed0 = outcome.failed as int;
    let mut i: usize = 0;
    while i < batch.len()
        invariant
            i <= batch@.len(),
            removed0 + batch@.len() <= usize::MAX,
            failed0 + batch@.len() <= usize::MAX,
            outcome.removed_ids@ == start + spec_landed_ids(batch@.subrange(0, i as int)),
            outcome.removed == removed0 + spec_landed_ids(batch@.subrange(0, i as int)).len(),
            outcome.failed == failed0 + i - spec_landed_ids(batch@.subrange(0, i as int)).len(),
            outcome.canceled == old(outcome).canceled,
            outcome.deleted_paths == old(outcome).deleted_paths,
        decreases batch@.len() - i,
    {
        proof {
            assert(batch@.subrange(0, i + 1).drop_last() =~= batch@.subrange(0, i as int));
            lemma_landed_ids_len(batch@.subrange(0, i as int));
        }
        let (id, ok) = batch[i];
        if ok {
            outcome.removed_ids.push(id);
            outcome.removed = outcome.removed + 1;
        } else {
            outcome.failed = outcome.failed + 1;
        }
        i = i + 1;
    }
    assert(batch@.subrange(0, batch@.len() as int) =~= batch@);
}

/// Aborts the running job: the worker stops before the next file. Returns
/// whether a flag was there to raise.
pub fn abort_remove_books(job: &RemoveJob) -> (requested: bool)
    ensures
        requested == (job.stop is Some),
{
    match &job.stop {
        Some(flag) => {
            flag.store(true, std::sync::atomic::Ordering::Relaxed);
            true
        },
        None => false,
    }
}

} // verus!
