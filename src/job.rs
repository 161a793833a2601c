//! One synchronisation job: the preview check that sizes it, the progress
//! snapshot that the stream events are folded into, and cancellation.
use vstd::prelude::*;
use vstd::string::StrSliceExecFns;
use crate::stats::{entries_map, key_regular, parse_rsync_stats, summary_entries};
use crate::stream::{JobEvent, JobEventView};
use crate::text::{grouped_u64, skip_spaces, skip_ws, text_at, text_at_exec};

verus! {

/// Where a job stands.
#[derive(Clone, Copy, Debug, PartialEq, Eq, Structural)]
pub enum Phase {
    Idle,
    DryRunning,
    Running,
    Finished,
    Cancelled,
    Failed,
}

/// What the preview run says of the job.
#[derive(Clone, Copy, Debug, PartialEq, Eq, Structural)]
pub enum Preflight {
    /// The job can run; this many items are to be transferred.
    Ready(u64),
    /// The remote side refused the login.
    AuthDenied,
    /// The preview wrote other diagnostics.
    PreviewError,
    /// The preview's summary gave no count of regular files.
    SizeUnknown,
}

/// Text that marks a refused login in the preview's diagnostics.
pub open spec fn permission_signature_text() -> Seq<char> {
    "Permission denied"@
}

pub open spec fn auth_message() -> Seq<char> {
    "Access denied when connecting to the server via SSH. Please check if your SSH key is configured."@
}

pub open spec fn size_message() -> Seq<char> {
    "Could not determine the file count for the transfer."@
}

pub open spec fn cancel_notice() -> Seq<char> {
    "Operation Cancelled"@
}

pub open spec fn not_available() -> Seq<char> {
    "N/A"@
}

pub open spec fn contains_text(h: Seq<char>, n: Seq<char>) -> bool {
    exists|i: int| 0 <= i <= h.len() && text_at(h, i, n)
}

pub open spec fn is_blank(s: Seq<char>) -> bool {
    skip_ws(s, 0) >= s.len()
}

pub open spec fn regular_count(out: Seq<char>) -> Option<u64> {
    let m = entries_map(summary_entries(out));
    if m.contains_key(key_regular()) {
        grouped_u64(m[key_regular()])
    } else {
        None
    }
}

/// The verdict on a preview run from its output and diagnostics.
pub open spec fn preflight_of(out: Seq<char>, err: Seq<char>, signature: Seq<char>) -> Preflight {
    if !is_blank(err) {
        if contains_text(err, signature) {
            Preflight::AuthDenied
        } else {
            Preflight::PreviewError
        }
    } else {
        match regular_count(out) {
            Some(n) => Preflight::Ready(n),
            None => Preflight::SizeUnknown,
        }
    }
}

/// The text that marks a refused login.
pub fn permission_signature() -> (r: &'static str)
    ensures
        r@ == permission_signature_text(),
{
    "Permission denied"
}

/// Whether `n` occurs in `h`.
pub fn find_text(h: &str, n: &str) -> (r: bool)
    ensures
        r == contains_text(h@, n@),
{
    let len = h.unicode_len();
    let mut i: usize = 0;
    while i < len
        invariant
            len == h@.len(),
            i <= len,
            forall|j: int| 0 <= j < i ==> !text_at(h@, j, n@),
        decreases len - i,
    {
        if text_at_exec(h, len, i, n) {
            return true;
        }
        i = i + 1;
    }
    if text_at_exec(h, len, len, n) {
        return true;
    }
    false
}

/// Decides from a preview run whether the job may start, and how large it is:
/// a diagnostic holding `signature` is a refused login, any other diagnostic
/// stops the job too, and otherwise the summary's count of regular files
/// sizes it.
pub fn preflight(stdout: &str, stderr: &str, signature: &str) -> (r: Preflight)
    ensures
        r == preflight_of(stdout@, stderr@, signature@),
{
    let elen = stderr.unicode_len();
    if skip_spaces(stderr, elen, 0) < elen {
        if find_text(stderr, signature) {
            Preflight::AuthDenied
        } else {
            Preflight::PreviewError
        }
    } else {
        let stats = parse_rsync_stats(stdout);
        match stats.regular_file_count() {
            Some(n) => Preflight::Ready(n),
            None => Preflight::SizeUnknown,
        }
    }
}

pub struct JobView {
    pub phase: Phase,
    pub total_units: u64,
    pub files_done: u64,
    pub percentage: u8,
    pub speed: Seq<char>,
    pub eta: Seq<char>,
    pub bytes_transferred: u64,
    pub log: Seq<Seq<char>>,
    pub errors: Seq<Seq<char>>,
    pub finished: bool,
}

/// A fresh snapshot in the given phase.
pub open spec fn fresh(phase: Phase) -> JobView {
    JobView {
        phase,
        total_units: 0,
        files_done: 0,
        percentage: 0,
        speed: not_available(),
        eta: not_available(),
        bytes_transferred: 0,
        log: seq![],
        errors: seq![],
        finished: false,
    }
}

pub open spec fn max_u64(a: u64, b: u64) -> u64 {
    if a >= b {
        a
    } else {
        b
    }
}

/// Items done as far as the overall fraction counts them: never more than
/// the job's total.
pub open spec fn overall_done(v: JobView) -> u64 {
    if v.files_done <= v.total_units {
        v.files_done
    } else {
        v.total_units
    }
}

/// How one event changes the snapshot.
pub open spec fn apply_event(v: JobView, e: JobEventView) -> JobView {
    match e {
        JobEventView::Progress { files_done, total_units, record } => JobView {
            files_done: max_u64(v.files_done, files_done),
            percentage: record.percentage,
            speed: record.speed,
            eta: record.estimated_time,
            bytes_transferred: record.bytes_transferred,
            ..v
        },
        JobEventView::File { ordinal, name } => JobView {
            files_done: max_u64(v.files_done, ordinal),
            log: if name.len() > 0 {
                v.log.push(name)
            } else {
                v.log
            },
            ..v
        },
        JobEventView::Error(text) => JobView { errors: v.errors.push(text), ..v },
        JobEventView::Completed => JobView {
            finished: true,
            phase: if v.phase == Phase::Running {
                Phase::Finished
            } else {
                v.phase
            },
            ..v
        },
    }
}

pub open spec fn apply_events(v: JobView, es: Seq<JobEventView>) -> JobView
    decreases es.len(),
{
    if es.len() == 0 {
        v
    } else {
        apply_event(apply_events(v, es.drop_last()), es.last())
    }
}

/// Whether a start request is taken: from `Idle`, after a failure, or once
/// a finished or cancelled job's streams have all closed.
pub open spec fn may_start(v: JobView) -> bool {
    v.phase == Phase::Idle || v.phase == Phase::Failed || ((v.phase == Phase::Finished
        || v.phase == Phase::Cancelled) && v.finished)
}

/// The snapshot after a preview run with the given verdict.
pub open spec fn after_preview(v: JobView, verdict: Preflight, out: Seq<char>, err: Seq<char>) -> JobView {
    match verdict {
        Preflight::Ready(n) => JobView { phase: Phase::Running, total_units: n, ..v },
        Preflight::AuthDenied => JobView {
            phase: Phase::Failed,
            errors: v.errors.push(err).push(auth_message()),
            ..v
        },
        Preflight::PreviewError => JobView { phase: Phase::Failed, errors: v.errors.push(err), ..v },
        Preflight::SizeUnknown => JobView {
            phase: Phase::Failed,
            errors: v.errors.push(size_message()).push(out),
            ..v
        },
    }
}

/// The snapshot after a cancellation request.
pub open spec fn after_cancel(v: JobView) -> JobView {
    if v.phase == Phase::Running && !v.finished {
        JobView { phase: Phase::Cancelled, log: v.log.push(cancel_notice()), ..v }
    } else {
        v
    }
}

/// However progress, file and error events interleave, a job's overall
/// fraction never goes down: its numerator never drops and its denominator
/// stays fixed.
pub proof fn lemma_overall_never_decreases(v: JobView, es: Seq<JobEventView>)
    ensures
        apply_events(v, es).total_units == v.total_units,
        overall_done(v) <= overall_done(apply_events(v, es)),
        v.finished ==> apply_events(v, es).finished,
    decreases es.len(),
{
    if es.len() > 0 {
        lemma_overall_never_decreases(v, es.drop_last());
    }
}

/// Cancelling a running job leaves it `Cancelled` with exactly one notice
/// in its log, however often the request is repeated; the completion that
/// comes when its streams close still marks it finished.
pub proof fn lemma_cancel_once(v: JobView)
    requires
        v.phase == Phase::Running,
        !v.finished,
    ensures
        after_cancel(v).phase == Phase::Cancelled,
        after_cancel(v).log == v.log.push(cancel_notice()),
        after_cancel(after_cancel(v)) == after_cancel(v),
        apply_event(after_cancel(v), JobEventView::Completed).finished,
        apply_event(after_cancel(v), JobEventView::Completed).phase == Phase::Cancelled,
        after_cancel(apply_event(after_cancel(v), JobEventView::Completed)).log == v.log.push(
            cancel_notice(),
        ),
{
}

/// The snapshot after `k` cancellation requests in a row.
pub open spec fn cancel_times(v: JobView, k: nat) -> JobView
    decreases k,
{
    if k == 0 {
        v
    } else {
        after_cancel(cancel_times(v, (k - 1) as nat))
    }
}

/// Any number of cancellation requests, one or more, act as one: a running
/// job ends up `Cancelled` with one notice added to its log.
pub proof fn lemma_cancel_repeated(v: JobView, k: nat)
    requires
        k >= 1,
    ensures
        cancel_times(v, k) == after_cancel(v),
    decreases k,
{
    assert(cancel_times(v, 0) == v);
    assert(after_cancel(after_cancel(v)) == after_cancel(v));
    if k > 1 {
        lemma_cancel_repeated(v, (k - 1) as nat);
    }
}

proof fn lemma_events_keep_cancelled(u: JobView, es: Seq<JobEventView>)
    requires
        u.phase == Phase::Cancelled,
    ensures
        apply_events(u, es).phase == Phase::Cancelled,
        apply_events(u, es).log.len() >= u.log.len(),
        apply_events(u, es).log.subrange(0, u.log.len() as int) == u.log,
    decreases es.len(),
{
    if es.len() > 0 {
        lemma_events_keep_cancelled(u, es.drop_last());
        let w = apply_events(u, es.drop_last());
        let w2 = apply_event(w, es.last());
        assert(w2.log.subrange(0, u.log.len() as int) =~= w.log.subrange(0, u.log.len() as int));
    }
}

/// After a running job is cancelled, whatever events follow, it stays
/// `Cancelled`: its log still begins with what it held before and the one
/// notice, further cancellation requests change nothing, and the completion
/// that comes when its streams close marks it finished.
pub proof fn lemma_cancel_then_events(v: JobView, es: Seq<JobEventView>, k: nat)
    requires
        v.phase == Phase::Running,
        !v.finished,
    ensures
        ({
            let w = apply_events(after_cancel(v), es);
            &&& w.phase == Phase::Cancelled
            &&& w.log.len() > v.log.len()
            &&& w.log.subrange(0, v.log.len() as int + 1) == v.log.push(cancel_notice())
            &&& cancel_times(w, k) == w
            &&& apply_event(w, JobEventView::Completed).finished
            &&& apply_event(w, JobEventView::Completed).phase == Phase::Cancelled
        }),
    decreases k,
{
    let u = after_cancel(v);
    lemma_events_keep_cancelled(u, es);
    if k > 0 {
        lemma_cancel_then_events(v, es, (k - 1) as nat);
    }
}

/// A job and its progress snapshot. The snapshot has one writer, the owner
/// of the job, which folds into it the events that the stream readers send.
pub struct Job {
    phase: Phase,
    total_units: u64,
    files_done: u64,
    percentage: u8,
    speed: String,
    eta: String,
    bytes_transferred: u64,
    log: Vec<String>,
    errors: Vec<String>,
    finished: bool,
}

pub open spec fn strings_view(v: Seq<String>) -> Seq<Seq<char>> {
    v.map_values(|s: String| s@)
}

impl View for Job {
    type V = JobView;

    closed spec fn view(&self) -> JobView {
        JobView {
            phase: self.phase,
            total_units: self.total_units,
            files_done: self.files_done,
            percentage: self.percentage,
            speed: self.speed@,
            eta: self.eta@,
            bytes_transferred: self.bytes_transferred,
            log: strings_view(self.log@),
            errors: strings_view(self.errors@),
            finished: self.finished,
        }
    }
}

impl Job {
    fn blank(phase: Phase) -> (r: Job)
        ensures
            r@ == fresh(phase),
    {
        let r = Job {
            phase,
            total_units: 0,
            files_done: 0,
            percentage: 0,
            speed: "N/A".to_owned(),
            eta: "N/A".to_owned(),
            bytes_transferred: 0,
            log: Vec::new(),
            errors: Vec::new(),
            finished: false,
        };
        assert(r@.log =~= Seq::<Seq<char>>::empty());
        assert(r@.errors =~= Seq::<Seq<char>>::empty());
        r
    }

    /// A job that has not started.
    pub fn new() -> (r: Job)
        ensures
            r@ == fresh(Phase::Idle),
    {
        Job::blank(Phase::Idle)
    }

    /// Asks to start: taken as `may_start` says, with a fresh snapshot and
    /// the preview run to be made next.
    pub fn start(&mut self) -> (r: bool)
        ensures
            r == may_start(old(self)@),
            r ==> final(self)@ == fresh(Phase::DryRunning),
            !r ==> final(self)@ == old(self)@,
    {
        if self.phase == Phase::Idle || self.phase == Phase::Failed || ((self.phase
            == Phase::Finished || self.phase == Phase::Cancelled) && self.finished) {
            *self = Job::blank(Phase::DryRunning);
            true
        } else {
            false
        }
    }

    /// Takes the preview run's output and diagnostics, and the text that marks
    /// a refused login in them (`permission_signature` gives the usual one).
    /// Where the job may run,
    /// it is `Running` and the count of items to transfer is returned: the
    /// transfer is to be started. Otherwise the job has `Failed`, with the
    /// reason in its errors, and no transfer is to be started. Outside
    /// `DryRunning` nothing changes.
    pub fn preview_finished(&mut self, stdout: &str, stderr: &str, signature: &str) -> (r: Option<u64>)
        ensures
            old(self)@.phase != Phase::DryRunning ==> r is None && final(self)@ == old(self)@,
            old(self)@.phase == Phase::DryRunning ==> {
                let verdict = preflight_of(stdout@, stderr@, signature@);
                &&& final(self)@ == after_preview(old(self)@, verdict, stdout@, stderr@)
                &&& r == match verdict {
                    Preflight::Ready(n) => Some(n),
                    _ => None::<u64>,
                }
            },
    {
        if self.phase != Phase::DryRunning {
            return None;
        }
        let verdict = preflight(stdout, stderr, signature);
        let ghost errs = self.errors@;
        match verdict {
            Preflight::Ready(n) => {
                self.phase = Phase::Running;
                self.total_units = n;
                Some(n)
            },
            Preflight::AuthDenied => {
                self.phase = Phase::Failed;
                self.errors.push(stderr.to_owned());
                self.errors.push(
                    "Access denied when connecting to the server via SSH. Please check if your SSH key is configured.".to_owned(),
                );
                assert(strings_view(self.errors@) =~= strings_view(errs).push(stderr@).push(
                    auth_message(),
                ));
                None
            },
            Preflight::PreviewError => {
                self.phase = Phase::Failed;
                self.errors.push(stderr.to_owned());
                assert(strings_view(self.errors@) =~= strings_view(errs).push(stderr@));
                None
            },
            Preflight::SizeUnknown => {
                self.phase = Phase::Failed;
                self.errors.push("Could not determine the file count for the transfer.".to_owned());
                self.errors.push(stdout.to_owned());
                assert(strings_view(self.errors@) =~= strings_view(errs).push(size_message()).push(
                    stdout@,
                ));
                None
            },
        }
    }

    /// Whether a cancellation request would be taken now: the job runs and its
    /// streams have not all closed.
    pub fn can_cancel(&self) -> (r: bool)
        ensures
            r == (self@.phase == Phase::Running && !self@.finished),
    {
        self.phase == Phase::Running && !self.finished
    }

    /// Asks a running job to stop. Returns whether the transfer is to be sent
    /// an interrupt: only the first request while it runs is taken, and that
    /// one records the cancellation in the log. The job is finished only
    /// once its streams close.
    pub fn cancel(&mut self) -> (r: bool)
        ensures
            r == (old(self)@.phase == Phase::Running && !old(self)@.finished),
            final(self)@ == after_cancel(old(self)@),
    {
        if self.phase == Phase::Running && !self.finished {
            let ghost log = self.log@;
            self.phase = Phase::Cancelled;
            self.log.push("Operation Cancelled".to_owned());
            assert(strings_view(self.log@) =~= strings_view(log).push(cancel_notice()));
            true
        } else {
            false
        }
    }

    /// Folds one event into the snapshot.
    pub fn handle(&mut self, event: JobEvent)
        ensures
            final(self)@ == apply_event(old(self)@, event@),
    {
        match event {
            JobEvent::Progress(u) => {
                if u.files_done > self.files_done {
                    self.files_done = u.files_done;
                }
                self.percentage = u.record.percentage;
                self.speed = u.record.speed;
                self.eta = u.record.estimated_time;
                self.bytes_transferred = u.record.bytes_transferred;
            },
            JobEvent::File(f) => {
                if f.ordinal > self.files_done {
                    self.files_done = f.ordinal;
                }
                if f.name.as_str().unicode_len() > 0 {
                    let ghost log = self.log@;
                    self.log.push(f.name);
                    assert(strings_view(self.log@) =~= strings_view(log).push(f.name@));
                }
            },
            JobEvent::Error(text) => {
                let ghost errs = self.errors@;
                let ghost t = text@;
                self.errors.push(text);
                assert(strings_view(self.errors@) =~= strings_view(errs).push(t));
            },
            JobEvent::Completed => {
                self.finished = true;
                if self.phase == Phase::Running {
                    self.phase = Phase::Finished;
                }
            },
        }
    }

    pub fn phase(&self) -> (r: Phase)
        ensures
            r == self@.phase,
    {
        self.phase
    }

    /// Items done and the job's total, the overall fraction's numerator
    /// (never above the total) and denominator.
    pub fn overall_progress(&self) -> (r: (u64, u64))
        ensures
            r.0 == overall_done(self@),
            r.1 == self@.total_units,
    {
        if self.files_done <= self.total_units {
            (self.files_done, self.total_units)
        } else {
            (self.total_units, self.total_units)
        }
    }

    /// The current file's progress in percent.
    pub fn percentage(&self) -> (r: u8)
        ensures
            r == self@.percentage,
    {
        self.percentage
    }

    pub fn speed(&self) -> (r: &str)
        ensures
            r@ == self@.speed,
    {
        self.speed.as_str()
    }

    pub fn estimated_time(&self) -> (r: &str)
        ensures
            r@ == self@.eta,
    {
        self.eta.as_str()
    }

    pub fn bytes_transferred(&self) -> (r: u64)
        ensures
            r == self@.bytes_transferred,
    {
        self.bytes_transferred
    }

    pub fn log(&self) -> (r: &Vec<String>)
        ensures
            strings_view(r@) == self@.log,
    {
        &self.log
    }

    pub fn errors(&self) -> (r: &Vec<String>)
        ensures
            strings_view(r@) == self@.errors,
    {
        &self.errors
    }

    pub fn is_finished(&self) -> (r: bool)
        ensures
            r == self@.finished,
    {
        self.finished
    }
}

} // verus!
