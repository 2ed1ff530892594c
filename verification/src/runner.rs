//! The scheduler core: a FIFO pending queue, a bounded active window and a
//! completed list.  The runner owns no processes; the caller spawns, polls
//! and kills them and reports what it observed as a `RunnerEvent`, and the
//! runner decides admission, retirement, rebuilds and cancellation.
use vstd::prelude::*;

use crate::config::{Config, ConfigM};
use crate::errors::BuildError;
use crate::jobs::{is_terminal, job_new_spec, job_step, Job, JobEvent, JobM, JobStatus, PollOutcome};
use crate::messages::{BuildReport, ReportM};
use crate::report::{pairs_view, RunnerReport};

verus! {

/// How a run-level summary is to be rendered by the caller.
#[derive(Clone, Copy, Debug, PartialEq, Eq, Structural)]
pub enum ReportFormat {
    Human,
    Json,
}

pub open spec fn jobs_view(v: Seq<Job>) -> Seq<JobM> {
    Seq::new(v.len(), |i: int| v[i]@)
}

/// The scheduler state.
#[derive(Debug)]
pub struct Runner {
    pub config: Config,
    pub pending: Vec<Job>,
    pub active: Vec<Job>,
    pub completed: Vec<Job>,
}

pub ghost struct RunnerM {
    pub config: ConfigM,
    pub pending: Seq<JobM>,
    pub active: Seq<JobM>,
    pub completed: Seq<JobM>,
}

impl View for Runner {
    type V = RunnerM;

    open spec fn view(&self) -> RunnerM {
        RunnerM {
            config: self.config@,
            pending: jobs_view(self.pending@),
            active: jobs_view(self.active@),
            completed: jobs_view(self.completed@),
        }
    }
}

/// The runner invariant: the active window never exceeds the configured
/// concurrency, queued jobs are still pending, and retired jobs are
/// terminal.
pub open spec fn runner_wf(r: RunnerM) -> bool {
    &&& r.active.len() <= r.config.max_jobs
    &&& forall|i: int|
        0 <= i < r.pending.len() ==> (#[trigger] r.pending[i]).status == JobStatus::Pending
    &&& forall|i: int| 0 <= i < r.completed.len() ==> is_terminal((#[trigger] r.completed[i]).status)
}

/// How many jobs in `js` hold status `s`.
pub open spec fn count_status(js: Seq<JobM>, s: JobStatus) -> int
    decreases js.len(),
{
    if js.len() == 0 {
        0
    } else {
        count_status(js.drop_last(), s) + if js.last().status == s {
            1int
        } else {
            0int
        }
    }
}

/// The name-to-report pairs of the retired jobs that carry a report, in
/// retirement order.
pub open spec fn report_pairs(js: Seq<JobM>) -> Seq<(Seq<char>, ReportM)>
    decreases js.len(),
{
    if js.len() == 0 {
        Seq::empty()
    } else {
        report_pairs(js.drop_last()) + match js.last().report {
            Some(rep) => seq![(js.last().jobname, rep)],
            None => Seq::empty(),
        }
    }
}

pub proof fn lemma_count_status_bounds(js: Seq<JobM>, s: JobStatus)
    ensures
        0 <= count_status(js, s) <= js.len(),
    decreases js.len(),
{
    if js.len() > 0 {
        lemma_count_status_bounds(js.drop_last(), s);
    }
}

pub proof fn lemma_count_status_concat(a: Seq<JobM>, b: Seq<JobM>, s: JobStatus)
    ensures
        count_status(a + b, s) == count_status(a, s) + count_status(b, s),
    decreases b.len(),
{
    if b.len() == 0 {
        assert(a + b =~= a);
    } else {
        assert((a + b).drop_last() =~= a + b.drop_last());
        assert((a + b).last() == b.last());
        lemma_count_status_concat(a, b.drop_last(), s);
    }
}

pub proof fn lemma_count_status_absent(js: Seq<JobM>, s: JobStatus)
    requires
        forall|i: int| 0 <= i < js.len() ==> (#[trigger] js[i]).status != s,
    ensures
        count_status(js, s) == 0,
    decreases js.len(),
{
    if js.len() > 0 {
        assert(forall|i: int|
            0 <= i < js.len() - 1 ==> js.drop_last()[i] == js[i]);
        lemma_count_status_absent(js.drop_last(), s);
    }
}

/// What the caller observed since the last call: the outcome of a spawn it
/// performed, the outcome of one job's non-blocking poll, or the
/// cancellation flag found set.
#[derive(Debug)]
pub enum RunnerEvent {
    /// A spawn for active job `index` was attempted.
    JobSpawned { index: usize, ok: bool },
    /// Active job `index`'s process is still running.
    JobStillRunning { index: usize },
    /// Active job `index`'s process finished with the given exit verdict
    /// and captured output lines.
    JobExited { index: usize, exit_ok: bool, log: Vec<String> },
    /// The non-blocking check on active job `index` failed.
    JobWaitFailed { index: usize },
    /// The shared cancellation flag was observed set; the caller has
    /// already killed every active process.
    Cancelled,
}

/// What the caller must do next.
#[derive(Clone, Copy, Debug, PartialEq, Eq, Structural)]
pub enum RunnerAction {
    /// Nothing; keep polling.
    Continue,
    /// Active job `index` reached a terminal status: retire it and release
    /// its process handle.
    Terminal { index: usize },
    /// Spawn active job `index`'s command once more and report the
    /// outcome.
    Respawn { index: usize },
    /// The run is over; only completed jobs remain.
    CancelledAll,
}

pub open spec fn outcome_action(o: PollOutcome, index: usize) -> RunnerAction {
    match o {
        PollOutcome::Terminal => RunnerAction::Terminal { index },
        PollOutcome::Continue => RunnerAction::Continue,
        PollOutcome::Respawn => RunnerAction::Respawn { index },
    }
}

/// The job event a runner event hands to the indexed job.  Cancellation is
/// handled before any job is consulted, so its image here is never used.
pub open spec fn event_to_job_event(ev: RunnerEvent) -> JobEvent {
    match ev {
        RunnerEvent::JobSpawned { index, ok } => if ok {
            JobEvent::SpawnedOk
        } else {
            JobEvent::SpawnFailed
        },
        RunnerEvent::JobStillRunning { index } => JobEvent::StillRunning,
        RunnerEvent::JobExited { index, exit_ok, log } => JobEvent::Exited { exit_ok, log },
        RunnerEvent::JobWaitFailed { index } => JobEvent::WaitFailed,
        RunnerEvent::Cancelled => JobEvent::StillRunning,
    }
}

pub open spec fn event_index(ev: RunnerEvent) -> int {
    match ev {
        RunnerEvent::JobSpawned { index, ok } => index as int,
        RunnerEvent::JobStillRunning { index } => index as int,
        RunnerEvent::JobExited { index, exit_ok, log } => index as int,
        RunnerEvent::JobWaitFailed { index } => index as int,
        RunnerEvent::Cancelled => 0,
    }
}

/// The runner transition function: cancellation discards the pending queue
/// and the active window and keeps the completed list; any other event is
/// routed to the indexed active job.
pub open spec fn runner_step(r: RunnerM, ev: RunnerEvent) -> (RunnerM, RunnerAction) {
    match ev {
        RunnerEvent::Cancelled => (
            (RunnerM { pending: Seq::empty(), active: Seq::empty(), ..r }),
            RunnerAction::CancelledAll,
        ),
        _ => {
            let i = event_index(ev);
            let jr = job_step(r.active[i], event_to_job_event(ev));
            (
                (RunnerM { active: r.active.update(i, jr.0), ..r }),
                outcome_action(jr.1, i as usize),
            )
        },
    }
}

impl Runner {
    /// A runner over `config` with one pending job per submitted path, in
    /// submission order, and nothing active or completed yet.
    pub fn new(config: Config, paths: &Vec<String>) -> (r: Runner)
        ensures
            r@.config == config@,
            r@.pending.len() == paths@.len(),
            forall|i: int|
                0 <= i < paths@.len() ==> r@.pending[i] == job_new_spec(config@, paths@[i]@),
            r@.active.len() == 0,
            r@.completed.len() == 0,
            runner_wf(r@),
    {
        let mut pending: Vec<Job> = Vec::new();
        let mut i: usize = 0;
        while i < paths.len()
            invariant
                0 <= i <= paths@.len(),
                pending@.len() == i,
                forall|k: int|
                    0 <= k < i ==> (#[trigger] pending@[k])@ == job_new_spec(config@, paths@[k]@),
            decreases paths@.len() - i,
        {
            pending.push(Job::new(&config, paths[i].as_str()));
            i += 1;
        }
        let r = Runner { config, pending, active: Vec::new(), completed: Vec::new() };
        proof {
            assert(jobs_view(r.active@) =~= Seq::<JobM>::empty());
            assert(jobs_view(r.completed@) =~= Seq::<JobM>::empty());
        }
        r
    }

    /// Queues one more path.  A path reported absent is rejected at once
    /// and queues nothing; `exists` is the caller's filesystem verdict on
    /// `path`.
    pub fn submit(&mut self, path: &str, exists: bool) -> (r: Result<(), BuildError>)
        requires
            runner_wf(old(self)@),
        ensures
            r is Ok <==> exists,
            exists ==> final(self)@ == (RunnerM {
                pending: old(self)@.pending.push(job_new_spec(old(self)@.config, path@)),
                ..old(self)@
            }),
            !exists ==> final(self)@ == old(self)@,
            r matches Err(e) ==> e == BuildError::PathNotFound,
            runner_wf(final(self)@),
    {
        if !exists {
            return Err(BuildError::PathNotFound);
        }
        let job = Job::new(&self.config, path);
        self.pending.push(job);
        proof {
            assert(jobs_view(self.pending@) =~= old(self)@.pending.push(
                job_new_spec(old(self)@.config, path@),
            ));
        }
        Ok(())
    }

    /// Whether the window has room and work is waiting.
    pub fn can_admit(&self) -> (r: bool)
        ensures
            r == (self@.pending.len() > 0 && self@.active.len() < self@.config.max_jobs),
    {
        self.pending.len() > 0 && self.active.len() < self.config.max_jobs
    }

    /// Moves the head of the pending queue into the active window and
    /// answers its index there; the caller then spawns its command and
    /// reports the outcome.  Launch order follows submission order.
    pub fn push_next_job(&mut self) -> (r: Option<usize>)
        requires
            runner_wf(old(self)@),
        ensures
            runner_wf(final(self)@),
            old(self)@.pending.len() > 0 && old(self)@.active.len() < old(self)@.config.max_jobs
                ==> {
                &&& r == Some((old(self)@.active.len() as usize))
                &&& final(self)@ == (RunnerM {
                    pending: old(self)@.pending.skip(1),
                    active: old(self)@.active.push(old(self)@.pending[0]),
                    ..old(self)@
                })
            },
            !(old(self)@.pending.len() > 0 && old(self)@.active.len()
                < old(self)@.config.max_jobs) ==> r is None && final(self)@ == old(self)@,
    {
        if self.pending.len() > 0 && self.active.len() < self.config.max_jobs {
            let job = self.pending.remove(0);
            self.active.push(job);
            proof {
                assert(jobs_view(self.pending@) =~= old(self)@.pending.skip(1));
                assert(jobs_view(self.active@) =~= old(self)@.active.push(
                    old(self)@.pending[0],
                ));
            }
            Some(self.active.len() - 1)
        } else {
            None
        }
    }

    /// Removes a terminal job from the active window and appends it to the
    /// completed list.  Retirement order follows process completion, not
    /// submission.
    pub fn retire(&mut self, index: usize)
        requires
            runner_wf(old(self)@),
            index < old(self)@.active.len(),
            is_terminal(old(self)@.active[index as int].status),
        ensures
            final(self)@ == (RunnerM {
                active: old(self)@.active.remove(index as int),
                completed: old(self)@.completed.push(old(self)@.active[index as int]),
                ..old(self)@
            }),
            runner_wf(final(self)@),
    {
        let job = self.active.remove(index);
        self.completed.push(job);
        proof {
            assert(jobs_view(self.active@) =~= old(self)@.active.remove(index as int));
            assert(jobs_view(self.completed@) =~= old(self)@.completed.push(
                old(self)@.active[index as int],
            ));
        }
    }

    /// The run summary: every completed job classified as success or
    /// failure, and each completed job's report keyed by its name.  A
    /// completed job without a terminal status is an internal-consistency
    /// fault and yields an error instead.
    pub fn build_report(&self) -> (r: Result<RunnerReport, BuildError>)
        ensures
            r is Ok <==> (forall|i: int|
                0 <= i < self@.completed.len() ==> is_terminal(
                    (#[trigger] self@.completed[i]).status,
                )),
            r matches Ok(rep) ==> {
                &&& rep@.num_files == self@.completed.len()
                &&& rep@.success == count_status(self@.completed, JobStatus::Success)
                &&& rep@.fail == count_status(self@.completed, JobStatus::Failed)
                &&& rep@.build_reports == report_pairs(self@.completed)
            },
            r matches Err(e) ==> e == BuildError::JobNotCompleted,
    {
        let ghost cm = self@.completed;
        let mut success: usize = 0;
        let mut fail: usize = 0;
        let mut pairs: Vec<(String, BuildReport)> = Vec::new();
        proof {
            assert(cm.take(0) =~= Seq::<JobM>::empty());
            assert(pairs_view(pairs@) =~= report_pairs(cm.take(0)));
        }
        let mut i: usize = 0;
        while i < self.completed.len()
            invariant
                0 <= i <= cm.len(),
                cm == jobs_view(self.completed@),
                cm.len() == self.completed@.len(),
                success == count_status(cm.take(i as int), JobStatus::Success),
                fail == count_status(cm.take(i as int), JobStatus::Failed),
                pairs_view(pairs@) == report_pairs(cm.take(i as int)),
                forall|k: int| 0 <= k < i ==> is_terminal((#[trigger] cm[k]).status),
            decreases cm.len() - i,
        {
            proof {
                lemma_count_status_bounds(cm.take(i as int), JobStatus::Success);
                lemma_count_status_bounds(cm.take(i as int), JobStatus::Failed);
                assert(cm.take(i + 1).drop_last() =~= cm.take(i as int));
                assert(cm.take(i + 1).last() == cm[i as int]);
            }
            let job = &self.completed[i];
            match job.status {
                JobStatus::Success => {
                    success = success + 1;
                },
                JobStatus::Failed => {
                    fail = fail + 1;
                },
                _ => {
                    return Err(BuildError::JobNotCompleted);
                },
            }
            match &job.report {
                Some(rep) => {
                    pairs.push((job.jobname.clone(), rep.clone()));
                    proof {
                        assert(pairs_view(pairs@) =~= report_pairs(cm.take(i + 1)));
                    }
                },
                None => {
                    proof {
                        assert(pairs_view(pairs@) =~= report_pairs(cm.take(i + 1)));
                    }
                },
            }
            i += 1;
        }
        proof {
            assert(cm.take(cm.len() as int) =~= cm);
        }
        Ok(
            RunnerReport {
                num_files: self.completed.len(),
                success,
                fail,
                build_reports: pairs,
            },
        )
    }
}

/// One step of the drain loop: applies one observed event to the runner,
/// per the runner transition function, and answers what to do next.
pub fn run(runner: &mut Runner, ev: RunnerEvent) -> (res: RunnerAction)
    requires
        runner_wf(old(runner)@),
        !(ev is Cancelled) ==> event_index(ev) < old(runner)@.active.len(),
        ev matches RunnerEvent::JobSpawned { index, ok } ==> (ok ==> old(
            runner,
        )@.active[index as int].run_count < 255),
    ensures
        final(runner)@ == runner_step(old(runner)@, ev).0,
        res == runner_step(old(runner)@, ev).1,
        runner_wf(final(runner)@),
{
    match ev {
        RunnerEvent::Cancelled => {
            self_cancel(runner);
            RunnerAction::CancelledAll
        },
        RunnerEvent::JobSpawned { index, ok } => {
            let jev = if ok {
                JobEvent::SpawnedOk
            } else {
                JobEvent::SpawnFailed
            };
            apply_job_event(runner, index, jev)
        },
        RunnerEvent::JobStillRunning { index } => {
            apply_job_event(runner, index, JobEvent::StillRunning)
        },
        RunnerEvent::JobExited { index, exit_ok, log } => {
            apply_job_event(runner, index, JobEvent::Exited { exit_ok, log })
        },
        RunnerEvent::JobWaitFailed { index } => {
            apply_job_event(runner, index, JobEvent::WaitFailed)
        },
    }
}

/// Discards the pending queue and the active window; the caller has
/// already killed the active processes.
fn self_cancel(runner: &mut Runner)
    ensures
        final(runner)@ == (RunnerM {
            pending: Seq::empty(),
            active: Seq::empty(),
            ..old(runner)@
        }),
{
    runner.pending.clear();
    runner.active.clear();
    proof {
        assert(jobs_view(runner.pending@) =~= Seq::<JobM>::empty());
        assert(jobs_view(runner.active@) =~= Seq::<JobM>::empty());
    }
}

/// Routes one job event to the indexed active job.
fn apply_job_event(runner: &mut Runner, index: usize, jev: JobEvent) -> (res: RunnerAction)
    requires
        index < old(runner)@.active.len(),
        jev is SpawnedOk ==> old(runner)@.active[index as int].run_count < 255,
    ensures
        final(runner)@ == (RunnerM {
            active: old(runner)@.active.update(
                index as int,
                job_step(old(runner)@.active[index as int], jev).0,
            ),
            ..old(runner)@
        }),
        res == outcome_action(job_step(old(runner)@.active[index as int], jev).1, index),
{
    let mut job = runner.active.remove(index);
    let outcome = job.poll(jev);
    runner.active.insert(index, job);
    proof {
        assert(jobs_view(runner.active@) =~= old(runner)@.active.update(
            index as int,
            job_step(old(runner)@.active[index as int], jev).0,
        ));
    }
    match outcome {
        PollOutcome::Terminal => RunnerAction::Terminal { index },
        PollOutcome::Continue => RunnerAction::Continue,
        PollOutcome::Respawn => RunnerAction::Respawn { index },
    }
}

/// All jobs a runner holds, wherever they stand.
pub open spec fn all_jobs(r: RunnerM) -> Seq<JobM> {
    r.pending + r.active + r.completed
}

/// Law: under the runner invariant, no more than the configured maximum
/// number of jobs hold `Active` status at once, whatever the backlog.
pub proof fn lemma_bounded_active(r: RunnerM)
    requires
        runner_wf(r),
    ensures
        count_status(all_jobs(r), JobStatus::Active) <= r.config.max_jobs,
{
    lemma_count_status_concat(r.pending + r.active, r.completed, JobStatus::Active);
    lemma_count_status_concat(r.pending, r.active, JobStatus::Active);
    lemma_count_status_absent(r.pending, JobStatus::Active);
    lemma_count_status_absent(r.completed, JobStatus::Active);
    lemma_count_status_bounds(r.active, JobStatus::Active);
}

/// Law: cancellation empties the pending queue and the active window and
/// retains exactly the jobs that had already been retired, so the final
/// summary covers those and no others.
pub proof fn lemma_cancel_keeps_only_completed(r: RunnerM)
    ensures
        runner_step(r, RunnerEvent::Cancelled).0.pending.len() == 0,
        runner_step(r, RunnerEvent::Cancelled).0.active.len() == 0,
        runner_step(r, RunnerEvent::Cancelled).0.completed == r.completed,
        report_pairs(runner_step(r, RunnerEvent::Cancelled).0.completed) == report_pairs(
            r.completed,
        ),
{
}

} // verus!
