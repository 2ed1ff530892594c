//! One build job: one source file, one engine invocation at a time,
//! possibly re-run once to resolve forward references.  The job owns no
//! process here; the caller performs the spawning, polling and killing and
//! reports what it observed as a `JobEvent`, and the job makes every
//! decision.
use vstd::prelude::*;

use crate::config::{command_spec, Config, ConfigM};
use crate::errors::BuildError;
use crate::messages::{strs_view, BuildReport, ReportM};
use crate::parse::{parse_log, run_lines};
use crate::scan::{has_prefix, prefix_at, range_is, rfind_at, rfind_char};

verus! {

/// The externally observable job states.  A rebuild is not a state of its
/// own: it is an `Active` to `Active` self-transition.
#[derive(Clone, Copy, Debug, PartialEq, Eq, Structural)]
pub enum JobStatus {
    Pending,
    Active,
    Success,
    Failed,
}

pub open spec fn is_terminal(s: JobStatus) -> bool {
    s == JobStatus::Success || s == JobStatus::Failed
}

/// What the caller observed of the job's external process.
#[derive(Debug)]
pub enum JobEvent {
    /// The process was started (first spawn or respawn).
    SpawnedOk,
    /// The process could not be started.
    SpawnFailed,
    /// A non-blocking check found the process still running.
    StillRunning,
    /// The process finished; `exit_ok` is the exit-code verdict and `log`
    /// the captured standard output, line by line.
    Exited { exit_ok: bool, log: Vec<String> },
    /// The non-blocking check itself failed.
    WaitFailed,
}

/// What the caller must do next with the job.
#[derive(Clone, Copy, Debug, PartialEq, Eq, Structural)]
pub enum PollOutcome {
    /// The job reached a terminal status on this call.
    Terminal,
    /// Nothing to do; poll again later.
    Continue,
    /// Start the engine once more for this job.
    Respawn,
}

/// The file name of `p` without its directory part.
pub open spec fn base_name(p: Seq<char>) -> Seq<char> {
    p.subrange(rfind_at(p, '/') + 1, p.len() as int)
}

/// The stem of `p`: its base name up to the last dot, with a leading dot
/// not counting as one.
pub open spec fn file_stem(p: Seq<char>) -> Seq<char> {
    let b = base_name(p);
    let d = rfind_at(b, '.');
    if d <= 0 {
        b
    } else {
        b.subrange(0, d)
    }
}

/// The extension of file name `name`: what follows the last dot, with a
/// leading dot not opening one.
pub open spec fn extension_of(name: Seq<char>) -> Option<Seq<char>> {
    let d = rfind_at(name, '.');
    if d <= 0 {
        None
    } else {
        Some(name.subrange(d + 1, name.len() as int))
    }
}

/// The stem of `path`, used as the job's name.
pub fn job_name_of(path: &str) -> (r: String)
    ensures
        r@ == file_stem(path@),
{
    let n = path.unicode_len();
    proof {
        crate::scan::lemma_rfind_at(path@, '/');
    }
    let b0: usize = match rfind_char(path, '/') {
        Some(j) => j + 1,
        None => 0,
    };
    let base = path.substring_char(b0, n);
    proof {
        crate::scan::lemma_rfind_at(base@, '.');
    }
    match rfind_char(base, '.') {
        Some(d) => {
            if d > 0 {
                base.substring_char(0, d).to_owned()
            } else {
                base.to_owned()
            }
        },
        None => base.to_owned(),
    }
}

pub open spec fn opt_report_view(o: Option<BuildReport>) -> Option<ReportM> {
    match o {
        Some(r) => Some(r@),
        None => None,
    }
}

/// One build job.
#[derive(Debug)]
pub struct Job {
    pub jobname: String,
    pub command: Vec<String>,
    pub run_count: u8,
    pub report: Option<BuildReport>,
    pub status: JobStatus,
}

pub ghost struct JobM {
    pub jobname: Seq<char>,
    pub command: Seq<Seq<char>>,
    pub run_count: int,
    pub report: Option<ReportM>,
    pub status: JobStatus,
}

impl View for Job {
    type V = JobM;

    open spec fn view(&self) -> JobM {
        JobM {
            jobname: self.jobname@,
            command: strs_view(self.command@),
            run_count: self.run_count as int,
            report: opt_report_view(self.report),
            status: self.status,
        }
    }
}

/// A freshly constructed job for `path` under configuration `c`: named
/// after the path's stem, with the full engine invocation recorded, never
/// run, without a report, pending.
pub open spec fn job_new_spec(c: ConfigM, path: Seq<char>) -> JobM {
    JobM {
        jobname: file_stem(path),
        command: command_spec(c) + seq![path],
        run_count: 0,
        report: None,
        status: JobStatus::Pending,
    }
}

/// The job transition function: how one observed event moves the job and
/// what the caller must do next.
///
/// A finished first run with no errors and unresolved references asks for
/// exactly one respawn; any later run is terminal whatever the references
/// say.  A failed spawn or wait is fatal for the job, a terminal job is
/// inert.
pub open spec fn job_step(j: JobM, ev: JobEvent) -> (JobM, PollOutcome) {
    match j.status {
        JobStatus::Pending => match ev {
            JobEvent::SpawnedOk => (
                (JobM { status: JobStatus::Active, run_count: j.run_count + 1, ..j }),
                PollOutcome::Continue,
            ),
            JobEvent::SpawnFailed => ((JobM { status: JobStatus::Failed, ..j }), PollOutcome::Terminal),
            _ => (j, PollOutcome::Continue),
        },
        JobStatus::Active => match ev {
            JobEvent::SpawnedOk => (
                (JobM { run_count: j.run_count + 1, ..j }),
                PollOutcome::Continue,
            ),
            JobEvent::SpawnFailed => ((JobM { status: JobStatus::Failed, ..j }), PollOutcome::Terminal),
            JobEvent::StillRunning => (j, PollOutcome::Continue),
            JobEvent::WaitFailed => ((JobM { status: JobStatus::Failed, ..j }), PollOutcome::Terminal),
            JobEvent::Exited { exit_ok, log } => {
                let rep = run_lines(strs_view(log@)).report;
                if rep.errors > 0 || !exit_ok {
                    (
                        (JobM { status: JobStatus::Failed, report: Some(rep), ..j }),
                        PollOutcome::Terminal,
                    )
                } else if j.run_count == 1 && rep.missing_references > 0 {
                    ((JobM { report: Some(rep), ..j }), PollOutcome::Respawn)
                } else {
                    (
                        (JobM { status: JobStatus::Success, report: Some(rep), ..j }),
                        PollOutcome::Terminal,
                    )
                }
            },
        },
        _ => (j, PollOutcome::Continue),
    }
}

impl Job {
    /// A new job for `path` under configuration `config`.
    pub fn new(config: &Config, path: &str) -> (j: Job)
        ensures
            j@ == job_new_spec(config@, path@),
    {
        let mut command = config.get_command();
        command.push(path.to_owned());
        let j = Job {
            jobname: job_name_of(path),
            command,
            run_count: 0,
            report: None,
            status: JobStatus::Pending,
        };
        proof {
            assert(strs_view(j.command@) =~= command_spec(config@) + seq![path@]);
        }
        j
    }

    /// Applies one observed event, per the job transition function.
    pub fn poll(&mut self, ev: JobEvent) -> (r: PollOutcome)
        requires
            ev is SpawnedOk ==> old(self).run_count < 255,
        ensures
            final(self)@ == job_step(old(self)@, ev).0,
            r == job_step(old(self)@, ev).1,
    {
        match self.status {
            JobStatus::Pending => match ev {
                JobEvent::SpawnedOk => {
                    self.status = JobStatus::Active;
                    self.run_count = self.run_count + 1;
                    PollOutcome::Continue
                },
                JobEvent::SpawnFailed => {
                    self.status = JobStatus::Failed;
                    PollOutcome::Terminal
                },
                _ => PollOutcome::Continue,
            },
            JobStatus::Active => match ev {
                JobEvent::SpawnedOk => {
                    self.run_count = self.run_count + 1;
                    PollOutcome::Continue
                },
                JobEvent::SpawnFailed => {
                    self.status = JobStatus::Failed;
                    PollOutcome::Terminal
                },
                JobEvent::StillRunning => PollOutcome::Continue,
                JobEvent::WaitFailed => {
                    self.status = JobStatus::Failed;
                    PollOutcome::Terminal
                },
                JobEvent::Exited { exit_ok, log } => {
                    let report = parse_log(&log);
                    let errors = report.errors;
                    let missing = report.missing_references;
                    self.report = Some(report);
                    if errors > 0 || !exit_ok {
                        self.status = JobStatus::Failed;
                        PollOutcome::Terminal
                    } else if self.run_count == 1 && missing > 0 {
                        PollOutcome::Respawn
                    } else {
                        self.status = JobStatus::Success;
                        PollOutcome::Terminal
                    }
                },
            },
            _ => PollOutcome::Continue,
        }
    }

    /// The parsed report of the last finished run, or an error while no
    /// run has finished.
    pub fn get_report(&self) -> (r: Result<&BuildReport, BuildError>)
        ensures
            r is Ok <==> self.report is Some,
            r matches Ok(b) ==> b@ == self.report->0@,
            r matches Err(e) ==> e == BuildError::MissingReport,
    {
        match &self.report {
            Some(rep) => Ok(rep),
            None => Err(BuildError::MissingReport),
        }
    }

    /// Whether a directory entry named `file_name` is a byproduct of this
    /// job: it carries the job's name and is neither the source file nor
    /// the primary artifact.
    pub fn should_clean(&self, file_name: &str) -> (r: bool)
        ensures
            r == (prefix_at(file_name@, 0, self.jobname@) && extension_of(file_name@) != Some(
                "tex"@,
            ) && extension_of(file_name@) != Some("pdf"@)),
    {
        if !has_prefix(file_name, 0, self.jobname.as_str()) {
            return false;
        }
        let n = file_name.unicode_len();
        proof {
            crate::scan::lemma_rfind_at(file_name@, '.');
        }
        match rfind_char(file_name, '.') {
            Some(d) => {
                if d == 0 {
                    true
                } else {
                    let is_tex = range_is(file_name, d + 1, n, "tex");
                    let is_pdf = range_is(file_name, d + 1, n, "pdf");
                    !(is_tex || is_pdf)
                }
            },
            None => true,
        }
    }
}

/// Law: a job whose first run exits cleanly, with no errors and no
/// unresolved references in its report, succeeds after that single run.
pub proof fn lemma_first_run_clean_succeeds(j: JobM, log: Vec<String>)
    requires
        j.status == JobStatus::Active,
        j.run_count == 1,
        run_lines(strs_view(log@)).report.errors == 0,
        run_lines(strs_view(log@)).report.missing_references == 0,
    ensures
        job_step(j, JobEvent::Exited { exit_ok: true, log }).0.status == JobStatus::Success,
        job_step(j, JobEvent::Exited { exit_ok: true, log }).0.run_count == 1,
        job_step(j, JobEvent::Exited { exit_ok: true, log }).1 == PollOutcome::Terminal,
{
}

/// Law: a job whose first run exits cleanly but leaves references
/// unresolved is respawned exactly once: the exit asks for a respawn while
/// the job stays active, and acknowledging the spawn makes it run number
/// two.
pub proof fn lemma_unresolved_first_run_respawns(j: JobM, log: Vec<String>)
    requires
        j.status == JobStatus::Active,
        j.run_count == 1,
        run_lines(strs_view(log@)).report.errors == 0,
        run_lines(strs_view(log@)).report.missing_references > 0,
    ensures
        job_step(j, JobEvent::Exited { exit_ok: true, log }).1 == PollOutcome::Respawn,
        job_step(j, JobEvent::Exited { exit_ok: true, log }).0.status == JobStatus::Active,
        job_step(
            job_step(j, JobEvent::Exited { exit_ok: true, log }).0,
            JobEvent::SpawnedOk,
        ).0.run_count == 2,
{
}

/// Law: the second run is final — its exit resolves the job to success or
/// failure on the strength of the second report alone, never to another
/// respawn.
pub proof fn lemma_second_run_is_final(j: JobM, exit_ok: bool, log: Vec<String>)
    requires
        j.status == JobStatus::Active,
        j.run_count == 2,
    ensures
        job_step(j, JobEvent::Exited { exit_ok, log }).1 == PollOutcome::Terminal,
        job_step(j, JobEvent::Exited { exit_ok, log }).0.status == (if run_lines(
            strs_view(log@),
        ).report.errors == 0 && exit_ok {
            JobStatus::Success
        } else {
            JobStatus::Failed
        }),
{
    crate::parse::lemma_step_preserves_wf_run(strs_view(log@));
    crate::messages::lemma_count_kind_bounds(
        run_lines(strs_view(log@)).report.messages,
        crate::messages::MessageKind::Error,
    );
}

} // verus!
