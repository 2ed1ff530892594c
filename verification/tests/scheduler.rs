use ltxbuild::config::Config;
use ltxbuild::engine::get_extension_for_engine;
use ltxbuild::errors::BuildError;
use ltxbuild::jobs::{Job, JobEvent, JobStatus, PollOutcome};
use ltxbuild::report::RunnerReport;
use ltxbuild::runner::{run, Runner, RunnerAction, RunnerEvent};

fn lines(v: &[&str]) -> Vec<String> {
    v.iter().map(|s| s.to_string()).collect()
}

fn clean_log() -> Vec<String> {
    lines(&["Output written on test.pdf (1 page)."])
}

fn unresolved_log() -> Vec<String> {
    lines(&["LaTeX Warning: There were undefined references."])
}

fn error_log() -> Vec<String> {
    lines(&["! Undefined control sequence."])
}

fn config_with(max_jobs: usize) -> Config {
    let mut c = Config::default();
    c.max_jobs = max_jobs;
    c
}

#[test]
fn job_command_line_order() {
    let mut c = Config::default();
    c.flags = lines(&["-shell-escape"]);
    c.build_directory = Some("build".to_string());
    let j = Job::new(&c, "src/test.tex");
    assert_eq!(j.jobname, "test");
    assert_eq!(
        j.command,
        lines(&[
            "pdflatex",
            "-shell-escape",
            "-interaction=nonstopmode",
            "-output-directory=build",
            "src/test.tex",
        ])
    );
    assert_eq!(j.run_count, 0);
    assert!(matches!(j.status, JobStatus::Pending));
    assert!(j.report.is_none());
}

#[test]
fn default_command_has_no_output_directory() {
    let c = Config::default();
    let cmd = c.get_command();
    assert_eq!(cmd, lines(&["pdflatex", "-interaction=nonstopmode"]));
    assert_eq!(c.max_jobs, 1);
    assert!(!c.clean_build);
    assert!(!c.verbose);
}

#[test]
fn clean_first_run_succeeds_with_one_spawn() {
    let c = Config::default();
    let mut j = Job::new(&c, "test.tex");
    assert!(matches!(j.poll(JobEvent::SpawnedOk), PollOutcome::Continue));
    assert!(matches!(j.status, JobStatus::Active));
    assert_eq!(j.run_count, 1);
    assert!(matches!(j.poll(JobEvent::StillRunning), PollOutcome::Continue));
    let out = j.poll(JobEvent::Exited { exit_ok: true, log: clean_log() });
    assert!(matches!(out, PollOutcome::Terminal));
    assert!(matches!(j.status, JobStatus::Success));
    assert_eq!(j.run_count, 1);
    let rep = j.get_report().unwrap();
    assert_eq!(rep.errors, 0);
    assert_eq!(rep.missing_references, 0);
}

#[test]
fn unresolved_references_trigger_exactly_one_rebuild() {
    let c = Config::default();
    let mut j = Job::new(&c, "test.tex");
    j.poll(JobEvent::SpawnedOk);
    let out = j.poll(JobEvent::Exited { exit_ok: true, log: unresolved_log() });
    assert!(matches!(out, PollOutcome::Respawn));
    assert!(matches!(j.status, JobStatus::Active));
    assert_eq!(j.run_count, 1);
    j.poll(JobEvent::SpawnedOk);
    assert_eq!(j.run_count, 2);
    // Still-unresolved references on the second run no longer respawn.
    let out = j.poll(JobEvent::Exited { exit_ok: true, log: unresolved_log() });
    assert!(matches!(out, PollOutcome::Terminal));
    assert!(matches!(j.status, JobStatus::Success));
    assert_eq!(j.run_count, 2);
}

#[test]
fn second_run_failure_follows_second_report() {
    let c = Config::default();
    let mut j = Job::new(&c, "test.tex");
    j.poll(JobEvent::SpawnedOk);
    j.poll(JobEvent::Exited { exit_ok: true, log: unresolved_log() });
    j.poll(JobEvent::SpawnedOk);
    let out = j.poll(JobEvent::Exited { exit_ok: true, log: error_log() });
    assert!(matches!(out, PollOutcome::Terminal));
    assert!(matches!(j.status, JobStatus::Failed));
}

#[test]
fn parsed_errors_fail_despite_clean_exit() {
    let c = Config::default();
    let mut j = Job::new(&c, "test.tex");
    j.poll(JobEvent::SpawnedOk);
    let out = j.poll(JobEvent::Exited { exit_ok: true, log: error_log() });
    assert!(matches!(out, PollOutcome::Terminal));
    assert!(matches!(j.status, JobStatus::Failed));
    assert_eq!(j.get_report().unwrap().errors, 1);
}

#[test]
fn bad_exit_fails_despite_clean_log() {
    let c = Config::default();
    let mut j = Job::new(&c, "test.tex");
    j.poll(JobEvent::SpawnedOk);
    let out = j.poll(JobEvent::Exited { exit_ok: false, log: clean_log() });
    assert!(matches!(out, PollOutcome::Terminal));
    assert!(matches!(j.status, JobStatus::Failed));
}

#[test]
fn spawn_failure_is_fatal_for_the_job() {
    let c = Config::default();
    let mut j = Job::new(&c, "test.tex");
    let out = j.poll(JobEvent::SpawnFailed);
    assert!(matches!(out, PollOutcome::Terminal));
    assert!(matches!(j.status, JobStatus::Failed));
    assert!(matches!(j.get_report(), Err(BuildError::MissingReport)));
}

#[test]
fn wait_failure_is_fatal_for_the_job() {
    let c = Config::default();
    let mut j = Job::new(&c, "test.tex");
    j.poll(JobEvent::SpawnedOk);
    let out = j.poll(JobEvent::WaitFailed);
    assert!(matches!(out, PollOutcome::Terminal));
    assert!(matches!(j.status, JobStatus::Failed));
}

#[test]
fn terminal_job_is_inert() {
    let c = Config::default();
    let mut j = Job::new(&c, "test.tex");
    j.poll(JobEvent::SpawnFailed);
    let out = j.poll(JobEvent::Exited { exit_ok: true, log: clean_log() });
    assert!(matches!(out, PollOutcome::Continue));
    assert!(matches!(j.status, JobStatus::Failed));
}

#[test]
fn cleanup_spares_source_and_artifact() {
    let c = Config::default();
    let j = Job::new(&c, "test.tex");
    assert!(j.should_clean("test.aux"));
    assert!(j.should_clean("test.log"));
    assert!(j.should_clean("test"));
    assert!(!j.should_clean("test.tex"));
    assert!(!j.should_clean("test.pdf"));
    assert!(!j.should_clean("other.aux"));
}

#[test]
fn window_never_exceeds_configured_concurrency() {
    let mut r = Runner::new(config_with(2), &lines(&["a.tex", "b.tex", "c.tex", "d.tex"]));
    assert_eq!(r.pending.len(), 4);
    assert_eq!(r.push_next_job(), Some(0));
    assert_eq!(r.push_next_job(), Some(1));
    assert!(!r.can_admit());
    assert_eq!(r.push_next_job(), None);
    assert_eq!(r.active.len(), 2);
    assert_eq!(r.pending.len(), 2);
    // Launch order follows submission order.
    assert_eq!(r.active[0].jobname, "a");
    assert_eq!(r.active[1].jobname, "b");

    run(&mut r, RunnerEvent::JobSpawned { index: 0, ok: true });
    run(&mut r, RunnerEvent::JobSpawned { index: 1, ok: true });
    assert_eq!(r.active.iter().filter(|j| matches!(j.status, JobStatus::Active)).count(), 2);

    let act = run(&mut r, RunnerEvent::JobExited { index: 0, exit_ok: true, log: clean_log() });
    assert!(matches!(act, RunnerAction::Terminal { index: 0 }));
    r.retire(0);
    assert_eq!(r.active.len(), 1);
    assert_eq!(r.push_next_job(), Some(1));
    assert_eq!(r.active.len(), 2);
    assert_eq!(r.active[1].jobname, "c");
    assert!(r.active.len() <= 2);
}

#[test]
fn respawn_action_flows_through_runner() {
    let mut r = Runner::new(config_with(1), &lines(&["a.tex"]));
    r.push_next_job();
    run(&mut r, RunnerEvent::JobSpawned { index: 0, ok: true });
    let act = run(
        &mut r,
        RunnerEvent::JobExited { index: 0, exit_ok: true, log: unresolved_log() },
    );
    assert!(matches!(act, RunnerAction::Respawn { index: 0 }));
    run(&mut r, RunnerEvent::JobSpawned { index: 0, ok: true });
    assert_eq!(r.active[0].run_count, 2);
    let act = run(&mut r, RunnerEvent::JobExited { index: 0, exit_ok: true, log: clean_log() });
    assert!(matches!(act, RunnerAction::Terminal { index: 0 }));
    r.retire(0);
    assert!(matches!(r.completed[0].status, JobStatus::Success));
}

#[test]
fn submit_rejects_missing_paths() {
    let mut r = Runner::new(config_with(1), &lines(&[]));
    assert!(matches!(r.submit("gone.tex", false), Err(BuildError::PathNotFound)));
    assert_eq!(r.pending.len(), 0);
    assert!(r.submit("here.tex", true).is_ok());
    assert_eq!(r.pending.len(), 1);
    assert_eq!(r.pending[0].jobname, "here");
}

#[test]
fn cancellation_reports_only_completed_jobs() {
    let mut r = Runner::new(config_with(1), &lines(&["a.tex", "b.tex", "c.tex"]));
    r.push_next_job();
    run(&mut r, RunnerEvent::JobSpawned { index: 0, ok: true });
    run(&mut r, RunnerEvent::JobExited { index: 0, exit_ok: true, log: clean_log() });
    r.retire(0);
    r.push_next_job();
    run(&mut r, RunnerEvent::JobSpawned { index: 0, ok: true });
    // The interrupt arrives while "b" runs and "c" still waits.
    let act = run(&mut r, RunnerEvent::Cancelled);
    assert!(matches!(act, RunnerAction::CancelledAll));
    assert!(r.pending.is_empty());
    assert!(r.active.is_empty());
    assert_eq!(r.completed.len(), 1);
    let rep = r.build_report().unwrap();
    assert_eq!(rep.num_files, 1);
    assert_eq!(rep.success, 1);
    assert_eq!(rep.fail, 0);
    assert_eq!(rep.build_reports.len(), 1);
    assert_eq!(rep.build_reports[0].0, "a");
}

#[test]
fn build_report_counts_and_keys_reports() {
    let mut r = Runner::new(config_with(2), &lines(&["good.tex", "bad.tex"]));
    r.push_next_job();
    r.push_next_job();
    run(&mut r, RunnerEvent::JobSpawned { index: 0, ok: true });
    run(&mut r, RunnerEvent::JobSpawned { index: 1, ok: true });
    run(&mut r, RunnerEvent::JobExited { index: 1, exit_ok: true, log: error_log() });
    r.retire(1);
    run(&mut r, RunnerEvent::JobExited { index: 0, exit_ok: true, log: clean_log() });
    r.retire(0);
    let rep = r.build_report().unwrap();
    assert_eq!(rep.num_files, 2);
    assert_eq!(rep.success, 1);
    assert_eq!(rep.fail, 1);
    // Retirement order, not submission order.
    assert_eq!(rep.build_reports[0].0, "bad");
    assert_eq!(rep.build_reports[0].1.errors, 1);
    assert_eq!(rep.build_reports[1].0, "good");
    assert_eq!(rep.build_reports[1].1.errors, 0);
}

#[test]
fn spawn_failure_retires_as_failure() {
    let mut r = Runner::new(config_with(1), &lines(&["a.tex"]));
    r.push_next_job();
    let act = run(&mut r, RunnerEvent::JobSpawned { index: 0, ok: false });
    assert!(matches!(act, RunnerAction::Terminal { index: 0 }));
    r.retire(0);
    let rep = r.build_report().unwrap();
    assert_eq!(rep.num_files, 1);
    assert_eq!(rep.fail, 1);
    // A job that never ran has no report to key.
    assert!(rep.build_reports.is_empty());
}

#[test]
fn aggregation_rejects_a_non_terminal_completed_job() {
    let c = Config::default();
    let mut r = Runner::new(config_with(1), &lines(&[]));
    // Force the internal-consistency fault the aggregation guards against.
    r.completed.push(Job::new(&c, "stray.tex"));
    assert!(matches!(r.build_report(), Err(BuildError::JobNotCompleted)));
    assert_eq!(BuildError::JobNotCompleted.describe(), "job was not completed");
    assert_eq!(BuildError::PathNotFound.describe(), "the file does not exist");
    assert_eq!(BuildError::MissingReport.describe(), "report has not been set");
}

#[test]
fn empty_runner_report() {
    let rep = RunnerReport::new();
    assert_eq!(rep.num_files, 0);
    assert_eq!(rep.success, 0);
    assert_eq!(rep.fail, 0);
    assert!(rep.build_reports.is_empty());
}

#[test]
fn engine_extensions() {
    assert_eq!(get_extension_for_engine("pdflatex").unwrap(), ".pdf");
    assert_eq!(get_extension_for_engine("pdftex").unwrap(), ".pdf");
    assert_eq!(get_extension_for_engine("luatex").unwrap(), ".pdf");
    let e = get_extension_for_engine("xelatex");
    assert!(matches!(e, Err(BuildError::UnrecognisedEngine)));
    assert_eq!(BuildError::UnrecognisedEngine.describe(), "unrecognised engine");
}

#[test]
fn job_names_come_from_path_stems() {
    let c = Config::default();
    assert_eq!(Job::new(&c, "a/b/report.tex").jobname, "report");
    assert_eq!(Job::new(&c, "noext").jobname, "noext");
    assert_eq!(Job::new(&c, ".hidden").jobname, ".hidden");
    assert_eq!(Job::new(&c, "dir.v2/x.y.tex").jobname, "x.y");
}
