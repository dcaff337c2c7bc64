use loadbench::config::{ErrorKind, RunResult, RunStatus, TargetConfig, Warnings};
use loadbench::process::{KillOutcome, ProcessHandle, ProcessState};
use loadbench::sample::{Sample, Series};

fn target(name: &str) -> TargetConfig {
    TargetConfig {
        name: name.to_string(),
        command: "node".to_string(),
        args: vec!["index.js".to_string()],
        working_dir: "/srv/node".to_string(),
        load_args: vec!["-t12".to_string(), "-c400".to_string(), "-d10s".to_string()],
        duration_ms: 10_000,
    }
}

#[test]
fn new_handle_is_running() {
    let handle = ProcessHandle::new(4242);
    assert_eq!(handle.id(), 4242);
    assert_eq!(handle.state(), ProcessState::Running);
    assert!(handle.is_running());
}

#[test]
fn terminate_kills_a_running_process() {
    let mut handle = ProcessHandle::new(1);
    assert_eq!(handle.terminate(KillOutcome::Killed), None);
    assert_eq!(handle.state(), ProcessState::Terminated);
    assert!(!handle.is_running());
    assert_eq!(handle.id(), 1);
}

#[test]
fn terminate_twice_is_a_no_op() {
    for second in [KillOutcome::Killed, KillOutcome::AlreadyExited, KillOutcome::Failed] {
        let mut handle = ProcessHandle::new(1);
        assert_eq!(handle.terminate(KillOutcome::Killed), None);
        assert_eq!(handle.terminate(second), None);
        assert_eq!(handle.state(), ProcessState::Terminated);
    }
}

#[test]
fn terminate_after_exit_is_a_no_op() {
    for outcome in [KillOutcome::Killed, KillOutcome::AlreadyExited, KillOutcome::Failed] {
        let mut handle = ProcessHandle::new(1);
        handle.mark_exited();
        assert_eq!(handle.state(), ProcessState::Exited);
        assert_eq!(handle.terminate(outcome), None);
        assert_eq!(handle.state(), ProcessState::Exited);
    }
}

#[test]
fn terminate_finding_the_process_gone_is_not_a_failure() {
    let mut handle = ProcessHandle::new(1);
    assert_eq!(handle.terminate(KillOutcome::AlreadyExited), None);
    assert_eq!(handle.state(), ProcessState::Exited);
}

#[test]
fn terminate_that_cannot_kill_reports_a_failure() {
    let mut handle = ProcessHandle::new(1);
    assert_eq!(handle.terminate(KillOutcome::Failed), Some(ErrorKind::TerminationFailure));
    assert_eq!(handle.state(), ProcessState::Running);
    assert_eq!(handle.terminate(KillOutcome::Killed), None);
    assert_eq!(handle.state(), ProcessState::Terminated);
}

#[test]
fn mark_exited_leaves_a_terminated_process_alone() {
    let mut handle = ProcessHandle::new(1);
    handle.terminate(KillOutcome::Killed);
    handle.mark_exited();
    assert_eq!(handle.state(), ProcessState::Terminated);
}

#[test]
fn log_file_name_depends_on_the_name_alone() {
    assert_eq!(target("rust").log_file_name(), "wrk_rust.log");
    assert_eq!(target("bun").log_file_name(), "wrk_bun.log");
    assert_eq!(target("").log_file_name(), "wrk_.log");
    let mut other = target("go");
    other.command = "go".to_string();
    other.duration_ms = 1;
    assert_eq!(other.log_file_name(), target("go").log_file_name());
}

#[test]
fn error_kinds_have_their_own_descriptions() {
    assert_eq!(ErrorKind::SpawnFailure.describe(), "spawn failure");
    assert_eq!(ErrorKind::MetricUnavailable.describe(), "metric unavailable");
    assert_eq!(ErrorKind::TerminationFailure.describe(), "termination failure");
    assert_eq!(ErrorKind::PrematureExit.describe(), "premature exit");
    assert_eq!(ErrorKind::ReadyTimeout.describe(), "ready timeout");
}

#[test]
fn run_status_tells_failures_apart() {
    assert!(!RunStatus::Completed.is_failed());
    assert!(!RunStatus::Completed.is_spawn_failure());
    assert!(RunStatus::Failed(ErrorKind::SpawnFailure).is_failed());
    assert!(RunStatus::Failed(ErrorKind::SpawnFailure).is_spawn_failure());
    assert!(RunStatus::Failed(ErrorKind::PrematureExit).is_failed());
    assert!(!RunStatus::Failed(ErrorKind::PrematureExit).is_spawn_failure());
}

#[test]
fn run_result_hands_back_what_it_was_given() {
    let mut series = Series::new();
    series.push(Sample { elapsed_seconds: 1, cpu_percent: 2, mem_percent: 3 });
    let warnings = Warnings { metric_unavailable: true, termination_failed: false };
    let result = RunResult::new(target("node"), series, RunStatus::Completed, warnings);
    assert_eq!(result.target(), &target("node"));
    assert_eq!(result.series().len(), 1);
    assert_eq!(result.status(), RunStatus::Completed);
    assert_eq!(result.warnings(), warnings);
    assert_eq!(result.report(), "node: completed");
    assert_eq!(result.into_series().to_vec().len(), 1);
}

#[test]
fn run_result_reports_name_and_reason() {
    let failed = RunResult::new(
        target("bun"),
        Series::new(),
        RunStatus::Failed(ErrorKind::SpawnFailure),
        Warnings::none(),
    );
    assert_eq!(failed.report(), "bun: failed: spawn failure");
    let crashed = RunResult::new(
        target("go"),
        Series::new(),
        RunStatus::Failed(ErrorKind::PrematureExit),
        Warnings::none(),
    );
    assert_eq!(crashed.report(), "go: failed: premature exit");
}

#[test]
fn warnings_none_raises_nothing() {
    let warnings = Warnings::none();
    assert!(!warnings.metric_unavailable);
    assert!(!warnings.termination_failed);
}

#[test]
fn warnings_list_their_kinds_in_order() {
    assert!(Warnings::none().kinds().is_empty());
    let metric = Warnings { metric_unavailable: true, termination_failed: false };
    assert_eq!(metric.kinds(), vec![ErrorKind::MetricUnavailable]);
    let kill = Warnings { metric_unavailable: false, termination_failed: true };
    assert_eq!(kill.kinds(), vec![ErrorKind::TerminationFailure]);
    let both = Warnings { metric_unavailable: true, termination_failed: true };
    assert_eq!(both.kinds(), vec![ErrorKind::MetricUnavailable, ErrorKind::TerminationFailure]);
}
