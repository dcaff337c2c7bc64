//! What a run is given and what it hands back: the target's configuration,
//! the kinds of failure, and the result of a run.

use vstd::prelude::*;
use vstd::string::StringExecFns;
use crate::sample::Series;

verus! {

/// One benchmarked configuration: the subject server to launch and the load
/// to put on it.
#[derive(Clone, Debug, PartialEq, Eq)]
pub struct TargetConfig {
    /// The target's identifier, used in reports and in the log's name.
    pub name: String,
    /// The command that launches the subject server.
    pub command: String,
    /// Arguments of the launch command.
    pub args: Vec<String>,
    /// Directory in which the subject server is launched.
    pub working_dir: String,
    /// Arguments of the load generator.
    pub load_args: Vec<String>,
    /// How long the load runs, in milliseconds.
    pub duration_ms: u64,
}

/// What can go wrong in a run.
#[derive(Clone, Copy, Debug, PartialEq, Eq, Structural)]
pub enum ErrorKind {
    /// A process could not be launched: the command, the binary or the
    /// working directory is invalid.
    SpawnFailure,
    /// The host did not answer a metric query; the last known value was
    /// recorded in its place.
    MetricUnavailable,
    /// The subject could not be killed, or was still running afterwards.
    TerminationFailure,
    /// The subject exited while the load generator was still running.
    PrematureExit,
    /// The subject was not reported ready in time.
    ReadyTimeout,
}

/// How a run ended.
#[derive(Clone, Copy, Debug, PartialEq, Eq, Structural)]
pub enum RunStatus {
    /// Both processes ran and the load generator finished.
    Completed,
    /// The run failed for the given reason. Samples taken before the
    /// failure are kept.
    Failed(ErrorKind),
}

/// Conditions met during a run that did not fail it.
#[derive(Clone, Copy, Debug, PartialEq, Eq, Structural)]
pub struct Warnings {
    /// At some tick the metrics were unavailable.
    pub metric_unavailable: bool,
    /// Terminating the subject failed, or it was found running afterwards.
    pub termination_failed: bool,
}

/// The outcome of one target's run.
#[derive(Debug)]
pub struct RunResult {
    target: TargetConfig,
    series: Series,
    status: RunStatus,
    warnings: Warnings,
}

/// The text that names a kind of failure in reports.
pub open spec fn describe_spec(kind: ErrorKind) -> Seq<char> {
    match kind {
        ErrorKind::SpawnFailure => "spawn failure"@,
        ErrorKind::MetricUnavailable => "metric unavailable"@,
        ErrorKind::TerminationFailure => "termination failure"@,
        ErrorKind::PrematureExit => "premature exit"@,
        ErrorKind::ReadyTimeout => "ready timeout"@,
    }
}

/// The name of the file that receives a target's load-generator output.
pub open spec fn log_file_name_spec(name: Seq<char>) -> Seq<char> {
    "wrk_"@ + name + ".log"@
}

/// The line that reports a run: the target's name, then how it ended.
pub open spec fn report_spec(name: Seq<char>, status: RunStatus) -> Seq<char> {
    match status {
        RunStatus::Completed => name + ": completed"@,
        RunStatus::Failed(kind) => name + ": failed: "@ + describe_spec(kind),
    }
}

impl ErrorKind {
    /// The text that names this kind of failure in reports.
    pub fn describe(&self) -> (text: String)
        ensures
            text@ == describe_spec(*self),
    {
        match self {
            ErrorKind::SpawnFailure => String::from_str("spawn failure"),
            ErrorKind::MetricUnavailable => String::from_str("metric unavailable"),
            ErrorKind::TerminationFailure => String::from_str("termination failure"),
            ErrorKind::PrematureExit => String::from_str("premature exit"),
            ErrorKind::ReadyTimeout => String::from_str("ready timeout"),
        }
    }
}

impl RunStatus {
    /// Whether the run failed.
    pub fn is_failed(&self) -> (failed: bool)
        ensures
            failed == (*self is Failed),
    {
        match self {
            RunStatus::Completed => false,
            RunStatus::Failed(_) => true,
        }
    }

    /// Whether the run failed because a process could not be launched.
    pub fn is_spawn_failure(&self) -> (failed: bool)
        ensures
            failed == (*self == RunStatus::Failed(ErrorKind::SpawnFailure)),
    {
        match self {
            RunStatus::Failed(ErrorKind::SpawnFailure) => true,
            _ => false,
        }
    }
}

/// The kinds of failure that a set of warnings stands for, in a fixed
/// order.
pub open spec fn warning_kinds(warnings: Warnings) -> Seq<ErrorKind> {
    (if warnings.metric_unavailable {
        seq![ErrorKind::MetricUnavailable]
    } else {
        Seq::<ErrorKind>::empty()
    }) + (if warnings.termination_failed {
        seq![ErrorKind::TerminationFailure]
    } else {
        Seq::<ErrorKind>::empty()
    })
}

impl Warnings {
    /// The kinds of failure these warnings stand for, for reporting.
    pub fn kinds(&self) -> (kinds: Vec<ErrorKind>)
        ensures
            kinds@ == warning_kinds(*self),
    {
        let mut kinds: Vec<ErrorKind> = Vec::new();
        if self.metric_unavailable {
            kinds.push(ErrorKind::MetricUnavailable);
        }
        if self.termination_failed {
            kinds.push(ErrorKind::TerminationFailure);
        }
        assert(kinds@ =~= warning_kinds(*self));
        kinds
    }

    /// No warning at all.
    pub fn none() -> (warnings: Warnings)
        ensures
            warnings == (Warnings { metric_unavailable: false, termination_failed: false }),
    {
        Warnings { metric_unavailable: false, termination_failed: false }
    }
}

impl TargetConfig {
    /// The name of the file that receives the load generator's output for
    /// this target. It depends on the target's name alone.
    pub fn log_file_name(&self) -> (file: String)
        ensures
            file@ == log_file_name_spec(self.name@),
    {
        String::from_str("wrk_").concat(self.name.as_str()).concat(".log")
    }
}

impl RunResult {
    /// The target that was run.
    pub closed spec fn target_spec(&self) -> TargetConfig {
        self.target
    }

    /// The samples taken during the run.
    pub closed spec fn series_spec(&self) -> Series {
        self.series
    }

    /// How the run ended.
    pub closed spec fn status_spec(&self) -> RunStatus {
        self.status
    }

    /// The warnings raised during the run.
    pub closed spec fn warnings_spec(&self) -> Warnings {
        self.warnings
    }

    /// Puts together the result of a finished run.
    pub fn new(target: TargetConfig, series: Series, status: RunStatus, warnings: Warnings) -> (result:
        RunResult)
        ensures
            result.target_spec() == target,
            result.series_spec() == series,
            result.status_spec() == status,
            result.warnings_spec() == warnings,
    {
        RunResult { target, series, status, warnings }
    }

    /// The target that was run.
    pub fn target(&self) -> (target: &TargetConfig)
        ensures
            *target == self.target_spec(),
    {
        &self.target
    }

    /// The samples taken during the run.
    pub fn series(&self) -> (series: &Series)
        ensures
            *series == self.series_spec(),
    {
        &self.series
    }

    /// How the run ended.
    pub fn status(&self) -> (status: RunStatus)
        ensures
            status == self.status_spec(),
    {
        self.status
    }

    /// The warnings raised during the run.
    pub fn warnings(&self) -> (warnings: Warnings)
        ensures
            warnings == self.warnings_spec(),
    {
        self.warnings
    }

    /// Gives up the result for its series, which then has a single owner.
    pub fn into_series(self) -> (series: Series)
        ensures
            series == self.series_spec(),
    {
        self.series
    }

    /// The line that reports this run: the target's name and, for a failed
    /// run, the reason.
    pub fn report(&self) -> (line: String)
        ensures
            line@ == report_spec(self.target_spec().name@, self.status_spec()),
    {
        let name: String = String::from_str(self.target.name.as_str());
        match self.status {
            RunStatus::Completed => name.concat(": completed"),
            RunStatus::Failed(kind) => {
                let reason: String = kind.describe();
                let line: String = name.concat(": failed: ").concat(reason.as_str());
                assert(line@ =~= self.target.name@ + ": failed: "@ + describe_spec(kind));
                line
            },
        }
    }
}

} // verus!
