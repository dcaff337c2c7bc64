//! The run of one target as a state machine.
//!
//! The orchestrator never spawns, waits or sleeps. It names the action that
//! is due (`pending`), the driver performs it and reports what happened as
//! an `Event`, and `step` moves the run on. An event that is not an answer
//! to the pending action changes nothing.

use vstd::prelude::*;
use sysinfo::System;
use crate::config::{ErrorKind, RunResult, RunStatus, TargetConfig, Warnings};
use crate::metrics::{effective_interval_spec, MetricSource};
use crate::process::{
    terminated_state,
    termination_error,
    KillOutcome,
    ProcessHandle,
    ProcessState,
};
use crate::sample::{all_valid, ordered, round_seconds_spec, Sample};
use crate::sampler::{paced, punctual, sleep_spec, stop_condition, tick_time, Sampler};

verus! {

/// Where a run stands.
#[derive(Clone, Copy, Debug, PartialEq, Eq, Structural)]
pub enum Phase {
    /// The subject is to be launched.
    SpawningSubject,
    /// The subject runs; the run waits to be told that it is ready.
    AwaitingReady,
    /// The load generator is to be launched.
    SpawningLoad,
    /// The load generator runs and samples are taken.
    Sampling,
    /// The configured duration is over; the load generator has yet to exit.
    Draining,
    /// The subject is to be terminated.
    TearingDown,
    /// The subject is to be checked for still running.
    Verifying,
    /// The host is left to settle before the next run.
    CoolingDown,
    /// The run is over.
    Finished,
}

/// What the driver is asked to do next.
#[derive(Clone, Copy, Debug, PartialEq, Eq, Structural)]
pub enum Action {
    /// Launch the subject with the target's command, arguments and
    /// working directory.
    SpawnSubject,
    /// Wait for the signal that the subject is ready.
    AwaitReady,
    /// Launch the load generator, its output going to the target's log.
    SpawnLoad,
    /// Take the first sample at once and report it as a tick.
    Sample,
    /// Sleep until the next tick boundary, then report a tick.
    SleepThenSample,
    /// Wait for the load generator to exit.
    AwaitLoadExit,
    /// Terminate the subject, even if it has exited already.
    TerminateSubject,
    /// Check whether the subject is still running.
    VerifyTerminated,
    /// Wait for the settle delay.
    Cooldown,
    /// Collect the result; nothing is left to do.
    Finish,
}

/// What the driver reports back.
#[derive(Clone, Copy, Debug)]
pub enum Event {
    /// The subject was launched.
    SubjectSpawned { pid: u32 },
    /// The subject could not be launched.
    SubjectSpawnFailed,
    /// The subject was reported ready.
    Ready,
    /// The subject was not reported ready in time.
    ReadyTimedOut,
    /// The load generator was launched.
    LoadSpawned { pid: u32 },
    /// The load generator could not be launched.
    LoadSpawnFailed,
    /// A tick began at `now_ms` milliseconds after sampling started.
    /// `readings` holds CPU and memory utilisation, or nothing where the
    /// host did not answer. The two flags say what is known of the
    /// processes at this tick.
    Tick { now_ms: u64, readings: Option<(u64, u64)>, load_exited: bool, subject_exited: bool },
    /// The wait for the load generator's exit has returned.
    LoadExited,
    /// The subject's termination was requested; `outcome` is the answer.
    Terminated { outcome: KillOutcome },
    /// The subject was checked; `running` says whether it is still there.
    Verified { running: bool },
    /// The settle delay has passed.
    CooldownElapsed,
}

/// The state of a run, as far as its decisions depend on it.
pub struct RunState {
    /// Where the run stands.
    pub phase: Phase,
    /// What is known of the subject, once it has been launched.
    pub subject: Option<ProcessState>,
    /// What is known of the load generator, once it has been launched.
    pub load: Option<ProcessState>,
    /// How the run has gone so far.
    pub status: RunStatus,
    /// Warnings raised so far.
    pub warnings: Warnings,
}

/// The state of a process after it was seen to have exited.
pub open spec fn exited(state: Option<ProcessState>) -> Option<ProcessState> {
    match state {
        Some(s) => Some(terminated_state(s, KillOutcome::AlreadyExited)),
        None => None,
    }
}

/// Whether an event reports that the load generator has exited.
pub open spec fn reports_load_exit(event: Event) -> bool {
    match event {
        Event::LoadExited => true,
        Event::Tick { load_exited, .. } => load_exited,
        _ => false,
    }
}

/// The readings to record at a tick: those reported, or, where the host did
/// not answer, those of the previous sample (zero before the first).
pub open spec fn resolve_readings(readings: Option<(u64, u64)>, samples: Seq<Sample>) -> (u64, u64) {
    match readings {
        Some(r) => r,
        None => if samples.len() > 0 {
            (samples.last().cpu_percent, samples.last().mem_percent)
        } else {
            (0, 0)
        },
    }
}

/// The state after `event`. `stop` is the sampler's verdict on the tick
/// that the event reports, and counts only while sampling.
pub open spec fn step_state(s: RunState, event: Event, stop: bool) -> RunState {
    match s.phase {
        Phase::SpawningSubject => match event {
            Event::SubjectSpawned { pid } => RunState {
                phase: Phase::AwaitingReady,
                subject: Some(ProcessState::Running),
                ..s
            },
            Event::SubjectSpawnFailed => RunState {
                phase: Phase::Finished,
                status: RunStatus::Failed(ErrorKind::SpawnFailure),
                ..s
            },
            _ => s,
        },
        Phase::AwaitingReady => match event {
            Event::Ready => RunState { phase: Phase::SpawningLoad, ..s },
            Event::ReadyTimedOut => RunState {
                phase: Phase::TearingDown,
                status: RunStatus::Failed(ErrorKind::ReadyTimeout),
                ..s
            },
            _ => s,
        },
        Phase::SpawningLoad => match event {
            Event::LoadSpawned { pid } => RunState {
                phase: Phase::Sampling,
                load: Some(ProcessState::Running),
                ..s
            },
            Event::LoadSpawnFailed => RunState {
                phase: Phase::TearingDown,
                status: RunStatus::Failed(ErrorKind::SpawnFailure),
                ..s
            },
            _ => s,
        },
        Phase::Sampling => match event {
            Event::Tick { now_ms, readings, load_exited, subject_exited } => RunState {
                phase: if load_exited {
                    Phase::TearingDown
                } else if stop {
                    Phase::Draining
                } else {
                    Phase::Sampling
                },
                subject: if subject_exited {
                    exited(s.subject)
                } else {
                    s.subject
                },
                load: if load_exited {
                    exited(s.load)
                } else {
                    s.load
                },
                status: if subject_exited && !load_exited && s.status == RunStatus::Completed {
                    RunStatus::Failed(ErrorKind::PrematureExit)
                } else {
                    s.status
                },
                warnings: Warnings {
                    metric_unavailable: s.warnings.metric_unavailable || readings.is_none(),
                    termination_failed: s.warnings.termination_failed,
                },
            },
            Event::LoadExited => RunState { phase: Phase::TearingDown, load: exited(s.load), ..s },
            _ => s,
        },
        Phase::Draining => match event {
            Event::LoadExited => RunState { phase: Phase::TearingDown, load: exited(s.load), ..s },
            _ => s,
        },
        Phase::TearingDown => match event {
            Event::Terminated { outcome } => RunState {
                phase: Phase::Verifying,
                subject: match s.subject {
                    Some(state) => Some(terminated_state(state, outcome)),
                    None => None,
                },
                warnings: Warnings {
                    metric_unavailable: s.warnings.metric_unavailable,
                    termination_failed: s.warnings.termination_failed || (s.subject matches Some(
                        state,
                    ) && termination_error(state, outcome).is_some()),
                },
                ..s
            },
            _ => s,
        },
        Phase::Verifying => match event {
            Event::Verified { running } => RunState {
                phase: Phase::CoolingDown,
                subject: if running {
                    s.subject
                } else {
                    exited(s.subject)
                },
                warnings: Warnings {
                    metric_unavailable: s.warnings.metric_unavailable,
                    termination_failed: s.warnings.termination_failed || running,
                },
                ..s
            },
            _ => s,
        },
        Phase::CoolingDown => match event {
            Event::CooldownElapsed => RunState { phase: Phase::Finished, ..s },
            _ => s,
        },
        Phase::Finished => s,
    }
}

/// The action that is due in a phase. While sampling, the first sample is
/// taken at once and every later one after a sleep.
pub open spec fn pending_action(phase: Phase, sampled: bool) -> Action {
    match phase {
        Phase::SpawningSubject => Action::SpawnSubject,
        Phase::AwaitingReady => Action::AwaitReady,
        Phase::SpawningLoad => Action::SpawnLoad,
        Phase::Sampling => if sampled {
            Action::SleepThenSample
        } else {
            Action::Sample
        },
        Phase::Draining => Action::AwaitLoadExit,
        Phase::TearingDown => Action::TerminateSubject,
        Phase::Verifying => Action::VerifyTerminated,
        Phase::CoolingDown => Action::Cooldown,
        Phase::Finished => Action::Finish,
    }
}

/// What holds of the processes in each phase. In particular, from teardown
/// on, a load generator that was launched is known to have exited.
pub open spec fn consistent(s: RunState) -> bool {
    &&& s.subject.is_none() ==> s.load.is_none()
    &&& match s.phase {
        Phase::SpawningSubject => s.subject.is_none() && s.load.is_none(),
        Phase::AwaitingReady | Phase::SpawningLoad => s.subject.is_some() && s.load.is_none(),
        Phase::Sampling | Phase::Draining => s.subject.is_some() && s.load == Some(
            ProcessState::Running,
        ),
        Phase::TearingDown | Phase::Verifying | Phase::CoolingDown => s.subject.is_some()
            && s.load != Some(ProcessState::Running),
        Phase::Finished => s.load != Some(ProcessState::Running),
    }
}

/// The start of every run.
pub open spec fn initial_state() -> RunState {
    RunState {
        phase: Phase::SpawningSubject,
        subject: None,
        load: None,
        status: RunStatus::Completed,
        warnings: Warnings { metric_unavailable: false, termination_failed: false },
    }
}

/// No event leads out of a consistent state.
pub proof fn lemma_step_keeps_consistent(s: RunState, event: Event, stop: bool)
    requires
        consistent(s),
    ensures
        consistent(step_state(s, event, stop)),
{
}

/// The subject's termination comes due only by an event that reports the
/// load generator's exit, unless no load generator was ever launched.
pub proof fn lemma_teardown_only_after_load_exit(s: RunState, event: Event, stop: bool)
    requires
        consistent(s),
        s.phase != Phase::TearingDown,
        step_state(s, event, stop).phase == Phase::TearingDown,
    ensures
        reports_load_exit(event) || s.load.is_none(),
        pending_action(s.phase, true) != Action::TerminateSubject,
        pending_action(s.phase, false) != Action::TerminateSubject,
{
}

/// Once the load generator's exit is reported, the subject's termination is
/// due at once.
pub proof fn lemma_load_exit_starts_teardown(s: RunState, event: Event, stop: bool)
    requires
        (s.phase == Phase::Sampling && reports_load_exit(event)) || (s.phase == Phase::Draining
            && event is LoadExited),
    ensures
        step_state(s, event, stop).phase == Phase::TearingDown,
        pending_action(step_state(s, event, stop).phase, true) == Action::TerminateSubject,
{
}

/// A run ends only when its settle delay has passed, or when its subject
/// could not be launched and there was nothing to settle.
pub proof fn lemma_finish_only_after_cooldown(s: RunState, event: Event, stop: bool)
    requires
        s.phase != Phase::Finished,
        step_state(s, event, stop).phase == Phase::Finished,
    ensures
        (s.phase == Phase::CoolingDown && event is CooldownElapsed) || (s.phase
            == Phase::SpawningSubject && event is SubjectSpawnFailed),
{
}

/// A termination request that finds the subject already gone raises no
/// warning: the warnings after it are those before it.
pub proof fn lemma_terminating_ended_subject_is_silent(s: RunState, outcome: KillOutcome)
    requires
        s.phase == Phase::TearingDown,
        s.subject matches Some(state) && state != ProcessState::Running,
    ensures
        step_state(s, Event::Terminated { outcome }, false).warnings == s.warnings,
        step_state(s, Event::Terminated { outcome }, false).subject == s.subject,
        step_state(s, Event::Terminated { outcome }, false).status == s.status,
{
}

/// The state a run reaches from its start by `events`, in order.
/// `stops[i]` is the sampler's verdict on the tick that `events[i]` reports.
pub open spec fn run_events(events: Seq<Event>, stops: Seq<bool>) -> RunState
    decreases events.len(),
{
    if events.len() == 0 {
        initial_state()
    } else {
        step_state(run_events(events.drop_last(), stops.drop_last()), events.last(), stops.last())
    }
}

/// Whether one of the events reports that the load generator has exited.
pub open spec fn load_exit_seen(events: Seq<Event>) -> bool {
    exists|i: int| 0 <= i < events.len() && reports_load_exit(#[trigger] events[i])
}

/// Whether one of the events answers a request to terminate the subject.
pub open spec fn termination_seen(events: Seq<Event>) -> bool {
    exists|i: int| 0 <= i < events.len() && (#[trigger] events[i]) is Terminated
}

/// Whether the subject's termination is due in this phase or was due in an
/// earlier one.
pub open spec fn teardown_begun(phase: Phase) -> bool {
    phase == Phase::TearingDown || phase == Phase::Verifying || phase == Phase::CoolingDown
        || phase == Phase::Finished
}

/// Whether this phase lies behind the subject's termination.
pub open spec fn teardown_passed(phase: Phase) -> bool {
    phase == Phase::Verifying || phase == Phase::CoolingDown || phase == Phase::Finished
}

/// Whatever the events of a run, its state stays consistent; if teardown
/// has begun and a load generator was launched, its exit was reported
/// before; and if teardown lies behind and a subject was launched, its
/// termination was requested before.
pub proof fn lemma_run_history(events: Seq<Event>, stops: Seq<bool>)
    requires
        events.len() == stops.len(),
    ensures
        consistent(run_events(events, stops)),
        teardown_begun(run_events(events, stops).phase) && run_events(events, stops).load.is_some()
            ==> load_exit_seen(events),
        teardown_passed(run_events(events, stops).phase) && run_events(
            events,
            stops,
        ).subject.is_some() ==> termination_seen(events),
    decreases events.len(),
{
    if events.len() > 0 {
        let front = events.drop_last();
        let last = events.len() - 1;
        lemma_run_history(front, stops.drop_last());
        let before = run_events(front, stops.drop_last());
        let after = run_events(events, stops);
        assert(after == step_state(before, events[last], stops[last]));
        if load_exit_seen(front) {
            let i = choose|i: int| 0 <= i < front.len() && reports_load_exit(#[trigger] front[i]);
            assert(events[i] == front[i]);
        }
        if termination_seen(front) {
            let i = choose|i: int| 0 <= i < front.len() && (#[trigger] front[i]) is Terminated;
            assert(events[i] == front[i]);
        }
        if teardown_begun(after.phase) && after.load.is_some() && !load_exit_seen(front) {
            assert(reports_load_exit(events[last]));
        }
        if teardown_passed(after.phase) && after.subject.is_some() && !termination_seen(front) {
            assert(events[last] is Terminated);
        }
    }
}

/// In every run, the subject's termination comes due only after the load
/// generator's exit has been reported, unless no load generator was
/// launched in that run.
pub proof fn lemma_never_terminated_before_load_exit(events: Seq<Event>, stops: Seq<bool>, sampled: bool)
    requires
        events.len() == stops.len(),
        pending_action(run_events(events, stops).phase, sampled) == Action::TerminateSubject,
    ensures
        load_exit_seen(events) || run_events(events, stops).load.is_none(),
{
    lemma_run_history(events, stops);
}

/// In every run whose subject was launched, the run ends only after the
/// subject's termination has been requested.
pub proof fn lemma_finished_run_was_torn_down(events: Seq<Event>, stops: Seq<bool>)
    requires
        events.len() == stops.len(),
        run_events(events, stops).phase == Phase::Finished,
        run_events(events, stops).subject.is_some(),
    ensures
        termination_seen(events),
        load_exit_seen(events) || run_events(events, stops).load.is_none(),
{
    lemma_run_history(events, stops);
}

/// What is known of a process that may not have been launched yet.
pub open spec fn state_of(handle: Option<ProcessHandle>) -> Option<ProcessState> {
    match handle {
        Some(h) => Some(h.state_spec()),
        None => None,
    }
}

/// The identifier of a process that may not have been launched yet.
pub open spec fn id_of(handle: Option<ProcessHandle>) -> Option<u32> {
    match handle {
        Some(h) => Some(h.id_spec()),
        None => None,
    }
}

/// Notes on a handle, if there is one, that its process has exited.
fn mark_exited(handle: Option<ProcessHandle>) -> (marked: Option<ProcessHandle>)
    ensures
        state_of(marked) == exited(state_of(handle)),
        id_of(marked) == id_of(handle),
{
    match handle {
        Some(h) => {
            let mut h = h;
            h.mark_exited();
            Some(h)
        },
        None => None,
    }
}

/// Runs one target: decides, event by event, what is to be done next.
pub struct Orchestrator {
    config: TargetConfig,
    cooldown_ms: u64,
    phase: Phase,
    subject: Option<ProcessHandle>,
    load: Option<ProcessHandle>,
    status: RunStatus,
    warnings: Warnings,
    sampler: Sampler,
    events: Ghost<Seq<Event>>,
    stops: Ghost<Seq<bool>>,
}

impl View for Orchestrator {
    type V = RunState;

    closed spec fn view(&self) -> RunState {
        RunState {
            phase: self.phase,
            subject: state_of(self.subject),
            load: state_of(self.load),
            status: self.status,
            warnings: self.warnings,
        }
    }
}

impl Orchestrator {
    /// The target being run.
    pub closed spec fn config_spec(&self) -> TargetConfig {
        self.config
    }

    /// The settle delay in milliseconds.
    pub closed spec fn cooldown(&self) -> u64 {
        self.cooldown_ms
    }

    /// The tick interval in milliseconds.
    pub closed spec fn interval(&self) -> u64 {
        self.sampler.interval()
    }

    /// The samples taken so far, oldest first.
    pub closed spec fn samples(&self) -> Seq<Sample> {
        self.sampler.history()
    }

    /// The time of the most recent tick, zero before the first.
    pub closed spec fn last_tick(&self) -> u64 {
        self.sampler.last_tick()
    }

    /// The time in milliseconds at which each sample was taken.
    pub closed spec fn times(&self) -> Seq<u64> {
        self.sampler.times()
    }

    /// Every event the run has been given, in order.
    pub closed spec fn events(&self) -> Seq<Event> {
        self.events@
    }

    /// For each event given, whether the sampler ended sampling at it.
    pub closed spec fn stops(&self) -> Seq<bool> {
        self.stops@
    }

    /// The subject's process identifier, once it has been launched.
    pub closed spec fn subject_id(&self) -> Option<u32> {
        id_of(self.subject)
    }

    /// The load generator's process identifier, once it has been launched.
    pub closed spec fn load_id(&self) -> Option<u32> {
        id_of(self.load)
    }

    /// The subject's process identifier after `event`.
    pub open spec fn subject_id_after(&self, event: Event) -> Option<u32> {
        match event {
            Event::SubjectSpawned { pid } => if self@.phase == Phase::SpawningSubject {
                Some(pid)
            } else {
                self.subject_id()
            },
            _ => self.subject_id(),
        }
    }

    /// The load generator's process identifier after `event`.
    pub open spec fn load_id_after(&self, event: Event) -> Option<u32> {
        match event {
            Event::LoadSpawned { pid } => if self@.phase == Phase::SpawningLoad {
                Some(pid)
            } else {
                self.load_id()
            },
            _ => self.load_id(),
        }
    }

    /// The action that is due.
    pub open spec fn pending_spec(&self) -> Action {
        pending_action(self@.phase, self.samples().len() > 0)
    }

    /// Whether the sampler ends sampling at the tick that `event` reports.
    pub open spec fn stops_at(&self, event: Event) -> bool {
        match event {
            Event::Tick { now_ms, load_exited, .. } => stop_condition(
                Some(self.config_spec().duration_ms),
                tick_time(self.last_tick(), now_ms),
                load_exited,
            ),
            _ => false,
        }
    }

    /// The samples after `event`: a tick reported while sampling adds one,
    /// nothing else adds any.
    pub open spec fn samples_after(&self, event: Event) -> Seq<Sample> {
        match event {
            Event::Tick { now_ms, readings, .. } => if self@.phase == Phase::Sampling {
                let (cpu, mem) = resolve_readings(readings, self.samples());
                self.samples().push(Sample::at(tick_time(self.last_tick(), now_ms), cpu, mem))
            } else {
                self.samples()
            },
            _ => self.samples(),
        }
    }

    /// The times of the samples after `event`.
    pub open spec fn times_after(&self, event: Event) -> Seq<u64> {
        match event {
            Event::Tick { now_ms, .. } => if self@.phase == Phase::Sampling {
                self.times().push(tick_time(self.last_tick(), now_ms))
            } else {
                self.times()
            },
            _ => self.times(),
        }
    }

    /// The time of the most recent tick after `event`.
    pub open spec fn last_tick_after(&self, event: Event) -> u64 {
        match event {
            Event::Tick { now_ms, .. } => if self@.phase == Phase::Sampling {
                tick_time(self.last_tick(), now_ms)
            } else {
                self.last_tick()
            },
            _ => self.last_tick(),
        }
    }

    /// The orchestrator's invariant.
    pub closed spec fn wf(&self) -> bool {
        &&& consistent(self@)
        &&& self.events@.len() == self.stops@.len()
        &&& self@ == run_events(self.events@, self.stops@)
        &&& self.sampler.wf()
        &&& self.sampler.capacity().is_none()
        &&& self.sampler.limit() == Some(self.config.duration_ms)
        &&& self.sampler@ == self.sampler.history()
        &&& self.load.is_none() ==> self.sampler.history().len() == 0
        &&& match self.phase {
            Phase::SpawningSubject | Phase::AwaitingReady | Phase::SpawningLoad => {
                self.sampler.history().len() == 0 && !self.sampler.stopped()
            },
            Phase::Sampling => !self.sampler.stopped(),
            _ => true,
        }
    }

    /// A run of `config` that samples every `interval_ms` milliseconds and
    /// lets the host settle for `cooldown_ms` at its end. An interval of
    /// zero is raised to one millisecond.
    pub fn new(config: TargetConfig, interval_ms: u64, cooldown_ms: u64) -> (run: Orchestrator)
        ensures
            run.wf(),
            run@ == initial_state(),
            run.config_spec() == config,
            run.cooldown() == cooldown_ms,
            run.interval() as int == effective_interval_spec(interval_ms, 0),
            run.samples() == Seq::<Sample>::empty(),
            run.times() == Seq::<u64>::empty(),
            run.last_tick() == 0,
            run.subject_id().is_none(),
            run.load_id().is_none(),
            run.events() == Seq::<Event>::empty(),
            run.stops() == Seq::<bool>::empty(),
    {
        let sampler = Sampler::full_capture(interval_ms, config.duration_ms);
        Orchestrator {
            config,
            cooldown_ms,
            phase: Phase::SpawningSubject,
            subject: None,
            load: None,
            status: RunStatus::Completed,
            warnings: Warnings::none(),
            sampler,
            events: Ghost(Seq::empty()),
            stops: Ghost(Seq::empty()),
        }
    }

    /// The target being run.
    pub fn config(&self) -> (config: &TargetConfig)
        ensures
            *config == self.config_spec(),
    {
        &self.config
    }

    /// The settle delay in milliseconds.
    pub fn cooldown_ms(&self) -> (millis: u64)
        ensures
            millis == self.cooldown(),
    {
        self.cooldown_ms
    }

    /// The tick interval in milliseconds.
    pub fn interval_ms(&self) -> (millis: u64)
        ensures
            millis == self.interval(),
    {
        self.sampler.interval_ms()
    }

    /// Where the run stands.
    pub fn phase(&self) -> (phase: Phase)
        ensures
            phase == self@.phase,
    {
        self.phase
    }

    /// How the run has gone so far.
    pub fn status(&self) -> (status: RunStatus)
        ensures
            status == self@.status,
    {
        self.status
    }

    /// Warnings raised so far.
    pub fn warnings(&self) -> (warnings: Warnings)
        ensures
            warnings == self@.warnings,
    {
        self.warnings
    }

    /// The subject's process identifier, once it has been launched.
    pub fn subject_pid(&self) -> (pid: Option<u32>)
        ensures
            pid == self.subject_id(),
            pid.is_some() == self@.subject.is_some(),
    {
        match self.subject {
            Some(h) => Some(h.id()),
            None => None,
        }
    }

    /// The load generator's process identifier, once it has been launched.
    pub fn load_pid(&self) -> (pid: Option<u32>)
        ensures
            pid == self.load_id(),
            pid.is_some() == self@.load.is_some(),
    {
        match self.load {
            Some(h) => Some(h.id()),
            None => None,
        }
    }

    /// Whether the run is over.
    pub fn is_finished(&self) -> (finished: bool)
        ensures
            finished == (self@.phase == Phase::Finished),
    {
        match self.phase {
            Phase::Finished => true,
            _ => false,
        }
    }

    /// Number of samples taken so far.
    pub fn sample_count(&self) -> (n: usize)
        requires
            self.wf(),
        ensures
            n == self.samples().len(),
    {
        self.sampler.len()
    }

    /// The most recent sample.
    pub fn last_sample(&self) -> (sample: Option<Sample>)
        requires
            self.wf(),
        ensures
            self.samples().len() > 0 ==> sample == Some(self.samples().last()),
            self.samples().len() == 0 ==> sample.is_none(),
    {
        self.sampler.last()
    }

    /// The action that is due.
    pub fn pending(&self) -> (action: Action)
        requires
            self.wf(),
        ensures
            action == self.pending_spec(),
    {
        match self.phase {
            Phase::SpawningSubject => Action::SpawnSubject,
            Phase::AwaitingReady => Action::AwaitReady,
            Phase::SpawningLoad => Action::SpawnLoad,
            Phase::Sampling => if self.sampler.len() > 0 {
                Action::SleepThenSample
            } else {
                Action::Sample
            },
            Phase::Draining => Action::AwaitLoadExit,
            Phase::TearingDown => Action::TerminateSubject,
            Phase::Verifying => Action::VerifyTerminated,
            Phase::CoolingDown => Action::Cooldown,
            Phase::Finished => Action::Finish,
        }
    }

    /// How many milliseconds to sleep at `now_ms` before the next tick.
    pub fn sleep_for(&self, now_ms: u64) -> (millis: u64)
        ensures
            millis as int == sleep_spec(self.interval(), self.last_tick(), now_ms),
            millis <= self.interval(),
    {
        self.sampler.sleep_for(now_ms)
    }

    /// Moves the run on by one event and returns the action that is due
    /// afterwards. An event that does not answer the pending action leaves
    /// the run as it was.
    pub fn step(&mut self, event: Event) -> (action: Action)
        requires
            old(self).wf(),
        ensures
            final(self).wf(),
            final(self)@ == step_state(old(self)@, event, old(self).stops_at(event)),
            final(self).samples() == old(self).samples_after(event),
            final(self).times() == old(self).times_after(event),
            final(self).last_tick() == old(self).last_tick_after(event),
            final(self).subject_id() == old(self).subject_id_after(event),
            final(self).load_id() == old(self).load_id_after(event),
            final(self).events() == old(self).events().push(event),
            final(self).stops() == old(self).stops().push(old(self).stops_at(event)),
            final(self).config_spec() == old(self).config_spec(),
            final(self).cooldown() == old(self).cooldown(),
            final(self).interval() == old(self).interval(),
            action == final(self).pending_spec(),
    {
        let ghost stop = self.stops_at(event);
        let ghost given = self.events@;
        let ghost verdicts = self.stops@;
        proof {
            assert(given.push(event).drop_last() =~= given);
            assert(verdicts.push(stop).drop_last() =~= verdicts);
        }
        self.events = Ghost(given.push(event));
        self.stops = Ghost(verdicts.push(stop));
        match self.phase {
            Phase::SpawningSubject => match event {
                Event::SubjectSpawned { pid } => {
                    self.subject = Some(ProcessHandle::new(pid));
                    self.phase = Phase::AwaitingReady;
                },
                Event::SubjectSpawnFailed => {
                    self.status = RunStatus::Failed(ErrorKind::SpawnFailure);
                    self.phase = Phase::Finished;
                },
                _ => {},
            },
            Phase::AwaitingReady => match event {
                Event::Ready => {
                    self.phase = Phase::SpawningLoad;
                },
                Event::ReadyTimedOut => {
                    self.status = RunStatus::Failed(ErrorKind::ReadyTimeout);
                    self.phase = Phase::TearingDown;
                },
                _ => {},
            },
            Phase::SpawningLoad => match event {
                Event::LoadSpawned { pid } => {
                    self.load = Some(ProcessHandle::new(pid));
                    self.phase = Phase::Sampling;
                },
                Event::LoadSpawnFailed => {
                    self.status = RunStatus::Failed(ErrorKind::SpawnFailure);
                    self.phase = Phase::TearingDown;
                },
                _ => {},
            },
            Phase::Sampling => match event {
                Event::Tick { now_ms, readings, load_exited, subject_exited } => {
                    let (cpu, mem) = match readings {
                        Some(r) => r,
                        None => match self.sampler.last() {
                            Some(s) => (s.cpu_percent, s.mem_percent),
                            None => (0, 0),
                        },
                    };
                    if readings.is_none() {
                        self.warnings.metric_unavailable = true;
                    }
                    let stop: bool = self.sampler.observe(now_ms, cpu, mem, load_exited);
                    proof {
                        self.sampler.lemma_holds_latest();
                    }
                    if subject_exited {
                        self.subject = mark_exited(self.subject);
                        if !load_exited && !self.status.is_failed() {
                            self.status = RunStatus::Failed(ErrorKind::PrematureExit);
                        }
                    }
                    if load_exited {
                        self.load = mark_exited(self.load);
                        self.phase = Phase::TearingDown;
                    } else if stop {
                        self.phase = Phase::Draining;
                    }
                },
                Event::LoadExited => {
                    self.load = mark_exited(self.load);
                    self.phase = Phase::TearingDown;
                },
                _ => {},
            },
            Phase::Draining => match event {
                Event::LoadExited => {
                    self.load = mark_exited(self.load);
                    self.phase = Phase::TearingDown;
                },
                _ => {},
            },
            Phase::TearingDown => match event {
                Event::Terminated { outcome } => {
                    match self.subject {
                        Some(h) => {
                            let mut h = h;
                            let error = h.terminate(outcome);
                            if error.is_some() {
                                self.warnings.termination_failed = true;
                            }
                            self.subject = Some(h);
                        },
                        None => {},
                    }
                    self.phase = Phase::Verifying;
                },
                _ => {},
            },
            Phase::Verifying => match event {
                Event::Verified { running } => {
                    if running {
                        self.warnings.termination_failed = true;
                    } else {
                        self.subject = mark_exited(self.subject);
                    }
                    self.phase = Phase::CoolingDown;
                },
                _ => {},
            },
            Phase::CoolingDown => match event {
                Event::CooldownElapsed => {
                    self.phase = Phase::Finished;
                },
                _ => {},
            },
            Phase::Finished => {},
        }
        self.pending()
    }

    /// Runs one tick against the host as `system` shows it: updates
    /// `source` from the handle, reads both utilisations and reports them,
    /// with `now_ms` and what is known of the two processes, as a tick. To
    /// refresh the handle beforehand is the caller's part.
    pub fn sample_tick(
        &mut self,
        source: &mut MetricSource,
        system: &System,
        now_ms: u64,
        load_exited: bool,
        subject_exited: bool,
    ) -> (action: Action)
        requires
            old(self).wf(),
            old(source).wf(),
        ensures
            final(self).wf(),
            final(source).wf(),
            MetricSource::updated(*old(source), *system, *final(source)),
            ({
                let event = Event::Tick {
                    now_ms,
                    readings: Some((final(source).cpu(), final(source).mem())),
                    load_exited,
                    subject_exited,
                };
                &&& final(self)@ == step_state(old(self)@, event, old(self).stops_at(event))
                &&& final(self).samples() == old(self).samples_after(event)
                &&& final(self).times() == old(self).times_after(event)
                &&& final(self).last_tick() == old(self).last_tick_after(event)
                &&& final(self).events() == old(self).events().push(event)
            }),
            final(self).subject_id() == old(self).subject_id(),
            final(self).load_id() == old(self).load_id(),
            final(self).config_spec() == old(self).config_spec(),
            final(self).cooldown() == old(self).cooldown(),
            final(self).interval() == old(self).interval(),
            action == final(self).pending_spec(),
    {
        source.update(system);
        let cpu: u64 = source.cpu_utilization();
        let mem: u64 = source.memory_utilization();
        self.step(Event::Tick { now_ms, readings: Some((cpu, mem)), load_exited, subject_exited })
    }

    /// Ends the run and hands over its result. A run that is not over is
    /// handed back as it is.
    pub fn into_result(self) -> (outcome: Result<RunResult, Orchestrator>)
        requires
            self.wf(),
        ensures
            self@.phase == Phase::Finished ==> (outcome matches Ok(result) && {
                &&& result.target_spec() == self.config_spec()
                &&& result.series_spec()@ == self.samples()
                &&& result.series_spec().wf()
                &&& result.status_spec() == self@.status
                &&& result.warnings_spec() == self@.warnings
            }),
            self@.phase != Phase::Finished ==> outcome == Err::<RunResult, Orchestrator>(self),
    {
        if self.is_finished() {
            let series = self.sampler.into_series();
            Ok(RunResult::new(self.config, series, self.status, self.warnings))
        } else {
            Err(self)
        }
    }

    /// While the subject's termination is due, a load generator that was
    /// launched is known to have exited, and one of the events given to the
    /// run reported that exit.
    pub proof fn lemma_terminate_after_load_exit(&self)
        requires
            self.wf(),
            self.pending_spec() == Action::TerminateSubject,
        ensures
            self@.phase == Phase::TearingDown,
            self@.load != Some(ProcessState::Running),
            self@.load.is_some() ==> load_exit_seen(self.events()),
    {
        lemma_run_history(self.events@, self.stops@);
    }

    /// Each sample's elapsed time is the rounded time of its tick, and tick
    /// times never decrease.
    pub proof fn lemma_samples_follow_times(&self)
        requires
            self.wf(),
        ensures
            self.times().len() == self.samples().len(),
            forall|k: int|
                0 <= k < self.samples().len() ==> (#[trigger] self.samples()[k]).elapsed_seconds as int
                    == round_seconds_spec(self.times()[k] as int),
            forall|i: int, j: int|
                0 <= i <= j < self.times().len() ==> (#[trigger] self.times()[i])
                    <= (#[trigger] self.times()[j]),
            self.times().len() > 0 ==> self.last_tick() == self.times().last(),
    {
        self.sampler.lemma_history_follows_times();
    }

    /// A paced run of duration `d` and interval `t` takes at most
    /// `d / t + 2` samples.
    pub proof fn lemma_sample_count_at_most(&self)
        requires
            self.wf(),
            paced(self.times(), self.interval()),
        ensures
            self.samples().len() <= self.config_spec().duration_ms / self.interval() + 2,
    {
        self.sampler.lemma_sample_count_at_most();
    }

    /// A punctual run that began at time zero and sampled until its duration
    /// `d` had elapsed has taken at least `d / t + 1` samples.
    pub proof fn lemma_sample_count_at_least(&self)
        requires
            self.wf(),
            punctual(self.times(), self.interval()),
            self.times().len() > 0,
            self.times()[0] == 0,
            self.times().last() >= self.config_spec().duration_ms,
        ensures
            self.samples().len() >= self.config_spec().duration_ms / self.interval() + 1,
    {
        self.sampler.lemma_sample_count_at_least();
    }

    /// In a punctual run of duration `d` and interval `t` every tick lies
    /// before `d + t`, so no sample's elapsed time exceeds `d + t` rounded
    /// to seconds.
    pub proof fn lemma_elapsed_bounded(&self, k: int)
        requires
            self.wf(),
            punctual(self.times(), self.interval()),
            self.times().len() > 0,
            self.times()[0] < self.config_spec().duration_ms + self.interval(),
            0 <= k < self.samples().len(),
        ensures
            self.times()[k] < self.config_spec().duration_ms + self.interval(),
            self.samples()[k].elapsed_seconds as int <= round_seconds_spec(
                self.config_spec().duration_ms + self.interval(),
            ),
    {
        self.sampler.lemma_elapsed_bounded(k);
    }

    /// The run's state is the one its events lead to from the start.
    pub proof fn lemma_state_follows_events(&self)
        requires
            self.wf(),
        ensures
            self.events().len() == self.stops().len(),
            self@ == run_events(self.events(), self.stops()),
    {
    }

    /// The run's state is consistent, its samples are in range and in
    /// order of time, and there is none unless the load generator was
    /// launched.
    pub proof fn lemma_invariant(&self)
        requires
            self.wf(),
        ensures
            consistent(self@),
            all_valid(self.samples()),
            ordered(self.samples()),
            self@.load.is_none() ==> self.samples().len() == 0,
    {
        self.sampler.lemma_held_in_order();
    }
}

} // verus!
