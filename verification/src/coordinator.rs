//! Runs the configured targets one after another.
//!
//! Host-wide metrics and the subject's network port are shared by all
//! targets, so at most one run exists at a time: the next target's run is
//! created only when the previous one has ended and its result has been
//! handed to the renderer.

use vstd::prelude::*;
use sysinfo::System;
use crate::config::{ErrorKind, RunResult, RunStatus, TargetConfig};
use crate::metrics::{effective_interval_spec, MetricSource};
use crate::orchestrator::{
    initial_state,
    lemma_finish_only_after_cooldown,
    step_state,
    Action,
    Event,
    Orchestrator,
    Phase,
};
use crate::sample::Sample;
use crate::sampler::sleep_spec;

verus! {

/// What the driver of a sequence of runs is asked to do next.
#[derive(Clone, Copy, Debug, PartialEq, Eq, Structural)]
pub enum Directive {
    /// Perform this action for the current target and report the event.
    Perform(Action),
    /// Hand the latest result to the renderer and report that it is done.
    Render,
    /// Every target has been run.
    Done,
}

/// What the driver reports back.
#[derive(Clone, Copy, Debug)]
pub enum Report {
    /// What happened when the action was performed.
    Run(Event),
    /// The latest result has been rendered.
    Rendered,
}

/// The exit code for a sequence of results: one where some target could
/// not launch both of its processes, zero otherwise. A run that failed in
/// another way does not by itself make the code non-zero.
pub open spec fn exit_code_spec(results: Seq<RunResult>) -> int {
    if exists|i: int|
        0 <= i < results.len() && (#[trigger] results[i]).status_spec() == RunStatus::Failed(
            ErrorKind::SpawnFailure,
        ) {
        1
    } else {
        0
    }
}

/// `queue` holds the last of `targets`, in the same order.
pub open spec fn is_tail(queue: Seq<TargetConfig>, targets: Seq<TargetConfig>) -> bool {
    &&& queue.len() <= targets.len()
    &&& forall|j: int|
        0 <= j < queue.len() ==> #[trigger] queue[j] == targets[targets.len() - queue.len() + j]
}

/// `after` is the run `before` moved on by `event`.
pub open spec fn run_after(before: Orchestrator, event: Event, after: Orchestrator) -> bool {
    &&& after.wf()
    &&& after@ == step_state(before@, event, before.stops_at(event))
    &&& after.samples() == before.samples_after(event)
    &&& after.times() == before.times_after(event)
    &&& after.last_tick() == before.last_tick_after(event)
    &&& after.config_spec() == before.config_spec()
    &&& after.cooldown() == before.cooldown()
    &&& after.interval() == before.interval()
    &&& after.subject_id() == before.subject_id_after(event)
    &&& after.load_id() == before.load_id_after(event)
    &&& after.events() == before.events().push(event)
}

/// `run` is a run of `config` that has not begun, with the given settings.
pub open spec fn fresh_run(run: Orchestrator, config: TargetConfig, interval: u64, cooldown: u64) -> bool {
    &&& run@ == initial_state()
    &&& run.config_spec() == config
    &&& run.samples() == Seq::<Sample>::empty()
    &&& run.times() == Seq::<u64>::empty()
    &&& run.last_tick() == 0
    &&& run.interval() == interval
    &&& run.cooldown() == cooldown
    &&& run.subject_id().is_none()
    &&& run.load_id().is_none()
    &&& run.events() == Seq::<Event>::empty()
}

/// `result` is what the run `before` hands over when `event` ends it.
pub open spec fn result_after(before: Orchestrator, event: Event, result: RunResult) -> bool {
    let state = step_state(before@, event, before.stops_at(event));
    &&& result.target_spec() == before.config_spec()
    &&& result.status_spec() == state.status
    &&& result.warnings_spec() == state.warnings
    &&& result.series_spec()@ == before.samples_after(event)
    &&& result.series_spec().wf()
}

/// Sequences the runs of an ordered list of targets.
pub struct Coordinator {
    queue: Vec<TargetConfig>,
    current: Option<Orchestrator>,
    results: Vec<RunResult>,
    rendering: bool,
    interval_ms: u64,
    cooldown_ms: u64,
    targets: Ghost<Seq<TargetConfig>>,
}

impl Coordinator {
    /// Every configured target, in order.
    pub closed spec fn targets(&self) -> Seq<TargetConfig> {
        self.targets@
    }

    /// The targets whose run has not begun, next first.
    pub closed spec fn queue(&self) -> Seq<TargetConfig> {
        self.queue@
    }

    /// The run in progress, if there is one.
    pub closed spec fn current(&self) -> Option<Orchestrator> {
        self.current
    }

    /// The results of the runs that have ended, in the order of the targets.
    pub closed spec fn results(&self) -> Seq<RunResult> {
        self.results@
    }

    /// Whether the latest result is waiting to be rendered.
    pub closed spec fn rendering(&self) -> bool {
        self.rendering
    }

    /// The tick interval of every run, in milliseconds.
    pub closed spec fn interval(&self) -> u64 {
        effective_interval_spec(self.interval_ms, 0) as u64
    }

    /// The settle delay of every run, in milliseconds.
    pub closed spec fn cooldown(&self) -> u64 {
        self.cooldown_ms
    }

    /// What is due.
    pub open spec fn directive_spec(&self) -> Directive {
        match self.current() {
            Some(run) => Directive::Perform(run.pending_spec()),
            None => if self.rendering() {
                Directive::Render
            } else {
                Directive::Done
            },
        }
    }

    /// The coordinator's invariant.
    pub closed spec fn wf(&self) -> bool {
        &&& self.results@.len() + self.queue@.len() + (if self.current.is_some() {
            1int
        } else {
            0int
        }) == self.targets@.len()
        &&& forall|i: int|
            0 <= i < self.results@.len() ==> (#[trigger] self.results@[i]).target_spec()
                == self.targets@[i]
        &&& forall|i: int|
            0 <= i < self.results@.len() ==> (#[trigger] self.results@[i]).series_spec().wf()
        &&& is_tail(self.queue@, self.targets@)
        &&& self.current matches Some(run) ==> {
            &&& run.wf()
            &&& run@.phase != Phase::Finished
            &&& run.config_spec() == self.targets@[self.results@.len() as int]
            &&& run.interval() == self.interval()
            &&& run.cooldown() == self.cooldown_ms
            &&& !self.rendering
        }
        &&& self.rendering ==> self.results@.len() > 0
        &&& (self.current.is_none() && !self.rendering) ==> self.queue@.len() == 0
    }

    /// `after` is what `report` makes of `before`.
    pub open spec fn stepped(before: Coordinator, report: Report, after: Coordinator) -> bool {
        &&& after.targets() == before.targets()
        &&& after.interval() == before.interval()
        &&& after.cooldown() == before.cooldown()
        &&& match (before.current(), report) {
            (Some(run), Report::Run(event)) => {
                if step_state(run@, event, run.stops_at(event)).phase != Phase::Finished {
                    &&& after.current() matches Some(next) && run_after(run, event, next)
                    &&& after.results() == before.results()
                    &&& after.queue() == before.queue()
                    &&& !after.rendering()
                } else {
                    &&& after.current().is_none()
                    &&& after.rendering()
                    &&& after.queue() == before.queue()
                    &&& after.results().len() == before.results().len() + 1
                    &&& after.results().drop_last() == before.results()
                    &&& result_after(run, event, after.results().last())
                }
            },
            (None, Report::Rendered) => {
                &&& after.results() == before.results()
                &&& !after.rendering()
                &&& if before.rendering() && before.queue().len() > 0 {
                    &&& after.queue() == before.queue().drop_first()
                    &&& after.current() matches Some(run) && fresh_run(
                        run,
                        before.queue()[0],
                        before.interval(),
                        before.cooldown(),
                    )
                } else {
                    &&& after.current().is_none()
                    &&& after.queue() == before.queue()
                }
            },
            _ => {
                &&& after.current() == before.current()
                &&& after.results() == before.results()
                &&& after.queue() == before.queue()
                &&& after.rendering() == before.rendering()
            },
        }
    }

    /// Begins the run of the next target in the queue, if there is one.
    fn start_next(&mut self)
        requires
            old(self).current.is_none(),
            !old(self).rendering,
            old(self).results@.len() + old(self).queue@.len() == old(self).targets@.len(),
            is_tail(old(self).queue@, old(self).targets@),
        ensures
            final(self).results == old(self).results,
            final(self).targets == old(self).targets,
            final(self).interval_ms == old(self).interval_ms,
            final(self).cooldown_ms == old(self).cooldown_ms,
            !final(self).rendering,
            old(self).queue@.len() == 0 ==> final(self).current.is_none() && final(self).queue@
                == old(self).queue@,
            old(self).queue@.len() > 0 ==> {
                &&& final(self).queue@ == old(self).queue@.drop_first()
                &&& final(self).current matches Some(run) && run.wf() && fresh_run(
                    run,
                    old(self).queue@[0],
                    old(self).interval(),
                    old(self).cooldown_ms,
                )
                &&& old(self).queue@[0] == old(self).targets@[old(self).results@.len() as int]
            },
            is_tail(final(self).queue@, final(self).targets@),
    {
        if self.queue.len() > 0 {
            let ghost before = self.queue@;
            let config: TargetConfig = self.queue.remove(0);
            assert(self.queue@ =~= before.drop_first());
            assert forall|j: int| 0 <= j < self.queue@.len() implies #[trigger] self.queue@[j]
                == self.targets@[self.targets@.len() - self.queue@.len() + j] by {
                assert(self.queue@[j] == before[j + 1]);
            }
            assert(before[0] == self.targets@[self.results@.len() as int]);
            self.current = Some(Orchestrator::new(config, self.interval_ms, self.cooldown_ms));
        }
    }

    /// A coordinator for `targets`, each to be run once, in this order, with
    /// the given tick interval and settle delay. The first target's run
    /// begins at once.
    pub fn new(targets: Vec<TargetConfig>, interval_ms: u64, cooldown_ms: u64) -> (coordinator:
        Coordinator)
        ensures
            coordinator.wf(),
            coordinator.targets() == targets@,
            coordinator.results() == Seq::<RunResult>::empty(),
            !coordinator.rendering(),
            targets@.len() == 0 ==> coordinator.current().is_none() && coordinator.queue()
                == targets@,
            targets@.len() > 0 ==> {
                &&& coordinator.queue() == targets@.drop_first()
                &&& coordinator.current() matches Some(run) && fresh_run(
                    run,
                    targets@[0],
                    coordinator.interval(),
                    cooldown_ms,
                )
            },
            coordinator.interval() as int == effective_interval_spec(interval_ms, 0),
            coordinator.cooldown() == cooldown_ms,
    {
        let ghost all = targets@;
        let mut coordinator = Coordinator {
            queue: targets,
            current: None,
            results: Vec::new(),
            rendering: false,
            interval_ms,
            cooldown_ms,
            targets: Ghost(all),
        };
        coordinator.start_next();
        coordinator
    }

    /// What is due.
    pub fn directive(&self) -> (directive: Directive)
        requires
            self.wf(),
        ensures
            directive == self.directive_spec(),
    {
        match &self.current {
            Some(run) => Directive::Perform(run.pending()),
            None => if self.rendering {
                Directive::Render
            } else {
                Directive::Done
            },
        }
    }

    /// The run in progress, if there is one.
    pub fn current_run(&self) -> (run: Option<&Orchestrator>)
        ensures
            run.is_some() == self.current().is_some(),
            run matches Some(r) ==> *r == self.current().unwrap(),
    {
        match &self.current {
            Some(run) => Some(run),
            None => None,
        }
    }

    /// Number of runs that have ended.
    pub fn completed(&self) -> (n: usize)
        ensures
            n == self.results().len(),
    {
        self.results.len()
    }

    /// Number of targets whose run has not begun.
    pub fn remaining(&self) -> (n: usize)
        ensures
            n == self.queue().len(),
    {
        self.queue.len()
    }

    /// The result of the `index`-th run.
    pub fn result(&self, index: usize) -> (result: Option<&RunResult>)
        ensures
            index < self.results().len() ==> result == Some(&self.results()[index as int]),
            index >= self.results().len() ==> result.is_none(),
    {
        if index < self.results.len() {
            Some(&self.results[index])
        } else {
            None
        }
    }

    /// The result of the run that ended last: the one to render when
    /// rendering is due.
    pub fn latest_result(&self) -> (result: Option<&RunResult>)
        ensures
            self.results().len() > 0 ==> result == Some(&self.results().last()),
            self.results().len() == 0 ==> result.is_none(),
    {
        let n: usize = self.results.len();
        if n > 0 {
            Some(&self.results[n - 1])
        } else {
            None
        }
    }

    /// How many milliseconds to sleep at `now_ms` before the current run's
    /// next tick; zero when no run is in progress.
    pub fn sleep_for(&self, now_ms: u64) -> (millis: u64)
        ensures
            self.current() matches Some(run) ==> millis as int == sleep_spec(
                run.interval(),
                run.last_tick(),
                now_ms,
            ),
            self.current().is_none() ==> millis == 0,
    {
        match &self.current {
            Some(run) => run.sleep_for(now_ms),
            None => 0,
        }
    }

    /// Moves the sequence on by one report and returns what is due
    /// afterwards. An event goes to the run in progress; when it ends that
    /// run, the result is recorded and is due for rendering. Once the
    /// renderer is done the next target's run begins. A report that answers
    /// nothing that is due changes nothing.
    pub fn step(&mut self, report: Report) -> (directive: Directive)
        requires
            old(self).wf(),
        ensures
            final(self).wf(),
            final(self).targets() == old(self).targets(),
            directive == final(self).directive_spec(),
            Coordinator::stepped(*old(self), report, *final(self)),
    {
        match report {
            Report::Run(event) => {
                let mut finished: bool = false;
                match &mut self.current {
                    Some(run) => {
                        run.step(event);
                        finished = run.is_finished();
                    },
                    None => {},
                }
                if finished {
                    let ghost before = self.results@;
                    let run = self.current.take();
                    match run {
                        Some(run) => match run.into_result() {
                            Ok(result) => {
                                self.results.push(result);
                                self.rendering = true;
                                assert(self.results@.drop_last() =~= before);
                                assert forall|i: int| 0 <= i < self.results@.len() implies (
                                #[trigger] self.results@[i]).target_spec() == self.targets@[i] by {
                                    if i < before.len() {
                                        assert(self.results@[i] == before[i]);
                                    }
                                }
                                assert forall|i: int| 0 <= i < self.results@.len() implies (
                                #[trigger] self.results@[i]).series_spec().wf() by {
                                    if i < before.len() {
                                        assert(self.results@[i] == before[i]);
                                    }
                                }
                            },
                            Err(run) => {
                                self.current = Some(run);
                            },
                        },
                        None => {},
                    }
                }
            },
            Report::Rendered => {
                if self.current.is_none() && self.rendering {
                    self.rendering = false;
                    self.start_next();
                }
            },
        }
        self.directive()
    }

    /// Runs one tick of the current run against the host as `system` shows
    /// it, as `Orchestrator::sample_tick` does, and moves the sequence on by
    /// it. To refresh the handle beforehand is the caller's part.
    pub fn sample_tick(
        &mut self,
        source: &mut MetricSource,
        system: &System,
        now_ms: u64,
        load_exited: bool,
        subject_exited: bool,
    ) -> (directive: Directive)
        requires
            old(self).wf(),
            old(source).wf(),
        ensures
            final(self).wf(),
            final(source).wf(),
            MetricSource::updated(*old(source), *system, *final(source)),
            final(self).targets() == old(self).targets(),
            directive == final(self).directive_spec(),
            Coordinator::stepped(
                *old(self),
                Report::Run(
                    Event::Tick {
                        now_ms,
                        readings: Some((final(source).cpu(), final(source).mem())),
                        load_exited,
                        subject_exited,
                    },
                ),
                *final(self),
            ),
    {
        source.update(system);
        let cpu: u64 = source.cpu_utilization();
        let mem: u64 = source.memory_utilization();
        self.step(
            Report::Run(
                Event::Tick { now_ms, readings: Some((cpu, mem)), load_exited, subject_exited },
            ),
        )
    }

    /// The exit code of the whole sequence, by the results so far.
    pub fn exit_code(&self) -> (code: i32)
        ensures
            code as int == exit_code_spec(self.results()),
    {
        let n: usize = self.results.len();
        let mut i: usize = 0;
        while i < n
            invariant
                n == self.results@.len(),
                i <= n,
                forall|k: int|
                    0 <= k < i ==> (#[trigger] self.results@[k]).status_spec() != RunStatus::Failed(
                        ErrorKind::SpawnFailure,
                    ),
            decreases n - i,
        {
            if self.results[i].status().is_spawn_failure() {
                return 1;
            }
            i += 1;
        }
        0
    }

    /// Gives up the coordinator for the results recorded so far.
    pub fn into_results(self) -> (results: Vec<RunResult>)
        ensures
            results@ == self.results(),
    {
        self.results
    }

    /// At most one run exists at a time, and it is the run of the first
    /// target that has no result yet: every target before it has been run
    /// to its end, every target after it has not been started.
    pub proof fn lemma_runs_are_sequential(&self)
        requires
            self.wf(),
        ensures
            self.results().len() <= self.targets().len(),
            forall|i: int|
                0 <= i < self.results().len() ==> (#[trigger] self.results()[i]).target_spec()
                    == self.targets()[i],
            self.current() matches Some(run) ==> {
                &&& self.results().len() < self.targets().len()
                &&& run.config_spec() == self.targets()[self.results().len() as int]
                &&& run@.phase != Phase::Finished
                &&& !self.rendering()
                &&& self.queue().len() == self.targets().len() - self.results().len() - 1
            },
            is_tail(self.queue(), self.targets()),
    {
    }

    /// A result is recorded only by the event that ends the run in
    /// progress: the end of its settle delay, or the failure to launch its
    /// subject, after which there is nothing to settle.
    pub proof fn lemma_result_follows_cooldown(before: Coordinator, report: Report, after: Coordinator)
        requires
            before.wf(),
            Coordinator::stepped(before, report, after),
            after.results().len() != before.results().len(),
        ensures
            after.results().len() == before.results().len() + 1,
            before.current() matches Some(run) && ((run@.phase == Phase::CoolingDown
                && report matches Report::Run(Event::CooldownElapsed)) || (run@.phase
                == Phase::SpawningSubject && report matches Report::Run(
                Event::SubjectSpawnFailed,
            ))),
            after.current().is_none(),
            after.rendering(),
    {
        match (before.current(), report) {
            (Some(run), Report::Run(event)) => {
                lemma_finish_only_after_cooldown(run@, event, run.stops_at(event));
            },
            _ => {},
        }
    }

    /// A run begins only once the previous result has been rendered: where a
    /// step finds no run in progress and leaves one, the report was that
    /// rendering is done, and the new run is that of the next target in the
    /// queue, not yet begun.
    pub proof fn lemma_run_begins_after_rendering(before: Coordinator, report: Report, after: Coordinator)
        requires
            before.wf(),
            Coordinator::stepped(before, report, after),
            before.current().is_none(),
            after.current().is_some(),
        ensures
            report is Rendered,
            before.rendering(),
            before.queue().len() > 0,
            fresh_run(
                after.current().unwrap(),
                before.queue()[0],
                before.interval(),
                before.cooldown(),
            ),
            after.results() == before.results(),
    {
    }

    /// When nothing is left to do, every target has been run exactly once,
    /// in the configured order.
    pub proof fn lemma_done_means_all_ran(&self)
        requires
            self.wf(),
            self.directive_spec() == Directive::Done,
        ensures
            self.results().len() == self.targets().len(),
            forall|i: int|
                0 <= i < self.targets().len() ==> (#[trigger] self.results()[i]).target_spec()
                    == self.targets()[i],
    {
    }

    /// The subject of a target is asked to be launched only while no sample
    /// of its run exists and every earlier target has its result.
    pub proof fn lemma_spawn_follows_earlier_results(&self)
        requires
            self.wf(),
            self.directive_spec() == Directive::Perform(Action::SpawnSubject),
        ensures
            self.current() matches Some(run) && run@.phase == Phase::SpawningSubject
                && run.config_spec() == self.targets()[self.results().len() as int],
            !self.rendering(),
    {
    }
}

} // verus!
