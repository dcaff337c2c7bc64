//! The lifecycle of a spawned process, as far as a run has observed it.

use vstd::prelude::*;
use crate::config::ErrorKind;

verus! {

/// What is known of a spawned process.
#[derive(Clone, Copy, Debug, PartialEq, Eq, Structural)]
pub enum ProcessState {
    /// Spawned, and not yet seen to have ended.
    Running,
    /// Seen to have exited on its own.
    Exited,
    /// Ended by a termination request of the run.
    Terminated,
}

/// What the operating system answered to a request to kill a process.
#[derive(Clone, Copy, Debug, PartialEq, Eq, Structural)]
pub enum KillOutcome {
    /// The process was killed.
    Killed,
    /// The process had already exited.
    AlreadyExited,
    /// The process could not be killed.
    Failed,
}

/// A reference to a spawned process, owned by the run that spawned it.
#[derive(Clone, Copy, Debug, PartialEq, Eq, Structural)]
pub struct ProcessHandle {
    id: u32,
    state: ProcessState,
}

/// The state of a process after a termination request that the operating
/// system answered with `outcome`. A process that has ended stays as it is.
pub open spec fn terminated_state(state: ProcessState, outcome: KillOutcome) -> ProcessState {
    match state {
        ProcessState::Running => match outcome {
            KillOutcome::Killed => ProcessState::Terminated,
            KillOutcome::AlreadyExited => ProcessState::Exited,
            KillOutcome::Failed => ProcessState::Running,
        },
        ended => ended,
    }
}

/// What a termination request reports: a failure only where a process that
/// was still running could not be killed.
pub open spec fn termination_error(state: ProcessState, outcome: KillOutcome) -> Option<ErrorKind> {
    if state == ProcessState::Running && outcome == KillOutcome::Failed {
        Some(ErrorKind::TerminationFailure)
    } else {
        None
    }
}

/// Terminating twice is terminating once: after a request that did not
/// fail, any further request, whatever the system answers, changes nothing
/// and reports nothing. The same holds of a process that exited on its own.
pub proof fn lemma_terminate_idempotent(state: ProcessState, first: KillOutcome, second: KillOutcome)
    ensures
        termination_error(state, first).is_none() ==> {
            &&& terminated_state(terminated_state(state, first), second) == terminated_state(
                state,
                first,
            )
            &&& termination_error(terminated_state(state, first), second).is_none()
        },
        state != ProcessState::Running ==> {
            &&& terminated_state(state, first) == state
            &&& termination_error(state, first).is_none()
        },
{
}

impl ProcessHandle {
    /// The process's identifier.
    pub closed spec fn id_spec(&self) -> u32 {
        self.id
    }

    /// What is known of the process.
    pub closed spec fn state_spec(&self) -> ProcessState {
        self.state
    }

    /// The handle of a process that has just been spawned.
    pub fn new(id: u32) -> (handle: ProcessHandle)
        ensures
            handle.id_spec() == id,
            handle.state_spec() == ProcessState::Running,
    {
        ProcessHandle { id, state: ProcessState::Running }
    }

    /// The process's identifier.
    pub fn id(&self) -> (id: u32)
        ensures
            id == self.id_spec(),
    {
        self.id
    }

    /// What is known of the process.
    pub fn state(&self) -> (state: ProcessState)
        ensures
            state == self.state_spec(),
    {
        self.state
    }

    /// Whether the process has not been seen to end.
    pub fn is_running(&self) -> (running: bool)
        ensures
            running == (self.state_spec() == ProcessState::Running),
    {
        match self.state {
            ProcessState::Running => true,
            _ => false,
        }
    }

    /// Notes that the process was seen to have exited on its own. A process
    /// that had already ended stays as it was.
    pub fn mark_exited(&mut self)
        ensures
            final(self).id_spec() == old(self).id_spec(),
            final(self).state_spec() == terminated_state(
                old(self).state_spec(),
                KillOutcome::AlreadyExited,
            ),
    {
        match self.state {
            ProcessState::Running => {
                self.state = ProcessState::Exited;
            },
            _ => {},
        }
    }

    /// Records a termination request and what the operating system answered
    /// to it. Returns a failure only where the process was still running and
    /// could not be killed; on a process that has ended the request is a
    /// no-op.
    pub fn terminate(&mut self, outcome: KillOutcome) -> (error: Option<ErrorKind>)
        ensures
            final(self).id_spec() == old(self).id_spec(),
            final(self).state_spec() == terminated_state(old(self).state_spec(), outcome),
            error == termination_error(old(self).state_spec(), outcome),
    {
        match self.state {
            ProcessState::Running => match outcome {
                KillOutcome::Killed => {
                    self.state = ProcessState::Terminated;
                    None
                },
                KillOutcome::AlreadyExited => {
                    self.state = ProcessState::Exited;
                    None
                },
                KillOutcome::Failed => Some(ErrorKind::TerminationFailure),
            },
            _ => None,
        }
    }
}

} // verus!
