//! The course of one run, as a machine that is told how each step went and
//! says which step comes next.
//!
//! A run goes through its phases in one direction. In each phase one
//! [`Action`] is pending; the caller carries it out and hands back an
//! [`Event`]. The control group, once created, is destroyed on every way to
//! the end, and the child is started only in a group that exists and has its
//! limits.

use crate::limits::{memory_plan, memory_settings, SetMemory};
use crate::outcome::{exit_status, status_of, ExitOutcome, Resource, RunError};
use crate::restrict::{ConfigError, Restrict, RestrictView};
use vstd::pervasive::unreached;
use vstd::prelude::*;

verus! {

/// Where a run stands. Each phase but the last waits for the answer to one
/// action.
#[derive(Clone, Copy, Debug, PartialEq, Eq, Structural)]
pub enum Phase {
    /// Nothing is known of the backend yet.
    Probing,
    /// The backend will do; the control group is not there yet.
    Creating,
    /// The group exists and the memory ceiling is to be set.
    LimitingMemory,
    /// The group exists and the CPU weight is to be set.
    LimitingCpu,
    /// The group has its limits and the child is to be started.
    Spawning,
    /// The child runs in the group.
    Waiting,
    /// The result stands and the group is to be removed.
    Destroying,
    /// Nothing is left to do.
    Finished,
}

/// What the caller has to do next.
#[derive(Clone, Copy, Debug, PartialEq, Eq)]
pub enum Action {
    /// Find out whether the host offers the unified control-group interface.
    ProbeBackend,
    /// Create the control group that the request names.
    CreateScope,
    /// Write these memory thresholds to the group.
    ApplyMemoryLimit(SetMemory),
    /// Write this CPU weight to the group.
    ApplyCpuWeight(u64),
    /// Start the shell on the command, with the streams of the caller, and
    /// have the child join the group before it becomes the shell.
    Spawn,
    /// Block until the child has ended.
    Wait,
    /// Remove the control group.
    DestroyScope,
    /// Leave with the status of the run.
    Finish,
}

/// How the pending action went.
#[derive(Clone, Copy, Debug, PartialEq, Eq, Structural)]
pub enum Event {
    /// The answer to [`Action::ProbeBackend`]: whether the interface is the
    /// unified one.
    BackendProbed(bool),
    /// The action was carried out.
    Succeeded,
    /// The action failed.
    Failed,
    /// The answer to [`Action::Wait`] when the wait returned.
    ChildEnded(ExitOutcome),
}

/// A run as plain values.
pub struct RunState {
    /// What is run.
    pub request: RestrictView,
    /// Where the run stands.
    pub phase: Phase,
    /// How the run went, from the moment that is settled. Removing the
    /// group does not change it.
    pub result: Option<Result<ExitOutcome, RunError>>,
    /// Whether the group could not be removed.
    pub cleanup_failed: bool,
}

impl Phase {
    /// The place of a phase in the course of a run.
    pub open spec fn rank(self) -> int {
        match self {
            Phase::Probing => 0,
            Phase::Creating => 1,
            Phase::LimitingMemory => 2,
            Phase::LimitingCpu => 3,
            Phase::Spawning => 4,
            Phase::Waiting => 5,
            Phase::Destroying => 6,
            Phase::Finished => 7,
        }
    }
}

impl Action {
    /// The rank of the phase in which an action is pending.
    pub open spec fn rank(self) -> int {
        match self {
            Action::ProbeBackend => 0,
            Action::CreateScope => 1,
            Action::ApplyMemoryLimit(_) => 2,
            Action::ApplyCpuWeight(_) => 3,
            Action::Spawn => 4,
            Action::Wait => 5,
            Action::DestroyScope => 6,
            Action::Finish => 7,
        }
    }
}

impl RunState {
    /// The state in which a run of `request` begins.
    pub open spec fn initial(request: RestrictView) -> RunState {
        RunState { request, phase: Phase::Probing, result: None, cleanup_failed: false }
    }

    /// What holds of every state that a run of a valid request reaches.
    pub open spec fn wf(self) -> bool {
        &&& self.request.valid()
        &&& self.phase == Phase::LimitingMemory ==> self.request.memory_limit is Some
        &&& self.phase == Phase::LimitingCpu ==> self.request.cpu_shares is Some
        &&& self.result is Some <==> self.phase == Phase::Destroying || self.phase
            == Phase::Finished
        &&& self.cleanup_failed ==> self.phase == Phase::Finished
    }

    /// The phase that follows the setting of the memory ceiling.
    pub open spec fn phase_after_memory(self) -> Phase {
        if self.request.cpu_shares is Some {
            Phase::LimitingCpu
        } else {
            Phase::Spawning
        }
    }

    /// The phase that follows the creation of the group.
    pub open spec fn phase_after_create(self) -> Phase {
        if self.request.memory_limit is Some {
            Phase::LimitingMemory
        } else {
            self.phase_after_memory()
        }
    }

    /// The action that the caller has to carry out in this state.
    pub open spec fn pending(self) -> Action {
        match self.phase {
            Phase::Probing => Action::ProbeBackend,
            Phase::Creating => Action::CreateScope,
            Phase::LimitingMemory => Action::ApplyMemoryLimit(
                memory_plan(self.request.memory_limit.unwrap()),
            ),
            Phase::LimitingCpu => Action::ApplyCpuWeight(self.request.cpu_shares.unwrap()),
            Phase::Spawning => Action::Spawn,
            Phase::Waiting => Action::Wait,
            Phase::Destroying => Action::DestroyScope,
            Phase::Finished => Action::Finish,
        }
    }

    /// Whether `event` answers the pending action.
    pub open spec fn accepts(self, event: Event) -> bool {
        match self.phase {
            Phase::Probing => event is BackendProbed,
            Phase::Waiting => event is ChildEnded || event is Failed,
            Phase::Finished => false,
            _ => event is Succeeded || event is Failed,
        }
    }

    /// This state with the run settled as `result` and the group still to
    /// be removed.
    pub open spec fn settle(self, result: Result<ExitOutcome, RunError>) -> RunState {
        RunState { phase: Phase::Destroying, result: Some(result), ..self }
    }

    /// This state with the run over as `error`, where no group exists.
    pub open spec fn give_up(self, error: RunError) -> RunState {
        RunState { phase: Phase::Finished, result: Some(Err(error)), ..self }
    }

    /// This state in another phase.
    pub open spec fn move_to(self, phase: Phase) -> RunState {
        RunState { phase, ..self }
    }

    /// The state after `event`. An event that does not answer the pending
    /// action changes nothing.
    pub open spec fn next(self, event: Event) -> RunState {
        match (self.phase, event) {
            (Phase::Probing, Event::BackendProbed(true)) => self.move_to(Phase::Creating),
            (Phase::Probing, Event::BackendProbed(false)) => self.give_up(
                RunError::BackendUnavailable,
            ),
            (Phase::Creating, Event::Succeeded) => self.move_to(self.phase_after_create()),
            (Phase::Creating, Event::Failed) => self.give_up(RunError::CreateFailed),
            (Phase::LimitingMemory, Event::Succeeded) => self.move_to(
                self.phase_after_memory(),
            ),
            (Phase::LimitingMemory, Event::Failed) => self.settle(
                Err(RunError::LimitRejected(Resource::Memory)),
            ),
            (Phase::LimitingCpu, Event::Succeeded) => self.move_to(Phase::Spawning),
            (Phase::LimitingCpu, Event::Failed) => self.settle(
                Err(RunError::LimitRejected(Resource::Cpu)),
            ),
            (Phase::Spawning, Event::Succeeded) => self.move_to(Phase::Waiting),
            (Phase::Spawning, Event::Failed) => self.settle(Err(RunError::SpawnFailed)),
            (Phase::Waiting, Event::ChildEnded(outcome)) => self.settle(Ok(outcome)),
            (Phase::Waiting, Event::Failed) => self.settle(Err(RunError::WaitFailed)),
            (Phase::Destroying, Event::Succeeded) => self.move_to(Phase::Finished),
            (Phase::Destroying, Event::Failed) => RunState {
                phase: Phase::Finished,
                cleanup_failed: true,
                ..self
            },
            _ => self,
        }
    }

    /// The status that the caller leaves with: that of the result, once
    /// there is one.
    pub open spec fn exit_status(self) -> Option<i32> {
        match self.result {
            Some(result) => status_of(result),
            None => None,
        }
    }

    /// An event that is not accepted changes nothing; one that is accepted
    /// takes the run to a later phase, in which the request is the same.
    pub proof fn lemma_next(self, event: Event)
        requires
            self.wf(),
        ensures
            self.next(event).wf(),
            self.next(event).request == self.request,
            !self.accepts(event) ==> self.next(event) == self,
            self.accepts(event) ==> self.phase.rank() < self.next(event).phase.rank(),
            self.pending().rank() == self.phase.rank(),
    {
    }
}

/// One run of one request.
#[derive(Debug)]
pub struct Run {
    request: Restrict,
    phase: Phase,
    result: Option<Result<ExitOutcome, RunError>>,
    cleanup_failed: bool,
}

impl View for Run {
    type V = RunState;

    closed spec fn view(&self) -> RunState {
        RunState {
            request: self.request@,
            phase: self.phase,
            result: self.result,
            cleanup_failed: self.cleanup_failed,
        }
    }
}

impl Run {
    #[verifier::type_invariant]
    spec fn well_formed(self) -> bool {
        self@.wf()
    }

    /// The request of this run.
    pub fn request(&self) -> (request: &Restrict)
        ensures
            request@ == self@.request,
    {
        &self.request
    }

    /// Where the run stands.
    pub fn phase(&self) -> (phase: Phase)
        ensures
            phase == self@.phase,
    {
        self.phase
    }

    /// Whether nothing is left to do.
    pub fn is_finished(&self) -> (finished: bool)
        ensures
            finished == (self@.phase == Phase::Finished),
    {
        match self.phase {
            Phase::Finished => true,
            _ => false,
        }
    }

    /// How the run went, once that is settled.
    pub fn result(&self) -> (result: Option<Result<ExitOutcome, RunError>>)
        ensures
            result == self@.result,
            result is Some <==> self@.phase == Phase::Destroying || self@.phase
                == Phase::Finished,
    {
        proof {
            use_type_invariant(self);
        }
        self.result
    }

    /// Whether the group could not be removed. The result and the exit
    /// status do not depend on it.
    pub fn cleanup_failed(&self) -> (failed: bool)
        ensures
            failed == self@.cleanup_failed,
    {
        self.cleanup_failed
    }

    /// The status to leave with, see [`RunState::exit_status`].
    pub fn exit_status(&self) -> (status: Option<i32>)
        ensures
            status == self@.exit_status(),
    {
        match self.result {
            Some(result) => exit_status(result),
            None => None,
        }
    }

    /// The action to carry out now.
    pub fn pending(&self) -> (action: Action)
        ensures
            action == self@.pending(),
            self@.wf(),
    {
        proof {
            use_type_invariant(self);
        }
        match self.phase {
            Phase::Probing => Action::ProbeBackend,
            Phase::Creating => Action::CreateScope,
            Phase::LimitingMemory => {
                match self.request.memory_limit() {
                    Some(ceiling) => match memory_settings(ceiling) {
                        Some(settings) => Action::ApplyMemoryLimit(settings),
                        None => unreached(),
                    },
                    None => unreached(),
                }
            },
            Phase::LimitingCpu => {
                match self.request.cpu_shares() {
                    Some(weight) => Action::ApplyCpuWeight(weight),
                    None => unreached(),
                }
            },
            Phase::Spawning => Action::Spawn,
            Phase::Waiting => Action::Wait,
            Phase::Destroying => Action::DestroyScope,
            Phase::Finished => Action::Finish,
        }
    }

    /// Whether `event` answers the pending action.
    pub fn accepts(&self, event: Event) -> (accepted: bool)
        ensures
            accepted == self@.accepts(event),
    {
        match self.phase {
            Phase::Probing => match event {
                Event::BackendProbed(_) => true,
                _ => false,
            },
            Phase::Waiting => match event {
                Event::ChildEnded(_) => true,
                Event::Failed => true,
                _ => false,
            },
            Phase::Finished => false,
            _ => match event {
                Event::Succeeded => true,
                Event::Failed => true,
                _ => false,
            },
        }
    }

    /// The run after `event`, see [`RunState::next`].
    pub fn step(self, event: Event) -> (next: Run)
        ensures
            next@ == self@.next(event),
            next@.wf(),
    {
        proof {
            use_type_invariant(&self);
            self@.lemma_next(event);
        }
        let Run { request, phase, result, cleanup_failed } = self;
        let limits_memory: bool = request.memory_limit().is_some();
        let limits_cpu: bool = request.cpu_shares().is_some();
        let after_memory: Phase = if limits_cpu {
            Phase::LimitingCpu
        } else {
            Phase::Spawning
        };
        let after_create: Phase = if limits_memory {
            Phase::LimitingMemory
        } else {
            after_memory
        };
        match (phase, event) {
            (Phase::Probing, Event::BackendProbed(true)) => Run {
                request,
                phase: Phase::Creating,
                result,
                cleanup_failed,
            },
            (Phase::Probing, Event::BackendProbed(false)) => Run {
                request,
                phase: Phase::Finished,
                result: Some(Err(RunError::BackendUnavailable)),
                cleanup_failed,
            },
            (Phase::Creating, Event::Succeeded) => Run {
                request,
                phase: after_create,
                result,
                cleanup_failed,
            },
            (Phase::Creating, Event::Failed) => Run {
                request,
                phase: Phase::Finished,
                result: Some(Err(RunError::CreateFailed)),
                cleanup_failed,
            },
            (Phase::LimitingMemory, Event::Succeeded) => Run {
                request,
                phase: after_memory,
                result,
                cleanup_failed,
            },
            (Phase::LimitingMemory, Event::Failed) => Run {
                request,
                phase: Phase::Destroying,
                result: Some(Err(RunError::LimitRejected(Resource::Memory))),
                cleanup_failed,
            },
            (Phase::LimitingCpu, Event::Succeeded) => Run {
                request,
                phase: Phase::Spawning,
                result,
                cleanup_failed,
            },
            (Phase::LimitingCpu, Event::Failed) => Run {
                request,
                phase: Phase::Destroying,
                result: Some(Err(RunError::LimitRejected(Resource::Cpu))),
                cleanup_failed,
            },
            (Phase::Spawning, Event::Succeeded) => Run {
                request,
                phase: Phase::Waiting,
                result,
                cleanup_failed,
            },
            (Phase::Spawning, Event::Failed) => Run {
                request,
                phase: Phase::Destroying,
                result: Some(Err(RunError::SpawnFailed)),
                cleanup_failed,
            },
            (Phase::Waiting, Event::ChildEnded(outcome)) => Run {
                request,
                phase: Phase::Destroying,
                result: Some(Ok(outcome)),
                cleanup_failed,
            },
            (Phase::Waiting, Event::Failed) => Run {
                request,
                phase: Phase::Destroying,
                result: Some(Err(RunError::WaitFailed)),
                cleanup_failed,
            },
            (Phase::Destroying, Event::Succeeded) => Run {
                request,
                phase: Phase::Finished,
                result,
                cleanup_failed,
            },
            (Phase::Destroying, Event::Failed) => Run {
                request,
                phase: Phase::Finished,
                result,
                cleanup_failed: true,
            },
            _ => Run { request, phase, result, cleanup_failed },
        }
    }
}

impl Restrict {
    /// Begins a run of this request. A request with a defect is turned
    /// down, and nothing has been done for it.
    pub fn run(self) -> (started: Result<Run, ConfigError>)
        ensures
            started is Ok <==> self@.valid(),
            started matches Ok(run) ==> run@ == RunState::initial(self@) && run@.wf(),
            started matches Err(e) ==> self@.defect() == Some(e),
    {
        match self.check() {
            Ok(()) => Ok(
                Run { request: self, phase: Phase::Probing, result: None, cleanup_failed: false },
            ),
            Err(e) => Err(e),
        }
    }
}

/// What the child does once it has tried to join the group.
#[derive(Clone, Copy, Debug, PartialEq, Eq, Structural)]
pub struct HookVerdict {
    /// Whether the child goes on to become the shell.
    pub proceed: bool,
    /// Whether the child reports that it runs outside the group.
    pub report: bool,
}

/// The verdict of the hook that runs in the child before it becomes the
/// shell. Joining the group is tried once; a child that could not join
/// says so and runs all the same, without limits.
pub open spec fn hook_verdict(attached: bool) -> HookVerdict {
    HookVerdict { proceed: true, report: !attached }
}

/// Computes [`hook_verdict`].
pub fn attach_verdict(attached: bool) -> (verdict: HookVerdict)
    ensures
        verdict == hook_verdict(attached),
        verdict.proceed,
        verdict.report == !attached,
{
    HookVerdict { proceed: true, report: !attached }
}

} // verus!
