//! What a controller wants of a service or a job, and what it does to get there.

use vstd::prelude::*;

use crate::execution::{ExecutionOutcome, JobCancelCause, JobExecutionOrigin, ServiceStopCause};
use crate::ids::{
    ConfigGeneration, ExecutionId, IntentRevision, ManagerSessionId, ProcessDefinitionHash,
};
use crate::transition::{agrees, Transition};

verus! {

#[derive(Clone, Copy, Debug, PartialEq, Eq, Structural)]
pub enum Enablement {
    Disabled,
    Enabled,
}

#[derive(Clone, Copy, Debug, PartialEq, Eq)]
pub enum DefinitionState {
    Available { generation: ConfigGeneration, process_definition: ProcessDefinitionHash },
    Missing,
}

impl DefinitionState {
    pub fn is_available(self) -> (available: bool)
        ensures
            available == (self is Available),
    {
        match self {
            DefinitionState::Available { .. } => true,
            DefinitionState::Missing => false,
        }
    }
}

#[derive(Clone, Copy, Debug, PartialEq, Eq)]
pub struct ServiceState {
    pub definition: DefinitionState,
    pub enablement: Enablement,
    pub control: ServiceControl,
}

#[derive(Clone, Copy, Debug, PartialEq, Eq, Structural)]
pub enum ServiceControl {
    Stopped(StoppedPhase),
    Running { revision: IntentRevision, phase: RunningPhase },
}

#[derive(Clone, Copy, Debug, PartialEq, Eq, Structural)]
pub enum StoppedPhase {
    Idle,
    Draining { execution_id: ExecutionId },
}

#[derive(Clone, Copy, Debug, PartialEq, Eq, Structural)]
pub enum RunningPhase {
    NeedsExecution,
    Active { execution_id: ExecutionId },
    Draining { execution_id: ExecutionId },
    Blocked { execution_id: ExecutionId, outcome: ExecutionOutcome },
}

#[derive(Clone, Copy, Debug, PartialEq, Eq, Structural)]
pub enum ServiceControlEvent {
    Command(ServiceCommand),
    ExecutionAllocated { revision: IntentRevision, execution_id: ExecutionId },
    ExecutionTerminated { execution_id: ExecutionId, outcome: ExecutionOutcome },
}

#[derive(Clone, Copy, Debug, PartialEq, Eq, Structural)]
pub enum ServiceCommand {
    Start { revision: IntentRevision },
    Restart { revision: IntentRevision },
    Stop,
}

#[derive(Clone, Copy, Debug, PartialEq, Eq, Structural)]
pub enum ServiceControlEffect {
    AllocateExecution { revision: IntentRevision },
    StopExecution { execution_id: ExecutionId, cause: ServiceStopCause },
}

#[derive(Clone, Copy, Debug, PartialEq, Eq)]
pub struct JobState {
    pub definition: DefinitionState,
    pub enablement: JobEnablement,
    pub activity: JobActivity,
}

#[derive(Clone, Copy, Debug, PartialEq, Eq, Structural)]
pub struct JobEnablement {
    pub state: Enablement,
    pub last_trigger: SessionTrigger,
}

#[derive(Clone, Copy, Debug, PartialEq, Eq, Structural)]
pub enum SessionTrigger {
    Never,
    Triggered(ManagerSessionId),
}

#[derive(Clone, Copy, Debug, PartialEq, Eq, Structural)]
pub enum JobActivity {
    Idle,
    Active { execution_id: ExecutionId, after: AfterActive },
}

#[derive(Clone, Copy, Debug, PartialEq, Eq, Structural)]
pub enum AfterActive {
    Nothing,
    Rerun,
}

#[derive(Clone, Copy, Debug, PartialEq, Eq, Structural)]
pub enum JobActivityEvent {
    StartRequested { execution_id: ExecutionId, origin: JobExecutionOrigin },
    RerunRequested { execution_id_if_idle: ExecutionId },
    CancelRequested,
    ExecutionTerminated {
        execution_id: ExecutionId,
        outcome: ExecutionOutcome,
        rerun: RerunDisposition,
    },
}

#[derive(Clone, Copy, Debug, PartialEq, Eq, Structural)]
pub enum RerunDisposition {
    NotRequested,
    Start { execution_id: ExecutionId },
    DefinitionMissing,
}

#[derive(Clone, Copy, Debug, PartialEq, Eq, Structural)]
pub enum JobActivityEffect {
    StartExecution { execution_id: ExecutionId, origin: JobExecutionOrigin },
    CancelExecution { execution_id: ExecutionId, cause: JobCancelCause },
    RerunSkippedDefinitionMissing,
}

#[derive(Clone, Copy, Debug, PartialEq, Eq, Structural)]
pub enum ControllerTransitionError {
    DefinitionMissing,
    StaleExecution,
    StaleIntentRevision,
}

impl ControllerTransitionError {
    pub open spec fn text(self) -> Seq<char> {
        match self {
            ControllerTransitionError::DefinitionMissing => "workload definition is missing"@,
            ControllerTransitionError::StaleExecution => "event refers to a stale execution"@,
            ControllerTransitionError::StaleIntentRevision =>
                "event refers to a stale service intent revision"@,
        }
    }

    pub fn message(&self) -> (message: String)
        ensures
            message@ == self.text(),
    {
        match self {
            ControllerTransitionError::DefinitionMissing =>
                "workload definition is missing".to_owned(),
            ControllerTransitionError::StaleExecution =>
                "event refers to a stale execution".to_owned(),
            ControllerTransitionError::StaleIntentRevision =>
                "event refers to a stale service intent revision".to_owned(),
        }
    }
}

/// What an event makes of a service, or why it is refused.
pub type ServiceStep = Result<
    (ServiceState, Seq<ServiceControlEffect>),
    ControllerTransitionError,
>;

/// What an event makes of a job, or why it is refused.
pub type JobStep = Result<(JobState, Seq<JobActivityEffect>), ControllerTransitionError>;

/// The control of a service that wants an execution for `revision`, with the request for it.
pub open spec fn wanting(revision: IntentRevision) -> (
    ServiceControl,
    Seq<ServiceControlEffect>,
) {
    (
        ServiceControl::Running { revision, phase: RunningPhase::NeedsExecution },
        seq![ServiceControlEffect::AllocateExecution { revision }],
    )
}

/// The control of a service that will run for `revision` once `execution_id` is gone.
pub open spec fn draining_for(
    revision: IntentRevision,
    execution_id: ExecutionId,
) -> ServiceControl {
    ServiceControl::Running { revision, phase: RunningPhase::Draining { execution_id } }
}

/// A service that is asked to run: it starts where nothing runs, waits where the last
/// execution is still going down, and is left alone where it runs already.
pub open spec fn started(control: ServiceControl, revision: IntentRevision) -> (
    ServiceControl,
    Seq<ServiceControlEffect>,
) {
    match control {
        ServiceControl::Stopped(StoppedPhase::Idle) => wanting(revision),
        ServiceControl::Running { phase: RunningPhase::Blocked { .. }, .. } => wanting(revision),
        ServiceControl::Stopped(StoppedPhase::Draining { execution_id }) => (
            draining_for(revision, execution_id),
            seq![],
        ),
        _ => (control, seq![]),
    }
}

/// A service that is asked to run anew: an active execution is stopped first.
pub open spec fn restarted(control: ServiceControl, revision: IntentRevision) -> (
    ServiceControl,
    Seq<ServiceControlEffect>,
) {
    match control {
        ServiceControl::Stopped(StoppedPhase::Draining { execution_id }) => (
            draining_for(revision, execution_id),
            seq![],
        ),
        ServiceControl::Running { phase: RunningPhase::Draining { execution_id }, .. } => (
            draining_for(revision, execution_id),
            seq![],
        ),
        ServiceControl::Running { phase: RunningPhase::Active { execution_id }, .. } => (
            draining_for(revision, execution_id),
            seq![
                ServiceControlEffect::StopExecution {
                    execution_id,
                    cause: ServiceStopCause::Restart,
                },
            ],
        ),
        _ => wanting(revision),
    }
}

/// A service that is asked to stop: an execution that is up or going down is told so.
pub open spec fn stopped(control: ServiceControl) -> (ServiceControl, Seq<ServiceControlEffect>) {
    match control {
        ServiceControl::Stopped(_) => (control, seq![]),
        ServiceControl::Running {
            phase: RunningPhase::Active { execution_id } | RunningPhase::Draining { execution_id },
            ..
        } => (
            ServiceControl::Stopped(StoppedPhase::Draining { execution_id }),
            seq![
                ServiceControlEffect::StopExecution { execution_id, cause: ServiceStopCause::Stop },
            ],
        ),
        ServiceControl::Running { .. } => (ServiceControl::Stopped(StoppedPhase::Idle), seq![]),
    }
}

impl ServiceState {
    /// The state with another control.
    pub open spec fn controlled(self, step: (ServiceControl, Seq<ServiceControlEffect>)) -> (
        ServiceState,
        Seq<ServiceControlEffect>,
    ) {
        (ServiceState { control: step.0, ..self }, step.1)
    }

    /// The table of the state machine.
    pub open spec fn step(self, event: ServiceControlEvent) -> ServiceStep {
        match event {
            ServiceControlEvent::Command(ServiceCommand::Stop) => Ok(
                self.controlled(stopped(self.control)),
            ),
            ServiceControlEvent::Command(ServiceCommand::Start { revision }) =>
                if self.definition is Available {
                    Ok(self.controlled(started(self.control, revision)))
                } else {
                    Err(ControllerTransitionError::DefinitionMissing)
                },
            ServiceControlEvent::Command(ServiceCommand::Restart { revision }) =>
                if self.definition is Available {
                    Ok(self.controlled(restarted(self.control, revision)))
                } else {
                    Err(ControllerTransitionError::DefinitionMissing)
                },
            ServiceControlEvent::ExecutionAllocated { revision, execution_id } => match self.control {
                ServiceControl::Running { revision: current, phase } => if current != revision {
                    Err(ControllerTransitionError::StaleIntentRevision)
                } else if phase !is NeedsExecution {
                    Err(ControllerTransitionError::StaleExecution)
                } else {
                    Ok(
                        self.controlled(
                            (
                                ServiceControl::Running {
                                    revision,
                                    phase: RunningPhase::Active { execution_id },
                                },
                                seq![],
                            ),
                        ),
                    )
                },
                ServiceControl::Stopped(_) => Err(ControllerTransitionError::StaleExecution),
            },
            ServiceControlEvent::ExecutionTerminated { execution_id, outcome } => if self.execution()
                != Some(execution_id) {
                Err(ControllerTransitionError::StaleExecution)
            } else {
                Ok(
                    self.controlled(
                        match self.control {
                            ServiceControl::Stopped(_) => (
                                ServiceControl::Stopped(StoppedPhase::Idle),
                                seq![],
                            ),
                            ServiceControl::Running { revision, phase } => if phase is Active {
                                (
                                    ServiceControl::Running {
                                        revision,
                                        phase: RunningPhase::Blocked { execution_id, outcome },
                                    },
                                    seq![],
                                )
                            } else {
                                wanting(revision)
                            },
                        },
                    ),
                )
            },
        }
    }

    /// The execution that is up or going down.
    pub open spec fn execution(self) -> Option<ExecutionId> {
        match self.control {
            ServiceControl::Stopped(StoppedPhase::Draining { execution_id }) => Some(execution_id),
            ServiceControl::Running {
                phase: RunningPhase::Active { execution_id } | RunningPhase::Draining {
                    execution_id,
                },
                ..
            } => Some(execution_id),
            _ => None,
        }
    }

    /// Feeds one event to the service.
    pub fn transition(self, event: ServiceControlEvent) -> (result: Result<
        Transition<ServiceState, ServiceControlEffect>,
        ControllerTransitionError,
    >)
        ensures
            agrees(result, self.step(event)),
    {
        match event {
            ServiceControlEvent::Command(command) => self.command(command),
            ServiceControlEvent::ExecutionAllocated { revision, execution_id } =>
                self.execution_allocated(revision, execution_id),
            ServiceControlEvent::ExecutionTerminated { execution_id, outcome } =>
                self.execution_terminated(execution_id, outcome),
        }
    }

    fn command(self, command: ServiceCommand) -> (result: Result<
        Transition<ServiceState, ServiceControlEffect>,
        ControllerTransitionError,
    >)
        ensures
            agrees(result, self.step(ServiceControlEvent::Command(command))),
    {
        let mut state: ServiceState = self;
        match command {
            ServiceCommand::Start { revision } => {
                if !state.definition.is_available() {
                    return Err(ControllerTransitionError::DefinitionMissing);
                }
                match state.control {
                    ServiceControl::Stopped(StoppedPhase::Idle) | ServiceControl::Running {
                        phase: RunningPhase::Blocked { .. },
                        ..
                    } => Ok(state.want(revision)),
                    ServiceControl::Stopped(StoppedPhase::Draining { execution_id }) => {
                        state.control = ServiceControl::Running {
                            revision,
                            phase: RunningPhase::Draining { execution_id },
                        };
                        Ok(Transition::without_effects(state))
                    },
                    ServiceControl::Running { .. } => Ok(Transition::without_effects(state)),
                }
            },
            ServiceCommand::Restart { revision } => {
                if !state.definition.is_available() {
                    return Err(ControllerTransitionError::DefinitionMissing);
                }
                match state.control {
                    ServiceControl::Stopped(StoppedPhase::Idle) | ServiceControl::Running {
                        phase: RunningPhase::NeedsExecution | RunningPhase::Blocked { .. },
                        ..
                    } => Ok(state.want(revision)),
                    ServiceControl::Stopped(StoppedPhase::Draining { execution_id })
                    | ServiceControl::Running {
                        phase: RunningPhase::Draining { execution_id },
                        ..
                    } => {
                        state.control = ServiceControl::Running {
                            revision,
                            phase: RunningPhase::Draining { execution_id },
                        };
                        Ok(Transition::without_effects(state))
                    },
                    ServiceControl::Running { phase: RunningPhase::Active { execution_id }, .. } => {
                        state.control = ServiceControl::Running {
                            revision,
                            phase: RunningPhase::Draining { execution_id },
                        };
                        Ok(
                            Transition::with_effect(
                                state,
                                ServiceControlEffect::StopExecution {
                                    execution_id,
                                    cause: ServiceStopCause::Restart,
                                },
                            ),
                        )
                    },
                }
            },
            ServiceCommand::Stop => match state.control {
                ServiceControl::Stopped(_) => Ok(Transition::without_effects(state)),
                ServiceControl::Running {
                    phase: RunningPhase::Active { execution_id } | RunningPhase::Draining {
                        execution_id,
                    },
                    ..
                } => {
                    state.control = ServiceControl::Stopped(
                        StoppedPhase::Draining { execution_id },
                    );
                    Ok(
                        Transition::with_effect(
                            state,
                            ServiceControlEffect::StopExecution {
                                execution_id,
                                cause: ServiceStopCause::Stop,
                            },
                        ),
                    )
                },
                ServiceControl::Running {
                    phase: RunningPhase::NeedsExecution | RunningPhase::Blocked { .. },
                    ..
                } => {
                    state.control = ServiceControl::Stopped(StoppedPhase::Idle);
                    Ok(Transition::without_effects(state))
                },
            },
        }
    }

    fn want(self, revision: IntentRevision) -> (transition: Transition<
        ServiceState,
        ServiceControlEffect,
    >)
        ensures
            transition@ == self.controlled(wanting(revision)),
    {
        let mut state: ServiceState = self;
        state.control = ServiceControl::Running { revision, phase: RunningPhase::NeedsExecution };
        Transition::with_effect(state, ServiceControlEffect::AllocateExecution { revision })
    }

    fn execution_allocated(self, revision: IntentRevision, execution_id: ExecutionId) -> (
    result: Result<Transition<ServiceState, ServiceControlEffect>, ControllerTransitionError>)
        ensures
            agrees(
                result,
                self.step(ServiceControlEvent::ExecutionAllocated { revision, execution_id }),
            ),
    {
        let mut state: ServiceState = self;
        match state.control {
            ServiceControl::Running { revision: current, phase } => {
                if current != revision {
                    return Err(ControllerTransitionError::StaleIntentRevision);
                }
                match phase {
                    RunningPhase::NeedsExecution => {
                        state.control = ServiceControl::Running {
                            revision,
                            phase: RunningPhase::Active { execution_id },
                        };
                        Ok(Transition::without_effects(state))
                    },
                    _ => Err(ControllerTransitionError::StaleExecution),
                }
            },
            ServiceControl::Stopped(_) => Err(ControllerTransitionError::StaleExecution),
        }
    }

    fn execution_terminated(self, execution_id: ExecutionId, outcome: ExecutionOutcome) -> (
    result: Result<Transition<ServiceState, ServiceControlEffect>, ControllerTransitionError>)
        ensures
            agrees(
                result,
                self.step(ServiceControlEvent::ExecutionTerminated { execution_id, outcome }),
            ),
    {
        let mut state: ServiceState = self;
        match state.control {
            ServiceControl::Stopped(StoppedPhase::Draining { execution_id: current }) => {
                if current != execution_id {
                    return Err(ControllerTransitionError::StaleExecution);
                }
                state.control = ServiceControl::Stopped(StoppedPhase::Idle);
                Ok(Transition::without_effects(state))
            },
            ServiceControl::Running {
                revision,
                phase: RunningPhase::Active { execution_id: current },
            } => {
                if current != execution_id {
                    return Err(ControllerTransitionError::StaleExecution);
                }
                state.control = ServiceControl::Running {
                    revision,
                    phase: RunningPhase::Blocked { execution_id, outcome },
                };
                Ok(Transition::without_effects(state))
            },
            ServiceControl::Running {
                revision,
                phase: RunningPhase::Draining { execution_id: current },
            } => {
                if current != execution_id {
                    return Err(ControllerTransitionError::StaleExecution);
                }
                Ok(state.want(revision))
            },
            _ => Err(ControllerTransitionError::StaleExecution),
        }
    }
}

impl JobState {
    /// The state with another activity.
    pub open spec fn active_as(
        self,
        activity: JobActivity,
        effects: Seq<JobActivityEffect>,
    ) -> JobStep {
        Ok((JobState { activity, ..self }, effects))
    }

    /// The state in which `execution_id` has been started for `origin`.
    pub open spec fn running(
        self,
        execution_id: ExecutionId,
        origin: JobExecutionOrigin,
    ) -> JobStep {
        self.active_as(
            JobActivity::Active { execution_id, after: AfterActive::Nothing },
            seq![JobActivityEffect::StartExecution { execution_id, origin }],
        )
    }

    /// The table of the state machine.
    pub open spec fn step(self, event: JobActivityEvent) -> JobStep {
        match (event, self.activity) {
            (JobActivityEvent::StartRequested { execution_id, origin }, activity) =>
                if self.definition is Missing {
                    Err(ControllerTransitionError::DefinitionMissing)
                } else if activity is Idle {
                    self.running(execution_id, origin)
                } else {
                    self.active_as(activity, seq![])
                },
            (JobActivityEvent::RerunRequested { execution_id_if_idle }, activity) =>
                if self.definition is Missing {
                    Err(ControllerTransitionError::DefinitionMissing)
                } else {
                    match activity {
                        JobActivity::Idle => self.running(
                            execution_id_if_idle,
                            JobExecutionOrigin::Manual,
                        ),
                        JobActivity::Active { execution_id, after } => if after is Rerun {
                            self.active_as(activity, seq![])
                        } else {
                            self.active_as(
                                JobActivity::Active { execution_id, after: AfterActive::Rerun },
                                seq![
                                    JobActivityEffect::CancelExecution {
                                        execution_id,
                                        cause: JobCancelCause::Rerun,
                                    },
                                ],
                            )
                        },
                    }
                },
            (JobActivityEvent::CancelRequested, JobActivity::Idle) => self.active_as(
                JobActivity::Idle,
                seq![],
            ),
            (JobActivityEvent::CancelRequested, JobActivity::Active { execution_id, .. }) =>
                self.active_as(
                    JobActivity::Active { execution_id, after: AfterActive::Nothing },
                    seq![
                        JobActivityEffect::CancelExecution {
                            execution_id,
                            cause: JobCancelCause::Cancel,
                        },
                    ],
                ),
            (
                JobActivityEvent::ExecutionTerminated { execution_id, rerun, .. },
                JobActivity::Active { execution_id: current, after },
            ) => if current != execution_id {
                Err(ControllerTransitionError::StaleExecution)
            } else {
                match (after, rerun) {
                    (AfterActive::Nothing, RerunDisposition::NotRequested) => self.active_as(
                        JobActivity::Idle,
                        seq![],
                    ),
                    (AfterActive::Rerun, RerunDisposition::DefinitionMissing) => self.active_as(
                        JobActivity::Idle,
                        seq![JobActivityEffect::RerunSkippedDefinitionMissing],
                    ),
                    (AfterActive::Rerun, RerunDisposition::Start { execution_id: next }) =>
                        self.running(
                            next,
                            JobExecutionOrigin::Rerun { previous_execution_id: execution_id },
                        ),
                    _ => Err(ControllerTransitionError::StaleExecution),
                }
            },
            (JobActivityEvent::ExecutionTerminated { .. }, JobActivity::Idle) => Err(
                ControllerTransitionError::StaleExecution,
            ),
        }
    }

    /// Feeds one event to the job.
    pub fn transition(self, event: JobActivityEvent) -> (result: Result<
        Transition<JobState, JobActivityEffect>,
        ControllerTransitionError,
    >)
        ensures
            agrees(result, self.step(event)),
    {
        let mut state: JobState = self;
        match event {
            JobActivityEvent::StartRequested { execution_id, origin } => {
                if !state.definition.is_available() {
                    return Err(ControllerTransitionError::DefinitionMissing);
                }
                match state.activity {
                    JobActivity::Idle => Ok(state.start(execution_id, origin)),
                    JobActivity::Active { .. } => Ok(Transition::without_effects(state)),
                }
            },
            JobActivityEvent::RerunRequested { execution_id_if_idle } => {
                if !state.definition.is_available() {
                    return Err(ControllerTransitionError::DefinitionMissing);
                }
                match state.activity {
                    JobActivity::Idle => Ok(
                        state.start(execution_id_if_idle, JobExecutionOrigin::Manual),
                    ),
                    JobActivity::Active { execution_id, after: AfterActive::Nothing } => {
                        state.activity = JobActivity::Active {
                            execution_id,
                            after: AfterActive::Rerun,
                        };
                        Ok(
                            Transition::with_effect(
                                state,
                                JobActivityEffect::CancelExecution {
                                    execution_id,
                                    cause: JobCancelCause::Rerun,
                                },
                            ),
                        )
                    },
                    JobActivity::Active { after: AfterActive::Rerun, .. } => Ok(
                        Transition::without_effects(state),
                    ),
                }
            },
            JobActivityEvent::CancelRequested => match state.activity {
                JobActivity::Idle => Ok(Transition::without_effects(state)),
                JobActivity::Active { execution_id, .. } => {
                    state.activity = JobActivity::Active {
                        execution_id,
                        after: AfterActive::Nothing,
                    };
                    Ok(
                        Transition::with_effect(
                            state,
                            JobActivityEffect::CancelExecution {
                                execution_id,
                                cause: JobCancelCause::Cancel,
                            },
                        ),
                    )
                },
            },
            JobActivityEvent::ExecutionTerminated { execution_id, outcome: _, rerun } => {
                let after: AfterActive = match state.activity {
                    JobActivity::Active { execution_id: current, after } => {
                        if current != execution_id {
                            return Err(ControllerTransitionError::StaleExecution);
                        }
                        after
                    },
                    JobActivity::Idle => {
                        return Err(ControllerTransitionError::StaleExecution);
                    },
                };
                match (after, rerun) {
                    (AfterActive::Nothing, RerunDisposition::NotRequested) => {
                        state.activity = JobActivity::Idle;
                        Ok(Transition::without_effects(state))
                    },
                    (AfterActive::Rerun, RerunDisposition::DefinitionMissing) => {
                        state.activity = JobActivity::Idle;
                        Ok(
                            Transition::with_effect(
                                state,
                                JobActivityEffect::RerunSkippedDefinitionMissing,
                            ),
                        )
                    },
                    (AfterActive::Rerun, RerunDisposition::Start { execution_id: next }) => Ok(
                        state.start(
                            next,
                            JobExecutionOrigin::Rerun { previous_execution_id: execution_id },
                        ),
                    ),
                    _ => Err(ControllerTransitionError::StaleExecution),
                }
            },
        }
    }

    fn start(self, execution_id: ExecutionId, origin: JobExecutionOrigin) -> (
    transition: Transition<JobState, JobActivityEffect>)
        ensures
            self.running(execution_id, origin) == Ok::<
                (JobState, Seq<JobActivityEffect>),
                ControllerTransitionError,
            >(transition@),
    {
        let mut state: JobState = self;
        state.activity = JobActivity::Active { execution_id, after: AfterActive::Nothing };
        Transition::with_effect(state, JobActivityEffect::StartExecution { execution_id, origin })
    }
}

/// A service never has two executions up at once: a new one is asked for only when the one
/// before it is gone, and an event about any other execution is refused.
pub proof fn law_service_executions_do_not_overlap(state: ServiceState, event: ServiceControlEvent)
    requires
        state.step(event) is Ok,
    ensures
        ({
            let (next, effects) = state.step(event)->Ok_0;
            &&& forall|i: int|
                0 <= i < effects.len() ==> ((#[trigger] effects[i]) matches
                    ServiceControlEffect::AllocateExecution { revision } ==> next.execution() is None
                    && next.control == (ServiceControl::Running {
                    revision,
                    phase: RunningPhase::NeedsExecution,
                }))
            &&& state.execution() is Some && next.execution() != state.execution() ==> event is
                ExecutionTerminated
        }),
{
}

/// An event never changes the definition or the enablement of a service.
pub proof fn law_service_events_leave_settings_alone(
    state: ServiceState,
    event: ServiceControlEvent,
)
    requires
        state.step(event) is Ok,
    ensures
        state.step(event)->Ok_0.0.definition == state.definition,
        state.step(event)->Ok_0.0.enablement == state.enablement,
{
}

/// A stop is always taken, whatever the definition, and asking again changes nothing.
pub proof fn law_service_stop_is_idempotent(state: ServiceState)
    ensures
        ({
            let stop = ServiceControlEvent::Command(ServiceCommand::Stop);
            &&& state.step(stop) is Ok
            &&& state.step(stop)->Ok_0.0.control is Stopped
            &&& state.step(stop)->Ok_0.0.step(stop) == Ok::<
                (ServiceState, Seq<ServiceControlEffect>),
                ControllerTransitionError,
            >((state.step(stop)->Ok_0.0, Seq::<ServiceControlEffect>::empty()))
        }),
{
}

/// A start of a service that is meant to run and not blocked changes nothing.
pub proof fn law_service_start_is_idempotent(
    state: ServiceState,
    first: IntentRevision,
    second: IntentRevision,
)
    requires
        state.definition is Available,
    ensures
        ({
            let start = ServiceControlEvent::Command(ServiceCommand::Start { revision: first });
            let again = ServiceControlEvent::Command(ServiceCommand::Start { revision: second });
            let running = state.step(start)->Ok_0.0;
            &&& running.control is Running
            &&& running.step(again) == Ok::<
                (ServiceState, Seq<ServiceControlEffect>),
                ControllerTransitionError,
            >((running, Seq::<ServiceControlEffect>::empty()))
        }),
{
}

/// A job never has two executions at once: one is started only where none is active, or in
/// the place of the one that has just ended.
pub proof fn law_job_executions_do_not_overlap(state: JobState, event: JobActivityEvent)
    requires
        state.step(event) is Ok,
    ensures
        ({
            let (next, effects) = state.step(event)->Ok_0;
            forall|i: int|
                0 <= i < effects.len() ==> ((#[trigger] effects[i]) matches
                    JobActivityEffect::StartExecution { execution_id, .. } ==> next.activity == (
                JobActivity::Active { execution_id, after: AfterActive::Nothing }) && (
                state.activity is Idle || (event matches JobActivityEvent::ExecutionTerminated {
                    execution_id: ended,
                    ..
                } && state.activity == (JobActivity::Active {
                    execution_id: ended,
                    after: AfterActive::Rerun,
                }))))
        }),
{
}

/// Cancelling a job withdraws a rerun that was asked for: when the execution ends, the job is
/// idle.
pub proof fn law_cancel_withdraws_rerun(
    state: JobState,
    execution_id: ExecutionId,
    outcome: ExecutionOutcome,
)
    requires
        state.activity matches JobActivity::Active { execution_id: current, .. } && current
            == execution_id,
    ensures
        ({
            let cancelled = state.step(JobActivityEvent::CancelRequested)->Ok_0.0;
            let ended = JobActivityEvent::ExecutionTerminated {
                execution_id,
                outcome,
                rerun: RerunDisposition::NotRequested,
            };
            cancelled.step(ended) == Ok::<
                (JobState, Seq<JobActivityEffect>),
                ControllerTransitionError,
            >(
                (
                    JobState { activity: JobActivity::Idle, ..state },
                    Seq::<JobActivityEffect>::empty(),
                ),
            )
        }),
{
}

} // verus!
