//! The life of one execution: attempts, restarts, stopping and its outcome.

use vstd::prelude::*;
use std::cmp::Ordering;
use std::collections::BTreeSet;

use crate::ids::{
    AttemptNumber, ExecutionConfigHash, ExecutionId, IntentRevision, ManagerSessionId,
    ProcessDefinitionHash, WorkloadId,
};
use crate::num::NonZeroU32;
use crate::restart::{
    BackoffPolicy, ExecutionRestartPolicy, JobRestartPolicy, RetryOrdinal, ServiceRestartPolicy,
    ServiceRetryLimit,
};
use crate::time::{BootInstant, Duration, RetryDeadline, StopDeadline};
use crate::transition::{agrees, Transition};

verus! {

broadcast use vstd::std_specs::btree::group_btree_axioms;

/// One execution of a workload.
///
/// `success_exit_codes` holds the numbers of the exit codes that count as success.
#[derive(Clone, Debug, PartialEq, Eq)]
pub struct ExecutionState {
    pub id: ExecutionId,
    pub workload_id: WorkloadId,
    pub origin: ExecutionOrigin,
    pub source_definition: ProcessDefinitionHash,
    pub execution_config: ExecutionConfigHash,
    pub success_exit_codes: BTreeSet<u32>,
    pub restart_policy: ExecutionRestartPolicy,
    pub last_retry: Option<RetryOrdinal>,
    pub phase: ExecutionPhase,
}

#[derive(Clone, Copy, Debug, PartialEq, Eq, Structural)]
pub enum ExecutionOrigin {
    ServiceIntent { revision: IntentRevision },
    Job(JobExecutionOrigin),
}

#[derive(Clone, Copy, Debug, PartialEq, Eq, Structural)]
pub enum JobExecutionOrigin {
    Manual,
    Enabled { manager_session_id: ManagerSessionId },
    Rerun { previous_execution_id: ExecutionId },
}

#[derive(Clone, Copy, Debug, PartialEq, Eq, Structural)]
pub enum ExecutionPhase {
    Launching { attempt: AttemptNumber },
    Running { attempt: AttemptNumber },
    RestartBackoff {
        previous_attempt: AttemptNumber,
        previous_end: AttemptEnd,
        next_attempt: AttemptNumber,
        retry: RetryOrdinal,
        retry_at: RetryDeadline,
    },
    Stopping { attempt: AttemptNumber, phase: StopPhase, cause: StopCause, plan: StopPlan },
    Terminal { outcome: ExecutionOutcome },
}

#[derive(Clone, Copy, Debug, PartialEq, Eq, Structural)]
pub enum StopPhase {
    AwaitingLaunch { deadline: StopDeadline },
    Graceful { deadline: StopDeadline },
    Killing,
}

#[derive(Clone, Copy, Debug, PartialEq, Eq, Structural)]
pub enum StopPlan {
    CtrlBreak { timeout: Duration },
    Command { timeout: Duration },
    Kill,
}

#[derive(Clone, Copy, Debug, PartialEq, Eq, Structural)]
pub enum ServiceStopCause {
    Stop,
    Restart,
    ManagerSessionEnded,
}

#[derive(Clone, Copy, Debug, PartialEq, Eq, Structural)]
pub enum JobCancelCause {
    Cancel,
    Rerun,
    ManagerSessionEnded,
}

#[derive(Clone, Copy, Debug, PartialEq, Eq, Structural)]
pub enum StopCause {
    Service(ServiceStopCause),
    Job(JobCancelCause),
}

#[derive(Clone, Copy, Debug, PartialEq, Eq, Structural)]
pub enum AttemptEnd {
    LaunchFailed { failure: LaunchFailure },
    Exited { exit_code: ExitCode, ran_for: Duration },
    Killed,
    SupervisorLost,
}

#[derive(Clone, Copy, Debug, PartialEq, Eq, Structural)]
pub enum LaunchFailure {
    Preflight(PreflightFailure),
    Win32(Win32ErrorCode),
}

#[derive(Clone, Copy, Debug, PartialEq, Eq, Structural)]
pub enum PreflightFailure {
    EnvironmentVariableMissing,
    ExecutableNotFound,
    WorkingDirectoryUnavailable,
    CommandLineTooLong,
}

#[derive(Clone, Copy, Debug, PartialEq, Eq, Structural)]
pub enum ExecutionOutcome {
    Completed { exit_code: ExitCode },
    Failed { failure: ExecutionFailure },
    OutcomeUnknown { failure: InfrastructureFailure },
    Stopped { cause: ServiceStopCause, forced: bool },
    Cancelled { cause: JobCancelCause, forced: bool },
}

#[derive(Clone, Copy, Debug, PartialEq, Eq, Structural)]
pub enum ExecutionFailure {
    Attempt { attempt: AttemptNumber, end: AttemptEnd },
    SupervisorUnavailable,
}

#[derive(Clone, Copy, Debug, PartialEq, Eq, Structural)]
pub enum InfrastructureFailure {
    SupervisorLost { attempt: AttemptNumber },
}

/// The code that a process exited with.
#[derive(Clone, Copy, Debug, PartialEq, Eq, Structural, Hash, Ord)]
pub struct ExitCode(pub u32);

impl PartialOrd for ExitCode {
    fn partial_cmp(&self, other: &ExitCode) -> (ordering: Option<Ordering>) {
        self.0.partial_cmp(&other.0)
    }
}

impl vstd::std_specs::cmp::PartialOrdSpecImpl for ExitCode {
    open spec fn obeys_partial_cmp_spec() -> bool {
        true
    }

    open spec fn partial_cmp_spec(&self, other: &ExitCode) -> Option<Ordering> {
        if self.0 < other.0 {
            Some(Ordering::Less)
        } else if self.0 == other.0 {
            Some(Ordering::Equal)
        } else {
            Some(Ordering::Greater)
        }
    }
}

impl ExitCode {
    /// The code of a process that reports success.
    pub fn success() -> (code: ExitCode)
        ensures
            code == ExitCode(0),
    {
        ExitCode(0)
    }

    pub fn new(value: u32) -> (code: ExitCode)
        ensures
            code == ExitCode(value),
    {
        ExitCode(value)
    }

    pub fn get(self) -> (value: u32)
        ensures
            self == ExitCode(value),
    {
        self.0
    }
}

/// Codes are ordered as their numbers are.
pub proof fn law_codes_are_ordered_as_numbers(a: ExitCode, b: ExitCode)
    ensures
        vstd::std_specs::cmp::PartialOrdSpec::partial_cmp_spec(&a, &b) == Some(
            if a.0 < b.0 {
                Ordering::Less
            } else if a.0 == b.0 {
                Ordering::Equal
            } else {
                Ordering::Greater
            },
        ),
        vstd::std_specs::cmp::PartialOrdSpec::partial_cmp_spec(&a, &b) == Some(Ordering::Equal)
            <==> a == b,
{
}

/// An error code of the operating system.
#[derive(Clone, Copy, Debug, PartialEq, Eq, Structural, Hash)]
pub struct Win32ErrorCode(pub u32);

impl Win32ErrorCode {
    pub fn new(value: u32) -> (code: Win32ErrorCode)
        ensures
            code == Win32ErrorCode(value),
    {
        Win32ErrorCode(value)
    }

    pub fn get(self) -> (value: u32)
        ensures
            self == Win32ErrorCode(value),
    {
        self.0
    }
}

#[derive(Clone, Debug, PartialEq, Eq)]
pub enum ExecutionEvent {
    LaunchSucceeded { attempt: AttemptNumber, at: BootInstant },
    LaunchFailed { attempt: AttemptNumber, failure: LaunchFailure, at: BootInstant },
    ProcessExited {
        attempt: AttemptNumber,
        exit_code: ExitCode,
        ran_for: Duration,
        at: BootInstant,
    },
    StopRequested { cause: StopCause, plan: StopPlan, at: BootInstant },
    RestartDeadlineReached { deadline: RetryDeadline },
    StopDeadlineReached { deadline: StopDeadline },
    RestartPolicyChanged { policy: ExecutionRestartPolicy },
    SuccessExitCodesChanged { codes: BTreeSet<u32> },
    SupervisorLost { at: BootInstant },
}

#[derive(Clone, Copy, Debug, PartialEq, Eq, Structural)]
pub enum ExecutionEffect {
    LaunchAttempt { attempt: AttemptNumber },
    ScheduleRestart { retry_at: RetryDeadline },
    SendCtrlBreak,
    RunStopCommand,
    ScheduleStopDeadline { deadline: StopDeadline },
    TerminateJobObject,
    PublishTerminal { outcome: ExecutionOutcome },
}

#[derive(Clone, Copy, Debug, PartialEq, Eq, Structural)]
pub enum ExecutionTransitionError {
    UnexpectedEvent,
    StaleAttempt,
    StaleDeadline,
    AttemptOverflow,
    RetryOverflow,
    DeadlineOverflow,
    PolicyKindMismatch,
}

impl ExecutionTransitionError {
    pub open spec fn text(self) -> Seq<char> {
        match self {
            ExecutionTransitionError::UnexpectedEvent =>
                "event is invalid in the current execution phase"@,
            ExecutionTransitionError::StaleAttempt => "event refers to a stale process attempt"@,
            ExecutionTransitionError::StaleDeadline =>
                "event refers to a stale lifecycle deadline"@,
            ExecutionTransitionError::AttemptOverflow => "process attempt number overflowed"@,
            ExecutionTransitionError::RetryOverflow => "restart ordinal overflowed"@,
            ExecutionTransitionError::DeadlineOverflow =>
                "boot-relative lifecycle deadline overflowed"@,
            ExecutionTransitionError::PolicyKindMismatch =>
                "restart policy does not match the execution origin"@,
        }
    }

    pub fn message(&self) -> (message: String)
        ensures
            message@ == self.text(),
    {
        match self {
            ExecutionTransitionError::UnexpectedEvent =>
                "event is invalid in the current execution phase".to_owned(),
            ExecutionTransitionError::StaleAttempt =>
                "event refers to a stale process attempt".to_owned(),
            ExecutionTransitionError::StaleDeadline =>
                "event refers to a stale lifecycle deadline".to_owned(),
            ExecutionTransitionError::AttemptOverflow =>
                "process attempt number overflowed".to_owned(),
            ExecutionTransitionError::RetryOverflow => "restart ordinal overflowed".to_owned(),
            ExecutionTransitionError::DeadlineOverflow =>
                "boot-relative lifecycle deadline overflowed".to_owned(),
            ExecutionTransitionError::PolicyKindMismatch =>
                "restart policy does not match the execution origin".to_owned(),
        }
    }
}

/// What an event makes of a state: the next state with the effects in order, or a refusal.
pub type ExecutionStep = Result<(ExecutionState, Seq<ExecutionEffect>), ExecutionTransitionError>;

/// A service is governed by a service policy, a job by a job policy.
pub open spec fn policy_fits(origin: ExecutionOrigin, policy: ExecutionRestartPolicy) -> bool {
    (origin is ServiceIntent) == (policy is Service)
}

/// A service is stopped, a job is cancelled.
pub open spec fn cause_fits(origin: ExecutionOrigin, cause: StopCause) -> bool {
    (origin is ServiceIntent) == (cause is Service)
}

/// The outcome of an execution that was stopped for `cause`.
pub open spec fn stop_outcome(cause: StopCause, forced: bool) -> ExecutionOutcome {
    match cause {
        StopCause::Service(cause) => ExecutionOutcome::Stopped { cause, forced },
        StopCause::Job(cause) => ExecutionOutcome::Cancelled { cause, forced },
    }
}

/// The effect by which a graceful stop is asked for.
pub open spec fn graceful_effect(plan: StopPlan) -> ExecutionEffect {
    if plan is CtrlBreak {
        ExecutionEffect::SendCtrlBreak
    } else {
        ExecutionEffect::RunStopCommand
    }
}

/// The time that a plan leaves for a graceful stop.
pub open spec fn graceful_timeout(plan: StopPlan) -> nat {
    match plan {
        StopPlan::CtrlBreak { timeout } => timeout@,
        StopPlan::Command { timeout } => timeout@,
        StopPlan::Kill => 0,
    }
}

/// The backoff that a policy prescribes between attempts, where it allows for a restart.
pub open spec fn policy_backoff(policy: ExecutionRestartPolicy) -> Option<BackoffPolicy> {
    match policy {
        ExecutionRestartPolicy::Service(ServiceRestartPolicy::OnFailure(retry)) => Some(
            retry.backoff,
        ),
        ExecutionRestartPolicy::Service(ServiceRestartPolicy::Always(retry)) => Some(
            retry.backoff,
        ),
        ExecutionRestartPolicy::Job(JobRestartPolicy::OnFailure(retry)) => Some(retry.backoff),
        _ => None,
    }
}

impl ExecutionState {
    /// Whether an attempt that ended so has failed.
    pub open spec fn failed(self, end: AttemptEnd) -> bool {
        match end {
            AttemptEnd::Exited { exit_code, .. } => !self.success_exit_codes@.contains(
                exit_code.0,
            ),
            _ => true,
        }
    }

    /// Whether the policy grants retry number `retry` to an attempt that ended so.
    pub open spec fn permits(self, end: AttemptEnd, retry: nat) -> bool {
        match self.restart_policy {
            ExecutionRestartPolicy::Service(ServiceRestartPolicy::Never) => false,
            ExecutionRestartPolicy::Service(ServiceRestartPolicy::OnFailure(policy)) =>
                self.failed(end) && policy.limit.admits(retry),
            ExecutionRestartPolicy::Service(ServiceRestartPolicy::Always(policy)) =>
                policy.limit.admits(retry),
            ExecutionRestartPolicy::Job(JobRestartPolicy::Never) => false,
            ExecutionRestartPolicy::Job(JobRestartPolicy::OnFailure(policy)) => self.failed(end)
                && retry <= policy.max_restarts@,
        }
    }

    /// A service that ran long enough starts its row of retries afresh.
    pub open spec fn forgets_retries(self, end: AttemptEnd) -> bool {
        match (self.origin, end, self.restart_policy) {
            (
                ExecutionOrigin::ServiceIntent { .. },
                AttemptEnd::Exited { ran_for, .. },
                ExecutionRestartPolicy::Service(ServiceRestartPolicy::OnFailure(policy)),
            ) => ran_for@ >= policy.reset_after@,
            (
                ExecutionOrigin::ServiceIntent { .. },
                AttemptEnd::Exited { ran_for, .. },
                ExecutionRestartPolicy::Service(ServiceRestartPolicy::Always(policy)),
            ) => ran_for@ >= policy.reset_after@,
            _ => false,
        }
    }

    /// The state in another phase.
    pub open spec fn in_phase(self, phase: ExecutionPhase) -> ExecutionState {
        ExecutionState { phase, ..self }
    }

    /// The execution ends with `outcome`, which is published.
    pub open spec fn ends_with(self, outcome: ExecutionOutcome) -> (
        ExecutionState,
        Seq<ExecutionEffect>,
    ) {
        (
            self.in_phase(ExecutionPhase::Terminal { outcome }),
            seq![ExecutionEffect::PublishTerminal { outcome }],
        )
    }

    /// The outcome of an execution whose last attempt ended so.
    pub open spec fn outcome_of(self, attempt: AttemptNumber, end: AttemptEnd) -> ExecutionOutcome {
        if self.failed(end) {
            ExecutionOutcome::Failed { failure: ExecutionFailure::Attempt { attempt, end } }
        } else {
            ExecutionOutcome::Completed { exit_code: end->Exited_exit_code }
        }
    }

    /// The number of the retry that would follow an attempt that ended so.
    pub open spec fn retry_after(self, end: AttemptEnd) -> nat {
        match self.last_retry {
            Some(previous) if !self.forgets_retries(end) => previous@ + 1,
            _ => 1,
        }
    }

    /// An attempt has ended: the execution waits for its next attempt or is over.
    pub open spec fn after_attempt(
        self,
        attempt: AttemptNumber,
        end: AttemptEnd,
        at: BootInstant,
    ) -> ExecutionStep {
        let retry = self.retry_after(end);
        let over = ExecutionState {
            last_retry: if self.forgets_retries(end) {
                None
            } else {
                self.last_retry
            },
            ..self
        };
        if retry > u32::MAX {
            Err(ExecutionTransitionError::RetryOverflow)
        } else if !policy_fits(self.origin, self.restart_policy) {
            Err(ExecutionTransitionError::PolicyKindMismatch)
        } else if !self.permits(end, retry) {
            Ok(over.ends_with(self.outcome_of(attempt, end)))
        } else if attempt@ >= u32::MAX {
            Err(ExecutionTransitionError::AttemptOverflow)
        } else {
            let delay = policy_backoff(self.restart_policy)->0.delay_nanos(retry);
            match at.plus(delay) {
                None => Err(ExecutionTransitionError::DeadlineOverflow),
                Some(instant) => {
                    let retry_at = RetryDeadline(instant);
                    Ok(
                        (
                            ExecutionState {
                                last_retry: Some(RetryOrdinal::of(retry)),
                                phase: ExecutionPhase::RestartBackoff {
                                    previous_attempt: attempt,
                                    previous_end: end,
                                    next_attempt: AttemptNumber::of(attempt@ + 1),
                                    retry: RetryOrdinal::of(retry),
                                    retry_at,
                                },
                                ..self
                            },
                            seq![ExecutionEffect::ScheduleRestart { retry_at }],
                        ),
                    )
                },
            }
        }
    }

    /// A stop was asked for.
    pub open spec fn after_stop_request(
        self,
        cause: StopCause,
        plan: StopPlan,
        at: BootInstant,
    ) -> ExecutionStep {
        let deadline = at.plus(graceful_timeout(plan));
        if !cause_fits(self.origin, cause) {
            Err(ExecutionTransitionError::UnexpectedEvent)
        } else {
            match self.phase {
                ExecutionPhase::Launching { attempt } | ExecutionPhase::Running { attempt } => {
                    if plan is Kill {
                        Ok(
                            (
                                self.in_phase(
                                    ExecutionPhase::Stopping {
                                        attempt,
                                        phase: StopPhase::Killing,
                                        cause,
                                        plan,
                                    },
                                ),
                                seq![ExecutionEffect::TerminateJobObject],
                            ),
                        )
                    } else if deadline is None {
                        Err(ExecutionTransitionError::DeadlineOverflow)
                    } else {
                        let deadline = StopDeadline(deadline->0);
                        let schedule = ExecutionEffect::ScheduleStopDeadline { deadline };
                        if self.phase is Launching {
                            Ok(
                                (
                                    self.in_phase(
                                        ExecutionPhase::Stopping {
                                            attempt,
                                            phase: StopPhase::AwaitingLaunch { deadline },
                                            cause,
                                            plan,
                                        },
                                    ),
                                    seq![schedule],
                                ),
                            )
                        } else {
                            Ok(
                                (
                                    self.in_phase(
                                        ExecutionPhase::Stopping {
                                            attempt,
                                            phase: StopPhase::Graceful { deadline },
                                            cause,
                                            plan,
                                        },
                                    ),
                                    seq![graceful_effect(plan), schedule],
                                ),
                            )
                        }
                    }
                },
                ExecutionPhase::RestartBackoff { .. } => Ok(
                    self.ends_with(stop_outcome(cause, false)),
                ),
                _ => Ok((self, seq![])),
            }
        }
    }

    /// The policy or the success codes have changed: a retry that is no longer granted is
    /// given up.
    pub open spec fn reconsidered(self) -> ExecutionStep {
        match self.phase {
            ExecutionPhase::RestartBackoff { previous_attempt, previous_end, retry, .. } => {
                if !policy_fits(self.origin, self.restart_policy) {
                    Err(ExecutionTransitionError::PolicyKindMismatch)
                } else if self.permits(previous_end, retry@) {
                    Ok((self, seq![]))
                } else {
                    Ok(self.ends_with(self.outcome_of(previous_attempt, previous_end)))
                }
            },
            _ => Ok((self, seq![])),
        }
    }

    /// The table of the state machine.
    pub open spec fn step(self, event: ExecutionEvent) -> ExecutionStep {
        match (event, self.phase) {
            (
                ExecutionEvent::LaunchSucceeded { attempt, .. },
                ExecutionPhase::Launching { attempt: current },
            ) => if attempt != current {
                Err(ExecutionTransitionError::StaleAttempt)
            } else {
                Ok((self.in_phase(ExecutionPhase::Running { attempt }), seq![]))
            },
            (
                ExecutionEvent::LaunchSucceeded { attempt, .. },
                ExecutionPhase::Stopping { attempt: current, phase, cause, plan },
            ) => if attempt != current {
                Err(ExecutionTransitionError::StaleAttempt)
            } else if phase !is AwaitingLaunch || plan is Kill {
                Err(ExecutionTransitionError::UnexpectedEvent)
            } else {
                let deadline = phase->AwaitingLaunch_deadline;
                Ok(
                    (
                        self.in_phase(
                            ExecutionPhase::Stopping {
                                attempt,
                                phase: StopPhase::Graceful { deadline },
                                cause,
                                plan,
                            },
                        ),
                        seq![graceful_effect(plan)],
                    ),
                )
            },
            (
                ExecutionEvent::LaunchFailed { attempt, failure, at },
                ExecutionPhase::Launching { attempt: current },
            ) => if attempt != current {
                Err(ExecutionTransitionError::StaleAttempt)
            } else {
                self.after_attempt(attempt, AttemptEnd::LaunchFailed { failure }, at)
            },
            (
                ExecutionEvent::LaunchFailed { attempt, .. },
                ExecutionPhase::Stopping { attempt: current, cause, .. },
            ) => if attempt != current {
                Err(ExecutionTransitionError::StaleAttempt)
            } else {
                Ok(self.ends_with(stop_outcome(cause, false)))
            },
            (
                ExecutionEvent::ProcessExited { attempt, exit_code, ran_for, at },
                ExecutionPhase::Running { attempt: current },
            ) => if attempt != current {
                Err(ExecutionTransitionError::StaleAttempt)
            } else {
                self.after_attempt(attempt, AttemptEnd::Exited { exit_code, ran_for }, at)
            },
            (
                ExecutionEvent::ProcessExited { attempt, .. },
                ExecutionPhase::Stopping { attempt: current, phase, cause, .. },
            ) => if attempt != current {
                Err(ExecutionTransitionError::StaleAttempt)
            } else {
                Ok(self.ends_with(stop_outcome(cause, phase is Killing)))
            },
            (ExecutionEvent::StopRequested { cause, plan, at }, _) => self.after_stop_request(
                cause,
                plan,
                at,
            ),
            (
                ExecutionEvent::RestartDeadlineReached { deadline },
                ExecutionPhase::RestartBackoff { next_attempt, retry_at, .. },
            ) => if deadline != retry_at {
                Err(ExecutionTransitionError::StaleDeadline)
            } else {
                Ok(
                    (
                        self.in_phase(ExecutionPhase::Launching { attempt: next_attempt }),
                        seq![ExecutionEffect::LaunchAttempt { attempt: next_attempt }],
                    ),
                )
            },
            (
                ExecutionEvent::StopDeadlineReached { deadline },
                ExecutionPhase::Stopping { attempt, phase, cause, plan },
            ) => {
                let killing = self.in_phase(
                    ExecutionPhase::Stopping { attempt, phase: StopPhase::Killing, cause, plan },
                );
                match phase {
                    StopPhase::Killing => Ok((self, seq![])),
                    StopPhase::AwaitingLaunch { deadline: current } | StopPhase::Graceful {
                        deadline: current,
                    } => if deadline != current {
                        Err(ExecutionTransitionError::StaleDeadline)
                    } else {
                        Ok((killing, seq![ExecutionEffect::TerminateJobObject]))
                    },
                }
            },
            (ExecutionEvent::RestartPolicyChanged { policy }, _) => if !policy_fits(
                self.origin,
                policy,
            ) {
                Err(ExecutionTransitionError::PolicyKindMismatch)
            } else {
                ExecutionState { restart_policy: policy, ..self }.reconsidered()
            },
            (ExecutionEvent::SuccessExitCodesChanged { codes }, _) => ExecutionState {
                success_exit_codes: codes,
                ..self
            }.reconsidered(),
            (
                ExecutionEvent::SupervisorLost { at },
                ExecutionPhase::Launching { attempt } | ExecutionPhase::Running { attempt },
            ) => if self.origin is Job {
                Ok(
                    self.ends_with(
                        ExecutionOutcome::OutcomeUnknown {
                            failure: InfrastructureFailure::SupervisorLost { attempt },
                        },
                    ),
                )
            } else {
                self.after_attempt(attempt, AttemptEnd::SupervisorLost, at)
            },
            (
                ExecutionEvent::SupervisorLost { .. },
                ExecutionPhase::Stopping { cause, .. },
            ) => Ok(self.ends_with(stop_outcome(cause, true))),
            (ExecutionEvent::SupervisorLost { .. }, ExecutionPhase::Terminal { .. }) => Ok(
                (self, seq![]),
            ),
            _ => Err(ExecutionTransitionError::UnexpectedEvent),
        }
    }

    /// Feeds one event to the execution.
    pub fn transition(self, event: ExecutionEvent) -> (result: Result<
        Transition<ExecutionState, ExecutionEffect>,
        ExecutionTransitionError,
    >)
        ensures
            agrees(result, self.step(event)),
    {
        match event {
            ExecutionEvent::LaunchSucceeded { attempt, at } => self.launch_succeeded(attempt, at),
            ExecutionEvent::LaunchFailed { attempt, failure, at } => self.launch_failed(
                attempt,
                failure,
                at,
            ),
            ExecutionEvent::ProcessExited { attempt, exit_code, ran_for, at } =>
                self.process_exited(attempt, exit_code, ran_for, at),
            ExecutionEvent::StopRequested { cause, plan, at } => self.stop_requested(
                cause,
                plan,
                at,
            ),
            ExecutionEvent::RestartDeadlineReached { deadline } => self.restart_deadline_reached(
                deadline,
            ),
            ExecutionEvent::StopDeadlineReached { deadline } => self.stop_deadline_reached(
                deadline,
            ),
            ExecutionEvent::RestartPolicyChanged { policy } => self.restart_policy_changed(policy),
            ExecutionEvent::SuccessExitCodesChanged { codes } => self.success_exit_codes_changed(
                codes,
            ),
            ExecutionEvent::SupervisorLost { at } => self.supervisor_lost(at),
        }
    }

    fn launch_succeeded(self, attempt: AttemptNumber, at: BootInstant) -> (result: Result<
        Transition<ExecutionState, ExecutionEffect>,
        ExecutionTransitionError,
    >)
        ensures
            agrees(result, self.step(ExecutionEvent::LaunchSucceeded { attempt, at })),
    {
        let mut state: ExecutionState = self;
        match state.phase {
            ExecutionPhase::Launching { attempt: current } => {
                if current != attempt {
                    return Err(ExecutionTransitionError::StaleAttempt);
                }
                state.phase = ExecutionPhase::Running { attempt };
                Ok(Transition::without_effects(state))
            },
            ExecutionPhase::Stopping { attempt: current, phase, cause, plan } => {
                if current != attempt {
                    return Err(ExecutionTransitionError::StaleAttempt);
                }
                let deadline: StopDeadline = match phase {
                    StopPhase::AwaitingLaunch { deadline } => deadline,
                    _ => {
                        return Err(ExecutionTransitionError::UnexpectedEvent);
                    },
                };
                let effect: ExecutionEffect = match plan {
                    StopPlan::CtrlBreak { .. } => ExecutionEffect::SendCtrlBreak,
                    StopPlan::Command { .. } => ExecutionEffect::RunStopCommand,
                    StopPlan::Kill => {
                        return Err(ExecutionTransitionError::UnexpectedEvent);
                    },
                };
                state.phase = ExecutionPhase::Stopping {
                    attempt,
                    phase: StopPhase::Graceful { deadline },
                    cause,
                    plan,
                };
                Ok(Transition::with_effect(state, effect))
            },
            _ => Err(ExecutionTransitionError::UnexpectedEvent),
        }
    }

    fn launch_failed(self, attempt: AttemptNumber, failure: LaunchFailure, at: BootInstant) -> (
    result: Result<Transition<ExecutionState, ExecutionEffect>, ExecutionTransitionError>)
        ensures
            agrees(result, self.step(ExecutionEvent::LaunchFailed { attempt, failure, at })),
    {
        match self.phase {
            ExecutionPhase::Launching { attempt: current } => {
                if current != attempt {
                    return Err(ExecutionTransitionError::StaleAttempt);
                }
                self.finish_attempt(attempt, AttemptEnd::LaunchFailed { failure }, at)
            },
            ExecutionPhase::Stopping { attempt: current, cause, .. } => {
                if current != attempt {
                    return Err(ExecutionTransitionError::StaleAttempt);
                }
                Ok(self.finish_stop(cause, false))
            },
            _ => Err(ExecutionTransitionError::UnexpectedEvent),
        }
    }

    fn process_exited(
        self,
        attempt: AttemptNumber,
        exit_code: ExitCode,
        ran_for: Duration,
        at: BootInstant,
    ) -> (result: Result<Transition<ExecutionState, ExecutionEffect>, ExecutionTransitionError>)
        ensures
            agrees(
                result,
                self.step(ExecutionEvent::ProcessExited { attempt, exit_code, ran_for, at }),
            ),
    {
        match self.phase {
            ExecutionPhase::Running { attempt: current } => {
                if current != attempt {
                    return Err(ExecutionTransitionError::StaleAttempt);
                }
                self.finish_attempt(attempt, AttemptEnd::Exited { exit_code, ran_for }, at)
            },
            ExecutionPhase::Stopping { attempt: current, phase, cause, .. } => {
                if current != attempt {
                    return Err(ExecutionTransitionError::StaleAttempt);
                }
                let forced: bool = match phase {
                    StopPhase::Killing => true,
                    _ => false,
                };
                Ok(self.finish_stop(cause, forced))
            },
            _ => Err(ExecutionTransitionError::UnexpectedEvent),
        }
    }

    fn stop_requested(self, cause: StopCause, plan: StopPlan, at: BootInstant) -> (
    result: Result<Transition<ExecutionState, ExecutionEffect>, ExecutionTransitionError>)
        ensures
            agrees(result, self.step(ExecutionEvent::StopRequested { cause, plan, at })),
    {
        let mut state: ExecutionState = self;
        state.validate_stop_cause(cause)?;
        let (attempt, launched): (AttemptNumber, bool) = match state.phase {
            ExecutionPhase::Launching { attempt } => (attempt, false),
            ExecutionPhase::Running { attempt } => (attempt, true),
            ExecutionPhase::RestartBackoff { .. } => {
                return Ok(state.finish_stop(cause, false));
            },
            ExecutionPhase::Stopping { .. } | ExecutionPhase::Terminal { .. } => {
                return Ok(Transition::without_effects(state));
            },
        };
        let (timeout, ask): (Duration, ExecutionEffect) = match plan {
            StopPlan::Kill => {
                state.phase = ExecutionPhase::Stopping {
                    attempt,
                    phase: StopPhase::Killing,
                    cause,
                    plan,
                };
                return Ok(Transition::with_effect(state, ExecutionEffect::TerminateJobObject));
            },
            StopPlan::CtrlBreak { timeout } => (timeout, ExecutionEffect::SendCtrlBreak),
            StopPlan::Command { timeout } => (timeout, ExecutionEffect::RunStopCommand),
        };
        let deadline: StopDeadline = state.stop_deadline(at, timeout)?;
        let schedule: ExecutionEffect = ExecutionEffect::ScheduleStopDeadline { deadline };
        if launched {
            state.phase = ExecutionPhase::Stopping {
                attempt,
                phase: StopPhase::Graceful { deadline },
                cause,
                plan,
            };
            let mut effects: Vec<ExecutionEffect> = Vec::new();
            effects.push(ask);
            effects.push(schedule);
            assert(effects@ =~= seq![ask, schedule]);
            Ok(Transition::new(state, effects))
        } else {
            state.phase = ExecutionPhase::Stopping {
                attempt,
                phase: StopPhase::AwaitingLaunch { deadline },
                cause,
                plan,
            };
            Ok(Transition::with_effect(state, schedule))
        }
    }

    fn restart_deadline_reached(self, deadline: RetryDeadline) -> (result: Result<
        Transition<ExecutionState, ExecutionEffect>,
        ExecutionTransitionError,
    >)
        ensures
            agrees(result, self.step(ExecutionEvent::RestartDeadlineReached { deadline })),
    {
        let mut state: ExecutionState = self;
        match state.phase {
            ExecutionPhase::RestartBackoff { next_attempt, retry_at, .. } => {
                if retry_at != deadline {
                    return Err(ExecutionTransitionError::StaleDeadline);
                }
                state.phase = ExecutionPhase::Launching { attempt: next_attempt };
                Ok(
                    Transition::with_effect(
                        state,
                        ExecutionEffect::LaunchAttempt { attempt: next_attempt },
                    ),
                )
            },
            _ => Err(ExecutionTransitionError::UnexpectedEvent),
        }
    }

    fn stop_deadline_reached(self, deadline: StopDeadline) -> (result: Result<
        Transition<ExecutionState, ExecutionEffect>,
        ExecutionTransitionError,
    >)
        ensures
            agrees(result, self.step(ExecutionEvent::StopDeadlineReached { deadline })),
    {
        let mut state: ExecutionState = self;
        match state.phase {
            ExecutionPhase::Stopping { attempt, phase, cause, plan } => {
                let current: StopDeadline = match phase {
                    StopPhase::AwaitingLaunch { deadline } => deadline,
                    StopPhase::Graceful { deadline } => deadline,
                    StopPhase::Killing => {
                        return Ok(Transition::without_effects(state));
                    },
                };
                if current != deadline {
                    return Err(ExecutionTransitionError::StaleDeadline);
                }
                state.phase = ExecutionPhase::Stopping {
                    attempt,
                    phase: StopPhase::Killing,
                    cause,
                    plan,
                };
                Ok(Transition::with_effect(state, ExecutionEffect::TerminateJobObject))
            },
            _ => Err(ExecutionTransitionError::UnexpectedEvent),
        }
    }

    fn restart_policy_changed(self, policy: ExecutionRestartPolicy) -> (result: Result<
        Transition<ExecutionState, ExecutionEffect>,
        ExecutionTransitionError,
    >)
        ensures
            agrees(result, self.step(ExecutionEvent::RestartPolicyChanged { policy })),
    {
        let mut state: ExecutionState = self;
        state.validate_policy_kind(policy)?;
        state.restart_policy = policy;
        state.reconsider_backoff()
    }

    fn success_exit_codes_changed(self, codes: BTreeSet<u32>) -> (result: Result<
        Transition<ExecutionState, ExecutionEffect>,
        ExecutionTransitionError,
    >)
        ensures
            agrees(result, self.step(ExecutionEvent::SuccessExitCodesChanged { codes })),
    {
        let mut state: ExecutionState = self;
        state.success_exit_codes = codes;
        state.reconsider_backoff()
    }

    fn reconsider_backoff(self) -> (result: Result<
        Transition<ExecutionState, ExecutionEffect>,
        ExecutionTransitionError,
    >)
        ensures
            agrees(result, self.reconsidered()),
    {
        match self.phase {
            ExecutionPhase::RestartBackoff { previous_attempt, previous_end, retry, .. } => {
                if self.policy_permits(previous_end, retry)? {
                    Ok(Transition::without_effects(self))
                } else {
                    Ok(self.finish_terminal(previous_attempt, previous_end))
                }
            },
            _ => Ok(Transition::without_effects(self)),
        }
    }

    fn supervisor_lost(self, at: BootInstant) -> (result: Result<
        Transition<ExecutionState, ExecutionEffect>,
        ExecutionTransitionError,
    >)
        ensures
            agrees(result, self.step(ExecutionEvent::SupervisorLost { at })),
    {
        match self.phase {
            ExecutionPhase::Launching { attempt } | ExecutionPhase::Running { attempt } => {
                match self.origin {
                    ExecutionOrigin::Job(_) => Ok(
                        self.terminal(
                            ExecutionOutcome::OutcomeUnknown {
                                failure: InfrastructureFailure::SupervisorLost { attempt },
                            },
                        ),
                    ),
                    ExecutionOrigin::ServiceIntent { .. } => self.finish_attempt(
                        attempt,
                        AttemptEnd::SupervisorLost,
                        at,
                    ),
                }
            },
            ExecutionPhase::Stopping { cause, .. } => Ok(self.finish_stop(cause, true)),
            ExecutionPhase::RestartBackoff { .. } => Err(
                ExecutionTransitionError::UnexpectedEvent,
            ),
            ExecutionPhase::Terminal { .. } => Ok(Transition::without_effects(self)),
        }
    }

    fn finish_attempt(self, attempt: AttemptNumber, end: AttemptEnd, at: BootInstant) -> (
    result: Result<Transition<ExecutionState, ExecutionEffect>, ExecutionTransitionError>)
        ensures
            agrees(result, self.after_attempt(attempt, end, at)),
    {
        let mut state: ExecutionState = self;
        if state.ran_past_reset(end) {
            state.last_retry = None;
        }
        let retry: RetryOrdinal = match state.last_retry {
            Some(previous) => match previous.next() {
                Some(next) => next,
                None => {
                    return Err(ExecutionTransitionError::RetryOverflow);
                },
            },
            None => RetryOrdinal::first(),
        };
        proof {
            NonZeroU32::lemma_view_of(self.retry_after(end));
        }
        assert(retry@ == self.retry_after(end));
        if !state.policy_permits(end, retry)? {
            return Ok(state.finish_terminal(attempt, end));
        }
        let next_attempt: AttemptNumber = match attempt.next() {
            Some(next) => next,
            None => {
                return Err(ExecutionTransitionError::AttemptOverflow);
            },
        };
        let delay: Duration = state.backoff()?.delay_for(retry);
        let retry_at: RetryDeadline = match at.checked_add(delay) {
            Some(instant) => RetryDeadline::at(instant),
            None => {
                return Err(ExecutionTransitionError::DeadlineOverflow);
            },
        };
        state.last_retry = Some(retry);
        state.phase = ExecutionPhase::RestartBackoff {
            previous_attempt: attempt,
            previous_end: end,
            next_attempt,
            retry,
            retry_at,
        };
        Ok(Transition::with_effect(state, ExecutionEffect::ScheduleRestart { retry_at }))
    }

    fn ran_past_reset(&self, end: AttemptEnd) -> (past: bool)
        ensures
            past == self.forgets_retries(end),
    {
        match (self.origin, end, self.restart_policy) {
            (
                ExecutionOrigin::ServiceIntent { .. },
                AttemptEnd::Exited { ran_for, .. },
                ExecutionRestartPolicy::Service(
                    ServiceRestartPolicy::OnFailure(policy) | ServiceRestartPolicy::Always(policy),
                ),
            ) => ran_for.as_nanos() >= policy.reset_after().get().as_nanos(),
            _ => false,
        }
    }

    fn policy_permits(&self, end: AttemptEnd, retry: RetryOrdinal) -> (result: Result<
        bool,
        ExecutionTransitionError,
    >)
        ensures
            result == if policy_fits(self.origin, self.restart_policy) {
                Ok(self.permits(end, retry@))
            } else {
                Err(ExecutionTransitionError::PolicyKindMismatch)
            },
    {
        let failed: bool = match end {
            AttemptEnd::Exited { exit_code, .. } => !self.success_exit_codes.contains(
                &exit_code.0,
            ),
            AttemptEnd::LaunchFailed { .. } | AttemptEnd::Killed | AttemptEnd::SupervisorLost => {
                true
            },
        };
        match (self.origin, self.restart_policy) {
            (ExecutionOrigin::ServiceIntent { .. }, ExecutionRestartPolicy::Service(policy)) => {
                let limit: ServiceRetryLimit = match policy {
                    ServiceRestartPolicy::Never => {
                        return Ok(false);
                    },
                    ServiceRestartPolicy::OnFailure(policy) => {
                        if !failed {
                            return Ok(false);
                        }
                        policy.limit()
                    },
                    ServiceRestartPolicy::Always(policy) => policy.limit(),
                };
                match limit {
                    ServiceRetryLimit::Finite(maximum) => Ok(retry.get() <= maximum.get()),
                    ServiceRetryLimit::Unlimited => Ok(true),
                }
            },
            (ExecutionOrigin::Job(_), ExecutionRestartPolicy::Job(policy)) => match policy {
                JobRestartPolicy::Never => Ok(false),
                JobRestartPolicy::OnFailure(policy) => Ok(
                    failed && retry.get() <= policy.max_restarts().get(),
                ),
            },
            _ => Err(ExecutionTransitionError::PolicyKindMismatch),
        }
    }

    fn backoff(&self) -> (result: Result<BackoffPolicy, ExecutionTransitionError>)
        ensures
            result == if policy_fits(self.origin, self.restart_policy) && policy_backoff(
                self.restart_policy,
            ) is Some {
                Ok(policy_backoff(self.restart_policy)->0)
            } else {
                Err(ExecutionTransitionError::PolicyKindMismatch)
            },
    {
        match (self.origin, self.restart_policy) {
            (
                ExecutionOrigin::ServiceIntent { .. },
                ExecutionRestartPolicy::Service(
                    ServiceRestartPolicy::OnFailure(policy) | ServiceRestartPolicy::Always(policy),
                ),
            ) => Ok(policy.backoff()),
            (
                ExecutionOrigin::Job(_),
                ExecutionRestartPolicy::Job(JobRestartPolicy::OnFailure(policy)),
            ) => Ok(policy.backoff()),
            _ => Err(ExecutionTransitionError::PolicyKindMismatch),
        }
    }

    fn validate_policy_kind(&self, policy: ExecutionRestartPolicy) -> (result: Result<
        (),
        ExecutionTransitionError,
    >)
        ensures
            result == if policy_fits(self.origin, policy) {
                Ok(())
            } else {
                Err(ExecutionTransitionError::PolicyKindMismatch)
            },
    {
        match (self.origin, policy) {
            (ExecutionOrigin::ServiceIntent { .. }, ExecutionRestartPolicy::Service(_)) => Ok(()),
            (ExecutionOrigin::Job(_), ExecutionRestartPolicy::Job(_)) => Ok(()),
            _ => Err(ExecutionTransitionError::PolicyKindMismatch),
        }
    }

    fn validate_stop_cause(&self, cause: StopCause) -> (result: Result<
        (),
        ExecutionTransitionError,
    >)
        ensures
            result == if cause_fits(self.origin, cause) {
                Ok(())
            } else {
                Err(ExecutionTransitionError::UnexpectedEvent)
            },
    {
        match (self.origin, cause) {
            (ExecutionOrigin::ServiceIntent { .. }, StopCause::Service(_)) => Ok(()),
            (ExecutionOrigin::Job(_), StopCause::Job(_)) => Ok(()),
            _ => Err(ExecutionTransitionError::UnexpectedEvent),
        }
    }

    fn stop_deadline(&self, at: BootInstant, timeout: Duration) -> (result: Result<
        StopDeadline,
        ExecutionTransitionError,
    >)
        ensures
            result == match at.plus(timeout@) {
                Some(instant) => Ok(StopDeadline(instant)),
                None => Err(ExecutionTransitionError::DeadlineOverflow),
            },
    {
        match at.checked_add(timeout) {
            Some(instant) => Ok(StopDeadline::at(instant)),
            None => Err(ExecutionTransitionError::DeadlineOverflow),
        }
    }

    fn finish_terminal(self, attempt: AttemptNumber, end: AttemptEnd) -> (transition: Transition<
        ExecutionState,
        ExecutionEffect,
    >)
        ensures
            transition@ == self.ends_with(self.outcome_of(attempt, end)),
    {
        let outcome: ExecutionOutcome = match end {
            AttemptEnd::Exited { exit_code, .. } => {
                if self.success_exit_codes.contains(&exit_code.0) {
                    ExecutionOutcome::Completed { exit_code }
                } else {
                    ExecutionOutcome::Failed { failure: ExecutionFailure::Attempt { attempt, end } }
                }
            },
            _ => ExecutionOutcome::Failed { failure: ExecutionFailure::Attempt { attempt, end } },
        };
        self.terminal(outcome)
    }

    fn finish_stop(self, cause: StopCause, forced: bool) -> (transition: Transition<
        ExecutionState,
        ExecutionEffect,
    >)
        ensures
            transition@ == self.ends_with(stop_outcome(cause, forced)),
    {
        let outcome: ExecutionOutcome = match cause {
            StopCause::Service(cause) => ExecutionOutcome::Stopped { cause, forced },
            StopCause::Job(cause) => ExecutionOutcome::Cancelled { cause, forced },
        };
        self.terminal(outcome)
    }

    fn terminal(self, outcome: ExecutionOutcome) -> (transition: Transition<
        ExecutionState,
        ExecutionEffect,
    >)
        ensures
            transition@ == self.ends_with(outcome),
    {
        let mut state: ExecutionState = self;
        state.phase = ExecutionPhase::Terminal { outcome };
        Transition::with_effect(state, ExecutionEffect::PublishTerminal { outcome })
    }
}

/// The attempt that a phase is about, where it is about one.
pub open spec fn phase_attempt(phase: ExecutionPhase) -> Option<nat> {
    match phase {
        ExecutionPhase::Launching { attempt } => Some(attempt@),
        ExecutionPhase::Running { attempt } => Some(attempt@),
        ExecutionPhase::RestartBackoff { previous_attempt, .. } => Some(previous_attempt@),
        ExecutionPhase::Stopping { attempt, .. } => Some(attempt@),
        ExecutionPhase::Terminal { .. } => None,
    }
}

impl ExecutionState {
    /// What holds of every execution from its first attempt on: the policy and a recorded
    /// cause are of its kind, the attempt to come follows the one before, a granted retry
    /// lies within the policy, and a plan to kill is never left waiting.
    pub open spec fn well_formed(self) -> bool {
        &&& policy_fits(self.origin, self.restart_policy)
        &&& match self.phase {
            ExecutionPhase::RestartBackoff {
                previous_attempt,
                previous_end,
                next_attempt,
                retry,
                ..
            } => {
                &&& next_attempt@ == previous_attempt@ + 1
                &&& self.last_retry == Some(retry)
                &&& self.permits(previous_end, retry@)
            },
            ExecutionPhase::Stopping { phase, cause, plan, .. } => {
                &&& cause_fits(self.origin, cause)
                &&& plan is Kill ==> phase is Killing
            },
            _ => true,
        }
    }
}

/// Every event that is taken keeps a well-formed execution well-formed, and never changes
/// which execution it is.
pub proof fn law_transitions_keep_executions_well_formed(
    state: ExecutionState,
    event: ExecutionEvent,
)
    requires
        state.well_formed(),
        state.step(event) is Ok,
    ensures
        state.step(event)->Ok_0.0.well_formed(),
        ({
            let next = state.step(event)->Ok_0.0;
            &&& next.id == state.id
            &&& next.workload_id == state.workload_id
            &&& next.origin == state.origin
            &&& next.source_definition == state.source_definition
            &&& next.execution_config == state.execution_config
        }),
{
    broadcast use NonZeroU32::lemma_view_of;

}

/// A finished execution stays as it ended: whatever event is taken, its outcome remains and
/// nothing more is asked for.
pub proof fn law_terminal_is_final(state: ExecutionState, event: ExecutionEvent)
    requires
        state.phase is Terminal,
        state.step(event) is Ok,
    ensures
        state.step(event)->Ok_0.0.phase == state.phase,
        state.step(event)->Ok_0.1 == Seq::<ExecutionEffect>::empty(),
{
}

/// The outcome is published exactly when the execution ends, once, and as it ended.
pub proof fn law_outcome_is_published_once(state: ExecutionState, event: ExecutionEvent)
    requires
        state.step(event) is Ok,
    ensures
        ({
            let (next, effects) = state.step(event)->Ok_0;
            let ended = state.phase !is Terminal && next.phase is Terminal;
            &&& ended ==> effects == seq![
                ExecutionEffect::PublishTerminal { outcome: next.phase->outcome },
            ]
            &&& !ended ==> forall|i: int|
                0 <= i < effects.len() ==> !((#[trigger] effects[i]) is PublishTerminal)
        }),
{
}

/// Once a stop is under way no further attempt is made: the execution keeps stopping for
/// the same cause until it ends, and it ends as stopped or cancelled for that cause.
pub proof fn law_stopping_leads_to_the_stop(state: ExecutionState, event: ExecutionEvent)
    requires
        state.phase is Stopping,
        state.step(event) is Ok,
    ensures
        match state.step(event)->Ok_0.0.phase {
            ExecutionPhase::Stopping { attempt, cause, plan, .. } => {
                &&& attempt == state.phase->Stopping_attempt
                &&& cause == state.phase->Stopping_cause
                &&& plan == state.phase->Stopping_plan
            },
            ExecutionPhase::Terminal { outcome } => exists|forced: bool|
                outcome == #[trigger] stop_outcome(state.phase->Stopping_cause, forced),
            _ => false,
        },
        forall|i: int|
            0 <= i < state.step(event)->Ok_0.1.len() ==> !((#[trigger] state.step(
                event,
            )->Ok_0.1[i]) is LaunchAttempt),
{
    let cause = state.phase->Stopping_cause;
    assert(stop_outcome(cause, true) == stop_outcome(cause, true));
    assert(stop_outcome(cause, false) == stop_outcome(cause, false));
}

/// Attempts are numbered in a row: a phase is about the attempt that the phase before it was
/// about, except that the attempt launched after a backoff is the next one.
pub proof fn law_attempts_are_numbered_in_a_row(state: ExecutionState, event: ExecutionEvent)
    requires
        state.well_formed(),
        state.step(event) is Ok,
        state.step(event)->Ok_0.0.phase !is Terminal,
    ensures
        ({
            let (next, effects) = state.step(event)->Ok_0;
            let before = phase_attempt(state.phase)->0;
            let after = phase_attempt(next.phase)->0;
            let launches = state.phase is RestartBackoff && next.phase is Launching;
            &&& after == if launches {
                before + 1
            } else {
                before
            }
            &&& forall|i: int|
                0 <= i < effects.len() ==> ((#[trigger] effects[i]) matches
                    ExecutionEffect::LaunchAttempt { attempt } ==> launches && attempt@ == after)
        }),
{
}

/// An attempt that follows another is granted by the policy in force when the one before it
/// ended: the retry is the one after the last, and the policy permits it.
pub proof fn law_retries_stay_within_the_policy(
    state: ExecutionState,
    attempt: AttemptNumber,
    end: AttemptEnd,
    at: BootInstant,
)
    requires
        state.after_attempt(attempt, end, at) matches Ok(step) && step.0.phase is RestartBackoff,
    ensures
        ({
            let next = state.after_attempt(attempt, end, at)->Ok_0.0;
            let retry = next.phase->retry@;
            &&& retry == state.retry_after(end)
            &&& state.permits(end, retry)
            &&& next.phase->retry_at.0@ >= at@
        }),
{
    broadcast use NonZeroU32::lemma_view_of;

}

/// A job whose supervisor is lost while it may be running is never started again: its outcome
/// is unknown.
pub proof fn law_lost_jobs_are_not_rerun(state: ExecutionState, at: BootInstant)
    requires
        state.origin is Job,
        state.phase is Launching || state.phase is Running,
    ensures
        state.step(ExecutionEvent::SupervisorLost { at }) matches Ok(step) && step.0.phase matches
            ExecutionPhase::Terminal { outcome } && outcome is OutcomeUnknown,
{
}

/// Asking twice for a stop asks for nothing the second time.
pub proof fn law_stop_requests_repeat_without_effect(
    state: ExecutionState,
    cause: StopCause,
    plan: StopPlan,
    at: BootInstant,
    again: StopCause,
    other_plan: StopPlan,
    later: BootInstant,
)
    requires
        state.step(ExecutionEvent::StopRequested { cause, plan, at }) is Ok,
        cause_fits(state.origin, again),
    ensures
        ({
            let stopped = state.step(ExecutionEvent::StopRequested { cause, plan, at })->Ok_0.0;
            stopped.step(
                ExecutionEvent::StopRequested { cause: again, plan: other_plan, at: later },
            ) == Ok::<(ExecutionState, Seq<ExecutionEffect>), ExecutionTransitionError>(
                (stopped, Seq::<ExecutionEffect>::empty()),
            )
        }),
{
}

} // verus!
