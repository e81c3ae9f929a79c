//! What happens to an execution, to a service, to a job and to a supervisor.

use vstd::prelude::*;

use crate::controller::{
    AfterActive, JobActivity, JobActivityEffect, JobActivityEvent, JobState, RerunDisposition,
    RunningPhase, ServiceCommand, ServiceControl, ServiceControlEffect, ServiceControlEvent,
    ServiceState, StoppedPhase,
};
use crate::execution::{
    AttemptEnd, ExecutionEffect, ExecutionEvent, ExecutionFailure, ExecutionOutcome, ExecutionPhase,
    ExecutionState, ExecutionTransitionError, ExitCode, InfrastructureFailure, JobCancelCause,
    JobExecutionOrigin, ServiceStopCause, StopCause, StopPhase, StopPlan,
};
use crate::ids::{AttemptNumber, ExecutionId, IntentRevision, ObservationSequence};
use crate::num::NonZeroU32;
use crate::restart::{
    ExecutionRestartPolicy, JobRestartPolicy, ServiceRestartPolicy, ServiceRetryLimit,
};
use crate::supervisor_binding::{
    SupervisorBinding, SupervisorBindingEffect, SupervisorBindingEvent, SupervisorLaunchPolicy,
    SupervisorProcessIdentity,
};
use crate::time::{BootInstant, Duration, RetryDeadline, StopDeadline, ticks_covering};

verus! {

/// An attempt has failed unless it exited with one of the codes that count as success.
pub proof fn law_attempts_fail_unless_they_succeed(state: ExecutionState, end: AttemptEnd)
    ensures
        state.failed(end) <==> !(end matches AttemptEnd::Exited { exit_code, .. }
            && state.success_exit_codes@.contains(exit_code.0)),
{
}

/// When the policy grants a retry: never where it says so; after every end, or only after failures,
/// as it says; and only up to the number that it grants, which for a service may have no end.
pub proof fn law_retries_are_granted(state: ExecutionState, end: AttemptEnd, retry: nat)
    ensures
        ({
            let granted = state.permits(end, retry);
            let success = end matches AttemptEnd::Exited { exit_code, .. }
                && state.success_exit_codes@.contains(exit_code.0);
            &&& state.restart_policy matches ExecutionRestartPolicy::Service(policy) ==> {
                &&& policy is Never ==> !granted
                &&& policy matches ServiceRestartPolicy::Always(p) ==> (granted <==> (p.limit
                    matches ServiceRetryLimit::Finite(most) ==> retry <= most@))
                &&& policy matches ServiceRestartPolicy::OnFailure(p) ==> (granted <==> !success && (
                p.limit matches ServiceRetryLimit::Finite(most) ==> retry <= most@))
            }
            &&& state.restart_policy matches ExecutionRestartPolicy::Job(policy) ==> {
                &&& policy is Never ==> !granted
                &&& policy matches JobRestartPolicy::OnFailure(p) ==> (granted <==> !success && retry
                    <= p.max_restarts@)
            }
        }),
{
}

/// A row of retries begins afresh exactly where a service exited after it ran for the span that its
/// policy sets; otherwise the next retry is the one after the last.
pub proof fn law_retries_are_counted_in_a_row(state: ExecutionState, end: AttemptEnd)
    ensures
        ({
            let span = match state.restart_policy {
                ExecutionRestartPolicy::Service(ServiceRestartPolicy::OnFailure(p)) => Some(
                    p.reset_after@,
                ),
                ExecutionRestartPolicy::Service(ServiceRestartPolicy::Always(p)) => Some(
                    p.reset_after@,
                ),
                _ => None,
            };
            let steady = state.origin is ServiceIntent && (end matches AttemptEnd::Exited {
                ran_for,
                ..
            } && (span matches Some(least) && ran_for@ >= least));
            &&& state.forgets_retries(end) <==> steady
            &&& steady || state.last_retry is None ==> state.retry_after(end) == 1
            &&& !steady ==> (state.last_retry matches Some(last) ==> state.retry_after(end) == last@
                + 1)
        }),
{
}

/// How an execution goes on after an attempt: where a retry is granted it waits for the next one, for
/// as long as its policy says; otherwise it is over, as completed exactly where the attempt succeeded.
pub proof fn law_executions_go_on_or_end(
    state: ExecutionState,
    attempt: AttemptNumber,
    end: AttemptEnd,
    at: BootInstant,
)
    requires
        state.well_formed(),
        state.retry_after(end) <= u32::MAX,
        attempt@ < u32::MAX,
    ensures
        ({
            let retry = state.retry_after(end);
            let granted = state.permits(end, retry);
            let result = state.after_attempt(attempt, end, at);
            let success = end matches AttemptEnd::Exited { exit_code, .. }
                && state.success_exit_codes@.contains(exit_code.0);
            &&& !granted ==> (result matches Ok((next, effects)) && (next.phase
                matches ExecutionPhase::Terminal { outcome } && effects == seq![
                ExecutionEffect::PublishTerminal { outcome },
            ] && (outcome is Completed <==> success) && (outcome is Failed <==> !success) && (outcome
                matches ExecutionOutcome::Completed { exit_code } ==> end->Exited_exit_code
                == exit_code) && (outcome matches ExecutionOutcome::Failed { failure } ==> failure
                == (ExecutionFailure::Attempt { attempt, end }))))
            &&& granted && result is Ok ==> (result->Ok_0.0.phase
                matches ExecutionPhase::RestartBackoff {
                previous_attempt,
                previous_end,
                next_attempt,
                retry: number,
                retry_at,
            } && previous_attempt == attempt && previous_end == end && next_attempt@ == attempt@ + 1
                && number@ == retry && result->Ok_0.1 == seq![
                ExecutionEffect::ScheduleRestart { retry_at },
            ] && result->Ok_0.0.last_retry == Some(number))
            &&& granted ==> (result is Ok || result->Err_0
                == ExecutionTransitionError::DeadlineOverflow)
        }),
{
    broadcast use NonZeroU32::lemma_view_of;

}

/// An attempt that was launched runs; one that could not be, or whose process exited, is over. All of
/// them are only heard of while it is their attempt.
pub proof fn law_attempts_are_followed(
    state: ExecutionState,
    attempt: AttemptNumber,
    exit_code: ExitCode,
    ran_for: Duration,
    at: BootInstant,
)
    ensures
        state.phase matches ExecutionPhase::Launching { attempt: current } ==> {
            let result = state.step(ExecutionEvent::LaunchSucceeded { attempt, at });
            &&& attempt == current ==> (result matches Ok((next, effects)) && next == state.in_phase(
                ExecutionPhase::Running { attempt },
            ) && effects.len() == 0)
            &&& attempt != current ==> result is Err
        },
        state.phase matches ExecutionPhase::Running { attempt: current } ==> {
            let result = state.step(
                ExecutionEvent::ProcessExited { attempt, exit_code, ran_for, at },
            );
            &&& attempt == current ==> result == state.after_attempt(
                attempt,
                AttemptEnd::Exited { exit_code, ran_for },
                at,
            )
            &&& attempt != current ==> result is Err
        },
        state.phase is RestartBackoff || state.phase is Terminal || state.phase is Launching
            ==> state.step(
            ExecutionEvent::ProcessExited { attempt, exit_code, ran_for, at },
        ) is Err,
{
}

/// Whether an execution is given this long to stop, from an instant on.
pub open spec fn ends_within(state: ExecutionState, at: BootInstant, span: nat) -> bool {
    match state.phase {
        ExecutionPhase::Stopping { phase: StopPhase::Graceful { deadline }, .. }
        | ExecutionPhase::Stopping { phase: StopPhase::AwaitingLaunch { deadline }, .. } => at.plus(
            span,
        ) == Some(deadline.0),
        _ => false,
    }
}

/// A stop of an execution that launches or runs begins as its plan says: a break or a command and a
/// deadline, or at once by force; one that still launches is told once it runs. One that waits for
/// its next attempt is over at once, unforced.
pub proof fn law_stops_begin_as_planned(
    state: ExecutionState,
    cause: StopCause,
    plan: StopPlan,
    at: BootInstant,
)
    requires
        (state.origin is ServiceIntent) <==> (cause is Service),
    ensures
        ({
            let result = state.step(ExecutionEvent::StopRequested { cause, plan, at });
            let up = state.phase is Launching || state.phase is Running;
            &&& up && plan is Kill ==> (result matches Ok((next, effects)) && (next.phase
                matches ExecutionPhase::Stopping { phase: StopPhase::Killing, cause: kept, .. } && kept
                == cause) && effects == seq![ExecutionEffect::TerminateJobObject])
            &&& state.phase is Running && plan !is Kill && result is Ok ==> (result->Ok_0.0.phase
                matches ExecutionPhase::Stopping {
                phase: StopPhase::Graceful { deadline },
                cause: kept,
                plan: same,
                ..
            } && kept == cause && same == plan && result->Ok_0.1 == seq![
                if plan is CtrlBreak {
                    ExecutionEffect::SendCtrlBreak
                } else {
                    ExecutionEffect::RunStopCommand
                },
                ExecutionEffect::ScheduleStopDeadline { deadline },
            ])
            &&& state.phase is Launching && plan !is Kill && result is Ok ==> (result->Ok_0.0.phase
                matches ExecutionPhase::Stopping {
                phase: StopPhase::AwaitingLaunch { deadline },
                cause: kept,
                plan: same,
                ..
            } && kept == cause && same == plan && result->Ok_0.1 == seq![
                ExecutionEffect::ScheduleStopDeadline { deadline },
            ])
            &&& up && result is Ok ==> (plan matches StopPlan::CtrlBreak { timeout } ==> ends_within(
                result->Ok_0.0,
                at,
                timeout@,
            ))
            &&& up && result is Ok ==> (plan matches StopPlan::Command { timeout } ==> ends_within(
                result->Ok_0.0,
                at,
                timeout@,
            ))
            &&& up ==> (result is Ok || plan !is Kill && result->Err_0
                == ExecutionTransitionError::DeadlineOverflow)
            &&& state.phase is RestartBackoff ==> (result matches Ok((next, effects)) && (next.phase
                matches ExecutionPhase::Terminal { outcome } && (cause
                matches StopCause::Service(reason) ==> outcome == (ExecutionOutcome::Stopped {
                cause: reason,
                forced: false,
            })) && (cause matches StopCause::Job(reason) ==> outcome == (
            ExecutionOutcome::Cancelled { cause: reason, forced: false }))))
        }),
{
}

/// A stop ends as it came about: forced exactly where the process was killed, or its supervisor was
/// lost; and a deadline that passes has it killed.
pub proof fn law_stops_end_as_they_came_about(
    state: ExecutionState,
    exit_code: ExitCode,
    ran_for: Duration,
    at: BootInstant,
)
    requires
        state.phase is Stopping,
    ensures
        ({
            let attempt = state.phase->Stopping_attempt;
            let cause = state.phase->Stopping_cause;
            let killing = state.phase->Stopping_phase is Killing;
            let exited = state.step(
                ExecutionEvent::ProcessExited { attempt, exit_code, ran_for, at },
            )->Ok_0.0.phase->outcome;
            let lost = state.step(ExecutionEvent::SupervisorLost { at })->Ok_0.0.phase->outcome;
            &&& state.step(ExecutionEvent::ProcessExited { attempt, exit_code, ran_for, at }) is Ok
            &&& state.step(ExecutionEvent::SupervisorLost { at }) is Ok
            &&& cause matches StopCause::Service(reason) ==> exited == (ExecutionOutcome::Stopped {
                cause: reason,
                forced: killing,
            }) && lost == (ExecutionOutcome::Stopped { cause: reason, forced: true })
            &&& cause matches StopCause::Job(reason) ==> exited == (ExecutionOutcome::Cancelled {
                cause: reason,
                forced: killing,
            }) && lost == (ExecutionOutcome::Cancelled { cause: reason, forced: true })
        }),
{
}

/// The deadline of a stop has the process killed, and any other deadline is stale.
pub proof fn law_stop_deadlines_kill(state: ExecutionState, deadline: StopDeadline)
    requires
        state.phase is Stopping,
        state.phase->Stopping_phase !is Killing,
    ensures
        ({
            let current = match state.phase->Stopping_phase {
                StopPhase::AwaitingLaunch { deadline } => deadline,
                StopPhase::Graceful { deadline } => deadline,
                StopPhase::Killing => deadline,
            };
            let result = state.step(ExecutionEvent::StopDeadlineReached { deadline });
            &&& deadline == current ==> (result matches Ok((next, effects)) && next.phase is Stopping
                && next.phase->Stopping_phase is Killing && effects == seq![
                ExecutionEffect::TerminateJobObject,
            ])
            &&& deadline != current ==> result == Err::<
                (ExecutionState, Seq<ExecutionEffect>),
                ExecutionTransitionError,
            >(ExecutionTransitionError::StaleDeadline)
        }),
{
}

/// The next attempt is launched when its time has come, and any other deadline is stale.
pub proof fn law_retries_are_launched_in_time(state: ExecutionState, deadline: RetryDeadline)
    requires
        state.phase is RestartBackoff,
    ensures
        ({
            let result = state.step(ExecutionEvent::RestartDeadlineReached { deadline });
            let next_attempt = state.phase->next_attempt;
            &&& deadline == state.phase->retry_at ==> (result matches Ok((next, effects)) && next
                == state.in_phase(ExecutionPhase::Launching { attempt: next_attempt }) && effects
                == seq![ExecutionEffect::LaunchAttempt { attempt: next_attempt }])
            &&& deadline != state.phase->retry_at ==> result is Err
        }),
{
}

/// A new policy is taken over at once; an execution that waits for a retry goes on waiting exactly
/// where the new policy still grants it.
pub proof fn law_policies_are_taken_over(
    state: ExecutionState,
    policy: ExecutionRestartPolicy,
)
    requires
        (state.origin is ServiceIntent) <==> (policy is Service),
    ensures
        ({
            let result = state.step(ExecutionEvent::RestartPolicyChanged { policy });
            let with = ExecutionState { restart_policy: policy, ..state };
            &&& result is Ok && result->Ok_0.0.restart_policy == policy
            &&& state.phase !is RestartBackoff ==> result->Ok_0 == (
                with,
                Seq::<ExecutionEffect>::empty(),
            )
            &&& state.phase matches ExecutionPhase::RestartBackoff { previous_end, retry, .. } ==> (
            result->Ok_0.0.phase is RestartBackoff <==> with.permits(previous_end, retry@)) && (
            result->Ok_0.0.phase is Terminal <==> !with.permits(previous_end, retry@))
        }),
{
}

/// A job whose supervisor is lost has an unknown outcome, and a service is restarted as its policy
/// says.
pub proof fn law_lost_supervisors_end_attempts(state: ExecutionState, at: BootInstant)
    requires
        state.phase is Launching || state.phase is Running,
    ensures
        ({
            let attempt = match state.phase {
                ExecutionPhase::Launching { attempt } => attempt,
                _ => state.phase->Running_attempt,
            };
            let result = state.step(ExecutionEvent::SupervisorLost { at });
            &&& state.origin is Job ==> (result matches Ok((next, _)) && next.phase == (
            ExecutionPhase::Terminal {
                outcome: ExecutionOutcome::OutcomeUnknown {
                    failure: InfrastructureFailure::SupervisorLost { attempt },
                },
            }))
            &&& state.origin is ServiceIntent ==> result == state.after_attempt(
                attempt,
                AttemptEnd::SupervisorLost,
                at,
            )
        }),
{
}

/// A service is asked to run: an execution is asked for exactly where none is up and it was not
/// meant to run, or is blocked. One that runs is left alone, and one that goes down is awaited.
pub proof fn law_services_start(state: ServiceState, revision: IntentRevision)
    ensures
        ({
            let start = state.step(
                ServiceControlEvent::Command(ServiceCommand::Start { revision }),
            );
            let idle = state.control matches ServiceControl::Stopped(StoppedPhase::Idle);
            let blocked = state.control matches ServiceControl::Running {
                phase: RunningPhase::Blocked { .. },
                ..
            };
            &&& start is Ok <==> state.definition is Available
            &&& start matches Ok((next, effects)) ==> {
                &&& next.control is Running
                &&& effects.contains(ServiceControlEffect::AllocateExecution { revision }) <==> idle
                    || blocked
                &&& effects.len() == if idle || blocked {
                    1int
                } else {
                    0
                }
                &&& next.execution() == state.execution()
                &&& state.control matches ServiceControl::Stopped(StoppedPhase::Draining {
                    execution_id,
                }) ==> next.control == (ServiceControl::Running {
                    revision,
                    phase: RunningPhase::Draining { execution_id },
                })
                &&& state.control is Running && !blocked ==> next == state
            }
        }),
{
    let start = state.step(ServiceControlEvent::Command(ServiceCommand::Start { revision }));
    if let Ok((next, effects)) = start {
        if effects.len() > 0 {
            assert(effects[0] == (ServiceControlEffect::AllocateExecution { revision }));
        }
    }
}

/// A service is asked to run anew: one that runs is stopped for that, one that goes down is awaited,
/// and otherwise an execution is asked for at once; in every case for the new revision.
pub proof fn law_services_restart(state: ServiceState, revision: IntentRevision)
    ensures
        ({
            let restart = state.step(
                ServiceControlEvent::Command(ServiceCommand::Restart { revision }),
            );
            &&& restart is Ok <==> state.definition is Available
            &&& restart matches Ok((next, effects)) ==> {
                &&& next.control is Running && next.control->revision == revision
                &&& state.control matches ServiceControl::Running {
                    phase: RunningPhase::Active { execution_id },
                    ..
                } ==> effects == seq![
                    ServiceControlEffect::StopExecution {
                        execution_id,
                        cause: ServiceStopCause::Restart,
                    },
                ]
                &&& state.execution() is None ==> effects == seq![
                    ServiceControlEffect::AllocateExecution { revision },
                ]
                &&& next.execution() == state.execution()
                &&& state.execution() is Some ==> (next.control->phase
                    matches RunningPhase::Draining { .. })
            }
        }),
{
}

/// A service is asked to stop: what is up is told to, for that reason, and nothing is asked for.
pub proof fn law_services_stop(state: ServiceState)
    ensures
        ({
            let (next, effects) = state.step(
                ServiceControlEvent::Command(ServiceCommand::Stop),
            )->Ok_0;
            &&& state.step(ServiceControlEvent::Command(ServiceCommand::Stop)) is Ok
            &&& next.control is Stopped && next.execution() == state.execution()
            &&& state.control is Running ==> (state.execution() matches Some(execution_id)
                ==> effects == seq![
                ServiceControlEffect::StopExecution { execution_id, cause: ServiceStopCause::Stop },
            ])
            &&& state.control is Stopped || state.execution() is None ==> effects.len() == 0
        }),
{
}

/// When an execution of a service has ended: a service that is stopped is idle, one that was to run
/// anew asks for another one, and one that ended by itself is blocked with its outcome. The end of
/// any other execution is stale.
pub proof fn law_services_go_on_after_an_execution(
    state: ServiceState,
    execution_id: ExecutionId,
    outcome: ExecutionOutcome,
)
    ensures
        ({
            let result = state.step(
                ServiceControlEvent::ExecutionTerminated { execution_id, outcome },
            );
            &&& result is Ok <==> state.execution() == Some(execution_id)
            &&& result matches Ok((next, effects)) ==> {
                &&& next.execution() is None
                &&& state.control is Stopped ==> next.control == ServiceControl::Stopped(
                    StoppedPhase::Idle,
                ) && effects.len() == 0
                &&& state.control matches ServiceControl::Running {
                    revision,
                    phase: RunningPhase::Draining { .. },
                } ==> next.control == (ServiceControl::Running {
                    revision,
                    phase: RunningPhase::NeedsExecution,
                }) && effects == seq![ServiceControlEffect::AllocateExecution { revision }]
                &&& state.control matches ServiceControl::Running {
                    revision,
                    phase: RunningPhase::Active { .. },
                } ==> next.control == (ServiceControl::Running {
                    revision,
                    phase: RunningPhase::Blocked { execution_id, outcome },
                }) && effects.len() == 0
            }
        }),
{
}

/// An execution that was asked for becomes that of the service, where it was asked for with this
/// revision and is still needed.
pub proof fn law_allocated_executions_are_taken(
    state: ServiceState,
    revision: IntentRevision,
    execution_id: ExecutionId,
)
    ensures
        ({
            let result = state.step(
                ServiceControlEvent::ExecutionAllocated { revision, execution_id },
            );
            &&& result is Ok <==> state.control == (ServiceControl::Running {
                revision,
                phase: RunningPhase::NeedsExecution,
            })
            &&& result matches Ok((next, effects)) ==> next.execution() == Some(execution_id)
                && effects.len() == 0 && next.control == (ServiceControl::Running {
                revision,
                phase: RunningPhase::Active { execution_id },
            })
        }),
{
}

/// A job is run where none of its executions is active, with the origin that it was asked for; and
/// where one is nothing happens.
pub proof fn law_jobs_run(state: JobState, execution_id: ExecutionId, origin: JobExecutionOrigin)
    ensures
        ({
            let result = state.step(JobActivityEvent::StartRequested { execution_id, origin });
            &&& result is Ok <==> state.definition is Available
            &&& result is Ok && state.activity is Idle ==> result->Ok_0.0.activity == (
            JobActivity::Active { execution_id, after: AfterActive::Nothing }) && result->Ok_0.1
                == seq![JobActivityEffect::StartExecution { execution_id, origin }]
            &&& result is Ok && state.activity is Active ==> result->Ok_0 == (
                state,
                Seq::<JobActivityEffect>::empty(),
            )
        }),
{
}

/// A job is run again: at once where it is idle; otherwise its execution is cancelled for that, once,
/// and the next one follows it.
pub proof fn law_jobs_run_again(state: JobState, fresh: ExecutionId)
    ensures
        ({
            let result = state.step(
                JobActivityEvent::RerunRequested { execution_id_if_idle: fresh },
            );
            &&& result is Ok <==> state.definition is Available
            &&& result is Ok && state.activity is Idle ==> result->Ok_0.1 == seq![
                JobActivityEffect::StartExecution {
                    execution_id: fresh,
                    origin: JobExecutionOrigin::Manual,
                },
            ]
            &&& result is Ok ==> (state.activity matches JobActivity::Active { execution_id, after }
                ==> result->Ok_0.0.activity == (JobActivity::Active {
                execution_id,
                after: AfterActive::Rerun,
            }) && (after is Nothing ==> result->Ok_0.1 == seq![
                JobActivityEffect::CancelExecution { execution_id, cause: JobCancelCause::Rerun },
            ]) && (after is Rerun ==> result->Ok_0.1.len() == 0))
        }),
{
}

/// A job is cancelled where it is active: its execution is told, and no rerun follows.
pub proof fn law_jobs_are_cancelled(state: JobState)
    ensures
        ({
            let result = state.step(JobActivityEvent::CancelRequested);
            &&& result is Ok
            &&& state.activity is Idle ==> result->Ok_0 == (
                state,
                Seq::<JobActivityEffect>::empty(),
            )
            &&& state.activity matches JobActivity::Active { execution_id, .. }
                ==> result->Ok_0.0.activity == (JobActivity::Active {
                execution_id,
                after: AfterActive::Nothing,
            }) && result->Ok_0.1 == seq![
                JobActivityEffect::CancelExecution { execution_id, cause: JobCancelCause::Cancel },
            ]
        }),
{
}

/// When the execution of a job has ended the job is idle, or runs again exactly where that was asked
/// for and can be done; the end of any other execution is stale.
pub proof fn law_jobs_go_on_after_an_execution(
    state: JobState,
    execution_id: ExecutionId,
    outcome: ExecutionOutcome,
    rerun: RerunDisposition,
)
    ensures
        ({
            let result = state.step(
                JobActivityEvent::ExecutionTerminated { execution_id, outcome, rerun },
            );
            let after = state.activity->after;
            &&& result is Ok <==> state.activity is Active && state.activity->execution_id
                == execution_id && (after is Nothing <==> rerun is NotRequested)
            &&& result is Ok && rerun is NotRequested ==> result->Ok_0.0.activity is Idle
                && result->Ok_0.1.len() == 0
            &&& result is Ok && rerun is DefinitionMissing ==> result->Ok_0.0.activity is Idle
                && result->Ok_0.1 == seq![JobActivityEffect::RerunSkippedDefinitionMissing]
            &&& result is Ok ==> (rerun matches RerunDisposition::Start { execution_id: next }
                ==> result->Ok_0.0.activity == (JobActivity::Active {
                execution_id: next,
                after: AfterActive::Nothing,
            }) && result->Ok_0.1 == seq![
                JobActivityEffect::StartExecution {
                    execution_id: next,
                    origin: JobExecutionOrigin::Rerun { previous_execution_id: execution_id },
                },
            ])
        }),
{
}

/// A supervisor that failed is given up exactly where it has failed as often as the policy allows;
/// otherwise its successor is launched when the wait is over.
pub proof fn law_failed_supervisors_are_replaced(
    binding: SupervisorBinding,
    process: SupervisorProcessIdentity,
    at: BootInstant,
    policy: SupervisorLaunchPolicy,
)
    requires
        binding !is RestartBackoff,
        process == binding.process(),
        binding.failures().0 < u32::MAX,
    ensures
        ({
            let result = binding.after_process_failure(process, at, policy);
            let last = binding.failures().0 + 1 >= policy.max_failures@;
            &&& last ==> (result matches Ok((next, effects)) && next is None && effects == seq![
                SupervisorBindingEffect::ReportSupervisorUnavailable,
            ])
            &&& !last && result is Ok ==> (result->Ok_0.0 matches Some(
                SupervisorBinding::RestartBackoff { next_process, failures, retry_at },
            ) && failures.0 == binding.failures().0 + 1 && process.successor() == Some(next_process)
                && result->Ok_0.1 == seq![
                SupervisorBindingEffect::ArmRetryDeadline { deadline: retry_at },
            ])
        }),
{
}

/// A supervisor that was launched has to shake hands, and one that did, or was found, is attached at
/// the observation from which it goes on; only one that was found is adopted.
pub proof fn law_supervisors_attach(
    binding: SupervisorBinding,
    execution_id: ExecutionId,
    policy: SupervisorLaunchPolicy,
    at: BootInstant,
    last_sequence: ObservationSequence,
    deadline: RetryDeadline,
)
    ensures
        ({
            let process = binding.process();
            let launched = binding.step(
                SupervisorBindingEvent::LaunchSucceeded { process, at },
                execution_id,
                policy,
            );
            let shaken = binding.step(
                SupervisorBindingEvent::HandshakeAccepted { process, last_sequence },
                execution_id,
                policy,
            );
            let found = binding.step(
                SupervisorBindingEvent::DiscoveryAttached { process, last_sequence },
                execution_id,
                policy,
            );
            let again = binding.step(
                SupervisorBindingEvent::RetryDeadlineReached { process, deadline },
                execution_id,
                policy,
            );
            let attached = SupervisorBinding::Attached {
                process,
                failures: binding.failures(),
                last_sequence,
            };
            &&& launched matches Ok((next, effects)) ==> (next matches Some(
                SupervisorBinding::AwaitingHandshake { process: same, failures, deadline },
            ) && same == process && failures == binding.failures() && effects == seq![
                SupervisorBindingEffect::ArmHandshakeDeadline { deadline },
            ])
            &&& shaken is Ok <==> binding is AwaitingHandshake
            &&& shaken matches Ok((next, effects)) ==> next == Some(attached) && effects.len() == 0
            &&& found is Ok <==> binding is Discovering
            &&& found matches Ok((next, effects)) ==> next == Some(attached) && effects == seq![
                SupervisorBindingEffect::AdoptSupervisor {
                    process,
                    execution_id,
                    from_sequence: last_sequence,
                },
            ]
            &&& again is Ok <==> (binding matches SupervisorBinding::RestartBackoff {
                retry_at,
                ..
            } && retry_at == deadline)
            &&& again matches Ok((next, effects)) ==> next == Some(
                SupervisorBinding::LaunchPending { process, failures: binding.failures() },
            ) && effects == seq![SupervisorBindingEffect::LaunchSupervisor { process }]
        }),
{
}

/// When the execution has ended, its supervisor is told to go exactly where one may be there.
pub proof fn law_supervisors_end_with_their_execution(
    binding: SupervisorBinding,
    execution_id: ExecutionId,
    policy: SupervisorLaunchPolicy,
)
    ensures
        ({
            let (next, effects) = binding.step(
                SupervisorBindingEvent::ExecutionTerminated,
                execution_id,
                policy,
            )->Ok_0;
            let there = binding is Discovering || binding is AwaitingHandshake || binding
                is Attached;
            &&& binding.step(SupervisorBindingEvent::ExecutionTerminated, execution_id, policy) is Ok
            &&& next is None
            &&& there ==> effects == seq![
                SupervisorBindingEffect::RequestSupervisorShutdown { process: binding.process() },
            ]
            &&& !there ==> effects.len() == 0
        }),
{
}

/// A span is counted in the ticks of the clock that cover it, and no more.
pub proof fn law_deadlines_cover_their_span(at: BootInstant, nanos: nat)
    ensures
        100 * ticks_covering(nanos) >= nanos,
        nanos > 0 ==> 100 * (ticks_covering(nanos) - 1) < nanos,
        nanos == 0 ==> ticks_covering(nanos) == 0,
        at.plus(nanos) matches Some(later) ==> later@ == at@ + ticks_covering(nanos),
        at.plus(nanos) is None <==> at@ + ticks_covering(nanos) > u64::MAX,
{
}

} // verus!
