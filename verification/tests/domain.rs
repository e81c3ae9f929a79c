use std::collections::BTreeSet;

use susm::controller::{
    AfterActive, ControllerTransitionError, DefinitionState, Enablement, JobActivity,
    JobActivityEffect, JobActivityEvent, JobEnablement, JobState, RerunDisposition, RunningPhase,
    ServiceCommand, ServiceControl, ServiceControlEffect, ServiceControlEvent, ServiceState,
    SessionTrigger, StoppedPhase,
};
use susm::execution::{
    AttemptEnd, ExecutionEffect, ExecutionEvent, ExecutionFailure, ExecutionOrigin,
    ExecutionOutcome, ExecutionPhase, ExecutionState, ExecutionTransitionError, ExitCode,
    InfrastructureFailure, JobCancelCause, JobExecutionOrigin, LaunchFailure, PreflightFailure,
    ServiceStopCause, StopCause, StopPhase, StopPlan, Win32ErrorCode,
};
use susm::ids::{
    AttemptNumber, ConfigGeneration, ExecutionConfigHash, ExecutionId, IntentRevision,
    InvalidWorkloadId, ManagerSessionId, ObservationSequence, ProcessDefinitionHash, SupervisorId,
    SupervisorIncarnation, WorkloadId,
};
use susm::num::{NonZeroU32, NonZeroU64};
use susm::restart::{
    BackoffPolicy, ExecutionRestartPolicy, InvalidBackoffPolicy, JobRestartPolicy, JobRetryPolicy,
    RetryOrdinal, ServiceRestartPolicy, ServiceRetryLimit, ServiceRetryPolicy,
};
use susm::supervisor_binding::{
    SupervisorBinding, SupervisorBindingEffect, SupervisorBindingError, SupervisorBindingEvent,
    SupervisorFailure, SupervisorFailureCount, SupervisorLaunchPolicy, SupervisorProcessIdentity,
};
use susm::time::{BootInstant, Duration, NonZeroDuration, RetryDeadline, StopDeadline};

fn millis(value: u64) -> NonZeroDuration {
    NonZeroDuration::new(Duration::from_millis(value)).unwrap()
}

fn backoff(initial_ms: u64, multiplier: u32, maximum_ms: u64) -> BackoffPolicy {
    BackoffPolicy::new(
        millis(initial_ms),
        NonZeroU32::new(multiplier).unwrap(),
        millis(maximum_ms),
    )
    .unwrap()
}

fn attempt(value: u32) -> AttemptNumber {
    AttemptNumber::new(value).unwrap()
}

fn at(ticks: u64) -> BootInstant {
    BootInstant::from_interrupt_time_100ns(ticks)
}

fn job(policy: JobRestartPolicy) -> ExecutionState {
    let mut codes: BTreeSet<u32> = BTreeSet::new();
    codes.insert(0);
    ExecutionState {
        id: ExecutionId::from_uuid(7),
        workload_id: WorkloadId::parse("backup".to_string()).unwrap(),
        origin: ExecutionOrigin::Job(JobExecutionOrigin::Manual),
        source_definition: ProcessDefinitionHash::from_sha256([1; 32]),
        execution_config: ExecutionConfigHash::from_sha256([2; 32]),
        success_exit_codes: codes,
        restart_policy: ExecutionRestartPolicy::Job(policy),
        last_retry: None,
        phase: ExecutionPhase::Launching { attempt: AttemptNumber::first() },
    }
}

fn service(policy: ServiceRestartPolicy) -> ExecutionState {
    let mut state = job(JobRestartPolicy::Never);
    state.origin = ExecutionOrigin::ServiceIntent { revision: IntentRevision::new(1).unwrap() };
    state.restart_policy = ExecutionRestartPolicy::Service(policy);
    state
}

#[test]
fn durations_count_nanoseconds() {
    let duration = Duration::from_millis(1500);
    assert_eq!(duration.as_nanos(), 1_500_000_000);
    assert_eq!(duration.as_millis(), 1500);
    assert_eq!(duration.as_secs(), 1);
    assert_eq!(duration.subsec_nanos(), 500_000_000);
    assert!(Duration::from_millis(0).is_zero());
    assert_eq!(Duration::from_secs(u64::MAX).checked_mul(2), None);
    assert_eq!(Duration::from_secs(3).checked_mul(2), Some(Duration::from_secs(6)));
    assert_eq!(Duration::from_nanos(u128::MAX), None);
    assert!(NonZeroDuration::new(Duration::from_millis(0)).is_none());
}

#[test]
fn deadlines_follow_their_span() {
    let start = at(1000);
    assert_eq!(start.checked_add(Duration::from_millis(1)), Some(at(11_000)));
    assert_eq!(start.checked_add(Duration::from_nanos(1).unwrap()), Some(at(1001)));
    assert_eq!(start.checked_add(Duration::from_nanos(100).unwrap()), Some(at(1001)));
    assert_eq!(at(u64::MAX).checked_add(Duration::from_millis(1)), None);
}

#[test]
fn numbers_without_zero() {
    assert!(NonZeroU32::new(0).is_none());
    assert_eq!(NonZeroU32::new(5).unwrap().get(), 5);
    assert!(NonZeroU32::new(u32::MAX).unwrap().next().is_none());
    assert_eq!(NonZeroU64::new(8).unwrap().next().unwrap().get(), 9);
    assert_eq!(AttemptNumber::first().get(), 1);
    assert_eq!(ObservationSequence::initial().get(), 0);
    assert_eq!(ObservationSequence::new(u64::MAX).next().map(|next| next.get()), None);
    assert_eq!(SupervisorIncarnation::first().next().unwrap().get(), 2);
}

#[test]
fn backoff_grows_up_to_its_maximum() {
    let policy = backoff(250, 2, 1500);
    let delays: Vec<u128> = (1..6)
        .map(|n| policy.delay_for(RetryOrdinal::new(n).unwrap()).as_millis())
        .collect();
    assert_eq!(delays, vec![250, 500, 1000, 1500, 1500]);
    assert_eq!(policy.delay_for(RetryOrdinal::new(u32::MAX).unwrap()).as_millis(), 1500);
}

#[test]
fn backoff_refuses_a_maximum_below_the_initial_delay() {
    let refused = BackoffPolicy::new(millis(10), NonZeroU32::new(2).unwrap(), millis(9));
    assert_eq!(refused, Err(InvalidBackoffPolicy::MaximumLessThanInitial));
    assert_eq!(
        InvalidBackoffPolicy::MaximumLessThanInitial.message(),
        "maximum backoff is less than initial backoff"
    );
}

#[test]
fn default_backoff_is_a_quarter_second_doubling_to_thirty() {
    let policy = BackoffPolicy::default();
    assert_eq!(policy.delay_for(RetryOrdinal::first()).as_millis(), 250);
    assert_eq!(policy.delay_for(RetryOrdinal::new(8).unwrap()).as_millis(), 30_000);
    assert_eq!(JobRestartPolicy::default(), JobRestartPolicy::Never);
    match ServiceRestartPolicy::default() {
        ServiceRestartPolicy::OnFailure(retry) => {
            assert_eq!(retry.limit, ServiceRetryLimit::Finite(NonZeroU32::new(10).unwrap()));
            assert_eq!(retry.reset_after.get().as_secs(), 300);
        }
        other => panic!("{other:?}"),
    }
}

#[test]
fn workload_ids_are_checked() {
    assert_eq!(WorkloadId::parse("web-1.api_2".to_string()).unwrap().as_str(), "web-1.api_2");
    assert_eq!(WorkloadId::parse(String::new()), Err(InvalidWorkloadId::Empty));
    assert_eq!(WorkloadId::parse("a".repeat(129)), Err(InvalidWorkloadId::TooLong));
    assert!(WorkloadId::parse("a".repeat(128)).is_ok());
    assert_eq!(WorkloadId::parse("-a".to_string()), Err(InvalidWorkloadId::InvalidBoundary));
    assert_eq!(
        WorkloadId::parse("a b".to_string()),
        Err(InvalidWorkloadId::InvalidCharacter { index: 1 })
    );
}

#[test]
fn a_job_completes() {
    let running = job(JobRestartPolicy::Never)
        .transition(ExecutionEvent::LaunchSucceeded { attempt: attempt(1), at: at(0) })
        .unwrap();
    assert!(running.effects.is_empty());
    let done = running
        .state
        .transition(ExecutionEvent::ProcessExited {
            attempt: attempt(1),
            exit_code: ExitCode::success(),
            ran_for: Duration::from_secs(1),
            at: at(1),
        })
        .unwrap();
    let outcome = ExecutionOutcome::Completed { exit_code: ExitCode::new(0) };
    assert_eq!(done.state.phase, ExecutionPhase::Terminal { outcome });
    assert_eq!(done.effects, vec![ExecutionEffect::PublishTerminal { outcome }]);
}

#[test]
fn outcomes_are_final_and_published_once() {
    let outcome = ExecutionOutcome::Completed { exit_code: ExitCode::new(0) };
    let mut state = job(JobRestartPolicy::Never);
    state.phase = ExecutionPhase::Terminal { outcome };
    let lost = state.clone().transition(ExecutionEvent::SupervisorLost { at: at(0) }).unwrap();
    assert_eq!(lost.state, state);
    assert!(lost.effects.is_empty());
    let refused = state
        .transition(ExecutionEvent::LaunchSucceeded { attempt: attempt(1), at: at(0) });
    assert_eq!(refused, Err(ExecutionTransitionError::UnexpectedEvent));
}

#[test]
fn failed_jobs_are_retried_within_their_budget() {
    let policy = JobRestartPolicy::OnFailure(JobRetryPolicy::new(
        NonZeroU32::new(1).unwrap(),
        backoff(250, 2, 1000),
    ));
    let exited = |number: u32| ExecutionEvent::ProcessExited {
        attempt: attempt(number),
        exit_code: ExitCode::new(3),
        ran_for: Duration::from_secs(1),
        at: at(0),
    };
    let mut state = job(policy);
    state.phase = ExecutionPhase::Running { attempt: attempt(1) };
    let waiting = state.transition(exited(1)).unwrap();
    let retry_at = RetryDeadline::at(at(2_500_000));
    assert_eq!(waiting.effects, vec![ExecutionEffect::ScheduleRestart { retry_at }]);
    match waiting.state.phase {
        ExecutionPhase::RestartBackoff { previous_attempt, next_attempt, retry, .. } => {
            assert_eq!((previous_attempt.get(), next_attempt.get(), retry.get()), (1, 2, 1));
        }
        other => panic!("{other:?}"),
    }
    let again = waiting
        .state
        .transition(ExecutionEvent::RestartDeadlineReached { deadline: retry_at })
        .unwrap();
    assert_eq!(again.effects, vec![ExecutionEffect::LaunchAttempt { attempt: attempt(2) }]);
    let running = again
        .state
        .transition(ExecutionEvent::LaunchSucceeded { attempt: attempt(2), at: at(0) })
        .unwrap();
    let failed = running.state.transition(exited(2)).unwrap();
    let outcome = ExecutionOutcome::Failed {
        failure: ExecutionFailure::Attempt {
            attempt: attempt(2),
            end: AttemptEnd::Exited {
                exit_code: ExitCode::new(3),
                ran_for: Duration::from_secs(1),
            },
        },
    };
    assert_eq!(failed.effects, vec![ExecutionEffect::PublishTerminal { outcome }]);
}

#[test]
fn lost_jobs_have_an_unknown_outcome() {
    let policy = JobRestartPolicy::OnFailure(JobRetryPolicy::new(
        NonZeroU32::new(5).unwrap(),
        backoff(250, 2, 1000),
    ));
    let mut state = job(policy);
    state.phase = ExecutionPhase::Running { attempt: attempt(1) };
    let lost = state.transition(ExecutionEvent::SupervisorLost { at: at(0) }).unwrap();
    assert_eq!(
        lost.effects,
        vec![ExecutionEffect::PublishTerminal {
            outcome: ExecutionOutcome::OutcomeUnknown {
                failure: InfrastructureFailure::SupervisorLost { attempt: attempt(1) },
            },
        }]
    );
}

#[test]
fn stopping_leads_to_the_stop() {
    let mut state = service(ServiceRestartPolicy::Never);
    state.phase = ExecutionPhase::Running { attempt: attempt(1) };
    let cause = StopCause::Service(ServiceStopCause::Stop);
    let plan = StopPlan::CtrlBreak { timeout: Duration::from_secs(1) };
    let request = ExecutionEvent::StopRequested { cause, plan, at: at(0) };
    let stopping = state.transition(request.clone()).unwrap();
    let deadline = StopDeadline::at(at(10_000_000));
    assert_eq!(
        stopping.effects,
        vec![
            ExecutionEffect::SendCtrlBreak,
            ExecutionEffect::ScheduleStopDeadline { deadline },
        ]
    );
    let repeated = stopping.state.clone().transition(request).unwrap();
    assert_eq!(repeated.state, stopping.state);
    assert!(repeated.effects.is_empty());
    let killing = stopping
        .state
        .transition(ExecutionEvent::StopDeadlineReached { deadline })
        .unwrap();
    assert_eq!(killing.effects, vec![ExecutionEffect::TerminateJobObject]);
    assert_eq!(
        killing.state.phase,
        ExecutionPhase::Stopping { attempt: attempt(1), phase: StopPhase::Killing, cause, plan }
    );
    let stopped = killing
        .state
        .transition(ExecutionEvent::ProcessExited {
            attempt: attempt(1),
            exit_code: ExitCode::new(1),
            ran_for: Duration::from_secs(2),
            at: at(1),
        })
        .unwrap();
    assert_eq!(
        stopped.effects,
        vec![ExecutionEffect::PublishTerminal {
            outcome: ExecutionOutcome::Stopped { cause: ServiceStopCause::Stop, forced: true },
        }]
    );
}

#[test]
fn executions_refuse_stale_events() {
    let state = job(JobRestartPolicy::Never);
    let stale = state
        .clone()
        .transition(ExecutionEvent::LaunchSucceeded { attempt: attempt(2), at: at(0) });
    assert_eq!(stale, Err(ExecutionTransitionError::StaleAttempt));
    let unexpected = state
        .clone()
        .transition(ExecutionEvent::RestartDeadlineReached { deadline: RetryDeadline::at(at(0)) });
    assert_eq!(unexpected, Err(ExecutionTransitionError::UnexpectedEvent));
    let mismatch = state.clone().transition(ExecutionEvent::RestartPolicyChanged {
        policy: ExecutionRestartPolicy::Service(ServiceRestartPolicy::Never),
    });
    assert_eq!(mismatch, Err(ExecutionTransitionError::PolicyKindMismatch));
    let failed = state
        .transition(ExecutionEvent::LaunchFailed {
            attempt: attempt(1),
            failure: LaunchFailure::Preflight(PreflightFailure::ExecutableNotFound),
            at: at(0),
        })
        .unwrap();
    assert!(matches!(failed.state.phase, ExecutionPhase::Terminal { .. }));
    let mut waiting = job(JobRestartPolicy::Never);
    waiting.phase = ExecutionPhase::RestartBackoff {
        previous_attempt: attempt(1),
        previous_end: AttemptEnd::LaunchFailed {
            failure: LaunchFailure::Win32(Win32ErrorCode::new(5)),
        },
        next_attempt: attempt(2),
        retry: RetryOrdinal::first(),
        retry_at: RetryDeadline::at(at(50)),
    };
    let early = waiting
        .transition(ExecutionEvent::RestartDeadlineReached { deadline: RetryDeadline::at(at(49)) });
    assert_eq!(early, Err(ExecutionTransitionError::StaleDeadline));
}

#[test]
fn execution_errors_have_messages() {
    let messages: Vec<String> = vec![
        ExecutionTransitionError::UnexpectedEvent,
        ExecutionTransitionError::StaleAttempt,
        ExecutionTransitionError::StaleDeadline,
        ExecutionTransitionError::AttemptOverflow,
    ]
    .iter()
    .map(|error| error.message())
    .collect();
    assert_eq!(
        messages,
        vec![
            "event is invalid in the current execution phase",
            "event refers to a stale process attempt",
            "event refers to a stale lifecycle deadline",
            "process attempt number overflowed",
        ]
    );
}

#[test]
fn attempts_overflow() {
    let policy = ServiceRestartPolicy::Always(ServiceRetryPolicy::new(
        ServiceRetryLimit::Unlimited,
        millis(300_000),
        backoff(250, 2, 1000),
    ));
    let mut state = service(policy);
    state.phase = ExecutionPhase::Running { attempt: attempt(u32::MAX) };
    let exited = |at: BootInstant| ExecutionEvent::ProcessExited {
        attempt: attempt(u32::MAX),
        exit_code: ExitCode::new(0),
        ran_for: Duration::from_secs(1),
        at,
    };
    assert_eq!(
        state.clone().transition(exited(at(0))),
        Err(ExecutionTransitionError::AttemptOverflow)
    );
    state.phase = ExecutionPhase::Running { attempt: attempt(1) };
    let late = ExecutionEvent::ProcessExited {
        attempt: attempt(1),
        exit_code: ExitCode::new(0),
        ran_for: Duration::from_secs(1),
        at: at(u64::MAX),
    };
    assert_eq!(state.clone().transition(late), Err(ExecutionTransitionError::DeadlineOverflow));
    state.last_retry = RetryOrdinal::new(u32::MAX);
    let overflown = state.transition(ExecutionEvent::ProcessExited {
        attempt: attempt(1),
        exit_code: ExitCode::new(0),
        ran_for: Duration::from_secs(1),
        at: at(0),
    });
    assert_eq!(overflown, Err(ExecutionTransitionError::RetryOverflow));
}

fn available() -> DefinitionState {
    DefinitionState::Available {
        generation: ConfigGeneration::from_sha256([1; 32]),
        process_definition: ProcessDefinitionHash::from_sha256([2; 32]),
    }
}

fn revision(value: u64) -> IntentRevision {
    IntentRevision::new(value).unwrap()
}

fn idle_service(definition: DefinitionState) -> ServiceState {
    ServiceState {
        definition,
        enablement: Enablement::Disabled,
        control: ServiceControl::Stopped(StoppedPhase::Idle),
    }
}

#[test]
fn services_run_one_execution_at_a_time() {
    let start = ServiceControlEvent::Command(ServiceCommand::Start { revision: revision(1) });
    let started = idle_service(available()).transition(start).unwrap();
    assert_eq!(
        started.effects,
        vec![ServiceControlEffect::AllocateExecution { revision: revision(1) }]
    );
    let again = started.state.transition(start).unwrap();
    assert_eq!(again.state, started.state);
    let active = started
        .state
        .transition(ServiceControlEvent::ExecutionAllocated {
            revision: revision(1),
            execution_id: ExecutionId::from_uuid(9),
        })
        .unwrap();
    assert!(active.effects.is_empty());
    let restarting = active
        .state
        .transition(ServiceControlEvent::Command(ServiceCommand::Restart {
            revision: revision(2),
        }))
        .unwrap();
    assert_eq!(
        restarting.effects,
        vec![ServiceControlEffect::StopExecution {
            execution_id: ExecutionId::from_uuid(9),
            cause: ServiceStopCause::Restart,
        }]
    );
    let replaced = restarting
        .state
        .transition(ServiceControlEvent::ExecutionTerminated {
            execution_id: ExecutionId::from_uuid(9),
            outcome: ExecutionOutcome::Stopped { cause: ServiceStopCause::Restart, forced: false },
        })
        .unwrap();
    assert_eq!(
        replaced.effects,
        vec![ServiceControlEffect::AllocateExecution { revision: revision(2) }]
    );
    assert_eq!(
        replaced.state.control,
        ServiceControl::Running { revision: revision(2), phase: RunningPhase::NeedsExecution }
    );
}

#[test]
fn stopping_a_stopped_service_changes_nothing() {
    let state = idle_service(available());
    let stopped = state.transition(ServiceControlEvent::Command(ServiceCommand::Stop)).unwrap();
    assert_eq!(stopped.state, state);
    assert!(stopped.effects.is_empty());
}

#[test]
fn services_refuse_what_does_not_fit() {
    let start = ServiceControlEvent::Command(ServiceCommand::Start { revision: revision(1) });
    assert_eq!(
        idle_service(DefinitionState::Missing).transition(start),
        Err(ControllerTransitionError::DefinitionMissing)
    );
    let started = idle_service(available()).transition(start).unwrap().state;
    assert_eq!(
        started.transition(ServiceControlEvent::ExecutionAllocated {
            revision: revision(2),
            execution_id: ExecutionId::from_uuid(1),
        }),
        Err(ControllerTransitionError::StaleIntentRevision)
    );
    assert_eq!(
        started.transition(ServiceControlEvent::ExecutionTerminated {
            execution_id: ExecutionId::from_uuid(1),
            outcome: ExecutionOutcome::Completed { exit_code: ExitCode::new(0) },
        }),
        Err(ControllerTransitionError::StaleExecution)
    );
    assert_eq!(
        ControllerTransitionError::DefinitionMissing.message(),
        "workload definition is missing"
    );
}

fn idle_job() -> JobState {
    JobState {
        definition: available(),
        enablement: JobEnablement {
            state: Enablement::Enabled,
            last_trigger: SessionTrigger::Triggered(ManagerSessionId::from_uuid(1)),
        },
        activity: JobActivity::Idle,
    }
}

#[test]
fn cancelling_a_job_withdraws_its_rerun() {
    let first = ExecutionId::from_uuid(1);
    let started = idle_job()
        .transition(JobActivityEvent::StartRequested {
            execution_id: first,
            origin: JobExecutionOrigin::Manual,
        })
        .unwrap();
    assert_eq!(
        started.effects,
        vec![JobActivityEffect::StartExecution {
            execution_id: first,
            origin: JobExecutionOrigin::Manual,
        }]
    );
    let rerun = started
        .state
        .transition(JobActivityEvent::RerunRequested {
            execution_id_if_idle: ExecutionId::from_uuid(2),
        })
        .unwrap();
    assert_eq!(
        rerun.effects,
        vec![JobActivityEffect::CancelExecution {
            execution_id: first,
            cause: JobCancelCause::Rerun,
        }]
    );
    assert_eq!(
        rerun.state.activity,
        JobActivity::Active { execution_id: first, after: AfterActive::Rerun }
    );
    let cancelled = rerun.state.transition(JobActivityEvent::CancelRequested).unwrap();
    assert_eq!(
        cancelled.state.activity,
        JobActivity::Active { execution_id: first, after: AfterActive::Nothing }
    );
    let done = cancelled
        .state
        .transition(JobActivityEvent::ExecutionTerminated {
            execution_id: first,
            outcome: ExecutionOutcome::Cancelled { cause: JobCancelCause::Cancel, forced: false },
            rerun: RerunDisposition::NotRequested,
        })
        .unwrap();
    assert_eq!(done.state.activity, JobActivity::Idle);
    assert!(done.effects.is_empty());
}

fn supervisor(id: u128, incarnation: u32) -> SupervisorProcessIdentity {
    SupervisorProcessIdentity::new(
        SupervisorId::from_uuid(id),
        SupervisorIncarnation::new(incarnation).unwrap(),
    )
}

#[test]
fn supervisors_are_replaced_by_the_next_incarnation() {
    let policy = SupervisorLaunchPolicy::default();
    let execution = ExecutionId::from_uuid(4);
    let attached = SupervisorBinding::Attached {
        process: supervisor(1, 1),
        failures: SupervisorFailureCount::zero(),
        last_sequence: ObservationSequence::new(3),
    };
    let lost = attached
        .transition(
            SupervisorBindingEvent::SupervisorExited { process: supervisor(1, 1), at: at(0) },
            execution,
            policy,
        )
        .unwrap();
    match lost.state {
        Some(SupervisorBinding::RestartBackoff { next_process, failures, .. }) => {
            assert_eq!(next_process, supervisor(1, 2));
            assert_eq!(failures.get(), 1);
        }
        other => panic!("{other:?}"),
    }
    assert_eq!(
        lost.effects,
        vec![SupervisorBindingEffect::ArmRetryDeadline {
            deadline: RetryDeadline::at(at(1_000_000)),
        }]
    );
}

#[test]
fn supervisors_fail_only_so_often() {
    let policy = SupervisorLaunchPolicy::default();
    let execution = ExecutionId::from_uuid(4);
    let exhausted = SupervisorBinding::LaunchPending {
        process: supervisor(1, 9),
        failures: SupervisorFailureCount::new(8),
    };
    let given_up = exhausted
        .transition(
            SupervisorBindingEvent::LaunchFailed { process: supervisor(1, 9), at: at(0) },
            execution,
            policy,
        )
        .unwrap();
    assert_eq!(given_up.effects, vec![SupervisorBindingEffect::ReportSupervisorUnavailable]);
    assert_eq!(given_up.state, None);
    assert!(policy.permits_retry_after(SupervisorFailureCount::new(7)));
    assert!(!policy.permits_retry_after(SupervisorFailureCount::new(9)));
}

#[test]
fn stale_supervisors_are_refused() {
    let policy = SupervisorLaunchPolicy::default();
    let execution = ExecutionId::from_uuid(4);
    let pending = SupervisorBinding::LaunchPending {
        process: supervisor(1, 2),
        failures: SupervisorFailureCount::zero(),
    };
    let stale = pending.transition(
        SupervisorBindingEvent::LaunchSucceeded { process: supervisor(1, 1), at: at(0) },
        execution,
        policy,
    );
    assert_eq!(stale, Err(SupervisorBindingError::StaleProcess));
    let unexpected = pending.transition(
        SupervisorBindingEvent::HandshakeAccepted {
            process: supervisor(1, 2),
            last_sequence: ObservationSequence::initial(),
        },
        execution,
        policy,
    );
    assert_eq!(unexpected, Err(SupervisorBindingError::UnexpectedEvent));
    let missing = pending
        .transition(
            SupervisorBindingEvent::HandshakeFailed {
                process: supervisor(1, 2),
                at: at(0),
                failure: SupervisorFailure::ProcessMissing,
            },
            execution,
            policy,
        )
        .unwrap();
    assert!(matches!(missing.state, Some(SupervisorBinding::RestartBackoff { .. })));
    assert_eq!(
        SupervisorBindingError::StaleProcess.message(),
        "event refers to a stale supervisor process"
    );
    let ended = pending
        .transition(SupervisorBindingEvent::ExecutionTerminated, execution, policy)
        .unwrap();
    assert_eq!(ended.state, None);
}

#[test]
fn exit_codes_are_ordered_as_their_numbers() {
    let codes = [0, 1, 3, 0x8000_0000, u32::MAX];
    for a in codes {
        for b in codes {
            let (left, right) = (ExitCode::new(a), ExitCode::new(b));
            assert_eq!(left.partial_cmp(&right), a.partial_cmp(&b));
            assert_eq!(left.cmp(&right), a.cmp(&b));
            assert_eq!(left < right, a < b);
        }
    }
    assert_eq!(ExitCode::success().get(), 0);
    assert!(ExitCode::success() < ExitCode::new(u32::MAX));
}
