//! How a controller finds, launches and keeps the supervisor of an execution.

use vstd::prelude::*;

use crate::ids::{ExecutionId, ObservationSequence, SupervisorId, SupervisorIncarnation};
use crate::num::NonZeroU32;
use crate::restart::{BackoffPolicy, RetryOrdinal};
use crate::time::{
    BootInstant, DiscoveryDeadline, Duration, HandshakeDeadline, NonZeroDuration, RetryDeadline,
};
use crate::time::{NANOS_PER_MILLI, NANOS_PER_SEC};
use crate::transition::{agrees, Transition};

verus! {

/// Failures in a row after which a supervisor is given up, by default.
pub const DEFAULT_SUPERVISOR_MAX_FAILURES: u32 = 8;

/// Milliseconds before a supervisor is launched again, by default.
pub const DEFAULT_SUPERVISOR_BACKOFF_INITIAL_MILLIS: u64 = 100;

/// The factor between two delays, by default.
pub const DEFAULT_SUPERVISOR_BACKOFF_MULTIPLIER: u32 = 2;

/// Seconds that no delay exceeds, by default.
pub const DEFAULT_SUPERVISOR_BACKOFF_MAXIMUM_SECS: u64 = 5;

/// Seconds that a launched supervisor has to shake hands, by default.
pub const DEFAULT_SUPERVISOR_HANDSHAKE_TIMEOUT_SECS: u64 = 5;

/// Seconds that a running supervisor has to be found, by default.
pub const DEFAULT_SUPERVISOR_DISCOVERY_TIMEOUT_SECS: u64 = 3;

/// One process of a supervisor.
#[derive(Clone, Copy, Debug, PartialEq, Eq, Structural, Hash)]
pub struct SupervisorProcessIdentity {
    pub supervisor_id: SupervisorId,
    pub incarnation: SupervisorIncarnation,
}

impl SupervisorProcessIdentity {
    pub fn new(supervisor_id: SupervisorId, incarnation: SupervisorIncarnation) -> (
    identity: SupervisorProcessIdentity)
        ensures
            identity == (SupervisorProcessIdentity { supervisor_id, incarnation }),
    {
        SupervisorProcessIdentity { supervisor_id, incarnation }
    }

    pub fn supervisor_id(self) -> (supervisor_id: SupervisorId)
        ensures
            supervisor_id == self.supervisor_id,
    {
        self.supervisor_id
    }

    pub fn incarnation(self) -> (incarnation: SupervisorIncarnation)
        ensures
            incarnation == self.incarnation,
    {
        self.incarnation
    }

    /// The process that takes over from this one.
    pub open spec fn successor(self) -> Option<SupervisorProcessIdentity> {
        if self.incarnation@ < u32::MAX {
            Some(
                SupervisorProcessIdentity {
                    supervisor_id: self.supervisor_id,
                    incarnation: SupervisorIncarnation::of(self.incarnation@ + 1),
                },
            )
        } else {
            None
        }
    }

    pub fn next_incarnation(self) -> (result: Option<SupervisorProcessIdentity>)
        ensures
            result == self.successor(),
    {
        match self.incarnation.next() {
            Some(incarnation) => Some(
                SupervisorProcessIdentity { supervisor_id: self.supervisor_id, incarnation },
            ),
            None => None,
        }
    }
}

/// How often in a row a supervisor has failed.
#[derive(Clone, Copy, Debug, PartialEq, Eq, Structural, Hash, PartialOrd, Ord)]
pub struct SupervisorFailureCount(pub u32);

impl SupervisorFailureCount {
    pub fn zero() -> (count: SupervisorFailureCount)
        ensures
            count == SupervisorFailureCount(0),
    {
        SupervisorFailureCount(0)
    }

    pub fn new(value: u32) -> (count: SupervisorFailureCount)
        ensures
            count == SupervisorFailureCount(value),
    {
        SupervisorFailureCount(value)
    }

    pub fn get(self) -> (value: u32)
        ensures
            self == SupervisorFailureCount(value),
    {
        self.0
    }

    /// The count after one more failure, unless it does not fit.
    pub fn after_failure(self) -> (result: Option<SupervisorFailureCount>)
        ensures
            result == if self.0 < u32::MAX {
                Some(SupervisorFailureCount((self.0 + 1) as u32))
            } else {
                None
            },
    {
        match self.0.checked_add(1) {
            Some(value) => Some(SupervisorFailureCount(value)),
            None => None,
        }
    }

    /// The retry that follows this many failures.
    pub fn retry_ordinal(self) -> (result: Option<RetryOrdinal>)
        ensures
            result == if self.0 == 0 {
                None
            } else {
                Some(RetryOrdinal::of(self.0 as nat))
            },
            result matches Some(retry) ==> retry@ == self.0,
    {
        RetryOrdinal::new(self.0)
    }
}

#[derive(Clone, Copy, Debug, PartialEq, Eq, Structural)]
pub struct SupervisorLaunchPolicy {
    pub max_failures: NonZeroU32,
    pub backoff: BackoffPolicy,
    pub handshake_timeout: NonZeroDuration,
    pub discovery_timeout: NonZeroDuration,
}

impl SupervisorLaunchPolicy {
    pub fn new(
        max_failures: NonZeroU32,
        backoff: BackoffPolicy,
        handshake_timeout: NonZeroDuration,
        discovery_timeout: NonZeroDuration,
    ) -> (policy: SupervisorLaunchPolicy)
        ensures
            policy == (SupervisorLaunchPolicy {
                max_failures,
                backoff,
                handshake_timeout,
                discovery_timeout,
            }),
    {
        SupervisorLaunchPolicy { max_failures, backoff, handshake_timeout, discovery_timeout }
    }

    pub fn max_failures(self) -> (max_failures: NonZeroU32)
        ensures
            max_failures == self.max_failures,
    {
        self.max_failures
    }

    pub fn backoff(self) -> (backoff: BackoffPolicy)
        ensures
            backoff == self.backoff,
    {
        self.backoff
    }

    pub fn handshake_timeout(self) -> (timeout: NonZeroDuration)
        ensures
            timeout == self.handshake_timeout,
    {
        self.handshake_timeout
    }

    pub fn discovery_timeout(self) -> (timeout: NonZeroDuration)
        ensures
            timeout == self.discovery_timeout,
    {
        self.discovery_timeout
    }

    /// Whether a supervisor that has failed this often is launched again.
    pub fn permits_retry_after(self, failures: SupervisorFailureCount) -> (permits: bool)
        ensures
            permits == (failures.0 < self.max_failures@),
    {
        failures.get() < self.max_failures.get()
    }
}

impl Default for SupervisorLaunchPolicy {
    fn default() -> (policy: SupervisorLaunchPolicy)
        ensures
            policy.max_failures@ == DEFAULT_SUPERVISOR_MAX_FAILURES,
            policy.backoff.initial_delay()@ == DEFAULT_SUPERVISOR_BACKOFF_INITIAL_MILLIS
                * NANOS_PER_MILLI,
            policy.backoff.factor()@ == DEFAULT_SUPERVISOR_BACKOFF_MULTIPLIER,
            policy.backoff.maximum_delay()@ == DEFAULT_SUPERVISOR_BACKOFF_MAXIMUM_SECS
                * NANOS_PER_SEC,
            policy.handshake_timeout@ == DEFAULT_SUPERVISOR_HANDSHAKE_TIMEOUT_SECS * NANOS_PER_SEC,
            policy.discovery_timeout@ == DEFAULT_SUPERVISOR_DISCOVERY_TIMEOUT_SECS * NANOS_PER_SEC,
    {
        broadcast use BackoffPolicy::lemma_parts_of;

        let backoff: BackoffPolicy = BackoffPolicy::new(
            NonZeroDuration::new(
                Duration::from_millis(DEFAULT_SUPERVISOR_BACKOFF_INITIAL_MILLIS),
            ).unwrap(),
            NonZeroU32::new(DEFAULT_SUPERVISOR_BACKOFF_MULTIPLIER).unwrap(),
            NonZeroDuration::new(
                Duration::from_secs(DEFAULT_SUPERVISOR_BACKOFF_MAXIMUM_SECS),
            ).unwrap(),
        ).unwrap();
        SupervisorLaunchPolicy {
            max_failures: NonZeroU32::new(DEFAULT_SUPERVISOR_MAX_FAILURES).unwrap(),
            backoff,
            handshake_timeout: NonZeroDuration::new(
                Duration::from_secs(DEFAULT_SUPERVISOR_HANDSHAKE_TIMEOUT_SECS),
            ).unwrap(),
            discovery_timeout: NonZeroDuration::new(
                Duration::from_secs(DEFAULT_SUPERVISOR_DISCOVERY_TIMEOUT_SECS),
            ).unwrap(),
        }
    }
}

#[derive(Clone, Copy, Debug, PartialEq, Eq, Structural)]
pub enum SupervisorBinding {
    Discovering {
        process: SupervisorProcessIdentity,
        failures: SupervisorFailureCount,
        deadline: DiscoveryDeadline,
    },
    LaunchPending { process: SupervisorProcessIdentity, failures: SupervisorFailureCount },
    AwaitingHandshake {
        process: SupervisorProcessIdentity,
        failures: SupervisorFailureCount,
        deadline: HandshakeDeadline,
    },
    Attached {
        process: SupervisorProcessIdentity,
        failures: SupervisorFailureCount,
        last_sequence: ObservationSequence,
    },
    RestartBackoff {
        next_process: SupervisorProcessIdentity,
        failures: SupervisorFailureCount,
        retry_at: RetryDeadline,
    },
}

#[derive(Clone, Copy, Debug, PartialEq, Eq, Structural)]
pub enum SupervisorBindingEvent {
    DiscoveryAttached { process: SupervisorProcessIdentity, last_sequence: ObservationSequence },
    DiscoveryFailed {
        process: SupervisorProcessIdentity,
        at: BootInstant,
        failure: SupervisorFailure,
    },
    LaunchSucceeded { process: SupervisorProcessIdentity, at: BootInstant },
    LaunchFailed { process: SupervisorProcessIdentity, at: BootInstant },
    HandshakeAccepted { process: SupervisorProcessIdentity, last_sequence: ObservationSequence },
    HandshakeFailed {
        process: SupervisorProcessIdentity,
        at: BootInstant,
        failure: SupervisorFailure,
    },
    SupervisorExited { process: SupervisorProcessIdentity, at: BootInstant },
    RetryDeadlineReached { process: SupervisorProcessIdentity, deadline: RetryDeadline },
    ExecutionTerminated,
}

#[derive(Clone, Copy, Debug, PartialEq, Eq, Structural)]
pub enum SupervisorFailure {
    ProcessMissing,
    ProcessExited,
    HandshakeTimedOut,
    HandshakeRejected(HandshakeRejection),
}

#[derive(Clone, Copy, Debug, PartialEq, Eq, Structural)]
pub enum HandshakeRejection {
    AuthenticationFailed,
    WrongManagerSession,
    WrongExecution,
    WrongSupervisor,
    WrongExecutionConfig,
    IncompatibleProtocol,
    StaleObservation,
}

#[derive(Clone, Copy, Debug, PartialEq, Eq, Structural)]
pub enum SupervisorBindingEffect {
    LaunchSupervisor { process: SupervisorProcessIdentity },
    ArmDiscoveryDeadline { deadline: DiscoveryDeadline },
    ArmHandshakeDeadline { deadline: HandshakeDeadline },
    ArmRetryDeadline { deadline: RetryDeadline },
    AdoptSupervisor {
        process: SupervisorProcessIdentity,
        execution_id: ExecutionId,
        from_sequence: ObservationSequence,
    },
    RequestSupervisorShutdown { process: SupervisorProcessIdentity },
    ReportSupervisorUnavailable,
}

#[derive(Clone, Copy, Debug, PartialEq, Eq, Structural)]
pub enum SupervisorBindingError {
    UnexpectedEvent,
    StaleProcess,
    StaleDeadline,
    FailureCountOverflow,
    IncarnationOverflow,
    DeadlineOverflow,
}

impl SupervisorBindingError {
    pub open spec fn text(self) -> Seq<char> {
        match self {
            SupervisorBindingError::UnexpectedEvent =>
                "event is invalid in the current supervisor binding phase"@,
            SupervisorBindingError::StaleProcess =>
                "event refers to a stale supervisor process"@,
            SupervisorBindingError::StaleDeadline =>
                "event refers to a stale supervisor deadline"@,
            SupervisorBindingError::FailureCountOverflow =>
                "supervisor failure count overflowed"@,
            SupervisorBindingError::IncarnationOverflow => "supervisor incarnation overflowed"@,
            SupervisorBindingError::DeadlineOverflow =>
                "boot-relative supervisor deadline overflowed"@,
        }
    }

    pub fn message(&self) -> (message: String)
        ensures
            message@ == self.text(),
    {
        match self {
            SupervisorBindingError::UnexpectedEvent =>
                "event is invalid in the current supervisor binding phase".to_owned(),
            SupervisorBindingError::StaleProcess =>
                "event refers to a stale supervisor process".to_owned(),
            SupervisorBindingError::StaleDeadline =>
                "event refers to a stale supervisor deadline".to_owned(),
            SupervisorBindingError::FailureCountOverflow =>
                "supervisor failure count overflowed".to_owned(),
            SupervisorBindingError::IncarnationOverflow =>
                "supervisor incarnation overflowed".to_owned(),
            SupervisorBindingError::DeadlineOverflow =>
                "boot-relative supervisor deadline overflowed".to_owned(),
        }
    }
}

/// What an event makes of a binding, where `None` is the end of it, or why it is refused.
pub type BindingStep = Result<
    (Option<SupervisorBinding>, Seq<SupervisorBindingEffect>),
    SupervisorBindingError,
>;

impl SupervisorBinding {
    /// The failures so far.
    pub open spec fn failures(self) -> SupervisorFailureCount {
        match self {
            SupervisorBinding::Discovering { failures, .. } => failures,
            SupervisorBinding::LaunchPending { failures, .. } => failures,
            SupervisorBinding::AwaitingHandshake { failures, .. } => failures,
            SupervisorBinding::Attached { failures, .. } => failures,
            SupervisorBinding::RestartBackoff { failures, .. } => failures,
        }
    }

    /// The process that the binding is about.
    pub open spec fn process(self) -> SupervisorProcessIdentity {
        match self {
            SupervisorBinding::Discovering { process, .. } => process,
            SupervisorBinding::LaunchPending { process, .. } => process,
            SupervisorBinding::AwaitingHandshake { process, .. } => process,
            SupervisorBinding::Attached { process, .. } => process,
            SupervisorBinding::RestartBackoff { next_process, .. } => next_process,
        }
    }

    /// The process has failed: its successor is launched after a delay, unless the failures
    /// have used up what the policy grants.
    pub open spec fn after_process_failure(
        self,
        process: SupervisorProcessIdentity,
        at: BootInstant,
        policy: SupervisorLaunchPolicy,
    ) -> BindingStep {
        let count = self.failures().0 + 1;
        let retry_at = at.plus(policy.backoff.delay_nanos(count as nat));
        if self is RestartBackoff {
            Err(SupervisorBindingError::UnexpectedEvent)
        } else if process != self.process() {
            Err(SupervisorBindingError::StaleProcess)
        } else if count > u32::MAX {
            Err(SupervisorBindingError::FailureCountOverflow)
        } else if count >= policy.max_failures@ {
            Ok((None, seq![SupervisorBindingEffect::ReportSupervisorUnavailable]))
        } else if process.successor() is None {
            Err(SupervisorBindingError::IncarnationOverflow)
        } else if retry_at is None {
            Err(SupervisorBindingError::DeadlineOverflow)
        } else {
            let deadline = RetryDeadline(retry_at->0);
            Ok(
                (
                    Some(
                        SupervisorBinding::RestartBackoff {
                            next_process: process.successor()->0,
                            failures: SupervisorFailureCount(count as u32),
                            retry_at: deadline,
                        },
                    ),
                    seq![SupervisorBindingEffect::ArmRetryDeadline { deadline }],
                ),
            )
        }
    }

    /// The table of the state machine.
    pub open spec fn step(
        self,
        event: SupervisorBindingEvent,
        execution_id: ExecutionId,
        policy: SupervisorLaunchPolicy,
    ) -> BindingStep {
        match event {
            SupervisorBindingEvent::DiscoveryAttached { process, last_sequence } =>
                if self !is Discovering {
                    Err(SupervisorBindingError::UnexpectedEvent)
                } else if process != self.process() {
                    Err(SupervisorBindingError::StaleProcess)
                } else {
                    Ok(
                        (
                            Some(
                                SupervisorBinding::Attached {
                                    process,
                                    failures: self.failures(),
                                    last_sequence,
                                },
                            ),
                            seq![
                                SupervisorBindingEffect::AdoptSupervisor {
                                    process,
                                    execution_id,
                                    from_sequence: last_sequence,
                                },
                            ],
                        ),
                    )
                },
            SupervisorBindingEvent::DiscoveryFailed { process, at, .. } =>
                self.after_process_failure(process, at, policy),
            SupervisorBindingEvent::HandshakeFailed { process, at, .. } =>
                self.after_process_failure(process, at, policy),
            SupervisorBindingEvent::SupervisorExited { process, at } => self.after_process_failure(
                process,
                at,
                policy,
            ),
            SupervisorBindingEvent::LaunchFailed { process, at } => self.after_process_failure(
                process,
                at,
                policy,
            ),
            SupervisorBindingEvent::LaunchSucceeded { process, at } => if self !is LaunchPending {
                Err(SupervisorBindingError::UnexpectedEvent)
            } else if process != self.process() {
                Err(SupervisorBindingError::StaleProcess)
            } else {
                match at.plus(policy.handshake_timeout@) {
                    None => Err(SupervisorBindingError::DeadlineOverflow),
                    Some(instant) => {
                        let deadline = HandshakeDeadline(instant);
                        Ok(
                            (
                                Some(
                                    SupervisorBinding::AwaitingHandshake {
                                        process,
                                        failures: self.failures(),
                                        deadline,
                                    },
                                ),
                                seq![SupervisorBindingEffect::ArmHandshakeDeadline { deadline }],
                            ),
                        )
                    },
                }
            },
            SupervisorBindingEvent::HandshakeAccepted { process, last_sequence } =>
                if self !is AwaitingHandshake {
                    Err(SupervisorBindingError::UnexpectedEvent)
                } else if process != self.process() {
                    Err(SupervisorBindingError::StaleProcess)
                } else {
                    Ok(
                        (
                            Some(
                                SupervisorBinding::Attached {
                                    process,
                                    failures: self.failures(),
                                    last_sequence,
                                },
                            ),
                            seq![],
                        ),
                    )
                },
            SupervisorBindingEvent::RetryDeadlineReached { process, deadline } =>
                if self !is RestartBackoff {
                    Err(SupervisorBindingError::UnexpectedEvent)
                } else if process != self.process() {
                    Err(SupervisorBindingError::StaleProcess)
                } else if deadline != self->retry_at {
                    Err(SupervisorBindingError::StaleDeadline)
                } else {
                    Ok(
                        (
                            Some(
                                SupervisorBinding::LaunchPending {
                                    process,
                                    failures: self.failures(),
                                },
                            ),
                            seq![SupervisorBindingEffect::LaunchSupervisor { process }],
                        ),
                    )
                },
            SupervisorBindingEvent::ExecutionTerminated => Ok(
                (
                    None,
                    if self is LaunchPending || self is RestartBackoff {
                        seq![]
                    } else {
                        seq![
                            SupervisorBindingEffect::RequestSupervisorShutdown {
                                process: self.process(),
                            },
                        ]
                    },
                ),
            ),
        }
    }

    /// Feeds one event to the binding.
    pub fn transition(
        self,
        event: SupervisorBindingEvent,
        execution_id: ExecutionId,
        policy: SupervisorLaunchPolicy,
    ) -> (result: Result<
        Transition<Option<SupervisorBinding>, SupervisorBindingEffect>,
        SupervisorBindingError,
    >)
        ensures
            agrees(result, self.step(event, execution_id, policy)),
    {
        match event {
            SupervisorBindingEvent::DiscoveryAttached { process, last_sequence } =>
                self.discovery_attached(process, execution_id, last_sequence),
            SupervisorBindingEvent::DiscoveryFailed { process, at, failure: _ } =>
                self.process_failed(process, at, policy),
            SupervisorBindingEvent::HandshakeFailed { process, at, failure: _ } =>
                self.process_failed(process, at, policy),
            SupervisorBindingEvent::SupervisorExited { process, at } => self.process_failed(
                process,
                at,
                policy,
            ),
            SupervisorBindingEvent::LaunchSucceeded { process, at } => self.launch_succeeded(
                process,
                at,
                policy,
            ),
            SupervisorBindingEvent::LaunchFailed { process, at } => self.process_failed(
                process,
                at,
                policy,
            ),
            SupervisorBindingEvent::HandshakeAccepted { process, last_sequence } =>
                self.handshake_accepted(process, last_sequence),
            SupervisorBindingEvent::RetryDeadlineReached { process, deadline } =>
                self.retry_deadline_reached(process, deadline),
            SupervisorBindingEvent::ExecutionTerminated => Ok(self.terminate()),
        }
    }

    fn discovery_attached(
        self,
        process: SupervisorProcessIdentity,
        execution_id: ExecutionId,
        last_sequence: ObservationSequence,
    ) -> (result: Result<
        Transition<Option<SupervisorBinding>, SupervisorBindingEffect>,
        SupervisorBindingError,
    >)
        ensures
            forall|policy: SupervisorLaunchPolicy|
                agrees(
                    result,
                    #[trigger] self.step(
                        SupervisorBindingEvent::DiscoveryAttached { process, last_sequence },
                        execution_id,
                        policy,
                    ),
                ),
    {
        match self {
            SupervisorBinding::Discovering { process: current, failures, .. } => {
                if current != process {
                    return Err(SupervisorBindingError::StaleProcess);
                }
                Ok(
                    Transition::with_effect(
                        Some(SupervisorBinding::Attached { process, failures, last_sequence }),
                        SupervisorBindingEffect::AdoptSupervisor {
                            process,
                            execution_id,
                            from_sequence: last_sequence,
                        },
                    ),
                )
            },
            _ => Err(SupervisorBindingError::UnexpectedEvent),
        }
    }

    fn launch_succeeded(
        self,
        process: SupervisorProcessIdentity,
        at: BootInstant,
        policy: SupervisorLaunchPolicy,
    ) -> (result: Result<
        Transition<Option<SupervisorBinding>, SupervisorBindingEffect>,
        SupervisorBindingError,
    >)
        ensures
            forall|execution_id: ExecutionId|
                agrees(
                    result,
                    #[trigger] self.step(
                        SupervisorBindingEvent::LaunchSucceeded { process, at },
                        execution_id,
                        policy,
                    ),
                ),
    {
        match self {
            SupervisorBinding::LaunchPending { process: current, failures } => {
                if current != process {
                    return Err(SupervisorBindingError::StaleProcess);
                }
                let deadline: HandshakeDeadline = match at.checked_add(
                    policy.handshake_timeout().get(),
                ) {
                    Some(instant) => HandshakeDeadline::at(instant),
                    None => {
                        return Err(SupervisorBindingError::DeadlineOverflow);
                    },
                };
                Ok(
                    Transition::with_effect(
                        Some(SupervisorBinding::AwaitingHandshake { process, failures, deadline }),
                        SupervisorBindingEffect::ArmHandshakeDeadline { deadline },
                    ),
                )
            },
            _ => Err(SupervisorBindingError::UnexpectedEvent),
        }
    }

    fn handshake_accepted(
        self,
        process: SupervisorProcessIdentity,
        last_sequence: ObservationSequence,
    ) -> (result: Result<
        Transition<Option<SupervisorBinding>, SupervisorBindingEffect>,
        SupervisorBindingError,
    >)
        ensures
            forall|execution_id: ExecutionId, policy: SupervisorLaunchPolicy|
                agrees(
                    result,
                    #[trigger] self.step(
                        SupervisorBindingEvent::HandshakeAccepted { process, last_sequence },
                        execution_id,
                        policy,
                    ),
                ),
    {
        match self {
            SupervisorBinding::AwaitingHandshake { process: current, failures, .. } => {
                if current != process {
                    return Err(SupervisorBindingError::StaleProcess);
                }
                Ok(
                    Transition::without_effects(
                        Some(SupervisorBinding::Attached { process, failures, last_sequence }),
                    ),
                )
            },
            _ => Err(SupervisorBindingError::UnexpectedEvent),
        }
    }

    fn process_failed(
        self,
        process: SupervisorProcessIdentity,
        at: BootInstant,
        policy: SupervisorLaunchPolicy,
    ) -> (result: Result<
        Transition<Option<SupervisorBinding>, SupervisorBindingEffect>,
        SupervisorBindingError,
    >)
        ensures
            agrees(result, self.after_process_failure(process, at, policy)),
    {
        let (current, failures): (SupervisorProcessIdentity, SupervisorFailureCount) = match self {
            SupervisorBinding::Discovering { process, failures, .. } => (process, failures),
            SupervisorBinding::LaunchPending { process, failures } => (process, failures),
            SupervisorBinding::AwaitingHandshake { process, failures, .. } => (process, failures),
            SupervisorBinding::Attached { process, failures, .. } => (process, failures),
            SupervisorBinding::RestartBackoff { .. } => {
                return Err(SupervisorBindingError::UnexpectedEvent);
            },
        };
        if current != process {
            return Err(SupervisorBindingError::StaleProcess);
        }
        let failures: SupervisorFailureCount = match failures.after_failure() {
            Some(failures) => failures,
            None => {
                return Err(SupervisorBindingError::FailureCountOverflow);
            },
        };
        if !policy.permits_retry_after(failures) {
            return Ok(
                Transition::with_effect(None, SupervisorBindingEffect::ReportSupervisorUnavailable),
            );
        }
        let next_process: SupervisorProcessIdentity = match process.next_incarnation() {
            Some(next) => next,
            None => {
                return Err(SupervisorBindingError::IncarnationOverflow);
            },
        };
        let retry: RetryOrdinal = match failures.retry_ordinal() {
            Some(retry) => retry,
            None => {
                return Err(SupervisorBindingError::FailureCountOverflow);
            },
        };
        let retry_at: RetryDeadline = match at.checked_add(policy.backoff().delay_for(retry)) {
            Some(instant) => RetryDeadline::at(instant),
            None => {
                return Err(SupervisorBindingError::DeadlineOverflow);
            },
        };
        Ok(
            Transition::with_effect(
                Some(SupervisorBinding::RestartBackoff { next_process, failures, retry_at }),
                SupervisorBindingEffect::ArmRetryDeadline { deadline: retry_at },
            ),
        )
    }

    fn retry_deadline_reached(
        self,
        process: SupervisorProcessIdentity,
        deadline: RetryDeadline,
    ) -> (result: Result<
        Transition<Option<SupervisorBinding>, SupervisorBindingEffect>,
        SupervisorBindingError,
    >)
        ensures
            forall|execution_id: ExecutionId, policy: SupervisorLaunchPolicy|
                agrees(
                    result,
                    #[trigger] self.step(
                        SupervisorBindingEvent::RetryDeadlineReached { process, deadline },
                        execution_id,
                        policy,
                    ),
                ),
    {
        match self {
            SupervisorBinding::RestartBackoff { next_process, failures, retry_at } => {
                if next_process != process {
                    return Err(SupervisorBindingError::StaleProcess);
                }
                if retry_at != deadline {
                    return Err(SupervisorBindingError::StaleDeadline);
                }
                Ok(
                    Transition::with_effect(
                        Some(SupervisorBinding::LaunchPending { process, failures }),
                        SupervisorBindingEffect::LaunchSupervisor { process },
                    ),
                )
            },
            _ => Err(SupervisorBindingError::UnexpectedEvent),
        }
    }

    fn terminate(self) -> (transition: Transition<
        Option<SupervisorBinding>,
        SupervisorBindingEffect,
    >)
        ensures
            forall|execution_id: ExecutionId, policy: SupervisorLaunchPolicy|
                Ok::<
                    (Option<SupervisorBinding>, Seq<SupervisorBindingEffect>),
                    SupervisorBindingError,
                >(transition@) == #[trigger] self.step(
                    SupervisorBindingEvent::ExecutionTerminated,
                    execution_id,
                    policy,
                ),
    {
        match self {
            SupervisorBinding::Discovering { process, .. }
            | SupervisorBinding::AwaitingHandshake { process, .. }
            | SupervisorBinding::Attached { process, .. } => Transition::with_effect(
                None,
                SupervisorBindingEffect::RequestSupervisorShutdown { process },
            ),
            SupervisorBinding::LaunchPending { .. } | SupervisorBinding::RestartBackoff { .. } =>
                Transition::without_effects(None),
        }
    }
}

/// Failures are never forgotten and stay below what the policy grants: they grow by one with
/// each failed process, and a binding that goes on has failed less often than the limit.
pub proof fn law_supervisor_failures_are_bounded(
    binding: SupervisorBinding,
    event: SupervisorBindingEvent,
    execution_id: ExecutionId,
    policy: SupervisorLaunchPolicy,
)
    requires
        binding.failures().0 < policy.max_failures@,
        binding.step(event, execution_id, policy) matches Ok(step) && step.0 is Some,
    ensures
        ({
            let next = binding.step(event, execution_id, policy)->Ok_0.0->0;
            &&& next.failures().0 < policy.max_failures@
            &&& next.failures().0 == if next is RestartBackoff {
                binding.failures().0 + 1
            } else {
                binding.failures().0 as int
            }
        }),
{
}

/// A binding keeps its supervisor: the process changes only with a failure, and then to the
/// next incarnation.
pub proof fn law_supervisor_incarnations_follow_each_other(
    binding: SupervisorBinding,
    event: SupervisorBindingEvent,
    execution_id: ExecutionId,
    policy: SupervisorLaunchPolicy,
)
    requires
        binding.step(event, execution_id, policy) matches Ok(step) && step.0 is Some,
    ensures
        ({
            let next = binding.step(event, execution_id, policy)->Ok_0.0->0;
            &&& next.process().supervisor_id == binding.process().supervisor_id
            &&& next.process().incarnation@ == if next is RestartBackoff {
                binding.process().incarnation@ + 1
            } else {
                binding.process().incarnation@
            }
        }),
{
    broadcast use NonZeroU32::lemma_view_of;

}

/// An event about another process is refused, whatever the phase.
pub proof fn law_stale_supervisors_are_refused(
    binding: SupervisorBinding,
    event: SupervisorBindingEvent,
    execution_id: ExecutionId,
    policy: SupervisorLaunchPolicy,
)
    requires
        match event {
            SupervisorBindingEvent::DiscoveryAttached { process, .. } => process
                != binding.process(),
            SupervisorBindingEvent::DiscoveryFailed { process, .. } => process
                != binding.process(),
            SupervisorBindingEvent::LaunchSucceeded { process, .. } => process
                != binding.process(),
            SupervisorBindingEvent::LaunchFailed { process, .. } => process != binding.process(),
            SupervisorBindingEvent::HandshakeAccepted { process, .. } => process
                != binding.process(),
            SupervisorBindingEvent::HandshakeFailed { process, .. } => process
                != binding.process(),
            SupervisorBindingEvent::SupervisorExited { process, .. } => process
                != binding.process(),
            SupervisorBindingEvent::RetryDeadlineReached { process, .. } => process
                != binding.process(),
            SupervisorBindingEvent::ExecutionTerminated => false,
        },
    ensures
        binding.step(event, execution_id, policy) is Err,
{
}

} // verus!
