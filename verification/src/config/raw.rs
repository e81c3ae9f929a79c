//! Definitions as they are written, and the rules by which they become valid ones.

use vstd::prelude::*;
use vstd::string::*;
use vstd::utf8::encode_utf8;

use crate::codes::collect_codes;
use crate::config::canonical::{process_digest_input, process_hash, sha256_of};
use crate::config::model::{
    name_refusal, texts, EnvironmentName, EnvironmentOverlay, InvalidEnvironmentName,
    LoggingPolicy, ProcessDefinition, RetentionDuration, RetentionLimit, StopCommand,
    StopDefinition, WorkloadDefinition, WorkloadKind,
};
use crate::ids::{ProcessDefinitionHash, WorkloadId};
use crate::num::NonZeroU32;
use crate::ordered::{ascending, TextMap};
use crate::paths::{extension, path_extension};
use crate::restart::{
    BackoffPolicy, ExecutionRestartPolicy, InvalidBackoffPolicy, JobRestartPolicy, JobRetryPolicy,
    ServiceRestartPolicy, ServiceRetryLimit, ServiceRetryPolicy,
};
use crate::restart::{
    DEFAULT_BACKOFF_INITIAL_MILLIS, DEFAULT_BACKOFF_MAXIMUM_SECS, DEFAULT_BACKOFF_MULTIPLIER,
    DEFAULT_SERVICE_MAX_RESTARTS, DEFAULT_SERVICE_RESET_AFTER_SECS,
};
use crate::text::{
    chars_of, debug_form, debug_text, decimal, eq_ignore_ascii_case, holds_char, join,
    same_ignoring_ascii_case, same_text, text_of, upper_form,
};
use crate::time::{Duration, NonZeroDuration};
use crate::time::{NANOS_PER_MILLI, NANOS_PER_SEC};

verus! {

/// Seconds that a stop may take, by default.
pub const DEFAULT_STOP_TIMEOUT_SECS: u64 = 10;

/// Seconds after which a log segment is closed, by default.
pub const DEFAULT_SEGMENT_AGE_SECS: u64 = 3600;

/// Seconds that a log segment is kept, by default.
pub const DEFAULT_RETENTION_AGE_SECS: u64 = 2_592_000;

/// Why a definition is refused.
#[derive(Debug, PartialEq, Eq)]
pub enum DefinitionError {
    InvalidField { field: &'static str, reason: String },
    FieldNotAllowed { field: &'static str, context: &'static str },
    FieldRequired { field: &'static str, context: &'static str },
}

/// A refusal as mathematical text.
pub enum Refusal {
    InvalidField { field: Seq<char>, reason: Seq<char> },
    FieldNotAllowed { field: Seq<char>, context: Seq<char> },
    FieldRequired { field: Seq<char>, context: Seq<char> },
}

impl Refusal {
    pub open spec fn invalid(field: Seq<char>, reason: Seq<char>) -> Refusal {
        Refusal::InvalidField { field, reason }
    }

    pub open spec fn text(self) -> Seq<char> {
        match self {
            Refusal::InvalidField { field, reason } => "invalid `"@ + field + "`: "@ + reason,
            Refusal::FieldNotAllowed { field, context } => "`"@ + field
                + "` is not allowed when "@ + context,
            Refusal::FieldRequired { field, context } => "`"@ + field + "` is required when "@
                + context,
        }
    }
}

impl DefinitionError {
    pub open spec fn view(&self) -> Refusal {
        match self {
            DefinitionError::InvalidField { field, reason } => Refusal::InvalidField {
                field: field@,
                reason: reason@,
            },
            DefinitionError::FieldNotAllowed { field, context } => Refusal::FieldNotAllowed {
                field: field@,
                context: context@,
            },
            DefinitionError::FieldRequired { field, context } => Refusal::FieldRequired {
                field: field@,
                context: context@,
            },
        }
    }

    pub fn message(&self) -> (message: String)
        ensures
            message@ == self@.text(),
    {
        match self {
            DefinitionError::InvalidField { field, reason } => join(
                join(join("invalid `", field).as_str(), "`: ").as_str(),
                reason.as_str(),
            ),
            DefinitionError::FieldNotAllowed { field, context } => join(
                join(join("`", field).as_str(), "` is not allowed when ").as_str(),
                context,
            ),
            DefinitionError::FieldRequired { field, context } => join(
                join(join("`", field).as_str(), "` is required when ").as_str(),
                context,
            ),
        }
    }
}

fn invalid(field: &'static str, reason: &str) -> (error: DefinitionError)
    ensures
        error@ == Refusal::invalid(field@, reason@),
{
    DefinitionError::InvalidField { field, reason: reason.to_owned() }
}

/// Whether a rule answered as its mathematical counterpart does.
pub open spec fn rules_agree<T>(
    result: Result<T, DefinitionError>,
    expected: Result<T, Refusal>,
) -> bool {
    match result {
        Ok(value) => expected == Ok::<T, Refusal>(value),
        Err(error) => expected == Err::<T, Refusal>(error@),
    }
}

/// A definition as it is written.
#[derive(Debug, PartialEq, Eq)]
pub struct RawDefinition {
    pub kind: RawKind,
    pub executable: String,
    pub arguments: Vec<String>,
    pub working_directory: Option<String>,
    pub success_exit_codes: Option<Vec<u32>>,
    pub environment: RawEnvironment,
    pub restart: Option<RawRestart>,
    pub stop: Option<RawStop>,
    pub logging: Option<RawLogging>,
}

#[derive(Clone, Copy, Debug, PartialEq, Eq, Structural)]
pub enum RawKind {
    Service,
    Job,
}

/// Variables that are set, in the order of their written names, and names that are taken away.
#[derive(Debug, PartialEq, Eq)]
pub struct RawEnvironment {
    pub set: Vec<(String, String)>,
    pub unset: Vec<String>,
}

#[derive(Debug, PartialEq, Eq)]
pub struct RawRestart {
    pub policy: Option<RawRestartPolicy>,
    pub max_restarts: Option<RawRestartLimit>,
    pub reset_after: Option<Duration>,
    pub backoff: Option<RawBackoff>,
}

#[derive(Clone, Copy, Debug, PartialEq, Eq, Structural)]
pub enum RawRestartPolicy {
    Never,
    OnFailure,
    Always,
}

#[derive(Debug, PartialEq, Eq)]
pub enum RawRestartLimit {
    Finite(u32),
    Keyword(String),
}

#[derive(Clone, Copy, Debug, PartialEq, Eq, Structural)]
pub struct RawBackoff {
    pub initial: Option<Duration>,
    pub multiplier: Option<u32>,
    pub maximum: Option<Duration>,
}

#[derive(Debug, PartialEq, Eq)]
pub struct RawStop {
    pub method: Option<RawStopMethod>,
    pub timeout: Option<Duration>,
    pub command: Option<RawStopCommand>,
}

#[derive(Clone, Copy, Debug, PartialEq, Eq, Structural)]
pub enum RawStopMethod {
    CtrlBreak,
    Command,
    Kill,
}

#[derive(Debug, PartialEq, Eq)]
pub struct RawStopCommand {
    pub executable: String,
    pub arguments: Vec<String>,
}

#[derive(Debug, PartialEq, Eq)]
pub struct RawLogging {
    pub capture: Option<bool>,
    pub segment_size: Option<String>,
    pub segment_age: Option<Duration>,
    pub retention_size: Option<String>,
    pub retention_age: Option<RawRetentionAge>,
}

#[derive(Debug, PartialEq, Eq)]
pub enum RawRetentionAge {
    Value(Duration),
    Keyword(String),
}

/// Why a text cannot stand in a field, if it cannot.
pub open spec fn text_refusal(field: Seq<char>, value: Seq<char>, allow_empty: bool) -> Option<
    Refusal,
> {
    if !allow_empty && value.len() == 0 {
        Some(Refusal::invalid(field, "must not be empty"@))
    } else if value.contains('\0') {
        Some(Refusal::invalid(field, "must not contain a null character"@))
    } else {
        None
    }
}

/// Whether files with this extension run only inside a shell.
pub open spec fn needs_shell(extension: Seq<char>) -> bool {
    same_ignoring_ascii_case(extension, "cmd"@) || same_ignoring_ascii_case(extension, "bat"@)
        || same_ignoring_ascii_case(extension, "ps1"@)
}

/// Why a text cannot name an executable, if it cannot.
pub open spec fn executable_refusal(field: Seq<char>, value: Seq<char>) -> Option<Refusal> {
    if text_refusal(field, value, false) is Some {
        text_refusal(field, value, false)
    } else {
        match extension(value) {
            Some(found) if needs_shell(found) => Some(
                Refusal::invalid(
                    field,
                    "."@ + found + " requires an explicit shell executable"@,
                ),
            ),
            _ => None,
        }
    }
}

/// Why a list of texts cannot stand in a field, if it cannot.
pub open spec fn arguments_refusal(field: Seq<char>, values: Seq<Seq<char>>) -> Option<Refusal> {
    if exists|i: int| 0 <= i < values.len() && (#[trigger] values[i]).contains('\0') {
        Some(Refusal::invalid(field, "must not contain a null character"@))
    } else {
        None
    }
}

fn validate_text(field: &'static str, value: &str, allow_empty: bool) -> (result: Result<
    (),
    DefinitionError,
>)
    ensures
        match result {
            Ok(_) => text_refusal(field@, value@, allow_empty) is None,
            Err(error) => text_refusal(field@, value@, allow_empty) == Some(error@),
        },
{
    if !allow_empty && value.is_empty() {
        return Err(invalid(field, "must not be empty"));
    }
    if holds_char(value, '\0') {
        return Err(invalid(field, "must not contain a null character"));
    }
    Ok(())
}

fn validate_executable(field: &'static str, value: &str) -> (result: Result<(), DefinitionError>)
    ensures
        match result {
            Ok(_) => executable_refusal(field@, value@) is None,
            Err(error) => executable_refusal(field@, value@) == Some(error@),
        },
{
    validate_text(field, value, false)?;
    match path_extension(value) {
        Some(found) => {
            let cmd: Vec<char> = chars_of("cmd");
            let bat: Vec<char> = chars_of("bat");
            let ps1: Vec<char> = chars_of("ps1");
            if eq_ignore_ascii_case(found.as_slice(), cmd.as_slice()) || eq_ignore_ascii_case(
                found.as_slice(),
                bat.as_slice(),
            ) || eq_ignore_ascii_case(found.as_slice(), ps1.as_slice()) {
                let reason: String = join(
                    join(".", text_of(found.as_slice()).as_str()).as_str(),
                    " requires an explicit shell executable",
                );
                return Err(invalid(field, reason.as_str()));
            }
            Ok(())
        },
        None => Ok(()),
    }
}

fn validate_arguments(field: &'static str, values: &Vec<String>) -> (result: Result<
    (),
    DefinitionError,
>)
    ensures
        match result {
            Ok(_) => arguments_refusal(field@, texts(values@)) is None,
            Err(error) => arguments_refusal(field@, texts(values@)) == Some(error@),
        },
{
    let ghost all = texts(values@);
    let mut index: usize = 0;
    while index < values.len()
        invariant
            index <= values.len(),
            all == texts(values@),
            forall|i: int| 0 <= i < index ==> !(#[trigger] all[i]).contains('\0'),
        decreases values.len() - index,
    {
        assert(all[index as int] == values@[index as int]@);
        validate_text(field, values[index].as_str(), true)?;
        index += 1;
    }
    Ok(())
}

/// A span that must be positive.
pub open spec fn positive(field: Seq<char>, value: Duration) -> Result<NonZeroDuration, Refusal> {
    if value@ == 0 {
        Err(Refusal::invalid(field, "must be positive"@))
    } else {
        Ok(NonZeroDuration::of(value))
    }
}

fn non_zero_duration(field: &'static str, value: Duration) -> (result: Result<
    NonZeroDuration,
    DefinitionError,
>)
    ensures
        rules_agree(result, positive(field@, value)),
{
    match NonZeroDuration::new(value) {
        Some(value) => Ok(value),
        None => Err(invalid(field, "must be positive")),
    }
}

pub open spec fn millis(millis: u64) -> Duration {
    Duration::of((millis * NANOS_PER_MILLI) as nat)
}

pub open spec fn seconds(secs: u64) -> Duration {
    Duration::of((secs * NANOS_PER_SEC) as nat)
}

/// The backoff between attempts. What is not said is a quarter of a second, doubled each time
/// up to half a minute.
pub open spec fn backoff_of(raw: RawBackoff) -> Result<BackoffPolicy, Refusal> {
    let initial = positive(
        "restart.backoff.initial"@,
        raw.initial.unwrap_or(millis(DEFAULT_BACKOFF_INITIAL_MILLIS)),
    );
    let maximum = positive(
        "restart.backoff.maximum"@,
        raw.maximum.unwrap_or(seconds(DEFAULT_BACKOFF_MAXIMUM_SECS)),
    );
    let multiplier = raw.multiplier.unwrap_or(DEFAULT_BACKOFF_MULTIPLIER);
    if initial is Err {
        Err(initial->Err_0)
    } else if maximum is Err {
        Err(maximum->Err_0)
    } else if multiplier == 0 {
        Err(Refusal::invalid("restart.backoff.multiplier"@, "must be positive"@))
    } else if maximum->Ok_0@ < initial->Ok_0@ {
        Err(
            Refusal::invalid(
                "restart.backoff"@,
                InvalidBackoffPolicy::MaximumLessThanInitial.text(),
            ),
        )
    } else {
        Ok(
            BackoffPolicy::of(
                initial->Ok_0,
                NonZeroU32::of(multiplier as nat),
                maximum->Ok_0,
            ),
        )
    }
}

impl RawBackoff {
    pub fn into_policy(self) -> (result: Result<BackoffPolicy, DefinitionError>)
        ensures
            rules_agree(result, backoff_of(self)),
    {
        let initial: NonZeroDuration = non_zero_duration(
            "restart.backoff.initial",
            match self.initial {
                Some(value) => value,
                None => Duration::from_millis(DEFAULT_BACKOFF_INITIAL_MILLIS),
            },
        )?;
        let maximum: NonZeroDuration = non_zero_duration(
            "restart.backoff.maximum",
            match self.maximum {
                Some(value) => value,
                None => Duration::from_secs(DEFAULT_BACKOFF_MAXIMUM_SECS),
            },
        )?;
        let multiplier: u32 = match self.multiplier {
            Some(value) => value,
            None => DEFAULT_BACKOFF_MULTIPLIER,
        };
        let multiplier: NonZeroU32 = match NonZeroU32::new(multiplier) {
            Some(value) => value,
            None => {
                return Err(invalid("restart.backoff.multiplier", "must be positive"));
            },
        };
        match BackoffPolicy::new(initial, multiplier, maximum) {
            Ok(policy) => Ok(policy),
            Err(error) => Err(invalid("restart.backoff", error.message().as_str())),
        }
    }
}

impl Default for RawBackoff {
    fn default() -> (raw: RawBackoff)
        ensures
            raw == (RawBackoff { initial: None, multiplier: None, maximum: None }),
    {
        RawBackoff { initial: None, multiplier: None, maximum: None }
    }
}

/// Nothing said about backoff.
pub open spec fn silent_backoff() -> RawBackoff {
    RawBackoff { initial: None, multiplier: None, maximum: None }
}

/// Nothing said about restarts.
pub open spec fn silent_restart() -> RawRestart {
    RawRestart { policy: None, max_restarts: None, reset_after: None, backoff: None }
}

impl Default for RawRestart {
    fn default() -> (raw: RawRestart)
        ensures
            raw == silent_restart(),
    {
        RawRestart { policy: None, max_restarts: None, reset_after: None, backoff: None }
    }
}

/// Why retries cannot be spoken of, if they are.
pub open spec fn retry_fields_refusal(raw: RawRestart, context: Seq<char>) -> Option<Refusal> {
    if raw.max_restarts is Some {
        Some(Refusal::FieldNotAllowed { field: "restart.max_restarts"@, context })
    } else if raw.reset_after is Some {
        Some(Refusal::FieldNotAllowed { field: "restart.reset_after"@, context })
    } else if raw.backoff is Some {
        Some(Refusal::FieldNotAllowed { field: "restart.backoff"@, context })
    } else {
        None
    }
}

fn reject_retry_fields(raw: &RawRestart, context: &'static str) -> (result: Result<
    (),
    DefinitionError,
>)
    ensures
        match result {
            Ok(_) => retry_fields_refusal(*raw, context@) is None,
            Err(error) => retry_fields_refusal(*raw, context@) == Some(error@),
        },
{
    if raw.max_restarts.is_some() {
        return Err(DefinitionError::FieldNotAllowed { field: "restart.max_restarts", context });
    }
    if raw.reset_after.is_some() {
        return Err(DefinitionError::FieldNotAllowed { field: "restart.reset_after", context });
    }
    if raw.backoff.is_some() {
        return Err(DefinitionError::FieldNotAllowed { field: "restart.backoff", context });
    }
    Ok(())
}

/// The policy of a service. By default a service is restarted on failure.
pub open spec fn service_restart_of(raw: RawRestart) -> Result<ExecutionRestartPolicy, Refusal> {
    let never = ExecutionRestartPolicy::Service(ServiceRestartPolicy::Never);
    let policy = raw.policy.unwrap_or(RawRestartPolicy::OnFailure);
    let reset_after = positive(
        "restart.reset_after"@,
        raw.reset_after.unwrap_or(seconds(DEFAULT_SERVICE_RESET_AFTER_SECS)),
    );
    let backoff = backoff_of(raw.backoff.unwrap_or(silent_backoff()));
    if policy is Never {
        match retry_fields_refusal(raw, "restart.policy is never"@) {
            Some(refusal) => Err(refusal),
            None => Ok(never),
        }
    } else if raw.max_restarts == Some(RawRestartLimit::Finite(0)) {
        Ok(never)
    } else if raw.max_restarts matches Some(RawRestartLimit::Keyword(keyword)) && keyword@
        != "unlimited"@ {
        Err(
            Refusal::invalid(
                "restart.max_restarts"@,
                "unknown value "@ + debug_form(raw.max_restarts->0->Keyword_0@),
            ),
        )
    } else if reset_after is Err {
        Err(reset_after->Err_0)
    } else if backoff is Err {
        Err(backoff->Err_0)
    } else {
        let retry = ServiceRetryPolicy {
            limit: match raw.max_restarts {
                None => ServiceRetryLimit::Finite(
                    NonZeroU32::of(DEFAULT_SERVICE_MAX_RESTARTS as nat),
                ),
                Some(RawRestartLimit::Finite(value)) => ServiceRetryLimit::Finite(
                    NonZeroU32::of(value as nat),
                ),
                Some(RawRestartLimit::Keyword(_)) => ServiceRetryLimit::Unlimited,
            },
            reset_after: reset_after->Ok_0,
            backoff: backoff->Ok_0,
        };
        Ok(
            ExecutionRestartPolicy::Service(
                if policy is Always {
                    ServiceRestartPolicy::Always(retry)
                } else {
                    ServiceRestartPolicy::OnFailure(retry)
                },
            ),
        )
    }
}

fn service_restart_policy(raw: RawRestart) -> (result: Result<
    ExecutionRestartPolicy,
    DefinitionError,
>)
    ensures
        rules_agree(result, service_restart_of(raw)),
{
    let policy: RawRestartPolicy = match raw.policy {
        Some(policy) => policy,
        None => RawRestartPolicy::OnFailure,
    };
    if policy == RawRestartPolicy::Never {
        reject_retry_fields(&raw, "restart.policy is never")?;
        return Ok(ExecutionRestartPolicy::Service(ServiceRestartPolicy::Never));
    }
    let limit: ServiceRetryLimit = match raw.max_restarts {
        None => ServiceRetryLimit::Finite(NonZeroU32::new(DEFAULT_SERVICE_MAX_RESTARTS).unwrap()),
        Some(RawRestartLimit::Finite(value)) => match NonZeroU32::new(value) {
            Some(value) => ServiceRetryLimit::Finite(value),
            None => {
                return Ok(ExecutionRestartPolicy::Service(ServiceRestartPolicy::Never));
            },
        },
        Some(RawRestartLimit::Keyword(keyword)) => {
            if !same_text(keyword.as_str(), "unlimited") {
                return Err(
                    invalid(
                        "restart.max_restarts",
                        join(
                            "unknown value ",
                            debug_text(keyword.as_str()).as_str(),
                        ).as_str(),
                    ),
                );
            }
            ServiceRetryLimit::Unlimited
        },
    };
    let reset_after: NonZeroDuration = non_zero_duration(
        "restart.reset_after",
        match raw.reset_after {
            Some(value) => value,
            None => Duration::from_secs(DEFAULT_SERVICE_RESET_AFTER_SECS),
        },
    )?;
    let backoff: RawBackoff = match raw.backoff {
        Some(backoff) => backoff,
        None => RawBackoff::default(),
    };
    let retry: ServiceRetryPolicy = ServiceRetryPolicy::new(
        limit,
        reset_after,
        backoff.into_policy()?,
    );
    Ok(
        ExecutionRestartPolicy::Service(
            match policy {
                RawRestartPolicy::Always => ServiceRestartPolicy::Always(retry),
                _ => ServiceRestartPolicy::OnFailure(retry),
            },
        ),
    )
}

/// The policy of a job. By default a job is not restarted.
pub open spec fn job_restart_of(raw: RawRestart) -> Result<ExecutionRestartPolicy, Refusal> {
    let never = ExecutionRestartPolicy::Job(JobRestartPolicy::Never);
    let backoff = backoff_of(raw.backoff.unwrap_or(silent_backoff()));
    match raw.policy.unwrap_or(RawRestartPolicy::Never) {
        RawRestartPolicy::Never => match retry_fields_refusal(raw, "restart.policy is never"@) {
            Some(refusal) => Err(refusal),
            None => Ok(never),
        },
        RawRestartPolicy::Always => Err(
            Refusal::invalid("restart.policy"@, "jobs do not support always"@),
        ),
        RawRestartPolicy::OnFailure => if raw.reset_after is Some {
            Err(
                Refusal::FieldNotAllowed {
                    field: "restart.reset_after"@,
                    context: "the workload is a job"@,
                },
            )
        } else {
            match raw.max_restarts {
                None => Err(
                    Refusal::FieldRequired {
                        field: "restart.max_restarts"@,
                        context: "a job uses on-failure restart"@,
                    },
                ),
                Some(RawRestartLimit::Keyword(keyword)) => Err(
                    Refusal::invalid(
                        "restart.max_restarts"@,
                        "jobs require a finite integer, got "@ + debug_form(keyword@),
                    ),
                ),
                Some(RawRestartLimit::Finite(value)) => if value == 0 {
                    Ok(never)
                } else if backoff is Err {
                    Err(backoff->Err_0)
                } else {
                    Ok(
                        ExecutionRestartPolicy::Job(
                            JobRestartPolicy::OnFailure(
                                JobRetryPolicy {
                                    max_restarts: NonZeroU32::of(value as nat),
                                    backoff: backoff->Ok_0,
                                },
                            ),
                        ),
                    )
                },
            }
        },
    }
}

fn job_restart_policy(raw: RawRestart) -> (result: Result<ExecutionRestartPolicy, DefinitionError>)
    ensures
        rules_agree(result, job_restart_of(raw)),
{
    let policy: RawRestartPolicy = match raw.policy {
        Some(policy) => policy,
        None => RawRestartPolicy::Never,
    };
    match policy {
        RawRestartPolicy::Never => {
            reject_retry_fields(&raw, "restart.policy is never")?;
            Ok(ExecutionRestartPolicy::Job(JobRestartPolicy::Never))
        },
        RawRestartPolicy::Always => Err(invalid("restart.policy", "jobs do not support always")),
        RawRestartPolicy::OnFailure => {
            if raw.reset_after.is_some() {
                return Err(
                    DefinitionError::FieldNotAllowed {
                        field: "restart.reset_after",
                        context: "the workload is a job",
                    },
                );
            }
            let max_restarts: NonZeroU32 = match raw.max_restarts {
                Some(RawRestartLimit::Finite(value)) => match NonZeroU32::new(value) {
                    Some(value) => value,
                    None => {
                        return Ok(ExecutionRestartPolicy::Job(JobRestartPolicy::Never));
                    },
                },
                Some(RawRestartLimit::Keyword(keyword)) => {
                    return Err(
                        invalid(
                            "restart.max_restarts",
                            join(
                                "jobs require a finite integer, got ",
                                debug_text(keyword.as_str()).as_str(),
                            ).as_str(),
                        ),
                    );
                },
                None => {
                    return Err(
                        DefinitionError::FieldRequired {
                            field: "restart.max_restarts",
                            context: "a job uses on-failure restart",
                        },
                    );
                },
            };
            let backoff: RawBackoff = match raw.backoff {
                Some(backoff) => backoff,
                None => RawBackoff::default(),
            };
            Ok(
                ExecutionRestartPolicy::Job(
                    JobRestartPolicy::OnFailure(
                        JobRetryPolicy::new(max_restarts, backoff.into_policy()?),
                    ),
                ),
            )
        },
    }
}

/// The restart policy of a workload.
pub open spec fn restart_of(kind: WorkloadKind, raw: Option<RawRestart>) -> Result<
    ExecutionRestartPolicy,
    Refusal,
> {
    let raw = raw.unwrap_or(silent_restart());
    match kind {
        WorkloadKind::Service => service_restart_of(raw),
        WorkloadKind::Job => job_restart_of(raw),
    }
}

pub fn restart_policy(kind: WorkloadKind, raw: Option<RawRestart>) -> (result: Result<
    ExecutionRestartPolicy,
    DefinitionError,
>)
    ensures
        rules_agree(result, restart_of(kind, raw)),
{
    let raw: RawRestart = match raw {
        Some(raw) => raw,
        None => RawRestart::default(),
    };
    match kind {
        WorkloadKind::Service => service_restart_policy(raw),
        WorkloadKind::Job => job_restart_policy(raw),
    }
}

/// How a workload is stopped. By default it is sent a break and given ten seconds.
pub open spec fn stop_of(raw: Option<RawStop>) -> Result<StopDefinition, Refusal> {
    let raw = raw.unwrap_or(RawStop { method: None, timeout: None, command: None });
    match raw.method.unwrap_or(RawStopMethod::CtrlBreak) {
        RawStopMethod::CtrlBreak => if raw.command is Some {
            Err(
                Refusal::FieldNotAllowed {
                    field: "stop.command"@,
                    context: "stop.method is ctrl-break"@,
                },
            )
        } else {
            match positive(
                "stop.timeout"@,
                raw.timeout.unwrap_or(seconds(DEFAULT_STOP_TIMEOUT_SECS)),
            ) {
                Ok(timeout) => Ok(StopDefinition::CtrlBreak { timeout: timeout.span() }),
                Err(refusal) => Err(refusal),
            }
        },
        RawStopMethod::Command => if raw.timeout is None {
            Err(
                Refusal::FieldRequired {
                    field: "stop.timeout"@,
                    context: "stop.method is command"@,
                },
            )
        } else if raw.command is None {
            Err(
                Refusal::FieldRequired {
                    field: "stop.command"@,
                    context: "stop.method is command"@,
                },
            )
        } else {
            let command = raw.command->0;
            let executable = executable_refusal(
                "stop.command.executable"@,
                command.executable@,
            );
            let arguments = arguments_refusal(
                "stop.command.arguments"@,
                texts(command.arguments@),
            );
            if executable is Some {
                Err(executable->0)
            } else if arguments is Some {
                Err(arguments->0)
            } else {
                match positive("stop.timeout"@, raw.timeout->0) {
                    Ok(timeout) => Ok(
                        StopDefinition::Command {
                            timeout: timeout.span(),
                            command: StopCommand {
                                executable: command.executable,
                                arguments: command.arguments,
                            },
                        },
                    ),
                    Err(refusal) => Err(refusal),
                }
            }
        },
        RawStopMethod::Kill => if raw.timeout is Some {
            Err(
                Refusal::FieldNotAllowed {
                    field: "stop.timeout"@,
                    context: "stop.method is kill"@,
                },
            )
        } else if raw.command is Some {
            Err(
                Refusal::FieldNotAllowed {
                    field: "stop.command"@,
                    context: "stop.method is kill"@,
                },
            )
        } else {
            Ok(StopDefinition::Kill)
        },
    }
}

pub fn stop_definition(raw: Option<RawStop>) -> (result: Result<StopDefinition, DefinitionError>)
    ensures
        rules_agree(result, stop_of(raw)),
{
    broadcast use NonZeroDuration::lemma_span_of;

    let raw: RawStop = match raw {
        Some(raw) => raw,
        None => RawStop { method: None, timeout: None, command: None },
    };
    let method: RawStopMethod = match raw.method {
        Some(method) => method,
        None => RawStopMethod::CtrlBreak,
    };
    match method {
        RawStopMethod::CtrlBreak => {
            if raw.command.is_some() {
                return Err(
                    DefinitionError::FieldNotAllowed {
                        field: "stop.command",
                        context: "stop.method is ctrl-break",
                    },
                );
            }
            let timeout: NonZeroDuration = non_zero_duration(
                "stop.timeout",
                match raw.timeout {
                    Some(value) => value,
                    None => Duration::from_secs(DEFAULT_STOP_TIMEOUT_SECS),
                },
            )?;
            Ok(StopDefinition::CtrlBreak { timeout: timeout.get() })
        },
        RawStopMethod::Command => {
            let timeout: Duration = match raw.timeout {
                Some(timeout) => timeout,
                None => {
                    return Err(
                        DefinitionError::FieldRequired {
                            field: "stop.timeout",
                            context: "stop.method is command",
                        },
                    );
                },
            };
            let command: RawStopCommand = match raw.command {
                Some(command) => command,
                None => {
                    return Err(
                        DefinitionError::FieldRequired {
                            field: "stop.command",
                            context: "stop.method is command",
                        },
                    );
                },
            };
            validate_executable("stop.command.executable", command.executable.as_str())?;
            validate_arguments("stop.command.arguments", &command.arguments)?;
            let timeout: NonZeroDuration = non_zero_duration("stop.timeout", timeout)?;
            Ok(
                StopDefinition::Command {
                    timeout: timeout.get(),
                    command: StopCommand {
                        executable: command.executable,
                        arguments: command.arguments,
                    },
                },
            )
        },
        RawStopMethod::Kill => {
            if raw.timeout.is_some() {
                return Err(
                    DefinitionError::FieldNotAllowed {
                        field: "stop.timeout",
                        context: "stop.method is kill",
                    },
                );
            }
            if raw.command.is_some() {
                return Err(
                    DefinitionError::FieldNotAllowed {
                        field: "stop.command",
                        context: "stop.method is kill",
                    },
                );
            }
            Ok(StopDefinition::Kill)
        },
    }
}

/// How far a number has been read: nothing of it, its integer part or its fraction, each with or
/// without room for another digit.
#[derive(Clone, Copy, Debug, PartialEq, Eq, Structural)]
pub enum NumberPart {
    Empty,
    Integer,
    FullInteger,
    Fraction,
    FullFraction,
}

/// Whether a number whose reading stands at `part` rounds past the end of its type: a digit of five
/// or more follows the largest `u64`, or the decimal point moves further than an `i32` counts.
/// Nothing is rounded in an exponent, nor after a character that is in no number.
pub open spec fn rounds_past_the_end(
    bytes: Seq<u8>,
    part: NumberPart,
    value: nat,
    shift: int,
) -> bool
    decreases bytes.len(),
{
    if bytes.len() == 0 {
        false
    } else {
        let rest = bytes.drop_first();
        let byte = bytes[0];
        if byte == 95 || byte == 32 {
            rounds_past_the_end(rest, part, value, shift)
        } else if byte == 46 {
            match part {
                NumberPart::Integer => rounds_past_the_end(
                    rest,
                    NumberPart::Fraction,
                    value,
                    shift,
                ),
                NumberPart::FullInteger => rounds_past_the_end(
                    rest,
                    NumberPart::FullFraction,
                    value,
                    shift,
                ),
                _ => false,
            }
        } else if 48 <= byte <= 57 {
            let grown: nat = (value * 10 + byte - 48) as nat;
            match part {
                NumberPart::Empty | NumberPart::Integer => if grown <= u64::MAX {
                    rounds_past_the_end(rest, NumberPart::Integer, grown, shift)
                } else {
                    value == u64::MAX && byte >= 53 || rounds_past_the_end(
                        rest,
                        NumberPart::FullInteger,
                        value,
                        shift + 1,
                    )
                },
                NumberPart::FullInteger => shift == i32::MAX || rounds_past_the_end(
                    rest,
                    part,
                    value,
                    shift + 1,
                ),
                NumberPart::Fraction => if grown <= u64::MAX {
                    shift == i32::MIN || rounds_past_the_end(rest, part, grown, shift - 1)
                } else {
                    value == u64::MAX && byte >= 53 || rounds_past_the_end(
                        rest,
                        NumberPart::FullFraction,
                        value,
                        shift,
                    )
                },
                NumberPart::FullFraction => rounds_past_the_end(rest, part, value, shift),
            }
        } else {
            false
        }
    }
}

/// Whether a text ends with the letter of this code, in either case.
pub open spec fn ends_with_letter(bytes: Seq<u8>, lower: u8) -> bool {
    bytes.len() > 0 && (bytes.last() == lower || bytes.last() == lower - 32)
}

/// The number of a size without its unit: a `B`, before it perhaps an `i`, and before that perhaps
/// the letter of a factor.
pub open spec fn size_number(bytes: Seq<u8>) -> Seq<u8> {
    let init = bytes.drop_last();
    let init = if ends_with_letter(init, 105) {
        init.drop_last()
    } else {
        init
    };
    if ends_with_letter(init, 107) || ends_with_letter(init, 109) || ends_with_letter(init, 103)
        || ends_with_letter(init, 116) || ends_with_letter(init, 112) || ends_with_letter(init, 101) {
        init.drop_last()
    } else {
        init
    }
}

/// Whether a size can be read at all: a text without a unit, or one whose number does not round
/// past the end of its type.
pub open spec fn is_readable_size(text: Seq<char>) -> bool {
    let bytes = encode_utf8(text);
    ends_with_letter(bytes, 98) ==> !rounds_past_the_end(
        size_number(bytes),
        NumberPart::Empty,
        0,
        0,
    )
}

fn ends_with(bytes: &[u8], end: usize, lower: u8) -> (ends: bool)
    requires
        end <= bytes.len(),
        lower >= 32,
    ensures
        ends == ends_with_letter(bytes@.take(end as int), lower),
{
    end > 0 && (bytes[end - 1] == lower || bytes[end - 1] == lower - 32)
}

/// Whether a size can be read at all.
pub fn readable_size(text: &str) -> (readable: bool)
    ensures
        readable == is_readable_size(text@),
{
    let bytes: &[u8] = text.as_bytes();
    assert(bytes@.take(bytes.len() as int) =~= bytes@);
    if !ends_with(bytes, bytes.len(), 98) {
        return true;
    }
    let mut end: usize = bytes.len() - 1;
    assert(bytes@.drop_last() =~= bytes@.take(end as int));
    if ends_with(bytes, end, 105) {
        assert(bytes@.take(end as int).drop_last() =~= bytes@.take(end - 1));
        end -= 1;
    }
    if ends_with(bytes, end, 107) || ends_with(bytes, end, 109) || ends_with(bytes, end, 103)
        || ends_with(bytes, end, 116) || ends_with(bytes, end, 112) || ends_with(bytes, end, 101) {
        assert(bytes@.take(end as int).drop_last() =~= bytes@.take(end - 1));
        end -= 1;
    }
    let ghost number = bytes@.take(end as int);
    let mut part: NumberPart = NumberPart::Empty;
    let mut value: u64 = 0;
    let mut shift: i32 = 0;
    let mut index: usize = 0;
    assert(number.skip(0) =~= number);
    while index < end
        invariant
            index <= end <= bytes.len(),
            number == bytes@.take(end as int),
            rounds_past_the_end(number, NumberPart::Empty, 0, 0) == rounds_past_the_end(
                number.skip(index as int),
                part,
                value as nat,
                shift as int,
            ),
            part == NumberPart::Empty || part == NumberPart::Integer ==> shift == 0,
            is_readable_size(text@) == !rounds_past_the_end(number, NumberPart::Empty, 0, 0),
        decreases end - index,
    {
        let byte: u8 = bytes[index];
        let ghost rest = number.skip(index as int);
        assert(rest.drop_first() =~= number.skip(index + 1));
        assert(rest[0] == byte);
        if byte == 46 {
            match part {
                NumberPart::Integer => {
                    part = NumberPart::Fraction;
                },
                NumberPart::FullInteger => {
                    part = NumberPart::FullFraction;
                },
                _ => {
                    return true;
                },
            }
        } else if 48 <= byte && byte <= 57 {
            let grown: u128 = value as u128 * 10 + (byte - 48) as u128;
            let fits: bool = grown <= u64::MAX as u128;
            let rounds: bool = !fits && value == u64::MAX && byte >= 53;
            match part {
                NumberPart::Empty | NumberPart::Integer => {
                    if rounds {
                        return false;
                    }
                    if fits {
                        part = NumberPart::Integer;
                        value = grown as u64;
                    } else {
                        part = NumberPart::FullInteger;
                        shift = 1;
                    }
                },
                NumberPart::FullInteger => {
                    if shift == i32::MAX {
                        return false;
                    }
                    shift += 1;
                },
                NumberPart::Fraction => {
                    if rounds {
                        return false;
                    }
                    if fits {
                        if shift == i32::MIN {
                            return false;
                        }
                        shift -= 1;
                        value = grown as u64;
                    } else {
                        part = NumberPart::FullFraction;
                    }
                },
                NumberPart::FullFraction => {},
            }
        } else if byte != 95 && byte != 32 {
            return true;
        }
        index += 1;
    }
    assert(number.skip(index as int).len() == 0);
    true
}

/// The number of bytes that a text gives as a size, or why it gives none.
pub uninterp spec fn binary_size(text: Seq<char>) -> Result<u64, Seq<char>>;

/// The factor of a binary unit, by its text.
pub open spec fn unit_factor(unit: Seq<char>) -> Option<nat> {
    if unit == "B"@ {
        Some(1)
    } else if unit == "KiB"@ {
        Some(0x400)
    } else if unit == "MiB"@ {
        Some(0x10_0000)
    } else if unit == "GiB"@ {
        Some(0x4000_0000)
    } else {
        None
    }
}

/// Reads a size, by `parse_size::Config::parse_size` with binary units and a `B` that must be
/// there; an error is given by its message. A plain number with a binary unit is that many
/// units, where they fit. What other forms give is left to the name.
#[verifier::external_body]
pub(crate) fn read_binary_size(text: &str) -> (result: Result<u64, String>)
    requires
        is_readable_size(text@),
    ensures
        match result {
            Ok(size) => binary_size(text@) == Ok::<u64, Seq<char>>(size),
            Err(message) => binary_size(text@) == Err::<u64, Seq<char>>(message@),
        },
        (forall|n: nat, unit: Seq<char>|
            text@ == #[trigger] decimal(n) + unit && #[trigger] unit_factor(unit) is Some && n
                * unit_factor(unit)->0 <= u64::MAX ==> result == Ok::<u64, String>(
                (n * unit_factor(unit)->0) as u64,
            )),
{
    let config = parse_size::Config::new().with_binary();
    let config = config.with_byte_suffix(parse_size::ByteSuffix::Require);
    config.parse_size(text).map_err(|error| error.to_string())
}

/// A size that must be positive.
pub open spec fn positive_size(field: Seq<char>, text: Seq<char>) -> Result<u64, Refusal> {
    match binary_size(text) {
        Ok(size) => if size == 0 {
            Err(Refusal::invalid(field, "must be positive"@))
        } else {
            Ok(size)
        },
        Err(message) => Err(Refusal::invalid(field, message)),
    }
}

fn parse_positive_size(field: &'static str, text: &str) -> (result: Result<u64, DefinitionError>)
    requires
        is_readable_size(text@),
    ensures
        rules_agree(result, positive_size(field@, text@)),
        (forall|n: nat, unit: Seq<char>|
            text@ == #[trigger] decimal(n) + unit && #[trigger] unit_factor(unit) is Some && 0 < n
                * unit_factor(unit)->0 <= u64::MAX ==> result == Ok::<u64, DefinitionError>(
                (n * unit_factor(unit)->0) as u64,
            )),
{
    accept_size(field, read_binary_size(text))
}

/// A size that has been read, where it is positive.
pub fn accept_size(field: &'static str, size: Result<u64, String>) -> (result: Result<
    u64,
    DefinitionError,
>)
    ensures
        match size {
            Ok(size) => rules_agree(
                result,
                if size == 0 {
                    Err(Refusal::invalid(field@, "must be positive"@))
                } else {
                    Ok(size)
                },
            ),
            Err(message) => rules_agree(result, Err(Refusal::invalid(field@, message@))),
        },
{
    match size {
        Ok(size) => {
            if size == 0 {
                return Err(invalid(field, "must be positive"));
            }
            Ok(size)
        },
        Err(message) => Err(invalid(field, message.as_str())),
    }
}

impl RawLogging {
    /// Whether the sizes can be read. They are not read where nothing is captured.
    pub open spec fn sizes_readable(self) -> bool {
        self.capture != Some(false) ==> {
            &&& self.segment_size matches Some(text) ==> is_readable_size(text@)
            &&& self.retention_size matches Some(text) ==> is_readable_size(text@)
        }
    }

    pub fn has_readable_sizes(&self) -> (readable: bool)
        ensures
            readable == self.sizes_readable(),
    {
        if let Some(false) = self.capture {
            return true;
        }
        let segment: bool = match &self.segment_size {
            Some(text) => readable_size(text.as_str()),
            None => true,
        };
        let retention: bool = match &self.retention_size {
            Some(text) => readable_size(text.as_str()),
            None => true,
        };
        segment && retention
    }
}

/// Nothing said about logging.
pub open spec fn silent_logging() -> RawLogging {
    RawLogging {
        capture: None,
        segment_size: None,
        segment_age: None,
        retention_size: None,
        retention_age: None,
    }
}

/// Why the details of a log cannot be given, if they are while there is none.
pub open spec fn log_details_refusal(raw: RawLogging) -> Option<Refusal> {
    let context = "logging.capture is false"@;
    if raw.segment_size is Some {
        Some(Refusal::FieldNotAllowed { field: "logging.segment_size"@, context })
    } else if raw.segment_age is Some {
        Some(Refusal::FieldNotAllowed { field: "logging.segment_age"@, context })
    } else if raw.retention_size is Some {
        Some(Refusal::FieldNotAllowed { field: "logging.retention_size"@, context })
    } else if raw.retention_age is Some {
        Some(Refusal::FieldNotAllowed { field: "logging.retention_age"@, context })
    } else {
        None
    }
}

/// The total size of the segments that are kept.
pub open spec fn retention_size_of(raw: Option<String>) -> Result<RetentionLimit, Refusal> {
    if raw matches Some(text) && text@ == "unlimited"@ {
        Ok(RetentionLimit::Unlimited)
    } else {
        let text = match raw {
            Some(text) => text@,
            None => "1GiB"@,
        };
        match positive_size("logging.retention_size"@, text) {
            Ok(size) => Ok(RetentionLimit::Limited(size)),
            Err(refusal) => Err(refusal),
        }
    }
}

/// How long a segment is written to.
pub open spec fn segment_age_of(raw: Option<Duration>) -> Result<NonZeroDuration, Refusal> {
    positive("logging.segment_age"@, raw.unwrap_or(seconds(DEFAULT_SEGMENT_AGE_SECS)))
}

/// How long a segment is kept.
pub open spec fn retention_age_of(raw: Option<RawRetentionAge>) -> Result<
    RetentionDuration,
    Refusal,
> {
    match raw {
        None => Ok(RetentionDuration::Limited(seconds(DEFAULT_RETENTION_AGE_SECS))),
        Some(RawRetentionAge::Keyword(keyword)) => if keyword@ == "unlimited"@ {
            Ok(RetentionDuration::Unlimited)
        } else {
            Err(
                Refusal::invalid(
                    "logging.retention_age"@,
                    "unknown value "@ + debug_form(keyword@),
                ),
            )
        },
        Some(RawRetentionAge::Value(value)) => match positive("logging.retention_age"@, value) {
            Ok(age) => Ok(RetentionDuration::Limited(age.span())),
            Err(refusal) => Err(refusal),
        },
    }
}

/// What is kept of the output. By default everything is captured, in segments of 16 MiB or an
/// hour, of which 1 GiB or thirty days are kept.
pub open spec fn logging_of(raw: Option<RawLogging>) -> Result<LoggingPolicy, Refusal> {
    let raw = raw.unwrap_or(silent_logging());
    let segment_size = positive_size(
        "logging.segment_size"@,
        match raw.segment_size {
            Some(text) => text@,
            None => "16MiB"@,
        },
    );
    let segment_age = segment_age_of(raw.segment_age);
    let retention_size = retention_size_of(raw.retention_size);
    let retention_age = retention_age_of(raw.retention_age);
    if raw.capture == Some(false) {
        match log_details_refusal(raw) {
            Some(refusal) => Err(refusal),
            None => Ok(LoggingPolicy::Disabled),
        }
    } else if segment_size is Err {
        Err(segment_size->Err_0)
    } else if segment_age is Err {
        Err(segment_age->Err_0)
    } else if retention_size is Err {
        Err(retention_size->Err_0)
    } else if retention_age is Err {
        Err(retention_age->Err_0)
    } else {
        Ok(
            LoggingPolicy::Capture {
                segment_size: segment_size->Ok_0,
                segment_age: segment_age->Ok_0.span(),
                retention_size: retention_size->Ok_0,
                retention_age: retention_age->Ok_0,
            },
        )
    }
}

fn reject_log_details(raw: &RawLogging) -> (result: Result<(), DefinitionError>)
    ensures
        match result {
            Ok(_) => log_details_refusal(*raw) is None,
            Err(error) => log_details_refusal(*raw) == Some(error@),
        },
{
    let context: &'static str = "logging.capture is false";
    if raw.segment_size.is_some() {
        return Err(DefinitionError::FieldNotAllowed { field: "logging.segment_size", context });
    }
    if raw.segment_age.is_some() {
        return Err(DefinitionError::FieldNotAllowed { field: "logging.segment_age", context });
    }
    if raw.retention_size.is_some() {
        return Err(DefinitionError::FieldNotAllowed { field: "logging.retention_size", context });
    }
    if raw.retention_age.is_some() {
        return Err(DefinitionError::FieldNotAllowed { field: "logging.retention_age", context });
    }
    Ok(())
}

proof fn lemma_default_sizes_are_readable()
    ensures
        is_readable_size("16MiB"@),
        is_readable_size("1GiB"@),
{
    reveal_strlit("16MiB");
    reveal_strlit("1GiB");
    let segment = "16MiB"@;
    let retention = "1GiB"@;
    vstd::utf8::is_ascii_chars_encode_utf8(segment);
    vstd::utf8::is_ascii_chars_encode_utf8(retention);
    let segment_bytes = seq![49u8, 54u8, 77u8, 105u8, 66u8];
    let retention_bytes = seq![49u8, 71u8, 105u8, 66u8];
    assert(encode_utf8(segment) =~= segment_bytes);
    assert(encode_utf8(retention) =~= retention_bytes);
    assert(segment_bytes.drop_last() =~= seq![49u8, 54u8, 77u8, 105u8]);
    assert(seq![49u8, 54u8, 77u8, 105u8].drop_last() =~= seq![49u8, 54u8, 77u8]);
    assert(size_number(segment_bytes) =~= seq![49u8, 54u8]);
    assert(retention_bytes.drop_last() =~= seq![49u8, 71u8, 105u8]);
    assert(seq![49u8, 71u8, 105u8].drop_last() =~= seq![49u8, 71u8]);
    assert(size_number(retention_bytes) =~= seq![49u8]);
    assert(seq![49u8, 54u8].drop_first() =~= seq![54u8]);
    reveal_with_fuel(rounds_past_the_end, 4);
}

proof fn lemma_default_sizes_are_plain()
    ensures
        "16MiB"@ == decimal(16) + "MiB"@,
        "1GiB"@ == decimal(1) + "GiB"@,
        unit_factor("MiB"@) == Some(0x10_0000nat),
        unit_factor("GiB"@) == Some(0x4000_0000nat),
{
    reveal_strlit("16MiB");
    reveal_strlit("1GiB");
    reveal_strlit("MiB");
    reveal_strlit("GiB");
    reveal_strlit("KiB");
    reveal_strlit("B");
    reveal_with_fuel(decimal, 3);
    assert("16MiB"@ =~= decimal(16) + "MiB"@);
    assert("1GiB"@ =~= decimal(1) + "GiB"@);
    assert("MiB"@[0] == 'M' && "KiB"@[0] == 'K' && "GiB"@[0] == 'G' && "B"@.len() == 1);
}

pub fn logging_policy(raw: Option<RawLogging>) -> (result: Result<LoggingPolicy, DefinitionError>)
    requires
        raw matches Some(raw) ==> raw.sizes_readable(),
    ensures
        rules_agree(result, logging_of(raw)),
        raw is None ==> result == Ok::<LoggingPolicy, DefinitionError>(
            LoggingPolicy::Capture {
                segment_size: 0x100_0000,
                segment_age: seconds(DEFAULT_SEGMENT_AGE_SECS),
                retention_size: RetentionLimit::Limited(0x4000_0000),
                retention_age: RetentionDuration::Limited(seconds(DEFAULT_RETENTION_AGE_SECS)),
            },
        ),
{
    broadcast use NonZeroDuration::lemma_span_of;

    let raw: RawLogging = match raw {
        Some(raw) => raw,
        None => RawLogging {
            capture: None,
            segment_size: None,
            segment_age: None,
            retention_size: None,
            retention_age: None,
        },
    };
    let capture: bool = match raw.capture {
        Some(capture) => capture,
        None => true,
    };
    if !capture {
        reject_log_details(&raw)?;
        return Ok(LoggingPolicy::Disabled);
    }
    proof {
        lemma_default_sizes_are_readable();
        lemma_default_sizes_are_plain();
        broadcast use Duration::lemma_view_of;

    }
    let segment_size: u64 = match &raw.segment_size {
        Some(text) => parse_positive_size("logging.segment_size", text.as_str())?,
        None => parse_positive_size("logging.segment_size", "16MiB")?,
    };
    let segment_age: NonZeroDuration = non_zero_duration(
        "logging.segment_age",
        match raw.segment_age {
            Some(value) => value,
            None => Duration::from_secs(DEFAULT_SEGMENT_AGE_SECS),
        },
    )?;
    let retention_size: RetentionLimit = match &raw.retention_size {
        Some(text) => {
            if same_text(text.as_str(), "unlimited") {
                RetentionLimit::Unlimited
            } else {
                RetentionLimit::Limited(
                    parse_positive_size("logging.retention_size", text.as_str())?,
                )
            }
        },
        None => RetentionLimit::Limited(parse_positive_size("logging.retention_size", "1GiB")?),
    };
    let retention_age: RetentionDuration = match raw.retention_age {
        Some(RawRetentionAge::Keyword(keyword)) => {
            if !same_text(keyword.as_str(), "unlimited") {
                return Err(
                    invalid(
                        "logging.retention_age",
                        join("unknown value ", debug_text(keyword.as_str()).as_str()).as_str(),
                    ),
                );
            }
            RetentionDuration::Unlimited
        },
        Some(RawRetentionAge::Value(value)) => RetentionDuration::Limited(
            non_zero_duration("logging.retention_age", value)?.get(),
        ),
        None => RetentionDuration::Limited(Duration::from_secs(DEFAULT_RETENTION_AGE_SECS)),
    };
    Ok(
        LoggingPolicy::Capture {
            segment_size,
            segment_age: segment_age.get(),
            retention_size,
            retention_age,
        },
    )
}

/// Why the variable at a place among those that are set is refused, if it is.
pub open spec fn set_refusal_at(set: Seq<(String, String)>, at: int) -> Option<Refusal> {
    let field = "environment.set"@;
    let name = set[at].0@;
    let text = text_refusal(field, set[at].1@, true);
    if text is Some {
        text
    } else if name_refusal(name) is Some {
        Some(Refusal::invalid(field, debug_form(name) + ": "@ + name_refusal(name)->0.text()))
    } else if exists|i: int|
        0 <= i < at && upper_form((#[trigger] set[i]).0@) == upper_form(name) {
        Some(Refusal::invalid(field, "duplicate Windows environment name "@ + debug_form(name)))
    } else {
        None
    }
}

/// Why the first `n` of the variables that are set are refused: the first refusal among them.
pub open spec fn set_refusal(set: Seq<(String, String)>, n: int) -> Option<Refusal>
    decreases n,
{
    if n <= 0 {
        None
    } else if set_refusal(set, n - 1) is Some {
        set_refusal(set, n - 1)
    } else {
        set_refusal_at(set, n - 1)
    }
}

/// The first `n` of the variables that are set, by their upper-case names.
pub open spec fn set_map(set: Seq<(String, String)>, n: int) -> Map<Seq<char>, String>
    decreases n,
{
    if n <= 0 {
        Map::empty()
    } else {
        set_map(set, n - 1).insert(upper_form(set[n - 1].0@), set[n - 1].1)
    }
}

/// Why the name at a place among those that are taken away is refused, if it is.
pub open spec fn unset_refusal_at(
    set: Map<Seq<char>, String>,
    unset: Seq<String>,
    at: int,
) -> Option<Refusal> {
    let field = "environment.unset"@;
    let name = unset[at]@;
    if name_refusal(name) is Some {
        Some(Refusal::invalid(field, debug_form(name) + ": "@ + name_refusal(name)->0.text()))
    } else if exists|i: int| 0 <= i < at && upper_form((#[trigger] unset[i])@) == upper_form(name) {
        Some(Refusal::invalid(field, "duplicate Windows environment name "@ + debug_form(name)))
    } else if set.contains_key(upper_form(name)) {
        Some(
            Refusal::invalid(
                "environment"@,
                upper_form(name) + " appears in both set and unset"@,
            ),
        )
    } else {
        None
    }
}

/// Why the first `n` of the names that are taken away are refused: the first refusal.
pub open spec fn unset_refusal(
    set: Map<Seq<char>, String>,
    unset: Seq<String>,
    n: int,
) -> Option<Refusal>
    decreases n,
{
    if n <= 0 {
        None
    } else if unset_refusal(set, unset, n - 1) is Some {
        unset_refusal(set, unset, n - 1)
    } else {
        unset_refusal_at(set, unset, n - 1)
    }
}

/// The first `n` of the names that are taken away, in upper case.
pub open spec fn unset_map(unset: Seq<String>, n: int) -> Map<Seq<char>, ()>
    decreases n,
{
    if n <= 0 {
        Map::empty()
    } else {
        unset_map(unset, n - 1).insert(upper_form(unset[n - 1]@), ())
    }
}

proof fn lemma_set_map_keys(set: Seq<(String, String)>, n: int, key: Seq<char>)
    requires
        0 <= n <= set.len(),
    ensures
        set_map(set, n).contains_key(key) <==> exists|i: int|
            0 <= i < n && upper_form((#[trigger] set[i]).0@) == key,
    decreases n,
{
    if n > 0 {
        lemma_set_map_keys(set, n - 1, key);
        if set_map(set, n).contains_key(key) && !set_map(set, n - 1).contains_key(key) {
            assert(upper_form(set[n - 1].0@) == key);
        }
    }
}

proof fn lemma_unset_map_keys(unset: Seq<String>, n: int, key: Seq<char>)
    requires
        0 <= n <= unset.len(),
    ensures
        unset_map(unset, n).contains_key(key) <==> exists|i: int|
            0 <= i < n && upper_form((#[trigger] unset[i])@) == key,
    decreases n,
{
    if n > 0 {
        lemma_unset_map_keys(unset, n - 1, key);
        if unset_map(unset, n).contains_key(key) && !unset_map(unset, n - 1).contains_key(key) {
            assert(upper_form(unset[n - 1]@) == key);
        }
    }
}

proof fn lemma_refusal_stays(set: Seq<(String, String)>, n: int, m: int)
    requires
        n <= m,
        set_refusal(set, n) is Some,
    ensures
        set_refusal(set, m) == set_refusal(set, n),
    decreases m - n,
{
    if n < m {
        lemma_refusal_stays(set, n, m - 1);
    }
}

proof fn lemma_unset_refusal_stays(
    set: Map<Seq<char>, String>,
    unset: Seq<String>,
    n: int,
    m: int,
)
    requires
        n <= m,
        unset_refusal(set, unset, n) is Some,
    ensures
        unset_refusal(set, unset, m) == unset_refusal(set, unset, n),
    decreases m - n,
{
    if n < m {
        lemma_unset_refusal_stays(set, unset, n, m - 1);
    }
}

/// Names that are taken away and pass are none of those that are set.
proof fn lemma_unset_apart(set: Map<Seq<char>, String>, unset: Seq<String>, n: int)
    requires
        0 <= n <= unset.len(),
        unset_refusal(set, unset, n) is None,
    ensures
        forall|key: Seq<char>|
            !(#[trigger] set.contains_key(key) && unset_map(unset, n).contains_key(key)),
    decreases n,
{
    if n > 0 {
        lemma_unset_apart(set, unset, n - 1);
    }
}

impl RawEnvironment {
    /// Why the environment is refused, if it is.
    pub open spec fn refusal(self) -> Option<Refusal> {
        let set = set_refusal(self.set@, self.set@.len() as int);
        if set is Some {
            set
        } else {
            unset_refusal(
                set_map(self.set@, self.set@.len() as int),
                self.unset@,
                self.unset@.len() as int,
            )
        }
    }

    /// Whether an overlay is what this environment describes.
    pub open spec fn describes(self, overlay: EnvironmentOverlay) -> bool {
        &&& overlay.set.map() == set_map(self.set@, self.set@.len() as int)
        &&& overlay.unset.map() == unset_map(self.unset@, self.unset@.len() as int)
        &&& ascending(overlay.set@)
        &&& ascending(overlay.unset@)
        &&& overlay.consistent()
    }

    pub fn into_overlay(self) -> (result: Result<EnvironmentOverlay, DefinitionError>)
        ensures
            match result {
                Ok(overlay) => self.refusal() is None && self.describes(overlay),
                Err(error) => self.refusal() == Some(error@),
            },
    {
        let mut set: TextMap<String> = TextMap::new();
        let mut index: usize = 0;
        while index < self.set.len()
            invariant
                index <= self.set.len(),
                set.map() == set_map(self.set@, index as int),
                ascending(set@),
                set_refusal(self.set@, index as int) is None,
            decreases self.set.len() - index,
        {
            let ghost all = self.set@;
            let raw_name: &str = self.set[index].0.as_str();
            let value: &String = &self.set[index].1;
            proof {
                lemma_set_map_keys(all, index as int, upper_form(raw_name@));
                if set_refusal_at(all, index as int) is Some {
                    lemma_refusal_stays(all, index + 1, all.len() as int);
                }
            }
            validate_text("environment.set", value.as_str(), true)?;
            let name: EnvironmentName = match EnvironmentName::parse(raw_name) {
                Ok(name) => name,
                Err(error) => {
                    return Err(invalid("environment.set", name_reason(raw_name, error).as_str()));
                },
            };
            if set.insert(name.into_text(), value.clone()).is_some() {
                return Err(
                    invalid(
                        "environment.set",
                        join(
                            "duplicate Windows environment name ",
                            debug_text(raw_name).as_str(),
                        ).as_str(),
                    ),
                );
            }
            index += 1;
        }
        let ghost set_is = set.map();
        let mut unset: TextMap<()> = TextMap::new();
        let mut index: usize = 0;
        while index < self.unset.len()
            invariant
                index <= self.unset.len(),
                set_refusal(self.set@, self.set@.len() as int) is None,
                set.map() == set_is,
                ascending(set@),
                ascending(unset@),
                set_is == set_map(self.set@, self.set@.len() as int),
                unset.map() == unset_map(self.unset@, index as int),
                unset_refusal(set_is, self.unset@, index as int) is None,
            decreases self.unset.len() - index,
        {
            let ghost all = self.unset@;
            let raw_name: &str = self.unset[index].as_str();
            proof {
                lemma_unset_map_keys(all, index as int, upper_form(raw_name@));
                if unset_refusal_at(set_is, all, index as int) is Some {
                    lemma_unset_refusal_stays(set_is, all, index + 1, all.len() as int);
                }
            }
            let name: EnvironmentName = match EnvironmentName::parse(raw_name) {
                Ok(name) => name,
                Err(error) => {
                    return Err(
                        invalid("environment.unset", name_reason(raw_name, error).as_str()),
                    );
                },
            };
            let taken: bool = set.contains_key(name.as_str());
            let both: String = join(name.as_str(), " appears in both set and unset");
            if unset.insert(name.into_text(), ()).is_some() {
                return Err(
                    invalid(
                        "environment.unset",
                        join(
                            "duplicate Windows environment name ",
                            debug_text(raw_name).as_str(),
                        ).as_str(),
                    ),
                );
            }
            if taken {
                return Err(invalid("environment", both.as_str()));
            }
            index += 1;
        }
        proof {
            lemma_unset_apart(set_is, self.unset@, self.unset@.len() as int);
        }
        Ok(EnvironmentOverlay { set, unset })
    }
}

fn name_reason(raw_name: &str, error: InvalidEnvironmentName) -> (reason: String)
    ensures
        reason@ == debug_form(raw_name@) + ": "@ + error.text(),
{
    join(join(debug_text(raw_name).as_str(), ": ").as_str(), error.message().as_str())
}

/// The kind of a workload.
pub open spec fn kind_of(raw: RawKind) -> WorkloadKind {
    match raw {
        RawKind::Service => WorkloadKind::Service,
        RawKind::Job => WorkloadKind::Job,
    }
}

impl RawDefinition {
    /// Whether the sizes can be read.
    pub open spec fn sizes_readable(self) -> bool {
        self.logging matches Some(logging) ==> logging.sizes_readable()
    }

    /// Where the process works: in the user's profile unless said otherwise.
    pub open spec fn directory(self) -> Seq<char> {
        match self.working_directory {
            Some(directory) => directory@,
            None => "${USERPROFILE}"@,
        }
    }

    /// Why the definition is refused: the first rule that it breaks, if it breaks one.
    pub open spec fn refusal(self) -> Option<Refusal> {
        let executable = executable_refusal("executable"@, self.executable@);
        let arguments = arguments_refusal("arguments"@, texts(self.arguments@));
        let directory = text_refusal("working_directory"@, self.directory(), false);
        let restart = restart_of(kind_of(self.kind), self.restart);
        let stop = stop_of(self.stop);
        let logging = logging_of(self.logging);
        if executable is Some {
            executable
        } else if arguments is Some {
            arguments
        } else if directory is Some {
            directory
        } else if self.environment.refusal() is Some {
            self.environment.refusal()
        } else if restart is Err {
            Some(restart->Err_0)
        } else if stop is Err {
            Some(stop->Err_0)
        } else if logging is Err {
            Some(logging->Err_0)
        } else {
            None
        }
    }

    /// Whether a definition is what this text describes under the name `id`.
    pub open spec fn describes(self, id: WorkloadId, definition: WorkloadDefinition) -> bool {
        &&& definition.id == id
        &&& definition.kind == kind_of(self.kind)
        &&& definition.process.executable == self.executable
        &&& definition.process.arguments == self.arguments
        &&& definition.process.working_directory@ == self.directory()
        &&& self.environment.describes(definition.process.environment)
        &&& definition.process_hash.0@ == sha256_of(process_digest_input(definition.process@))
        &&& definition.success_exit_codes@ == match self.success_exit_codes {
            Some(codes) => codes@.to_set(),
            None => set![0u32],
        }
        &&& restart_of(kind_of(self.kind), self.restart) == Ok::<ExecutionRestartPolicy, Refusal>(
            definition.restart,
        )
        &&& stop_of(self.stop) == Ok::<StopDefinition, Refusal>(definition.stop)
        &&& logging_of(self.logging) == Ok::<LoggingPolicy, Refusal>(definition.logging)
    }

    /// Whether the sizes can be read.
    pub fn has_readable_sizes(&self) -> (readable: bool)
        ensures
            readable == self.sizes_readable(),
    {
        match &self.logging {
            Some(logging) => logging.has_readable_sizes(),
            None => true,
        }
    }

    pub fn into_definition(self, id: WorkloadId) -> (result: Result<
        WorkloadDefinition,
        DefinitionError,
    >)
        requires
            self.sizes_readable(),
        ensures
            match result {
                Ok(definition) => self.refusal() is None && self.describes(id, definition),
                Err(error) => self.refusal() == Some(error@),
            },
    {
        validate_executable("executable", self.executable.as_str())?;
        validate_arguments("arguments", &self.arguments)?;
        let working_directory: String = match self.working_directory {
            Some(directory) => directory,
            None => "${USERPROFILE}".to_owned(),
        };
        validate_text("working_directory", working_directory.as_str(), false)?;
        let kind: WorkloadKind = match self.kind {
            RawKind::Service => WorkloadKind::Service,
            RawKind::Job => WorkloadKind::Job,
        };
        let environment: EnvironmentOverlay = self.environment.into_overlay()?;
        let process: ProcessDefinition = ProcessDefinition {
            executable: self.executable,
            arguments: self.arguments,
            working_directory,
            environment,
        };
        let process_hash: ProcessDefinitionHash = process_hash(&process);
        let codes: Vec<u32> = match self.success_exit_codes {
            Some(codes) => codes,
            None => {
                let mut codes: Vec<u32> = Vec::new();
                codes.push(0);
                assert(codes@ =~= seq![0u32]);
                assert(codes@.to_set() =~= set![0u32]) by {
                    assert(codes@[0] == 0);
                }
                codes
            },
        };
        let restart: ExecutionRestartPolicy = restart_policy(kind, self.restart)?;
        let stop: StopDefinition = stop_definition(self.stop)?;
        let logging: LoggingPolicy = logging_policy(self.logging)?;
        Ok(
            WorkloadDefinition {
                id,
                kind,
                process,
                process_hash,
                success_exit_codes: collect_codes(&codes),
                restart,
                stop,
                logging,
            },
        )
    }
}

/// The restart policy of a valid definition is of the kind of its workload.
pub proof fn law_restart_policy_fits_the_kind(kind: WorkloadKind, raw: Option<RawRestart>)
    requires
        restart_of(kind, raw) is Ok,
    ensures
        (kind is Service) == (restart_of(kind, raw)->Ok_0 is Service),
{
}

/// A file that says nothing of restarts, stopping and logging gets the documented defaults:
/// services are restarted on failure and jobs are not, a stop sends a break and waits for ten
/// seconds, and output is captured in segments of at most an hour that are kept for thirty days.
pub proof fn law_silence_means_the_defaults(kind: WorkloadKind)
    ensures
        kind is Job ==> restart_of(kind, None) == Ok::<ExecutionRestartPolicy, Refusal>(
            ExecutionRestartPolicy::Job(JobRestartPolicy::Never),
        ),
        kind is Service ==> (restart_of(kind, None) matches Ok(ExecutionRestartPolicy::Service(
            ServiceRestartPolicy::OnFailure(retry),
        )) && retry.limit == ServiceRetryLimit::Finite(NonZeroU32::of(10)) && retry.reset_after@
            == 300_000_000_000 && retry.backoff.initial_delay()@ == 250_000_000
            && retry.backoff.factor()@ == 2 && retry.backoff.maximum_delay()@ == 30_000_000_000),
        stop_of(None) matches Ok(StopDefinition::CtrlBreak { timeout }) && timeout@
            == 10_000_000_000,
        segment_age_of(None) matches Ok(age) && age.span()@ == 3_600_000_000_000,
        retention_age_of(None) matches Ok(RetentionDuration::Limited(age)) && age@
            == 2_592_000_000_000_000,
        logging_of(None) matches Ok(policy) ==> (policy matches LoggingPolicy::Capture {
            segment_age,
            retention_age,
            ..
        } && segment_age == segment_age_of(None)->Ok_0.span() && Ok::<RetentionDuration, Refusal>(retention_age) == retention_age_of(None)),
{
    broadcast use {
        NonZeroDuration::lemma_span_of,
        Duration::lemma_view_of,
        NonZeroU32::lemma_view_of,
        BackoffPolicy::lemma_parts_of,
    };

}

} // verus!
