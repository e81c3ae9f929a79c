//! How a supervisor carries an execution through its attempts: what it records, when it
//! launches, when it tries again and how it ends.

use vstd::prelude::*;
use vstd::string::*;

use crate::messages::{
    AttemptResult, Checkpoint, CheckpointView, ConfigurationView, ExecutionConfiguration,
    ExecutionPolicy, ObservationView, PolicyUpdate, PolicyView, ResultView, RuntimeObservation,
    copy_bytes, holds_code,
};
use crate::numerals::{padded, push_padded};
use crate::ordered::{ascending, entries_map, law_map_determines_entries, listing};
use crate::paths::{is_absolute, join_paths, joined, parent, parent_path};
use crate::preflight::{
    Preflight, PreflightView, RunError, lemma_listed_variables, list_variables, preflight_view,
    recovered, recovered_preflight, reports,
};
use crate::process::is_white_space;
use crate::runtime_journal::RuntimeRecovery;
use crate::text::{
    chars_of, eq_ignore_ascii_case, hex, hex_text, join, same_ignoring_ascii_case, same_text,
};

verus! {

/// Which supervisor this is.
#[derive(Debug)]
pub struct SupervisorIdentity {
    pub id: String,
    pub incarnation: u32,
}

impl SupervisorIdentity {
    /// The identity of a supervisor: it takes over that of the last checkpoint as its next
    /// incarnation, or begins with a fresh one.
    pub fn following(recovery: &RuntimeRecovery, fresh: String) -> (identity: SupervisorIdentity)
        ensures
            match recovery.checkpoint_view() {
                Some(checkpoint) => identity.id@ == checkpoint.supervisor_id
                    && identity.incarnation == (if checkpoint.incarnation == u32::MAX {
                    u32::MAX
                } else {
                    (checkpoint.incarnation + 1) as u32
                }),
                None => identity.id@ == fresh@ && identity.incarnation == 1,
            },
    {
        match &recovery.checkpoint {
            Some(checkpoint) => SupervisorIdentity {
                id: checkpoint.supervisor_id.clone(),
                incarnation: checkpoint.incarnation.saturating_add(1),
            },
            None => SupervisorIdentity { id: fresh, incarnation: 1 },
        }
    }
}

/// Whether an attempt is followed by another one.
pub open spec fn retries(policy: PolicyView, successful: bool, retries: u32) -> bool {
    let restart = policy.restart;
    (restart.policy == "always"@ || restart.policy == "on-failure"@ && !successful) && (
    restart.max_restarts_unlimited || retries < restart.max_restarts)
}

pub fn should_retry(policy: &ExecutionPolicy, successful: bool, retries: u32) -> (retry: bool)
    ensures
        retry == self::retries(policy@, successful, retries),
{
    let allowed: bool = same_text(policy.restart.policy.as_str(), "always") || (same_text(
        policy.restart.policy.as_str(),
        "on-failure",
    ) && !successful);
    allowed && (policy.restart.max_restarts_unlimited || retries < policy.restart.max_restarts)
}

pub open spec fn at_least_one(n: nat) -> nat {
    if n == 0 {
        1
    } else {
        n
    }
}

pub open spec fn smaller(a: nat, b: nat) -> nat {
    if a < b {
        a
    } else {
        b
    }
}

/// A delay after it grew `times` times, never beyond the maximum once it grew.
pub open spec fn grown(initial: nat, multiplier: nat, maximum: nat, times: nat) -> nat
    decreases times,
{
    if times == 0 {
        initial
    } else {
        smaller(grown(initial, multiplier, maximum, (times - 1) as nat) * multiplier, maximum)
    }
}

/// The delay before the given retry, in milliseconds.
pub open spec fn delay_ms(policy: PolicyView, retry: u32) -> nat {
    let restart = policy.restart;
    let maximum = at_least_one(restart.backoff_maximum_ms as nat);
    let times: nat = if retry == 0 {
        0
    } else {
        (retry - 1) as nat
    };
    smaller(
        grown(
            at_least_one(restart.backoff_initial_ms as nat),
            at_least_one(restart.backoff_multiplier as nat),
            maximum,
            times,
        ),
        maximum,
    )
}

pub fn retry_delay(policy: &ExecutionPolicy, retry: u32) -> (millis: u64)
    ensures
        millis == delay_ms(policy@, retry),
{
    let multiplier: u64 = if policy.restart.backoff_multiplier == 0 {
        1
    } else {
        policy.restart.backoff_multiplier as u64
    };
    let maximum: u64 = if policy.restart.backoff_maximum_ms == 0 {
        1
    } else {
        policy.restart.backoff_maximum_ms
    };
    let initial: u64 = if policy.restart.backoff_initial_ms == 0 {
        1
    } else {
        policy.restart.backoff_initial_ms
    };
    let mut delay: u64 = initial;
    let mut done: u32 = 1;
    while done < retry
        invariant
            1 <= done,
            done <= retry || retry == 0 && done == 1,
            delay == grown(initial as nat, multiplier as nat, maximum as nat, (done - 1) as nat),
            multiplier <= u32::MAX,
        decreases retry - done,
    {
        assert(0 <= delay * multiplier <= u64::MAX * u32::MAX) by (nonlinear_arith)
            requires
                0 <= delay <= u64::MAX,
                0 <= multiplier <= u32::MAX,
        ;
        let product: u128 = delay as u128 * multiplier as u128;
        delay =
        if product < maximum as u128 {
            product as u64
        } else {
            maximum
        };
        done += 1;
    }
    if delay < maximum {
        delay
    } else {
        maximum
    }
}

proof fn lemma_grown_is_monotone(initial: nat, multiplier: nat, maximum: nat, times: nat)
    requires
        multiplier >= 1,
        initial >= 1,
        maximum >= 1,
    ensures
        grown(initial, multiplier, maximum, times) >= 1,
        smaller(grown(initial, multiplier, maximum, times), maximum) <= smaller(
            grown(initial, multiplier, maximum, times + 1),
            maximum,
        ),
    decreases times,
{
    let now = grown(initial, multiplier, maximum, times);
    if times > 0 {
        lemma_grown_is_monotone(initial, multiplier, maximum, (times - 1) as nat);
        let earlier = grown(initial, multiplier, maximum, (times - 1) as nat);
        assert(earlier * multiplier >= 1) by (nonlinear_arith)
            requires
                earlier >= 1,
                multiplier >= 1,
        ;
    }
    assert(now * multiplier >= now) by (nonlinear_arith)
        requires
            now >= 1,
            multiplier >= 1,
    ;
}

/// A delay is never nothing, never beyond the maximum, and no shorter than the one before it.
pub proof fn law_delays_grow_within_bounds(policy: PolicyView, retry: u32)
    requires
        retry < u32::MAX,
    ensures
        1 <= delay_ms(policy, retry) <= at_least_one(policy.restart.backoff_maximum_ms as nat),
        delay_ms(policy, retry) <= delay_ms(policy, (retry + 1) as u32),
{
    let restart = policy.restart;
    let times: nat = if retry == 0 {
        0
    } else {
        (retry - 1) as nat
    };
    lemma_grown_is_monotone(
        at_least_one(restart.backoff_initial_ms as nat),
        at_least_one(restart.backoff_multiplier as nat),
        at_least_one(restart.backoff_maximum_ms as nat),
        times,
    );
}

/// Whether an exit code means success.
pub open spec fn is_success(policy: PolicyView, exit_code: Option<u32>) -> bool {
    exit_code matches Some(code) && policy.success_exit_codes.contains(code)
}

pub fn is_successful(policy: &ExecutionPolicy, exit_code: Option<u32>) -> (successful: bool)
    ensures
        successful == is_success(policy@, exit_code),
{
    match exit_code {
        Some(code) => holds_code(&policy.success_exit_codes, code),
        None => false,
    }
}

/// The name of the directories of an attempt.
pub open spec fn attempt_name(attempt: u32) -> Seq<char> {
    "attempt-"@ + padded(attempt as nat, 6)
}

fn attempt_directory(attempt: u32) -> (name: String)
    ensures
        name@ == attempt_name(attempt),
{
    let mut name: String = "attempt-".to_owned();
    push_padded(&mut name, attempt as u64, 6);
    name
}

/// The configuration of one attempt: its number, and a directory of its own for its output.
pub fn attempt_configuration(configuration: &ExecutionConfiguration, attempt: u32) -> (result:
    ExecutionConfiguration)
    ensures
        result@ == (ConfigurationView {
            attempt,
            log_directory: joined(configuration.log_directory@, attempt_name(attempt)),
            ..configuration@
        }),
{
    let name: String = attempt_directory(attempt);
    let mut result: ExecutionConfiguration = configuration.clone();
    result.attempt = attempt;
    result.log_directory = join_paths(configuration.log_directory.as_str(), name.as_str());
    result
}

/// Where the result of an attempt is kept: in a directory of its own beside the journal.
pub fn attempt_result_path(runtime_journal: &str, attempt: u32) -> (result: Result<
    String,
    RunError,
>)
    ensures
        match result {
            Ok(path) => parent(runtime_journal@) matches Some(root) && path@ == joined(
                joined(root, attempt_name(attempt)),
                "result.pb"@,
            ),
            Err(error) => parent(runtime_journal@) is None && reports(
                error,
                "runtime journal has no parent"@,
            ),
        },
{
    match parent_path(runtime_journal) {
        Some(root) => {
            let directory: String = join_paths(
                root.as_str(),
                attempt_directory(attempt).as_str(),
            );
            Ok(join_paths(directory.as_str(), "result.pb"))
        },
        None => Err(RunError::Preflight("runtime journal has no parent".to_owned())),
    }
}

/// A configuration with another policy.
pub open spec fn with_policy(configuration: ConfigurationView, policy: PolicyView) -> ConfigurationView {
    ConfigurationView { policy, ..configuration }
}

/// Gives a configuration the policy of an update.
pub fn apply_policy(configuration: &mut ExecutionConfiguration, update: &PolicyUpdate)
    ensures
        final(configuration)@ == with_policy(old(configuration)@, update.policy@),
{
    configuration.policy = update.policy.clone();
}

/// What numbers the records of a supervisor.
#[derive(Debug)]
pub struct RuntimeRecorder {
    pub identity: SupervisorIdentity,
    pub sequence: u64,
    pub committed_sequence: u64,
}

#[verifier::ext_equal]
pub struct RecorderView {
    pub id: Seq<char>,
    pub incarnation: u32,
    pub sequence: u64,
    pub committed_sequence: u64,
}

impl RuntimeRecorder {
    pub open spec fn view(&self) -> RecorderView {
        RecorderView {
            id: self.identity.id@,
            incarnation: self.identity.incarnation,
            sequence: self.sequence,
            committed_sequence: self.committed_sequence,
        }
    }
}

/// What a supervisor does next.
#[derive(Debug)]
pub enum RunEffect {
    /// Append a checkpoint to the journal.
    Checkpoint(Checkpoint),
    /// Append an observation to the journal and tell the controller.
    Observe(RuntimeObservation),
    /// Write how an attempt went.
    WriteAttemptResult { attempt: u32, result: AttemptResult },
    /// Write how the execution went.
    WriteResult(AttemptResult),
    /// Settle what the process is launched with.
    Prepare,
    /// Launch the process.
    Launch,
    /// Wait before the next attempt.
    Wait { millis: u64 },
}

/// A [`RunEffect`] as mathematical text.
#[verifier::ext_equal]
pub enum EffectView {
    Checkpoint(CheckpointView),
    Observe(ObservationView),
    WriteAttemptResult { attempt: u32, result: ResultView },
    WriteResult(ResultView),
    Prepare,
    Launch,
    Wait { millis: u64 },
}

impl RunEffect {
    pub open spec fn view(&self) -> EffectView {
        match *self {
            RunEffect::Checkpoint(checkpoint) => EffectView::Checkpoint(checkpoint@),
            RunEffect::Observe(observation) => EffectView::Observe(observation@),
            RunEffect::WriteAttemptResult { attempt, result } => EffectView::WriteAttemptResult {
                attempt,
                result: result@,
            },
            RunEffect::WriteResult(result) => EffectView::WriteResult(result@),
            RunEffect::Prepare => EffectView::Prepare,
            RunEffect::Launch => EffectView::Launch,
            RunEffect::Wait { millis } => EffectView::Wait { millis },
        }
    }
}

/// The views of some effects.
pub open spec fn effect_views(effects: Seq<RunEffect>) -> Seq<EffectView> {
    effects.map_values(|effect: RunEffect| effect@)
}

/// Where a run stands.
#[derive(Debug)]
pub enum RunPhase {
    /// An attempt is about to be launched.
    Launching { started_unix_ms: i64 },
    /// A process was started, and what is known of it is being recorded.
    Starting { started_unix_ms: i64, process_id: u32 },
    /// A process runs.
    Running { started_unix_ms: i64, process_id: u32 },
    /// The run waits before the next attempt. If a new policy denies that attempt, the run ends
    /// with `denied`, or as failed where nothing is known of the last attempt.
    Backoff {
        successful: bool,
        decision_retries: u32,
        retry_at_unix_ms: i64,
        denied: Option<AttemptResult>,
    },
    /// The run has ended.
    Done { result: AttemptResult },
}

/// A [`RunPhase`] as mathematical text.
#[verifier::ext_equal]
pub enum PhaseView {
    Launching { started_unix_ms: i64 },
    Starting { started_unix_ms: i64, process_id: u32 },
    Running { started_unix_ms: i64, process_id: u32 },
    Backoff {
        successful: bool,
        decision_retries: u32,
        retry_at_unix_ms: i64,
        denied: Option<ResultView>,
    },
    Done { result: ResultView },
}

impl RunPhase {
    pub open spec fn view(&self) -> PhaseView {
        match *self {
            RunPhase::Launching { started_unix_ms } => PhaseView::Launching { started_unix_ms },
            RunPhase::Starting { started_unix_ms, process_id } => PhaseView::Starting {
                started_unix_ms,
                process_id,
            },
            RunPhase::Running { started_unix_ms, process_id } => PhaseView::Running {
                started_unix_ms,
                process_id,
            },
            RunPhase::Backoff { successful, decision_retries, retry_at_unix_ms, denied } =>
                PhaseView::Backoff {
                successful,
                decision_retries,
                retry_at_unix_ms,
                denied: match denied {
                    Some(result) => Some(result@),
                    None => None,
                },
            },
            RunPhase::Done { result } => PhaseView::Done { result: result@ },
        }
    }
}

/// One execution in the hands of its supervisor.
#[derive(Debug)]
pub struct Runner {
    pub configuration: ExecutionConfiguration,
    pub recorder: RuntimeRecorder,
    pub attempt: u32,
    pub retries: u32,
    pub preflight: Option<Preflight>,
    pub phase: RunPhase,
    /// What is still to be done, in order.
    pub effects: Vec<RunEffect>,
}

#[verifier::ext_equal]
pub struct RunnerView {
    pub configuration: ConfigurationView,
    pub recorder: RecorderView,
    pub attempt: u32,
    pub retries: u32,
    pub preflight: Option<PreflightView>,
    pub phase: PhaseView,
    pub effects: Seq<EffectView>,
}

/// The time that comes `millis` later, or the last time.
pub open spec fn later(time: i64, millis: nat) -> i64 {
    let span = smaller(millis, i64::MAX as nat);
    if time + span > i64::MAX {
        i64::MAX
    } else {
        (time + span) as i64
    }
}

/// How long something took, within the range of a time.
pub open spec fn elapsed(started: i64, ended: i64) -> int {
    if ended - started > i64::MAX {
        i64::MAX as int
    } else if ended - started < i64::MIN {
        i64::MIN as int
    } else {
        ended - started
    }
}

pub open spec fn one_more(n: u32) -> u32 {
    if n == u32::MAX {
        n
    } else {
        (n + 1) as u32
    }
}

/// An attempt that was stopped before anything was launched.
pub open spec fn stopped(now: i64) -> ResultView {
    ResultView {
        launched: false,
        exit_code: None,
        error: Seq::empty(),
        started_unix_ms: now,
        ended_unix_ms: now,
        stop_requested: true,
        forced: false,
        outcome: Seq::empty(),
    }
}

/// An attempt that failed before a process ran.
pub open spec fn failed(started: i64, now: i64, error: Seq<char>) -> ResultView {
    ResultView {
        launched: false,
        exit_code: None,
        error,
        started_unix_ms: started,
        ended_unix_ms: now,
        stop_requested: false,
        forced: false,
        outcome: Seq::empty(),
    }
}

/// How an attempt went whose process ended with a code, or could not be waited for.
pub open spec fn exit_result(
    started: i64,
    status: Result<u32, Seq<char>>,
    stop_requested: bool,
    forced: bool,
    now: i64,
) -> ResultView {
    match status {
        Ok(code) => ResultView {
            launched: true,
            exit_code: Some(code),
            error: Seq::empty(),
            started_unix_ms: started,
            ended_unix_ms: now,
            stop_requested,
            forced,
            outcome: Seq::empty(),
        },
        Err(error) => failed(started, now, "process wait failed: "@ + error),
    }
}

/// How an execution ends whose last attempt went like this.
pub open spec fn outcome(configuration: ConfigurationView, result: ResultView) -> Seq<char> {
    if result.stop_requested {
        if configuration.kind == "job"@ {
            "cancelled"@
        } else {
            "stopped"@
        }
    } else if is_success(configuration.policy, result.exit_code) {
        "completed"@
    } else {
        "failed"@
    }
}

impl RunnerView {
    pub open spec fn effect(self, effect: EffectView) -> RunnerView {
        RunnerView { effects: self.effects.push(effect), ..self }
    }

    /// The checkpoint of where the run stands.
    pub open spec fn checkpoint_at(self, phase: Seq<char>, retry_at: i64) -> CheckpointView {
        CheckpointView {
            manager_session_id: self.configuration.manager_session_id,
            workload_id: self.configuration.workload_id,
            execution_id: self.configuration.execution_id,
            supervisor_id: self.recorder.id,
            incarnation: self.recorder.incarnation,
            execution_config_hash: self.configuration.execution_config_hash,
            attempt: self.attempt,
            phase,
            last_sequence: self.recorder.sequence,
            committed_sequence: self.recorder.committed_sequence,
            retry_at_unix_ms: retry_at,
            resolved_executable: match self.preflight {
                Some(preflight) => preflight.executable,
                None => Seq::empty(),
            },
            resolved_working_directory: match self.preflight {
                Some(preflight) => preflight.working_directory,
                None => Seq::empty(),
            },
            resolved_environment: match self.preflight {
                Some(preflight) => listing(preflight.environment),
                None => Seq::empty(),
            },
        }
    }

    pub open spec fn checkpoint(self, phase: Seq<char>, retry_at: i64) -> RunnerView {
        self.effect(EffectView::Checkpoint(self.checkpoint_at(phase, retry_at)))
    }

    pub open spec fn next_sequence(self) -> u64 {
        if self.recorder.sequence == u64::MAX {
            u64::MAX
        } else {
            (self.recorder.sequence + 1) as u64
        }
    }

    /// The next observation, under the next number.
    pub open spec fn observe(
        self,
        kind: Seq<char>,
        exit_code: Option<u32>,
        detail: Seq<char>,
        terminal: bool,
        process_id: u32,
        now: i64,
    ) -> RunnerView {
        let sequence = self.next_sequence();
        RunnerView { recorder: RecorderView { sequence, ..self.recorder }, ..self }.effect(
            EffectView::Observe(
                ObservationView {
                    sequence,
                    kind,
                    attempt: self.attempt,
                    exit_code,
                    detail,
                    observed_unix_ms: now,
                    terminal,
                    workload_process_id: process_id,
                },
            ),
        )
    }

    /// The end of the run.
    pub open spec fn finish_as(self, result: ResultView, kind: Seq<char>, now: i64) -> RunnerView {
        let told = self.observe(kind, result.exit_code, result.error, true, 0, now).effect(
            EffectView::WriteResult(ResultView { outcome: kind, ..result }),
        );
        RunnerView { phase: PhaseView::Done { result }, ..told }
    }

    pub open spec fn finish(self, result: ResultView, now: i64) -> RunnerView {
        self.finish_as(result, outcome(self.configuration, result), now)
    }

    /// The wait before the next attempt.
    pub open spec fn back_off(
        self,
        successful: bool,
        exit_code: Option<u32>,
        detail: Seq<char>,
        denied: ResultView,
        now: i64,
    ) -> RunnerView {
        let retries = one_more(self.retries);
        let delay = delay_ms(self.configuration.policy, retries);
        let retry_at = later(now, delay);
        let next = RunnerView { retries, attempt: one_more(self.attempt), ..self };
        let told = next.checkpoint("restart_backoff"@, retry_at).observe(
            "restart-backoff"@,
            exit_code,
            detail,
            false,
            0,
            now,
        ).effect(EffectView::Wait { millis: delay as u64 });
        RunnerView {
            phase: PhaseView::Backoff {
                successful,
                decision_retries: (retries - 1) as u32,
                retry_at_unix_ms: retry_at,
                denied: Some(denied),
            },
            ..told
        }
    }

    /// The beginning of an attempt.
    pub open spec fn begin_attempt(self, now: i64) -> RunnerView {
        RunnerView {
            configuration: ConfigurationView { attempt: self.attempt, ..self.configuration },
            phase: PhaseView::Launching { started_unix_ms: now },
            ..self
        }.checkpoint("launching"@, 0)
    }

    /// What a lost supervisor left behind.
    pub open spec fn lost(checkpoint: CheckpointView, now: i64) -> ResultView {
        ResultView {
            launched: checkpoint.phase == "running"@,
            exit_code: None,
            error: "previous supervisor disappeared before persisting the process outcome"@,
            started_unix_ms: 0,
            ended_unix_ms: now,
            stop_requested: false,
            forced: true,
            outcome: Seq::empty(),
        }
    }

    /// How a run begins.
    pub open spec fn begin(
        configuration: ConfigurationView,
        id: Seq<char>,
        incarnation: u32,
        checkpoint: Option<CheckpointView>,
        last_sequence: u64,
        committed_sequence: u64,
        stop_requested: bool,
        now: i64,
    ) -> RunnerView {
        let told = match checkpoint {
            Some(checkpoint) => checkpoint.attempt,
            None => configuration.attempt,
        };
        let attempt = if told == 0 {
            1
        } else {
            told
        };
        let fresh = RunnerView {
            configuration,
            recorder: RecorderView { id, incarnation, sequence: last_sequence, committed_sequence },
            attempt,
            retries: (attempt - 1) as u32,
            preflight: match checkpoint {
                Some(checkpoint) => recovered(checkpoint),
                None => None,
            },
            phase: PhaseView::Launching { started_unix_ms: now },
            effects: Seq::empty(),
        };
        match checkpoint {
            None => fresh.begin_attempt(now),
            Some(checkpoint) => if checkpoint.phase == "launching"@ || checkpoint.phase
                == "running"@ {
                if stop_requested {
                    fresh.finish(stopped(now), now)
                } else {
                    fresh.recover(checkpoint, now)
                }
            } else if checkpoint.phase == "restart_backoff"@ && checkpoint.retry_at_unix_ms > now {
                RunnerView {
                    phase: PhaseView::Backoff {
                        successful: false,
                        decision_retries: if attempt < 2 {
                            0
                        } else {
                            (attempt - 2) as u32
                        },
                        retry_at_unix_ms: checkpoint.retry_at_unix_ms,
                        denied: None,
                    },
                    ..fresh
                }.effect(
                    EffectView::Wait {
                        millis: elapsed(now, checkpoint.retry_at_unix_ms) as u64,
                    },
                )
            } else {
                fresh.begin_attempt(now)
            },
        }
    }

    /// What follows the loss of a supervisor: the outcome of a job is unknown then, and a service
    /// is tried again where its policy allows it.
    pub open spec fn recover(self, checkpoint: CheckpointView, now: i64) -> RunnerView {
        let result = RunnerView::lost(checkpoint, now);
        let told = self.effect(
            EffectView::WriteAttemptResult { attempt: self.attempt, result },
        ).observe("supervisor-lost"@, None, result.error, false, 0, now);
        if self.configuration.kind == "job"@ {
            told.finish_as(
                ResultView { outcome: "outcome-unknown"@, ..result },
                "outcome-unknown"@,
                now,
            )
        } else if !retries(self.configuration.policy, false, self.retries) {
            told.finish(result, now)
        } else {
            told.back_off(false, None, "recovering from supervisor loss"@, result, now)
        }
    }

    /// A policy that arrived before a launch.
    pub open spec fn adopt(self, update: PolicyView, hash: Seq<u8>, now: i64) -> RunnerView {
        RunnerView {
            configuration: with_policy(self.configuration, update),
            ..self
        }.checkpoint("launching"@, 0).observe(
            "policy-applied"@,
            None,
            hex_text(hash),
            false,
            0,
            now,
        )
    }

    /// The launch, once any new policy is known.
    pub open spec fn launch(self, update: Option<(PolicyView, Seq<u8>)>, now: i64) -> RunnerView {
        let current = match update {
            Some((policy, hash)) => self.adopt(policy, hash, now),
            None => self,
        };
        current.effect(
            if self.preflight is Some {
                EffectView::Launch
            } else {
                EffectView::Prepare
            },
        )
    }

    /// What was settled for the launch.
    pub open spec fn prepared(self, preflight: PreflightView) -> RunnerView {
        RunnerView { preflight: Some(preflight), ..self }.checkpoint("launching"@, 0).effect(
            EffectView::Launch,
        )
    }

    /// The process was started.
    pub open spec fn launched(self, process_id: u32) -> RunnerView {
        RunnerView {
            phase: PhaseView::Starting {
                started_unix_ms: self.phase->Launching_started_unix_ms,
                process_id,
            },
            ..self
        }.checkpoint("running"@, 0)
    }

    /// That the process runs was recorded.
    pub open spec fn running(self, now: i64) -> RunnerView {
        RunnerView {
            phase: PhaseView::Running {
                started_unix_ms: self.phase->Starting_started_unix_ms,
                process_id: self.phase->Starting_process_id,
            },
            ..self
        }.observe(
            "attempt-started"@,
            None,
            Seq::empty(),
            false,
            self.phase->Starting_process_id,
            now,
        )
    }

    /// A policy that is adopted while the process runs.
    pub open spec fn policy_while_running(
        self,
        policy: PolicyView,
        hash: Seq<u8>,
        now: i64,
    ) -> RunnerView {
        RunnerView { configuration: with_policy(self.configuration, policy), ..self }.observe(
            "policy-applied"@,
            None,
            hex_text(hash),
            false,
            self.phase->Running_process_id,
            now,
        )
    }

    /// The end of an attempt.
    pub open spec fn attempt_ended(self, result: ResultView, now: i64) -> RunnerView {
        let told = self.effect(
            EffectView::WriteAttemptResult { attempt: self.attempt, result },
        ).observe(
            if result.launched {
                "attempt-exited"@
            } else {
                "launch-failed"@
            },
            result.exit_code,
            result.error,
            false,
            0,
            now,
        );
        let policy = self.configuration.policy;
        let successful = is_success(policy, result.exit_code);
        let reset = policy.restart.reset_after_ms;
        let counted = RunnerView {
            retries: if result.launched && reset != 0 && elapsed(
                result.started_unix_ms,
                result.ended_unix_ms,
            ) >= (if reset > i64::MAX {
                i64::MAX as int
            } else {
                reset as int
            }) {
                0
            } else {
                self.retries
            },
            ..told
        };
        if result.stop_requested {
            told.finish(result, now)
        } else if !retries(policy, successful, counted.retries) {
            counted.finish(result, now)
        } else {
            counted.back_off(successful, result.exit_code, result.error, result, now)
        }
    }

    /// A policy that arrived during a wait.
    pub open spec fn policy_in_backoff(
        self,
        policy: PolicyView,
        hash: Seq<u8>,
        now: i64,
    ) -> RunnerView {
        match self.phase {
            PhaseView::Backoff { successful, decision_retries, retry_at_unix_ms, denied } => {
                let told = RunnerView {
                    configuration: with_policy(self.configuration, policy),
                    ..self
                }.checkpoint("restart_backoff"@, retry_at_unix_ms).observe(
                    "policy-applied"@,
                    None,
                    hex_text(hash),
                    false,
                    0,
                    now,
                );
                if retries(policy, successful, decision_retries) {
                    told
                } else {
                    let result = match denied {
                        Some(result) => result,
                        None => failed(
                            now,
                            now,
                            "pending retry was denied by a policy update"@,
                        ),
                    };
                    told.finish(result, now)
                }
            },
            _ => self,
        }
    }
}

/// An attempt that was stopped before anything was launched.
pub fn stopped_result(now: i64) -> (result: AttemptResult)
    ensures
        result@ == stopped(now),
{
    let result = AttemptResult {
        launched: false,
        exit_code: None,
        error: String::new(),
        started_unix_ms: now,
        ended_unix_ms: now,
        stop_requested: true,
        forced: false,
        outcome: String::new(),
    };
    assert(result@ =~= stopped(now));
    result
}

/// An attempt that failed before a process ran.
pub fn failed_result(started: i64, now: i64, error: String) -> (result: AttemptResult)
    ensures
        result@ == failed(started, now, error@),
{
    let result = AttemptResult {
        launched: false,
        exit_code: None,
        error,
        started_unix_ms: started,
        ended_unix_ms: now,
        stop_requested: false,
        forced: false,
        outcome: String::new(),
    };
    assert(result@ =~= failed(started, now, error@));
    result
}

/// The view of an update.
pub open spec fn update_view(update: Option<PolicyUpdate>) -> Option<(PolicyView, Seq<u8>)> {
    match update {
        Some(update) => Some((update.policy@, update.policy_hash@)),
        None => None,
    }
}

impl Runner {
    pub open spec fn view(&self) -> RunnerView {
        RunnerView {
            configuration: self.configuration@,
            recorder: self.recorder@,
            attempt: self.attempt,
            retries: self.retries,
            preflight: preflight_view(self.preflight),
            phase: self.phase@,
            effects: effect_views(self.effects@),
        }
    }

    /// Hands out what is to be done, in order.
    pub fn take_effects(&mut self) -> (effects: Vec<RunEffect>)
        ensures
            effect_views(effects@) == old(self)@.effects,
            final(self)@ == (RunnerView { effects: Seq::empty(), ..old(self)@ }),
    {
        let mut effects: Vec<RunEffect> = Vec::new();
        std::mem::swap(&mut effects, &mut self.effects);
        assert(self@ =~= (RunnerView { effects: Seq::empty(), ..old(self)@ }));
        effects
    }

    fn push_effect(&mut self, effect: RunEffect)
        ensures
            final(self)@ == old(self)@.effect(effect@),
    {
        self.effects.push(effect);
        assert(effect_views(self.effects@) =~= effect_views(old(self).effects@).push(effect@));
    }

    /// The checkpoint of where the run stands.
    pub fn checkpoint(&self, phase: &str, retry_at_unix_ms: i64) -> (checkpoint: Checkpoint)
        ensures
            checkpoint@ == self@.checkpoint_at(phase@, retry_at_unix_ms),
    {
        let mut checkpoint = Checkpoint {
            manager_session_id: self.configuration.manager_session_id.clone(),
            workload_id: self.configuration.workload_id.clone(),
            execution_id: self.configuration.execution_id.clone(),
            supervisor_id: self.recorder.identity.id.clone(),
            incarnation: self.recorder.identity.incarnation,
            execution_config_hash: copy_bytes(&self.configuration.execution_config_hash),
            attempt: self.attempt,
            phase: phase.to_owned(),
            last_sequence: self.recorder.sequence,
            committed_sequence: self.recorder.committed_sequence,
            retry_at_unix_ms,
            resolved_executable: String::new(),
            resolved_working_directory: String::new(),
            resolved_environment: Vec::new(),
        };
        match &self.preflight {
            Some(preflight) => {
                checkpoint.resolved_executable = preflight.executable.clone();
                checkpoint.resolved_working_directory = preflight.working_directory.clone();
                checkpoint.resolved_environment = list_variables(&preflight.environment);
            },
            None => {},
        }
        assert(checkpoint@ =~= self@.checkpoint_at(phase@, retry_at_unix_ms));
        checkpoint
    }

    fn push_checkpoint(&mut self, phase: &str, retry_at_unix_ms: i64)
        ensures
            final(self)@ == old(self)@.checkpoint(phase@, retry_at_unix_ms),
    {
        let checkpoint: Checkpoint = self.checkpoint(phase, retry_at_unix_ms);
        self.push_effect(RunEffect::Checkpoint(checkpoint));
    }

    fn observe(
        &mut self,
        kind: &str,
        exit_code: Option<u32>,
        detail: String,
        terminal: bool,
        process_id: u32,
        now: i64,
    )
        ensures
            final(self)@ == old(self)@.observe(
                kind@,
                exit_code,
                detail@,
                terminal,
                process_id,
                now,
            ),
    {
        self.recorder.sequence = self.recorder.sequence.saturating_add(1);
        let observation = RuntimeObservation {
            sequence: self.recorder.sequence,
            kind: kind.to_owned(),
            attempt: self.attempt,
            exit_code,
            detail,
            observed_unix_ms: now,
            terminal,
            workload_process_id: process_id,
        };
        self.push_effect(RunEffect::Observe(observation));
    }

    fn finish_as(&mut self, result: AttemptResult, kind: &str, now: i64)
        ensures
            final(self)@ == old(self)@.finish_as(result@, kind@, now),
    {
        self.observe(kind, result.exit_code, result.error.clone(), true, 0, now);
        let mut terminal: AttemptResult = result.clone();
        terminal.outcome = kind.to_owned();
        self.push_effect(RunEffect::WriteResult(terminal));
        self.phase = RunPhase::Done { result };
    }

    fn finish(&mut self, result: AttemptResult, now: i64)
        ensures
            final(self)@ == old(self)@.finish(result@, now),
    {
        let kind: &str = if result.stop_requested {
            if same_text(self.configuration.kind.as_str(), "job") {
                "cancelled"
            } else {
                "stopped"
            }
        } else if is_successful(&self.configuration.policy, result.exit_code) {
            "completed"
        } else {
            "failed"
        };
        self.finish_as(result, kind, now);
    }

    fn back_off(
        &mut self,
        successful: bool,
        exit_code: Option<u32>,
        detail: String,
        denied: AttemptResult,
        now: i64,
    )
        ensures
            final(self)@ == old(self)@.back_off(successful, exit_code, detail@, denied@, now),
    {
        self.retries = self.retries.saturating_add(1);
        self.attempt = self.attempt.saturating_add(1);
        let delay: u64 = retry_delay(&self.configuration.policy, self.retries);
        let retry_at: i64 = add_millis(now, delay);
        let decision_retries: u32 = self.retries - 1;
        self.push_checkpoint("restart_backoff", retry_at);
        self.observe("restart-backoff", exit_code, detail, false, 0, now);
        self.push_effect(RunEffect::Wait { millis: delay });
        self.phase = RunPhase::Backoff {
            successful,
            decision_retries,
            retry_at_unix_ms: retry_at,
            denied: Some(denied),
        };
    }

    fn begin_attempt(&mut self, now: i64)
        ensures
            final(self)@ == old(self)@.begin_attempt(now),
    {
        self.configuration.attempt = self.attempt;
        self.phase = RunPhase::Launching { started_unix_ms: now };
        self.push_checkpoint("launching", 0);
    }

    fn recover(&mut self, checkpoint: &Checkpoint, now: i64)
        ensures
            final(self)@ == old(self)@.recover(checkpoint@, now),
    {
        let mut result = AttemptResult {
            launched: same_text(checkpoint.phase.as_str(), "running"),
            exit_code: None,
            error: "previous supervisor disappeared before persisting the process outcome".to_owned(),
            started_unix_ms: 0,
            ended_unix_ms: now,
            stop_requested: false,
            forced: true,
            outcome: String::new(),
        };
        assert(result@ =~= RunnerView::lost(checkpoint@, now));
        self.push_effect(
            RunEffect::WriteAttemptResult { attempt: self.attempt, result: result.clone() },
        );
        self.observe("supervisor-lost", None, result.error.clone(), false, 0, now);
        if same_text(self.configuration.kind.as_str(), "job") {
            result.outcome = "outcome-unknown".to_owned();
            self.finish_as(result, "outcome-unknown", now);
        } else if !should_retry(&self.configuration.policy, false, self.retries) {
            self.finish(result, now);
        } else {
            self.back_off(
                false,
                None,
                "recovering from supervisor loss".to_owned(),
                result,
                now,
            );
        }
    }

    /// Begins a run, or takes over one that another supervisor began.
    pub fn start(
        configuration: ExecutionConfiguration,
        identity: SupervisorIdentity,
        recovery: &RuntimeRecovery,
        stop_requested: bool,
        now: i64,
    ) -> (runner: Runner)
        ensures
            runner@ == RunnerView::begin(
                configuration@,
                identity.id@,
                identity.incarnation,
                recovery.checkpoint_view(),
                recovery.last_sequence,
                recovery.committed_sequence,
                stop_requested,
                now,
            ),
    {
        let told: u32 = match &recovery.checkpoint {
            Some(checkpoint) => checkpoint.attempt,
            None => configuration.attempt,
        };
        let attempt: u32 = if told == 0 {
            1
        } else {
            told
        };
        let preflight: Option<Preflight> = match &recovery.checkpoint {
            Some(checkpoint) => recovered_preflight(checkpoint),
            None => None,
        };
        let mut runner = Runner {
            configuration,
            recorder: RuntimeRecorder {
                identity,
                sequence: recovery.last_sequence,
                committed_sequence: recovery.committed_sequence,
            },
            attempt,
            retries: attempt - 1,
            preflight,
            phase: RunPhase::Launching { started_unix_ms: now },
            effects: Vec::new(),
        };
        assert(runner@.effects =~= Seq::empty());
        match &recovery.checkpoint {
            None => {
                runner.begin_attempt(now);
            },
            Some(checkpoint) => {
                if same_text(checkpoint.phase.as_str(), "launching") || same_text(
                    checkpoint.phase.as_str(),
                    "running",
                ) {
                    if stop_requested {
                        runner.finish(stopped_result(now), now);
                    } else {
                        runner.recover(checkpoint, now);
                    }
                } else if same_text(checkpoint.phase.as_str(), "restart_backoff")
                    && checkpoint.retry_at_unix_ms > now {
                    let decision_retries: u32 = if attempt < 2 {
                        0
                    } else {
                        attempt - 2
                    };
                    runner.phase = RunPhase::Backoff {
                        successful: false,
                        decision_retries,
                        retry_at_unix_ms: checkpoint.retry_at_unix_ms,
                        denied: None,
                    };
                    let millis: u64 = millis_between(now, checkpoint.retry_at_unix_ms) as u64;
                    runner.push_effect(RunEffect::Wait { millis });
                } else {
                    runner.begin_attempt(now);
                }
            },
        }
        runner
    }

    /// Goes on to the launch, with the policy that arrived meanwhile, if one did.
    pub fn launch(&mut self, update: Option<PolicyUpdate>, now: i64)
        requires
            old(self)@.phase is Launching,
        ensures
            final(self)@ == old(self)@.launch(update_view(update), now),
    {
        match update {
            Some(update) => {
                apply_policy(&mut self.configuration, &update);
                self.push_checkpoint("launching", 0);
                self.observe(
                    "policy-applied",
                    None,
                    hex(update.policy_hash.as_slice()),
                    false,
                    0,
                    now,
                );
            },
            None => {},
        }
        if self.preflight.is_some() {
            self.push_effect(RunEffect::Launch);
        } else {
            self.push_effect(RunEffect::Prepare);
        }
    }

    /// Takes what was settled for the launch.
    pub fn prepared(&mut self, preflight: Preflight)
        requires
            old(self)@.phase is Launching,
        ensures
            final(self)@ == old(self)@.prepared(preflight@),
    {
        self.preflight = Some(preflight);
        self.push_checkpoint("launching", 0);
        self.push_effect(RunEffect::Launch);
    }

    /// Nothing could be settled for the launch.
    pub fn preparation_failed(&mut self, error: String, stop_requested: bool, now: i64)
        requires
            old(self)@.phase is Launching,
        ensures
            final(self)@ == old(self)@.attempt_ended(
                (ResultView {
                    stop_requested,
                    ..failed(old(self)@.phase->Launching_started_unix_ms, now, error@)
                }),
                now,
            ),
    {
        let started: i64 = match self.phase {
            RunPhase::Launching { started_unix_ms } => started_unix_ms,
            _ => now,
        };
        let mut result: AttemptResult = failed_result(started, now, error);
        result.stop_requested = stop_requested;
        self.attempt_ended(result, now);
    }

    /// The process could not be started.
    pub fn launch_failed(&mut self, error: String, now: i64)
        requires
            old(self)@.phase is Launching,
        ensures
            final(self)@ == old(self)@.attempt_ended(
                failed(old(self)@.phase->Launching_started_unix_ms, now, error@),
                now,
            ),
    {
        let started: i64 = match self.phase {
            RunPhase::Launching { started_unix_ms } => started_unix_ms,
            _ => now,
        };
        self.attempt_ended(failed_result(started, now, error), now);
    }

    /// The process was started.
    pub fn launched(&mut self, process_id: u32)
        requires
            old(self)@.phase is Launching,
        ensures
            final(self)@ == old(self)@.launched(process_id),
    {
        let started_unix_ms: i64 = match self.phase {
            RunPhase::Launching { started_unix_ms } => started_unix_ms,
            _ => 0,
        };
        self.phase = RunPhase::Starting { started_unix_ms, process_id };
        self.push_checkpoint("running", 0);
    }

    /// That the process runs was recorded, or could not be.
    pub fn running_recorded(&mut self, outcome: Result<(), String>, now: i64)
        requires
            old(self)@.phase is Starting,
        ensures
            match outcome {
                Ok(_) => final(self)@ == old(self)@.running(now),
                Err(error) => final(self)@ == old(self)@.attempt_ended(
                    failed(
                        old(self)@.phase->Starting_started_unix_ms,
                        now,
                        "failed to persist running state: "@ + error@,
                    ),
                    now,
                ),
            },
    {
        if let RunPhase::Starting { started_unix_ms, process_id } = self.phase {
            match outcome {
                Ok(_) => {
                    self.phase = RunPhase::Running { started_unix_ms, process_id };
                    let detail: String = String::new();
                    assert(detail@ =~= Seq::empty());
                    self.observe("attempt-started", None, detail, false, process_id, now);
                },
                Err(error) => {
                    let reason: String = join("failed to persist running state: ", error.as_str());
                    self.attempt_ended(failed_result(started_unix_ms, now, reason), now);
                },
            }
        }
    }

    /// That the attempt started could not be recorded.
    pub fn start_not_recorded(&mut self, error: String, now: i64)
        requires
            old(self)@.phase is Running,
        ensures
            final(self)@ == old(self)@.attempt_ended(
                failed(
                    old(self)@.phase->Running_started_unix_ms,
                    now,
                    "failed to persist attempt start: "@ + error@,
                ),
                now,
            ),
    {
        let started: i64 = match self.phase {
            RunPhase::Running { started_unix_ms, .. } => started_unix_ms,
            _ => now,
        };
        let reason: String = join("failed to persist attempt start: ", error.as_str());
        self.attempt_ended(failed_result(started, now, reason), now);
    }

    /// The process ended, or could not be waited for.
    pub fn exited(
        &mut self,
        status: Result<u32, String>,
        stop_requested: bool,
        forced: bool,
        now: i64,
    )
        requires
            old(self)@.phase is Running,
        ensures
            final(self)@ == old(self)@.attempt_ended(
                exit_result(
                    old(self)@.phase->Running_started_unix_ms,
                    match status {
                        Ok(code) => Ok(code),
                        Err(error) => Err(error@),
                    },
                    stop_requested,
                    forced,
                    now,
                ),
                now,
            ),
    {
        let started: i64 = match self.phase {
            RunPhase::Running { started_unix_ms, .. } => started_unix_ms,
            _ => now,
        };
        let result: AttemptResult = match status {
            Ok(code) => {
                let result = AttemptResult {
                    launched: true,
                    exit_code: Some(code),
                    error: String::new(),
                    started_unix_ms: started,
                    ended_unix_ms: now,
                    stop_requested,
                    forced,
                    outcome: String::new(),
                };
                assert(result@.error =~= Seq::empty());
                assert(result@.outcome =~= Seq::empty());
                result
            },
            Err(error) => failed_result(
                started,
                now,
                join("process wait failed: ", error.as_str()),
            ),
        };
        self.attempt_ended(result, now);
    }

    /// The checkpoint that records a policy while the process runs, before it is adopted.
    pub fn policy_checkpoint(&self, update: &PolicyUpdate) -> (checkpoint: Checkpoint)
        ensures
            checkpoint@ == (RunnerView {
                configuration: with_policy(self@.configuration, update.policy@),
                ..self@
            }).checkpoint_at("running"@, 0),
    {
        self.checkpoint("running", 0)
    }

    /// Adopts a policy while the process runs, once it is recorded.
    pub fn policy_while_running(&mut self, update: &PolicyUpdate, now: i64)
        requires
            old(self)@.phase is Running,
        ensures
            final(self)@ == old(self)@.policy_while_running(
                update.policy@,
                update.policy_hash@,
                now,
            ),
    {
        let process_id: u32 = match self.phase {
            RunPhase::Running { process_id, .. } => process_id,
            _ => 0,
        };
        apply_policy(&mut self.configuration, update);
        self.observe(
            "policy-applied",
            None,
            hex(update.policy_hash.as_slice()),
            false,
            process_id,
            now,
        );
    }

    fn attempt_ended(&mut self, result: AttemptResult, now: i64)
        ensures
            final(self)@ == old(self)@.attempt_ended(result@, now),
    {
        self.push_effect(
            RunEffect::WriteAttemptResult { attempt: self.attempt, result: result.clone() },
        );
        self.observe(
            if result.launched {
                "attempt-exited"
            } else {
                "launch-failed"
            },
            result.exit_code,
            result.error.clone(),
            false,
            0,
            now,
        );
        if result.stop_requested {
            self.finish(result, now);
            return;
        }
        let successful: bool = is_successful(&self.configuration.policy, result.exit_code);
        let reset: u64 = self.configuration.policy.restart.reset_after_ms;
        let bound: i64 = if reset > 0x7fff_ffff_ffff_ffff {
            i64::MAX
        } else {
            reset as i64
        };
        if result.launched && reset != 0 && millis_between(
            result.started_unix_ms,
            result.ended_unix_ms,
        ) >= bound {
            self.retries = 0;
        }
        if !should_retry(&self.configuration.policy, successful, self.retries) {
            self.finish(result, now);
        } else {
            let detail: String = result.error.clone();
            self.back_off(successful, result.exit_code, detail, result, now);
        }
    }

    /// The wait is over.
    pub fn backoff_elapsed(&mut self, now: i64)
        requires
            old(self)@.phase is Backoff,
        ensures
            final(self)@ == old(self)@.begin_attempt(now),
    {
        self.begin_attempt(now);
    }

    /// A stop was requested during the wait.
    pub fn backoff_stopped(&mut self, now: i64)
        requires
            old(self)@.phase is Backoff,
        ensures
            final(self)@ == old(self)@.finish(stopped(now), now),
    {
        self.finish(stopped_result(now), now);
    }

    /// A policy arrived during the wait.
    pub fn policy_in_backoff(&mut self, update: &PolicyUpdate, now: i64)
        requires
            old(self)@.phase is Backoff,
        ensures
            final(self)@ == old(self)@.policy_in_backoff(update.policy@, update.policy_hash@, now),
    {
        let mut phase = RunPhase::Launching { started_unix_ms: 0 };
        std::mem::swap(&mut phase, &mut self.phase);
        if let RunPhase::Backoff { successful, decision_retries, retry_at_unix_ms, denied } = phase {
            apply_policy(&mut self.configuration, update);
            self.push_checkpoint("restart_backoff", retry_at_unix_ms);
            self.observe(
                "policy-applied",
                None,
                hex(update.policy_hash.as_slice()),
                false,
                0,
                now,
            );
            if should_retry(&self.configuration.policy, successful, decision_retries) {
                self.phase = RunPhase::Backoff {
                    successful,
                    decision_retries,
                    retry_at_unix_ms,
                    denied,
                };
            } else {
                let result: AttemptResult = match denied {
                    Some(result) => result,
                    None => failed_result(
                        now,
                        now,
                        "pending retry was denied by a policy update".to_owned(),
                    ),
                };
                self.finish(result, now);
            }
        }
    }
}

/// The time that comes `millis` later, or the last time.
fn add_millis(time: i64, millis: u64) -> (sum: i64)
    ensures
        sum == later(time, millis as nat),
{
    let span: i128 = if millis < 0x7fff_ffff_ffff_ffff {
        millis as i128
    } else {
        0x7fff_ffff_ffff_ffff
    };
    let total: i128 = time as i128 + span;
    if total > 0x7fff_ffff_ffff_ffff {
        i64::MAX
    } else {
        total as i64
    }
}

/// How long something took, within the range of a time.
fn millis_between(started: i64, ended: i64) -> (millis: i64)
    ensures
        millis == elapsed(started, ended),
{
    let total: i128 = ended as i128 - started as i128;
    if total > 0x7fff_ffff_ffff_ffff {
        i64::MAX
    } else if total < -0x8000_0000_0000_0000 {
        i64::MIN
    } else {
        total as i64
    }
}

/// The number of the last observation among some effects, where each has the number after the one
/// before it and the first the number after `start`.
pub open spec fn last_number(effects: Seq<EffectView>, start: int) -> Option<int>
    decreases effects.len(),
{
    if effects.len() == 0 {
        Some(start)
    } else {
        let earlier = last_number(effects.drop_last(), start);
        match effects.last() {
            EffectView::Observe(observation) => if earlier == Some(observation.sequence - 1) {
                Some(observation.sequence as int)
            } else {
                None
            },
            _ => earlier,
        }
    }
}

/// Whether what is to be done numbers its observations in a row from `start` on.
pub open spec fn numbered(runner: RunnerView, start: int) -> bool {
    last_number(runner.effects, start) == Some(runner.recorder.sequence as int)
}

proof fn lemma_effect_is_numbered(runner: RunnerView, effect: EffectView, start: int)
    requires
        numbered(runner, start),
        effect !is Observe,
    ensures
        numbered(runner.effect(effect), start),
{
    assert(runner.effects.push(effect).drop_last() =~= runner.effects);
}

proof fn lemma_observation_is_numbered(
    runner: RunnerView,
    kind: Seq<char>,
    exit_code: Option<u32>,
    detail: Seq<char>,
    terminal: bool,
    process_id: u32,
    now: i64,
    start: int,
)
    requires
        numbered(runner, start),
        runner.recorder.sequence < u64::MAX,
    ensures
        numbered(runner.observe(kind, exit_code, detail, terminal, process_id, now), start),
        runner.observe(kind, exit_code, detail, terminal, process_id, now).recorder.sequence
            == runner.recorder.sequence + 1,
{
    let after = runner.observe(kind, exit_code, detail, terminal, process_id, now);
    assert(after.effects.drop_last() =~= runner.effects);
}

proof fn lemma_finish_is_numbered(
    runner: RunnerView,
    result: ResultView,
    kind: Seq<char>,
    now: i64,
    start: int,
)
    requires
        numbered(runner, start),
        runner.recorder.sequence < u64::MAX,
    ensures
        numbered(runner.finish_as(result, kind, now), start),
{
    lemma_observation_is_numbered(
        runner,
        kind,
        result.exit_code,
        result.error,
        true,
        0,
        now,
        start,
    );
    lemma_effect_is_numbered(
        runner.observe(kind, result.exit_code, result.error, true, 0, now),
        EffectView::WriteResult(ResultView { outcome: kind, ..result }),
        start,
    );
}

proof fn lemma_back_off_is_numbered(
    runner: RunnerView,
    successful: bool,
    exit_code: Option<u32>,
    detail: Seq<char>,
    denied: ResultView,
    now: i64,
    start: int,
)
    requires
        numbered(runner, start),
        runner.recorder.sequence < u64::MAX,
    ensures
        numbered(runner.back_off(successful, exit_code, detail, denied, now), start),
{
    let retries = one_more(runner.retries);
    let delay = delay_ms(runner.configuration.policy, retries);
    let retry_at = later(now, delay);
    let next = RunnerView { retries, attempt: one_more(runner.attempt), ..runner };
    lemma_effect_is_numbered(
        next,
        EffectView::Checkpoint(next.checkpoint_at("restart_backoff"@, retry_at)),
        start,
    );
    let marked = next.checkpoint("restart_backoff"@, retry_at);
    lemma_observation_is_numbered(
        marked,
        "restart-backoff"@,
        exit_code,
        detail,
        false,
        0,
        now,
        start,
    );
    lemma_effect_is_numbered(
        marked.observe("restart-backoff"@, exit_code, detail, false, 0, now),
        EffectView::Wait { millis: delay as u64 },
        start,
    );
}

/// The observations of a run are numbered in a row: at the end of an attempt, after the loss of a
/// supervisor, before a launch and when a policy arrives during a wait.
pub proof fn law_observations_are_numbered_in_a_row(
    runner: RunnerView,
    result: ResultView,
    checkpoint: CheckpointView,
    update: (PolicyView, Seq<u8>),
    now: i64,
    start: int,
)
    requires
        numbered(runner, start),
        runner.recorder.sequence < u64::MAX - 2,
    ensures
        numbered(runner.attempt_ended(result, now), start),
        numbered(runner.recover(checkpoint, now), start),
        numbered(runner.launch(Some(update), now), start),
        numbered(runner.policy_in_backoff(update.0, update.1, now), start),
{
    let written = runner.effect(
        EffectView::WriteAttemptResult { attempt: runner.attempt, result },
    );
    lemma_effect_is_numbered(
        runner,
        EffectView::WriteAttemptResult { attempt: runner.attempt, result },
        start,
    );
    let kind = if result.launched {
        "attempt-exited"@
    } else {
        "launch-failed"@
    };
    lemma_observation_is_numbered(
        written,
        kind,
        result.exit_code,
        result.error,
        false,
        0,
        now,
        start,
    );
    let told = written.observe(kind, result.exit_code, result.error, false, 0, now);
    let policy = runner.configuration.policy;
    let successful = is_success(policy, result.exit_code);
    let reset = RunnerView { retries: 0, ..told };
    lemma_finish_is_numbered(told, result, outcome(told.configuration, result), now, start);
    lemma_finish_is_numbered(reset, result, outcome(reset.configuration, result), now, start);
    lemma_back_off_is_numbered(
        told,
        successful,
        result.exit_code,
        result.error,
        result,
        now,
        start,
    );
    lemma_back_off_is_numbered(
        reset,
        successful,
        result.exit_code,
        result.error,
        result,
        now,
        start,
    );
    lemma_recovery_is_numbered(runner, checkpoint, now, start);
    lemma_updates_are_numbered(runner, update, now, start);
}

proof fn lemma_recovery_is_numbered(
    runner: RunnerView,
    checkpoint: CheckpointView,
    now: i64,
    start: int,
)
    requires
        numbered(runner, start),
        runner.recorder.sequence < u64::MAX - 2,
    ensures
        numbered(runner.recover(checkpoint, now), start),
{
    let result = RunnerView::lost(checkpoint, now);
    let effect = EffectView::WriteAttemptResult { attempt: runner.attempt, result };
    lemma_effect_is_numbered(runner, effect, start);
    let written = runner.effect(effect);
    lemma_observation_is_numbered(
        written,
        "supervisor-lost"@,
        None,
        result.error,
        false,
        0,
        now,
        start,
    );
    let told = written.observe("supervisor-lost"@, None, result.error, false, 0, now);
    let unknown = ResultView { outcome: "outcome-unknown"@, ..result };
    lemma_finish_is_numbered(told, unknown, "outcome-unknown"@, now, start);
    lemma_finish_is_numbered(told, result, outcome(told.configuration, result), now, start);
    lemma_back_off_is_numbered(
        told,
        false,
        None,
        "recovering from supervisor loss"@,
        result,
        now,
        start,
    );
}

proof fn lemma_updates_are_numbered(
    runner: RunnerView,
    update: (PolicyView, Seq<u8>),
    now: i64,
    start: int,
)
    requires
        numbered(runner, start),
        runner.recorder.sequence < u64::MAX - 2,
    ensures
        numbered(runner.launch(Some(update), now), start),
        numbered(runner.policy_in_backoff(update.0, update.1, now), start),
{
    let adopted = RunnerView {
        configuration: with_policy(runner.configuration, update.0),
        ..runner
    };
    let detail = hex_text(update.1);
    lemma_effect_is_numbered(
        adopted,
        EffectView::Checkpoint(adopted.checkpoint_at("launching"@, 0)),
        start,
    );
    let marked = adopted.checkpoint("launching"@, 0);
    lemma_observation_is_numbered(
        marked,
        "policy-applied"@,
        None,
        detail,
        false,
        0,
        now,
        start,
    );
    let told = marked.observe("policy-applied"@, None, detail, false, 0, now);
    lemma_effect_is_numbered(
        told,
        if runner.preflight is Some {
            EffectView::Launch
        } else {
            EffectView::Prepare
        },
        start,
    );
    if let PhaseView::Backoff { successful, decision_retries, retry_at_unix_ms, denied } =
        runner.phase {
        lemma_effect_is_numbered(
            adopted,
            EffectView::Checkpoint(adopted.checkpoint_at("restart_backoff"@, retry_at_unix_ms)),
            start,
        );
        let waiting = adopted.checkpoint("restart_backoff"@, retry_at_unix_ms);
        lemma_observation_is_numbered(
            waiting,
            "policy-applied"@,
            None,
            detail,
            false,
            0,
            now,
            start,
        );
        let heard = waiting.observe("policy-applied"@, None, detail, false, 0, now);
        let result = match denied {
            Some(result) => result,
            None => failed(now, now, "pending retry was denied by a policy update"@),
        };
        lemma_finish_is_numbered(heard, result, outcome(heard.configuration, result), now, start);
    }
}

/// A run ends with one terminal observation and the result that names the same outcome, as the
/// last two things that it does.
pub proof fn law_runs_end_with_their_outcome(
    runner: RunnerView,
    result: ResultView,
    kind: Seq<char>,
    now: i64,
)
    ensures
        ({
            let ended = runner.finish_as(result, kind, now);
            let count = runner.effects.len() as int;
            &&& ended.phase == PhaseView::Done { result }
            &&& ended.effects.len() == count + 2
            &&& ended.effects.take(count) == runner.effects
            &&& ended.effects[count] matches EffectView::Observe(observation)
                && observation.terminal && observation.kind == kind && observation.attempt
                == runner.attempt && observation.exit_code == result.exit_code
            &&& ended.effects[count + 1] == EffectView::WriteResult(
                ResultView { outcome: kind, ..result },
            )
        }),
{
    let ended = runner.finish_as(result, kind, now);
    assert(ended.effects.take(runner.effects.len() as int) =~= runner.effects);
}

/// Where an attempt is followed by a wait, the policy allowed another one: within the number of
/// restarts, unless that is unlimited, and the next attempt has the next number. Otherwise the
/// run ends.
pub proof fn law_restarts_stay_within_the_policy(runner: RunnerView, result: ResultView, now: i64)
    ensures
        ({
            let after = runner.attempt_ended(result, now);
            let restart = runner.configuration.policy.restart;
            &&& after.phase is Backoff || after.phase == PhaseView::Done { result }
            &&& after.phase is Backoff ==> {
                &&& restart.policy == "always"@ || restart.policy == "on-failure"@ && !is_success(
                    runner.configuration.policy,
                    result.exit_code,
                )
                &&& restart.max_restarts_unlimited || after.retries <= restart.max_restarts
                &&& after.attempt == one_more(runner.attempt)
            }
        }),
{
}

/// A requested stop ends the run, after an attempt or during a wait: a job is cancelled then and
/// a service stopped.
pub proof fn law_requested_stops_end_the_run(runner: RunnerView, result: ResultView, now: i64)
    requires
        result.stop_requested,
    ensures
        runner.attempt_ended(result, now).phase == (PhaseView::Done { result }),
        runner.finish(stopped(now), now).phase == (PhaseView::Done { result: stopped(now) }),
        outcome(runner.configuration, result) == if runner.configuration.kind == "job"@ {
            "cancelled"@
        } else {
            "stopped"@
        },
        outcome(runner.configuration, stopped(now)) == outcome(runner.configuration, result),
{
}

/// A job whose supervisor was lost while it may have run is not run again: its outcome is
/// unknown.
pub proof fn law_lost_jobs_are_not_run_again(
    configuration: ConfigurationView,
    id: Seq<char>,
    incarnation: u32,
    checkpoint: CheckpointView,
    last_sequence: u64,
    committed_sequence: u64,
    now: i64,
)
    requires
        configuration.kind == "job"@,
        checkpoint.phase == "launching"@ || checkpoint.phase == "running"@,
    ensures
        ({
            let begun = RunnerView::begin(
                configuration,
                id,
                incarnation,
                Some(checkpoint),
                last_sequence,
                committed_sequence,
                false,
                now,
            );
            begun.phase matches PhaseView::Done { result } && result.outcome == "outcome-unknown"@
        }),
{
}

/// Every attempt is checkpointed under its number before it is launched.
pub proof fn law_attempts_are_recorded_before_they_are_launched(runner: RunnerView, now: i64)
    ensures
        ({
            let begun = runner.begin_attempt(now);
            &&& begun.effects.last() matches EffectView::Checkpoint(checkpoint)
                && checkpoint.phase == "launching"@ && checkpoint.attempt == runner.attempt
            &&& begun.configuration.attempt == runner.attempt
            &&& begun.phase is Launching
        }),
{
}

/// How a process is asked to stop.
#[derive(Clone, Copy, Debug, PartialEq, Eq, Structural)]
pub enum StopMethod {
    Kill,
    Command,
    CtrlBreak,
}

/// How a process is stopped: how it is asked, and how long it is given in milliseconds.
#[derive(Clone, Copy, Debug, PartialEq, Eq, Structural)]
pub struct StopPlan {
    pub method: StopMethod,
    pub wait_ms: u64,
}

/// The longest that a process is given while its session ends, in milliseconds.
pub const SESSION_END_TIMEOUT_MS: u64 = 25_000;

/// How a process with this policy is stopped.
pub open spec fn planned_stop(policy: PolicyView, session_ending: bool) -> StopPlan {
    StopPlan {
        method: if policy.stop.method == "kill"@ {
            StopMethod::Kill
        } else if policy.stop.method == "command"@ {
            StopMethod::Command
        } else {
            StopMethod::CtrlBreak
        },
        wait_ms: if session_ending && policy.stop.timeout_ms > SESSION_END_TIMEOUT_MS {
            SESSION_END_TIMEOUT_MS
        } else {
            policy.stop.timeout_ms
        },
    }
}

pub fn stop_plan(policy: &ExecutionPolicy, session_ending: bool) -> (plan: StopPlan)
    ensures
        plan == planned_stop(policy@, session_ending),
{
    let method: StopMethod = if same_text(policy.stop.method.as_str(), "kill") {
        StopMethod::Kill
    } else if same_text(policy.stop.method.as_str(), "command") {
        StopMethod::Command
    } else {
        StopMethod::CtrlBreak
    };
    let wait_ms: u64 = if session_ending && policy.stop.timeout_ms > SESSION_END_TIMEOUT_MS {
        SESSION_END_TIMEOUT_MS
    } else {
        policy.stop.timeout_ms
    };
    StopPlan { method, wait_ms }
}

/// Something that reaches a supervisor while a process runs or while it waits.
#[derive(Clone, Copy, Debug, PartialEq, Eq, Structural)]
pub enum Signal {
    /// The session of the manager ends.
    SessionEnding,
    /// The stop flag of the controller changed to this, or its sender is gone.
    StopFlag { open: bool, raised: bool },
    /// A line on the standard input asked for a stop, or the input is closed.
    Input { open: bool },
}

/// What a supervisor does about a signal while a process runs.
#[derive(Clone, Copy, Debug, PartialEq, Eq, Structural)]
pub enum RunningStep {
    /// Stop the process, in a hurry where the session ends.
    Stop { session_ending: bool },
    /// Wait for the process and for nothing else.
    AwaitExit,
    /// Go on.
    Continue,
}

/// What a signal means while a process runs.
pub open spec fn running_meaning(signal: Signal, session_ending: bool) -> RunningStep {
    match signal {
        Signal::SessionEnding => RunningStep::Stop { session_ending: true },
        Signal::StopFlag { open, raised } => if !open {
            RunningStep::AwaitExit
        } else if raised {
            RunningStep::Stop { session_ending }
        } else {
            RunningStep::Continue
        },
        Signal::Input { open } => if open {
            RunningStep::Stop { session_ending }
        } else {
            RunningStep::AwaitExit
        },
    }
}

pub fn while_running(signal: Signal, session_ending: bool) -> (step: RunningStep)
    ensures
        step == running_meaning(signal, session_ending),
{
    match signal {
        Signal::SessionEnding => RunningStep::Stop { session_ending: true },
        Signal::StopFlag { open, raised } => {
            if !open {
                RunningStep::AwaitExit
            } else if raised {
                RunningStep::Stop { session_ending }
            } else {
                RunningStep::Continue
            }
        },
        Signal::Input { open } => {
            if open {
                RunningStep::Stop { session_ending }
            } else {
                RunningStep::AwaitExit
            }
        },
    }
}

/// Whether a signal ends a wait before the next attempt.
pub open spec fn ends_backoff(signal: Signal) -> bool {
    match signal {
        Signal::SessionEnding => true,
        Signal::StopFlag { open, raised } => open && raised,
        Signal::Input { open } => open,
    }
}

pub fn stops_backoff(signal: Signal) -> (stops: bool)
    ensures
        stops == ends_backoff(signal),
{
    match signal {
        Signal::SessionEnding => true,
        Signal::StopFlag { open, raised } => open && raised,
        Signal::Input { open } => open,
    }
}

/// Whether a stop was requested: by the flag of the controller, or by an ending session, where
/// that can be told.
pub fn stop_requested(flag: bool, session_ending: Option<bool>) -> (requested: bool)
    ensures
        requested == (flag || session_ending == Some(true)),
{
    match session_ending {
        Some(ending) => flag || ending,
        None => flag,
    }
}

/// A text without the white space around it.
pub open spec fn trimmed(text: Seq<char>) -> Seq<char>
    decreases text.len(),
{
    if text.len() > 0 && is_white_space(text[0]) {
        trimmed(text.drop_first())
    } else if text.len() > 0 && is_white_space(text.last()) {
        trimmed(text.drop_last())
    } else {
        text
    }
}

/// Whether a line of the standard input asks for a stop.
pub fn is_stop_line(line: &str) -> (stop: bool)
    ensures
        stop == same_ignoring_ascii_case(trimmed(line@), "stop"@),
{
    let chars: Vec<char> = chars_of(line);
    let mut start: usize = 0;
    let mut end: usize = chars.len();
    assert(chars@.subrange(0, end as int) =~= line@);
    while start < end && crate::process::is_whitespace(chars[start])
        invariant
            start <= end <= chars.len(),
            trimmed(line@) == trimmed(chars@.subrange(start as int, end as int)),
        decreases end - start,
    {
        proof {
            let rest = chars@.subrange(start as int, end as int);
            assert(rest.drop_first() =~= chars@.subrange(start + 1, end as int));
        }
        start += 1;
    }
    while start < end && crate::process::is_whitespace(chars[end - 1])
        invariant
            start <= end <= chars.len(),
            start < end ==> !is_white_space(chars@[start as int]),
            trimmed(line@) == trimmed(chars@.subrange(start as int, end as int)),
        decreases end - start,
    {
        proof {
            let rest = chars@.subrange(start as int, end as int);
            assert(rest[0] == chars@[start as int]);
            assert(rest.drop_last() =~= chars@.subrange(start as int, end - 1));
        }
        end -= 1;
    }
    let mut word: Vec<char> = Vec::new();
    let mut i: usize = start;
    while i < end
        invariant
            start <= i <= end <= chars.len(),
            word@ == chars@.subrange(start as int, i as int),
        decreases end - i,
    {
        word.push(chars[i]);
        i += 1;
        assert(word@ =~= chars@.subrange(start as int, i as int));
    }
    proof {
        let rest = chars@.subrange(start as int, end as int);
        if start < end {
            assert(rest[0] == chars@[start as int]);
            assert(rest.last() == chars@[end - 1]);
        }
        assert(trimmed(rest) == rest);
    }
    let stop: Vec<char> = chars_of("stop");
    eq_ignore_ascii_case(word.as_slice(), stop.as_slice())
}

/// What was settled for the launch is taken over from every checkpoint that is written after it.
/// `variables` are those of the environment.
pub proof fn law_checkpoints_keep_what_was_settled(
    run: RunnerView,
    preflight: PreflightView,
    variables: Seq<(Seq<char>, Seq<char>)>,
    phase: Seq<char>,
    retry_at: i64,
)
    requires
        run.preflight == Some(preflight),
        is_absolute(preflight.executable),
        is_absolute(preflight.working_directory),
        ascending(variables),
        entries_map(variables) == preflight.environment,
    ensures
        recovered(run.checkpoint_at(phase, retry_at)) == Some(preflight),
{
    law_map_determines_entries(variables, listing(preflight.environment));
    lemma_listed_variables(variables);
}

} // verus!
