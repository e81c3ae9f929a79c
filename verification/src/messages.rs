//! What the controller and its supervisors tell each other and keep in files.

use vstd::prelude::*;

use crate::config::model::texts;

verus! {

/// A copy of some strings.
pub fn copy_texts(strings: &Vec<String>) -> (copy: Vec<String>)
    ensures
        texts(copy@) == texts(strings@),
{
    let mut copy: Vec<String> = Vec::new();
    let mut i: usize = 0;
    while i < strings.len()
        invariant
            i <= strings.len(),
            texts(copy@) == texts(strings@).take(i as int),
        decreases strings.len() - i,
    {
        let ghost before = copy@;
        copy.push(strings[i].clone());
        i += 1;
        assert(texts(copy@) =~= texts(before).push(strings@[i - 1]@));
        assert(texts(copy@) =~= texts(strings@).take(i as int));
    }
    assert(texts(strings@).take(i as int) =~= texts(strings@));
    copy
}

/// A copy of some exit codes.
pub fn copy_codes(codes: &Vec<u32>) -> (copy: Vec<u32>)
    ensures
        copy@ == codes@,
{
    let mut copy: Vec<u32> = Vec::new();
    let mut i: usize = 0;
    while i < codes.len()
        invariant
            i <= codes.len(),
            copy@ == codes@.take(i as int),
        decreases codes.len() - i,
    {
        copy.push(codes[i]);
        i += 1;
        assert(copy@ =~= codes@.take(i as int));
    }
    assert(codes@.take(i as int) =~= codes@);
    copy
}

/// A copy of some bytes.
pub fn copy_bytes(bytes: &Vec<u8>) -> (copy: Vec<u8>)
    ensures
        copy@ == bytes@,
{
    crate::bytes::copy_range(bytes, 0, bytes.len())
}

/// Whether a list holds an exit code.
pub fn holds_code(codes: &Vec<u32>, code: u32) -> (holds: bool)
    ensures
        holds == codes@.contains(code),
{
    let mut i: usize = 0;
    while i < codes.len()
        invariant
            i <= codes.len(),
            forall|j: int| 0 <= j < i ==> codes@[j] != code,
        decreases codes.len() - i,
    {
        if codes[i] == code {
            assert(codes@[i as int] == code);
            return true;
        }
        i += 1;
    }
    false
}

/// One variable of an environment.
#[derive(Debug)]
pub struct EnvironmentValue {
    pub name: String,
    pub value: String,
}

impl EnvironmentValue {
    pub open spec fn view(&self) -> (Seq<char>, Seq<char>) {
        (self.name@, self.value@)
    }
}

/// Variables as pairs of texts.
pub open spec fn variables(values: Seq<EnvironmentValue>) -> Seq<(Seq<char>, Seq<char>)> {
    values.map_values(|value: EnvironmentValue| value@)
}

/// A copy of some variables.
pub fn copy_variables(values: &Vec<EnvironmentValue>) -> (copy: Vec<EnvironmentValue>)
    ensures
        variables(copy@) == variables(values@),
{
    let mut copy: Vec<EnvironmentValue> = Vec::new();
    let mut i: usize = 0;
    while i < values.len()
        invariant
            i <= values.len(),
            variables(copy@) == variables(values@).take(i as int),
        decreases values.len() - i,
    {
        let ghost before = copy@;
        copy.push(
            EnvironmentValue { name: values[i].name.clone(), value: values[i].value.clone() },
        );
        i += 1;
        assert(variables(copy@) =~= variables(before).push(values@[i - 1]@));
        assert(variables(copy@) =~= variables(values@).take(i as int));
    }
    assert(variables(values@).take(i as int) =~= variables(values@));
    copy
}

/// When an attempt is followed by another one.
#[derive(Debug)]
pub struct RestartSettings {
    pub policy: String,
    pub max_restarts: u32,
    pub max_restarts_unlimited: bool,
    pub reset_after_ms: u64,
    pub backoff_initial_ms: u64,
    pub backoff_multiplier: u32,
    pub backoff_maximum_ms: u64,
}

#[verifier::ext_equal]
pub struct RestartView {
    pub policy: Seq<char>,
    pub max_restarts: u32,
    pub max_restarts_unlimited: bool,
    pub reset_after_ms: u64,
    pub backoff_initial_ms: u64,
    pub backoff_multiplier: u32,
    pub backoff_maximum_ms: u64,
}

impl RestartSettings {
    pub open spec fn view(&self) -> RestartView {
        RestartView {
            policy: self.policy@,
            max_restarts: self.max_restarts,
            max_restarts_unlimited: self.max_restarts_unlimited,
            reset_after_ms: self.reset_after_ms,
            backoff_initial_ms: self.backoff_initial_ms,
            backoff_multiplier: self.backoff_multiplier,
            backoff_maximum_ms: self.backoff_maximum_ms,
        }
    }
}

impl Clone for RestartSettings {
    fn clone(&self) -> (copy: RestartSettings)
        ensures
            copy@ == self@,
    {
        RestartSettings {
            policy: self.policy.clone(),
            max_restarts: self.max_restarts,
            max_restarts_unlimited: self.max_restarts_unlimited,
            reset_after_ms: self.reset_after_ms,
            backoff_initial_ms: self.backoff_initial_ms,
            backoff_multiplier: self.backoff_multiplier,
            backoff_maximum_ms: self.backoff_maximum_ms,
        }
    }
}

/// How a process is stopped.
#[derive(Debug)]
pub struct StopSettings {
    pub method: String,
    pub timeout_ms: u64,
    pub executable: String,
    pub arguments: Vec<String>,
}

#[verifier::ext_equal]
pub struct StopView {
    pub method: Seq<char>,
    pub timeout_ms: u64,
    pub executable: Seq<char>,
    pub arguments: Seq<Seq<char>>,
}

impl StopSettings {
    pub open spec fn view(&self) -> StopView {
        StopView {
            method: self.method@,
            timeout_ms: self.timeout_ms,
            executable: self.executable@,
            arguments: texts(self.arguments@),
        }
    }
}

impl Clone for StopSettings {
    fn clone(&self) -> (copy: StopSettings)
        ensures
            copy@ == self@,
    {
        StopSettings {
            method: self.method.clone(),
            timeout_ms: self.timeout_ms,
            executable: self.executable.clone(),
            arguments: copy_texts(&self.arguments),
        }
    }
}

/// What is kept of the output of a process.
#[derive(Clone, Copy, Debug, PartialEq, Eq, Structural)]
pub struct LoggingSettings {
    pub capture_logs: bool,
    pub segment_size: u64,
    pub segment_age_ms: u64,
    pub retention_size: u64,
    pub retention_size_unlimited: bool,
    pub retention_age_ms: u64,
    pub retention_age_unlimited: bool,
}

/// What may change while an execution runs.
#[derive(Debug)]
pub struct ExecutionPolicy {
    pub success_exit_codes: Vec<u32>,
    pub restart: RestartSettings,
    pub stop: StopSettings,
    pub logging: LoggingSettings,
}

#[verifier::ext_equal]
pub struct PolicyView {
    pub success_exit_codes: Seq<u32>,
    pub restart: RestartView,
    pub stop: StopView,
    pub logging: LoggingSettings,
}

impl ExecutionPolicy {
    pub open spec fn view(&self) -> PolicyView {
        PolicyView {
            success_exit_codes: self.success_exit_codes@,
            restart: self.restart@,
            stop: self.stop@,
            logging: self.logging,
        }
    }
}

impl Clone for ExecutionPolicy {
    fn clone(&self) -> (copy: ExecutionPolicy)
        ensures
            copy@ == self@,
    {
        ExecutionPolicy {
            success_exit_codes: copy_codes(&self.success_exit_codes),
            restart: self.restart.clone(),
            stop: self.stop.clone(),
            logging: self.logging,
        }
    }
}

/// A policy for an execution that is already running, with the digest by which it is known.
#[derive(Debug)]
pub struct PolicyUpdate {
    pub policy: ExecutionPolicy,
    pub policy_hash: Vec<u8>,
}

impl Clone for PolicyUpdate {
    fn clone(&self) -> (copy: PolicyUpdate)
        ensures
            copy.policy@ == self.policy@,
            copy.policy_hash@ == self.policy_hash@,
    {
        PolicyUpdate { policy: self.policy.clone(), policy_hash: copy_bytes(&self.policy_hash) }
    }
}

/// Everything that a supervisor needs to run one execution.
#[derive(Debug)]
pub struct ExecutionConfiguration {
    pub manager_session_id: String,
    pub workload_id: String,
    pub execution_id: String,
    pub kind: String,
    pub executable: String,
    pub arguments: Vec<String>,
    pub working_directory: String,
    pub environment_set: Vec<EnvironmentValue>,
    pub environment_unset: Vec<String>,
    pub policy: ExecutionPolicy,
    pub process_definition_hash: Vec<u8>,
    pub execution_config_hash: Vec<u8>,
    pub supervisor_executable: String,
    pub version_pin: String,
    pub attempt: u32,
    pub log_directory: String,
    pub runtime_journal: String,
    pub result_file: String,
}

#[verifier::ext_equal]
pub struct ConfigurationView {
    pub manager_session_id: Seq<char>,
    pub workload_id: Seq<char>,
    pub execution_id: Seq<char>,
    pub kind: Seq<char>,
    pub executable: Seq<char>,
    pub arguments: Seq<Seq<char>>,
    pub working_directory: Seq<char>,
    pub environment_set: Seq<(Seq<char>, Seq<char>)>,
    pub environment_unset: Seq<Seq<char>>,
    pub policy: PolicyView,
    pub process_definition_hash: Seq<u8>,
    pub execution_config_hash: Seq<u8>,
    pub supervisor_executable: Seq<char>,
    pub version_pin: Seq<char>,
    pub attempt: u32,
    pub log_directory: Seq<char>,
    pub runtime_journal: Seq<char>,
    pub result_file: Seq<char>,
}

impl ExecutionConfiguration {
    pub open spec fn view(&self) -> ConfigurationView {
        ConfigurationView {
            manager_session_id: self.manager_session_id@,
            workload_id: self.workload_id@,
            execution_id: self.execution_id@,
            kind: self.kind@,
            executable: self.executable@,
            arguments: texts(self.arguments@),
            working_directory: self.working_directory@,
            environment_set: variables(self.environment_set@),
            environment_unset: texts(self.environment_unset@),
            policy: self.policy@,
            process_definition_hash: self.process_definition_hash@,
            execution_config_hash: self.execution_config_hash@,
            supervisor_executable: self.supervisor_executable@,
            version_pin: self.version_pin@,
            attempt: self.attempt,
            log_directory: self.log_directory@,
            runtime_journal: self.runtime_journal@,
            result_file: self.result_file@,
        }
    }
}

impl Clone for ExecutionConfiguration {
    fn clone(&self) -> (copy: ExecutionConfiguration)
        ensures
            copy@ == self@,
    {
        ExecutionConfiguration {
            manager_session_id: self.manager_session_id.clone(),
            workload_id: self.workload_id.clone(),
            execution_id: self.execution_id.clone(),
            kind: self.kind.clone(),
            executable: self.executable.clone(),
            arguments: copy_texts(&self.arguments),
            working_directory: self.working_directory.clone(),
            environment_set: copy_variables(&self.environment_set),
            environment_unset: copy_texts(&self.environment_unset),
            policy: self.policy.clone(),
            process_definition_hash: copy_bytes(&self.process_definition_hash),
            execution_config_hash: copy_bytes(&self.execution_config_hash),
            supervisor_executable: self.supervisor_executable.clone(),
            version_pin: self.version_pin.clone(),
            attempt: self.attempt,
            log_directory: self.log_directory.clone(),
            runtime_journal: self.runtime_journal.clone(),
            result_file: self.result_file.clone(),
        }
    }
}

/// How one attempt went.
#[derive(Debug)]
pub struct AttemptResult {
    pub launched: bool,
    pub exit_code: Option<u32>,
    pub error: String,
    pub started_unix_ms: i64,
    pub ended_unix_ms: i64,
    pub stop_requested: bool,
    pub forced: bool,
    pub outcome: String,
}

#[verifier::ext_equal]
pub struct ResultView {
    pub launched: bool,
    pub exit_code: Option<u32>,
    pub error: Seq<char>,
    pub started_unix_ms: i64,
    pub ended_unix_ms: i64,
    pub stop_requested: bool,
    pub forced: bool,
    pub outcome: Seq<char>,
}

impl AttemptResult {
    pub open spec fn view(&self) -> ResultView {
        ResultView {
            launched: self.launched,
            exit_code: self.exit_code,
            error: self.error@,
            started_unix_ms: self.started_unix_ms,
            ended_unix_ms: self.ended_unix_ms,
            stop_requested: self.stop_requested,
            forced: self.forced,
            outcome: self.outcome@,
        }
    }
}

impl Clone for AttemptResult {
    fn clone(&self) -> (copy: AttemptResult)
        ensures
            copy@ == self@,
    {
        AttemptResult {
            launched: self.launched,
            exit_code: self.exit_code,
            error: self.error.clone(),
            started_unix_ms: self.started_unix_ms,
            ended_unix_ms: self.ended_unix_ms,
            stop_requested: self.stop_requested,
            forced: self.forced,
            outcome: self.outcome.clone(),
        }
    }
}

/// Where a supervisor stands, written before it acts on it.
#[derive(Debug)]
pub struct Checkpoint {
    pub manager_session_id: String,
    pub workload_id: String,
    pub execution_id: String,
    pub supervisor_id: String,
    pub incarnation: u32,
    pub execution_config_hash: Vec<u8>,
    pub attempt: u32,
    pub phase: String,
    pub last_sequence: u64,
    pub committed_sequence: u64,
    pub retry_at_unix_ms: i64,
    pub resolved_executable: String,
    pub resolved_working_directory: String,
    pub resolved_environment: Vec<EnvironmentValue>,
}

#[verifier::ext_equal]
pub struct CheckpointView {
    pub manager_session_id: Seq<char>,
    pub workload_id: Seq<char>,
    pub execution_id: Seq<char>,
    pub supervisor_id: Seq<char>,
    pub incarnation: u32,
    pub execution_config_hash: Seq<u8>,
    pub attempt: u32,
    pub phase: Seq<char>,
    pub last_sequence: u64,
    pub committed_sequence: u64,
    pub retry_at_unix_ms: i64,
    pub resolved_executable: Seq<char>,
    pub resolved_working_directory: Seq<char>,
    pub resolved_environment: Seq<(Seq<char>, Seq<char>)>,
}

impl Checkpoint {
    pub open spec fn view(&self) -> CheckpointView {
        CheckpointView {
            manager_session_id: self.manager_session_id@,
            workload_id: self.workload_id@,
            execution_id: self.execution_id@,
            supervisor_id: self.supervisor_id@,
            incarnation: self.incarnation,
            execution_config_hash: self.execution_config_hash@,
            attempt: self.attempt,
            phase: self.phase@,
            last_sequence: self.last_sequence,
            committed_sequence: self.committed_sequence,
            retry_at_unix_ms: self.retry_at_unix_ms,
            resolved_executable: self.resolved_executable@,
            resolved_working_directory: self.resolved_working_directory@,
            resolved_environment: variables(self.resolved_environment@),
        }
    }
}

impl Clone for Checkpoint {
    fn clone(&self) -> (copy: Checkpoint)
        ensures
            copy@ == self@,
    {
        Checkpoint {
            manager_session_id: self.manager_session_id.clone(),
            workload_id: self.workload_id.clone(),
            execution_id: self.execution_id.clone(),
            supervisor_id: self.supervisor_id.clone(),
            incarnation: self.incarnation,
            execution_config_hash: copy_bytes(&self.execution_config_hash),
            attempt: self.attempt,
            phase: self.phase.clone(),
            last_sequence: self.last_sequence,
            committed_sequence: self.committed_sequence,
            retry_at_unix_ms: self.retry_at_unix_ms,
            resolved_executable: self.resolved_executable.clone(),
            resolved_working_directory: self.resolved_working_directory.clone(),
            resolved_environment: copy_variables(&self.resolved_environment),
        }
    }
}

/// Something that a supervisor saw happen.
#[derive(Debug)]
pub struct RuntimeObservation {
    pub sequence: u64,
    pub kind: String,
    pub attempt: u32,
    pub exit_code: Option<u32>,
    pub detail: String,
    pub observed_unix_ms: i64,
    pub terminal: bool,
    pub workload_process_id: u32,
}

#[verifier::ext_equal]
pub struct ObservationView {
    pub sequence: u64,
    pub kind: Seq<char>,
    pub attempt: u32,
    pub exit_code: Option<u32>,
    pub detail: Seq<char>,
    pub observed_unix_ms: i64,
    pub terminal: bool,
    pub workload_process_id: u32,
}

impl RuntimeObservation {
    pub open spec fn view(&self) -> ObservationView {
        ObservationView {
            sequence: self.sequence,
            kind: self.kind@,
            attempt: self.attempt,
            exit_code: self.exit_code,
            detail: self.detail@,
            observed_unix_ms: self.observed_unix_ms,
            terminal: self.terminal,
            workload_process_id: self.workload_process_id,
        }
    }
}

impl Clone for RuntimeObservation {
    fn clone(&self) -> (copy: RuntimeObservation)
        ensures
            copy@ == self@,
    {
        RuntimeObservation {
            sequence: self.sequence,
            kind: self.kind.clone(),
            attempt: self.attempt,
            exit_code: self.exit_code,
            detail: self.detail.clone(),
            observed_unix_ms: self.observed_unix_ms,
            terminal: self.terminal,
            workload_process_id: self.workload_process_id,
        }
    }
}

} // verus!
