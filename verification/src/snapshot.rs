//! Definitions as executions are configured from them, and the digests by which a configuration
//! and a policy are known.

use vstd::prelude::*;
use vstd::string::*;

use crate::codes::{ascending_codes, list_codes};
use crate::config::canonical::{sha256, sha256_of};
use crate::config::model::{
    LoggingPolicy, RetentionDuration, RetentionLimit, StopDefinition, WorkloadDefinition,
    WorkloadKind, texts,
};
use crate::messages::{
    ConfigurationView, EnvironmentValue, ExecutionConfiguration, ExecutionPolicy,
    LoggingSettings, PolicyUpdate, PolicyView, RestartSettings, RestartView, StopSettings,
    StopView, copy_texts, variables,
};
use crate::restart::{
    BackoffPolicy, ExecutionRestartPolicy, JobRestartPolicy, ServiceRestartPolicy,
    ServiceRetryLimit,
};
use crate::runner::retries;
use crate::time::{Duration, NANOS_PER_MILLI};

verus! {

/// A span in whole milliseconds, or the largest count.
pub open spec fn whole_millis(span: nat) -> u64 {
    if span / (NANOS_PER_MILLI as nat) > u64::MAX {
        u64::MAX
    } else {
        (span / (NANOS_PER_MILLI as nat)) as u64
    }
}

pub fn duration_ms(duration: Duration) -> (millis: u64)
    ensures
        millis == whole_millis(duration@),
{
    let millis: u128 = duration.as_millis();
    if millis > 0xffff_ffff_ffff_ffff {
        u64::MAX
    } else {
        millis as u64
    }
}

/// The name of a kind.
pub open spec fn kind_text(kind: WorkloadKind) -> Seq<char> {
    match kind {
        WorkloadKind::Service => "service"@,
        WorkloadKind::Job => "job"@,
    }
}

pub fn kind_name(kind: WorkloadKind) -> (name: &'static str)
    ensures
        name@ == kind_text(kind),
{
    match kind {
        WorkloadKind::Service => "service",
        WorkloadKind::Job => "job",
    }
}

/// Nothing is said about restarts.
pub open spec fn silent_restart() -> RestartView {
    RestartView {
        policy: Seq::empty(),
        max_restarts: 0,
        max_restarts_unlimited: false,
        reset_after_ms: 0,
        backoff_initial_ms: 0,
        backoff_multiplier: 0,
        backoff_maximum_ms: 0,
    }
}

pub open spec fn with_backoff(restart: RestartView, backoff: BackoffPolicy) -> RestartView {
    RestartView {
        backoff_initial_ms: whole_millis(backoff.initial_delay()@),
        backoff_multiplier: backoff.factor()@ as u32,
        backoff_maximum_ms: whole_millis(backoff.maximum_delay()@),
        ..restart
    }
}

/// The restart settings of a definition.
pub open spec fn restart_settings(restart: ExecutionRestartPolicy) -> RestartView {
    let none = silent_restart();
    match restart {
        ExecutionRestartPolicy::Service(ServiceRestartPolicy::Never)
        | ExecutionRestartPolicy::Job(JobRestartPolicy::Never) => RestartView {
            policy: "never"@,
            ..none
        },
        ExecutionRestartPolicy::Service(ServiceRestartPolicy::OnFailure(policy))
        | ExecutionRestartPolicy::Service(ServiceRestartPolicy::Always(policy)) => with_backoff(
            RestartView {
                policy: if restart matches ExecutionRestartPolicy::Service(
                    ServiceRestartPolicy::Always(_),
                ) {
                    "always"@
                } else {
                    "on-failure"@
                },
                max_restarts: match policy.limit {
                    ServiceRetryLimit::Finite(limit) => limit@ as u32,
                    ServiceRetryLimit::Unlimited => 0,
                },
                max_restarts_unlimited: policy.limit is Unlimited,
                reset_after_ms: whole_millis(policy.reset_after@),
                ..none
            },
            policy.backoff,
        ),
        ExecutionRestartPolicy::Job(JobRestartPolicy::OnFailure(policy)) => with_backoff(
            RestartView {
                policy: "on-failure"@,
                max_restarts: policy.max_restarts@ as u32,
                ..none
            },
            policy.backoff,
        ),
    }
}

/// The stop settings of a definition.
pub open spec fn stop_settings(stop: StopDefinition) -> StopView {
    let none = StopView {
        method: Seq::empty(),
        timeout_ms: 0,
        executable: Seq::empty(),
        arguments: Seq::empty(),
    };
    match stop {
        StopDefinition::CtrlBreak { timeout } => StopView {
            method: "ctrl-break"@,
            timeout_ms: whole_millis(timeout@),
            ..none
        },
        StopDefinition::Command { timeout, command } => StopView {
            method: "command"@,
            timeout_ms: whole_millis(timeout@),
            executable: command.executable@,
            arguments: texts(command.arguments@),
        },
        StopDefinition::Kill => StopView { method: "kill"@, ..none },
    }
}

/// The logging settings of a definition.
pub open spec fn logging_settings(logging: LoggingPolicy) -> LoggingSettings {
    match logging {
        LoggingPolicy::Disabled => LoggingSettings {
            capture_logs: false,
            segment_size: 0,
            segment_age_ms: 0,
            retention_size: 0,
            retention_size_unlimited: false,
            retention_age_ms: 0,
            retention_age_unlimited: false,
        },
        LoggingPolicy::Capture { segment_size, segment_age, retention_size, retention_age } =>
            LoggingSettings {
            capture_logs: true,
            segment_size,
            segment_age_ms: whole_millis(segment_age@),
            retention_size: match retention_size {
                RetentionLimit::Limited(bytes) => bytes,
                RetentionLimit::Unlimited => 0,
            },
            retention_size_unlimited: retention_size is Unlimited,
            retention_age_ms: match retention_age {
                RetentionDuration::Limited(age) => whole_millis(age@),
                RetentionDuration::Unlimited => 0,
            },
            retention_age_unlimited: retention_age is Unlimited,
        },
    }
}

/// The configuration that a definition stands for, before an execution and its digest are known.
pub open spec fn snapshot_of(definition: WorkloadDefinition) -> ConfigurationView {
    ConfigurationView {
        manager_session_id: Seq::empty(),
        workload_id: definition.id@,
        execution_id: Seq::empty(),
        kind: kind_text(definition.kind),
        executable: definition.process.executable@,
        arguments: texts(definition.process.arguments@),
        working_directory: definition.process.working_directory@,
        environment_set: definition.process.environment.set_texts(),
        environment_unset: definition.process.environment.unset_names(),
        policy: PolicyView {
            success_exit_codes: ascending_codes(definition.success_exit_codes@),
            restart: restart_settings(definition.restart),
            stop: stop_settings(definition.stop),
            logging: logging_settings(definition.logging),
        },
        process_definition_hash: definition.process_hash.0@,
        execution_config_hash: Seq::empty(),
        supervisor_executable: Seq::empty(),
        version_pin: Seq::empty(),
        attempt: 0,
        log_directory: Seq::empty(),
        runtime_journal: Seq::empty(),
        result_file: Seq::empty(),
    }
}

fn apply_backoff(settings: &mut RestartSettings, backoff: BackoffPolicy)
    ensures
        final(settings)@ == with_backoff(old(settings)@, backoff),
{
    settings.backoff_initial_ms = duration_ms(backoff.initial().get());
    settings.backoff_multiplier = backoff.multiplier().get();
    settings.backoff_maximum_ms = duration_ms(backoff.maximum().get());
}

/// The restart settings of a definition.
pub fn apply_restart(restart: ExecutionRestartPolicy) -> (settings: RestartSettings)
    ensures
        settings@ == restart_settings(restart),
{
    let mut settings = RestartSettings {
        policy: String::new(),
        max_restarts: 0,
        max_restarts_unlimited: false,
        reset_after_ms: 0,
        backoff_initial_ms: 0,
        backoff_multiplier: 0,
        backoff_maximum_ms: 0,
    };
    match restart {
        ExecutionRestartPolicy::Service(ServiceRestartPolicy::Never)
        | ExecutionRestartPolicy::Job(JobRestartPolicy::Never) => {
            settings.policy = "never".to_owned();
        },
        ExecutionRestartPolicy::Service(ServiceRestartPolicy::OnFailure(policy)) => {
            settings.policy = "on-failure".to_owned();
            match policy.limit {
                ServiceRetryLimit::Finite(limit) => {
                    settings.max_restarts = limit.get();
                },
                ServiceRetryLimit::Unlimited => {
                    settings.max_restarts_unlimited = true;
                },
            }
            settings.reset_after_ms = duration_ms(policy.reset_after.get());
            apply_backoff(&mut settings, policy.backoff);
        },
        ExecutionRestartPolicy::Service(ServiceRestartPolicy::Always(policy)) => {
            settings.policy = "always".to_owned();
            match policy.limit {
                ServiceRetryLimit::Finite(limit) => {
                    settings.max_restarts = limit.get();
                },
                ServiceRetryLimit::Unlimited => {
                    settings.max_restarts_unlimited = true;
                },
            }
            settings.reset_after_ms = duration_ms(policy.reset_after.get());
            apply_backoff(&mut settings, policy.backoff);
        },
        ExecutionRestartPolicy::Job(JobRestartPolicy::OnFailure(policy)) => {
            settings.policy = "on-failure".to_owned();
            settings.max_restarts = policy.max_restarts.get();
            apply_backoff(&mut settings, policy.backoff);
        },
    }
    settings
}

/// The stop settings of a definition.
pub fn apply_stop(stop: &StopDefinition) -> (settings: StopSettings)
    ensures
        settings@ == stop_settings(*stop),
{
    let mut settings = StopSettings {
        method: String::new(),
        timeout_ms: 0,
        executable: String::new(),
        arguments: Vec::new(),
    };
    assert(texts(settings.arguments@) =~= Seq::empty());
    match stop {
        StopDefinition::CtrlBreak { timeout } => {
            settings.method = "ctrl-break".to_owned();
            settings.timeout_ms = duration_ms(*timeout);
        },
        StopDefinition::Command { timeout, command } => {
            settings.method = "command".to_owned();
            settings.timeout_ms = duration_ms(*timeout);
            settings.executable = command.executable.clone();
            settings.arguments = copy_texts(&command.arguments);
        },
        StopDefinition::Kill => {
            settings.method = "kill".to_owned();
        },
    }
    settings
}

/// The logging settings of a definition.
pub fn apply_logging(logging: LoggingPolicy) -> (settings: LoggingSettings)
    ensures
        settings == logging_settings(logging),
{
    match logging {
        LoggingPolicy::Disabled => LoggingSettings {
            capture_logs: false,
            segment_size: 0,
            segment_age_ms: 0,
            retention_size: 0,
            retention_size_unlimited: false,
            retention_age_ms: 0,
            retention_age_unlimited: false,
        },
        LoggingPolicy::Capture { segment_size, segment_age, retention_size, retention_age } => {
            let (size, size_unlimited): (u64, bool) = match retention_size {
                RetentionLimit::Limited(bytes) => (bytes, false),
                RetentionLimit::Unlimited => (0, true),
            };
            let (age_ms, age_unlimited): (u64, bool) = match retention_age {
                RetentionDuration::Limited(age) => (duration_ms(age), false),
                RetentionDuration::Unlimited => (0, true),
            };
            LoggingSettings {
                capture_logs: true,
                segment_size,
                segment_age_ms: duration_ms(segment_age),
                retention_size: size,
                retention_size_unlimited: size_unlimited,
                retention_age_ms: age_ms,
                retention_age_unlimited: age_unlimited,
            }
        },
    }
}

/// The configuration that a definition stands for.
pub fn definition_snapshot(definition: &WorkloadDefinition) -> (snapshot: ExecutionConfiguration)
    ensures
        snapshot@ == snapshot_of(*definition),
{
    let overlay = &definition.process.environment;
    let mut environment_set: Vec<EnvironmentValue> = Vec::new();
    let set_count: usize = overlay.set.len();
    let mut i: usize = 0;
    assert(variables(environment_set@) =~= overlay.set_texts().take(0));
    while i < set_count
        invariant
            i <= set_count,
            set_count == overlay.set@.len(),
            variables(environment_set@) == overlay.set_texts().take(i as int),
        decreases set_count - i,
    {
        let ghost before = environment_set@;
        let variable = EnvironmentValue {
            name: overlay.set.key(i).to_owned(),
            value: overlay.set.value(i).clone(),
        };
        environment_set.push(variable);
        i += 1;
        assert(variables(environment_set@) =~= variables(before).push(variable@));
        assert(variables(environment_set@) =~= overlay.set_texts().take(i as int));
    }
    assert(overlay.set_texts().take(i as int) =~= overlay.set_texts());
    let mut environment_unset: Vec<String> = Vec::new();
    let unset_count: usize = overlay.unset.len();
    let mut j: usize = 0;
    assert(texts(environment_unset@) =~= overlay.unset_names().take(0));
    while j < unset_count
        invariant
            j <= unset_count,
            unset_count == overlay.unset@.len(),
            texts(environment_unset@) == overlay.unset_names().take(j as int),
        decreases unset_count - j,
    {
        let ghost before = environment_unset@;
        let name: String = overlay.unset.key(j).to_owned();
        environment_unset.push(name);
        j += 1;
        assert(texts(environment_unset@) =~= texts(before).push(name@));
        assert(texts(environment_unset@) =~= overlay.unset_names().take(j as int));
    }
    assert(overlay.unset_names().take(j as int) =~= overlay.unset_names());
    let digest: &[u8; 32] = definition.process_hash.as_bytes();
    let process_definition_hash: Vec<u8> = crate::bytes::copy_range(digest.as_slice(), 0, 32);
    assert(process_definition_hash@ =~= definition.process_hash.0@);
    let snapshot = ExecutionConfiguration {
        manager_session_id: String::new(),
        workload_id: definition.id.as_str().to_owned(),
        execution_id: String::new(),
        kind: kind_name(definition.kind).to_owned(),
        executable: definition.process.executable.clone(),
        arguments: copy_texts(&definition.process.arguments),
        working_directory: definition.process.working_directory.clone(),
        environment_set,
        environment_unset,
        policy: ExecutionPolicy {
            success_exit_codes: list_codes(&definition.success_exit_codes),
            restart: apply_restart(definition.restart),
            stop: apply_stop(&definition.stop),
            logging: apply_logging(definition.logging),
        },
        process_definition_hash,
        execution_config_hash: Vec::new(),
        supervisor_executable: String::new(),
        version_pin: String::new(),
        attempt: 0,
        log_directory: String::new(),
        runtime_journal: String::new(),
        result_file: String::new(),
    };
    assert(snapshot@ =~= snapshot_of(*definition));
    snapshot
}

/// Clears the digest of a configuration, so that the rest of it can be encoded.
pub fn clear_execution_hash(configuration: &mut ExecutionConfiguration)
    ensures
        final(configuration)@ == (ConfigurationView {
            execution_config_hash: Seq::empty(),
            ..old(configuration)@
        }),
{
    configuration.execution_config_hash = Vec::new();
    assert(configuration.execution_config_hash@ =~= Seq::empty());
}

/// Sets the digest of a configuration, from the encoding of the configuration without one.
pub fn set_execution_hash(configuration: &mut ExecutionConfiguration, encoded: &[u8])
    ensures
        final(configuration)@ == (ConfigurationView {
            execution_config_hash: sha256_of(encoded@),
            ..old(configuration)@
        }),
{
    let digest: [u8; 32] = sha256(encoded);
    configuration.execution_config_hash = crate::bytes::copy_range(digest.as_slice(), 0, 32);
    assert(configuration.execution_config_hash@ =~= digest@);
}

/// The policy of a configuration as an update without a digest, so that it can be encoded.
pub fn unhashed_update(configuration: &ExecutionConfiguration) -> (update: PolicyUpdate)
    ensures
        update.policy@ == configuration.policy@,
        update.policy_hash@ == Seq::<u8>::empty(),
{
    PolicyUpdate { policy: configuration.policy.clone(), policy_hash: Vec::new() }
}

/// The policy of a configuration as an update, with the digest of the encoding of the update
/// without one.
pub fn policy_update(configuration: &ExecutionConfiguration, encoded: &[u8]) -> (update: PolicyUpdate)
    ensures
        update.policy@ == configuration.policy@,
        update.policy_hash@ == sha256_of(encoded@),
{
    let digest: [u8; 32] = sha256(encoded);
    let policy_hash: Vec<u8> = crate::bytes::copy_range(digest.as_slice(), 0, 32);
    assert(policy_hash@ =~= digest@);
    PolicyUpdate { policy: configuration.policy.clone(), policy_hash }
}

/// A supervisor that follows a snapshot tries again exactly where the definition grants one more
/// retry.
pub proof fn law_snapshots_keep_the_restart_policy(
    definition: WorkloadDefinition,
    successful: bool,
    tried: u32,
)
    ensures
        retries(snapshot_of(definition).policy, successful, tried) == match definition.restart {
            ExecutionRestartPolicy::Service(ServiceRestartPolicy::Never)
            | ExecutionRestartPolicy::Job(JobRestartPolicy::Never) => false,
            ExecutionRestartPolicy::Service(ServiceRestartPolicy::OnFailure(policy)) => !successful
                && policy.limit.admits((tried + 1) as nat),
            ExecutionRestartPolicy::Service(ServiceRestartPolicy::Always(policy)) =>
                policy.limit.admits((tried + 1) as nat),
            ExecutionRestartPolicy::Job(JobRestartPolicy::OnFailure(policy)) => !successful && tried
                + 1 <= policy.max_restarts@,
        },
{
    reveal_strlit("never");
    reveal_strlit("always");
    reveal_strlit("on-failure");
    assert("never"@[0] == 'n' && "always"@[0] == 'a' && "on-failure"@[0] == 'o');
    match definition.restart {
        ExecutionRestartPolicy::Service(ServiceRestartPolicy::OnFailure(policy))
        | ExecutionRestartPolicy::Service(ServiceRestartPolicy::Always(policy)) => {
            if let ServiceRetryLimit::Finite(limit) = policy.limit {
                limit.lemma_view_bound();
            }
        },
        ExecutionRestartPolicy::Job(JobRestartPolicy::OnFailure(policy)) => {
            policy.max_restarts.lemma_view_bound();
        },
        _ => {},
    }
}

} // verus!
