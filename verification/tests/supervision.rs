use susm::messages::{
    Checkpoint, EnvironmentValue, ExecutionConfiguration, ExecutionPolicy, LoggingSettings,
    PolicyUpdate, RestartSettings, StopSettings,
};
use susm::ordered::TextMap;
use susm::paths::{
    is_absolute_path, join_paths, parent_path, path_extension, path_file_name,
    path_has_several_components, split_search_path, version_pin_path,
};
use susm::preflight::{
    check_spec_size, executable_candidates, expand, list_variables, overlay_environment,
    preflight_configuration, recovered_preflight, resolve_executable, Preflight, RunError,
};
use susm::process::{
    encode_command_line, encode_environment, is_whitespace, parse_environment_block,
    quote_windows_argument, wait_step, wide_null, OutputMode, ProcessError, ProcessSpec, WaitStep,
};
use susm::runner::{
    apply_policy, attempt_configuration, attempt_result_path, failed_result, is_stop_line,
    is_successful, retry_delay, should_retry, stop_plan, stop_requested, stopped_result,
    stops_backoff, while_running, RunEffect, RunPhase, Runner, RunningStep, Signal, StopMethod,
    StopPlan, SupervisorIdentity,
};
use susm::runtime_journal::RuntimeRecovery;

fn variables(list: &[(&str, &str)]) -> TextMap<String> {
    let mut map: TextMap<String> = TextMap::new();
    for (name, value) in list {
        map.insert(name.to_string(), value.to_string());
    }
    map
}

fn policy(restart: &str, max_restarts: u32) -> ExecutionPolicy {
    ExecutionPolicy {
        success_exit_codes: vec![0, 3],
        restart: RestartSettings {
            policy: restart.to_string(),
            max_restarts,
            max_restarts_unlimited: false,
            reset_after_ms: 60_000,
            backoff_initial_ms: 100,
            backoff_multiplier: 3,
            backoff_maximum_ms: 500,
        },
        stop: StopSettings {
            method: "ctrl-break".to_string(),
            timeout_ms: 30_000,
            executable: String::new(),
            arguments: Vec::new(),
        },
        logging: LoggingSettings {
            capture_logs: false,
            segment_size: 0,
            segment_age_ms: 0,
            retention_size: 0,
            retention_size_unlimited: false,
            retention_age_ms: 0,
            retention_age_unlimited: false,
        },
    }
}

fn configuration(kind: &str, restart: &str, max_restarts: u32) -> ExecutionConfiguration {
    ExecutionConfiguration {
        manager_session_id: "session".to_string(),
        workload_id: "agent".to_string(),
        execution_id: "run-1".to_string(),
        kind: kind.to_string(),
        executable: "agent".to_string(),
        arguments: Vec::new(),
        working_directory: "${HOME}".to_string(),
        environment_set: vec![EnvironmentValue {
            name: "Mode".to_string(),
            value: "$$${home}".to_string(),
        }],
        environment_unset: vec!["temp".to_string()],
        policy: policy(restart, max_restarts),
        process_definition_hash: Vec::new(),
        execution_config_hash: vec![1, 2],
        supervisor_executable: String::new(),
        version_pin: String::new(),
        attempt: 0,
        log_directory: "C:\\logs\\agent\\run-1".to_string(),
        runtime_journal: "C:\\run\\runtime.journal.open".to_string(),
        result_file: "C:\\run\\result.pb".to_string(),
    }
}

fn checkpoint(phase: &str, attempt: u32) -> Checkpoint {
    Checkpoint {
        manager_session_id: "session".to_string(),
        workload_id: "agent".to_string(),
        execution_id: "run-1".to_string(),
        supervisor_id: "s".to_string(),
        incarnation: 4,
        execution_config_hash: Vec::new(),
        attempt,
        phase: phase.to_string(),
        last_sequence: 2,
        committed_sequence: 1,
        retry_at_unix_ms: 5_000,
        resolved_executable: "C:\\bin\\agent.exe".to_string(),
        resolved_working_directory: "C:\\work".to_string(),
        resolved_environment: vec![EnvironmentValue {
            name: "A".to_string(),
            value: "1".to_string(),
        }],
    }
}

fn fresh() -> RuntimeRecovery {
    RuntimeRecovery { checkpoint: None, last_sequence: 0, committed_sequence: 0 }
}

fn recovered(phase: &str, attempt: u32) -> RuntimeRecovery {
    RuntimeRecovery {
        checkpoint: Some(checkpoint(phase, attempt)),
        last_sequence: 2,
        committed_sequence: 1,
    }
}

fn identity() -> SupervisorIdentity {
    SupervisorIdentity { id: "s".to_string(), incarnation: 1 }
}

fn preflight() -> Preflight {
    Preflight {
        executable: "C:\\bin\\agent.exe".to_string(),
        working_directory: "C:\\work".to_string(),
        environment: variables(&[("A", "1")]),
    }
}

fn steps(runner: &mut Runner) -> Vec<String> {
    runner
        .take_effects()
        .into_iter()
        .map(|effect| match effect {
            RunEffect::Checkpoint(checkpoint) => format!("checkpoint {}", checkpoint.phase),
            RunEffect::Observe(observation) => {
                format!("observe {} {}", observation.sequence, observation.kind)
            }
            RunEffect::WriteAttemptResult { attempt, .. } => format!("attempt result {attempt}"),
            RunEffect::WriteResult(result) => format!("result {}", result.outcome),
            RunEffect::Prepare => "prepare".to_string(),
            RunEffect::Launch => "launch".to_string(),
            RunEffect::Wait { millis } => format!("wait {millis}"),
        })
        .collect()
}

#[test]
fn arguments_are_quoted_for_windows() {
    assert_eq!(quote_windows_argument(""), "\"\"");
    assert_eq!(quote_windows_argument("plain"), "plain");
    assert_eq!(quote_windows_argument("trailing\\"), "trailing\\");
    assert_eq!(quote_windows_argument("with space"), "\"with space\"");
    assert_eq!(quote_windows_argument("with space\\"), "\"with space\\\\\"");
    assert_eq!(quote_windows_argument("quote\"inside"), "\"quote\\\"inside\"");
    assert_eq!(quote_windows_argument("slashes\\\\\"quote"), "\"slashes\\\\\\\\\\\"quote\"");
    assert_eq!(quote_windows_argument("a\u{3000}b"), "\"a\u{3000}b\"");
    assert!(is_whitespace('\u{3000}') && !is_whitespace('x'));
    assert_eq!(
        encode_command_line("C:\\a b\\x.exe", &vec!["y".to_string(), "".to_string()]),
        Ok("\"C:\\a b\\x.exe\" y \"\"".to_string())
    );
    let long = vec!["x".repeat(40_000)];
    assert!(matches!(encode_command_line("x.exe", &long), Err(ProcessError::Invalid(_))));
}

#[test]
fn environment_blocks_are_read_back() {
    let environment = variables(&[("A", "1"), ("PATH", "C:\\bin=x")]);
    let block = encode_environment(&environment).unwrap();
    assert_eq!(block[0..4].to_vec(), vec![0x41, 0x3d, 0x31, 0]);
    assert_eq!(block[block.len() - 2..].to_vec(), vec![0, 0]);
    assert_eq!(parse_environment_block(&block), Ok(environment));
    let empty = encode_environment(&TextMap::new()).unwrap();
    assert_eq!(parse_environment_block(&empty), Ok(TextMap::new()));
    assert!(encode_environment(&variables(&[("A\0", "1")])).is_err());
    assert!(encode_environment(&variables(&[("A", "\0")])).is_err());
}

#[test]
fn processes_are_prepared_as_wide_texts() {
    assert_eq!(wide_null("ab"), Ok(vec![0x61, 0x62, 0]));
    let refused = wide_null("a\0b").unwrap_err();
    assert!(matches!(refused, ProcessError::Invalid(_)));
    assert!(refused.message().starts_with("invalid process specification: "));
    assert_eq!(ProcessError::Wait(7).message(), "process wait returned unexpected status 7");
    let spec = ProcessSpec {
        executable: "x.exe".to_string(),
        arguments: vec!["a b".to_string()],
        working_directory: "C:\\".to_string(),
        environment: variables(&[("A", "1")]),
        output: OutputMode::Piped,
    };
    let prepared = spec.prepare().unwrap();
    assert_eq!(prepared.application, wide_null("x.exe").unwrap());
    assert_eq!(prepared.command_line, wide_null("x.exe \"a b\"").unwrap());
    assert_eq!(prepared.current_directory, wide_null("C:\\").unwrap());
    assert_eq!(prepared.environment, encode_environment(&spec.environment).unwrap());
    assert_eq!(wait_step(0), WaitStep::Ended);
    assert_eq!(wait_step(258), WaitStep::Running);
    assert_eq!(wait_step(u32::MAX), WaitStep::Failed);
    assert_eq!(wait_step(9), WaitStep::Unexpected(9));
}

#[test]
fn paths_follow_windows() {
    assert!(is_absolute_path("C:\\x") && is_absolute_path("\\\\server\\share\\x"));
    assert!(!is_absolute_path("\\x") && !is_absolute_path("C:x") && !is_absolute_path("x"));
    assert_eq!(join_paths("C:\\a", "b"), "C:\\a\\b");
    assert_eq!(join_paths("C:\\a\\", "b"), "C:\\a\\b");
    assert_eq!(join_paths("C:\\a", "D:\\b"), "D:\\b");
    assert_eq!(join_paths("C:\\a", "\\b"), "C:\\b");
    assert_eq!(path_extension("a.b.exe"), Some(vec!['e', 'x', 'e']));
    assert_eq!(path_extension(".exe"), None);
    assert!(path_has_several_components("a\\b") && !path_has_several_components("a"));
    assert_eq!(parent_path("C:\\a\\b"), Some("C:\\a".to_string()));
    assert_eq!(parent_path("C:\\"), None);
    assert_eq!(path_file_name("C:\\a\\b.exe"), Some("b.exe".to_string()));
    assert_eq!(path_file_name("C:\\a\\.."), None);
    assert_eq!(
        split_search_path("C:\\a;\"C:\\b;c\";;d"),
        vec!["C:\\a".to_string(), "C:\\b;c".to_string(), String::new(), "d".to_string()]
    );
    assert_eq!(
        version_pin_path("C:\\bin\\versions\\1-a\\susm-supervisor.exe", "run-1"),
        Some("C:\\bin\\pins\\1-a\\run-1.pin".to_string())
    );
}

#[test]
fn paths_are_taken_as_they_stand() {
    assert_eq!(path_file_name(r"\\?\UNC\s\a.cmd"), None);
    assert_eq!(path_extension(r"\\?\UNC\s\a.cmd"), None);
    assert_eq!(parent_path(r"\\?\UNC\s\a.cmd"), None);
    assert_eq!(path_file_name(r"\\?\UNC\s\a\b.cmd"), Some("b.cmd".to_string()));
    assert_eq!(path_file_name(r"\\?\C:\a\b/c.exe"), Some("b/c.exe".to_string()));
    assert_eq!(path_extension(r"\\?\C:\a.b/c"), Some(vec!['b', '/', 'c']));
    assert_eq!(path_file_name(r"\\?\C:\a\."), None);
    assert_eq!(parent_path(r"\\?\C:\a\."), Some(r"\\?\C:\a".to_string()));
    assert_eq!(path_file_name(r"C:\a\."), Some("a".to_string()));
    assert_eq!(path_file_name(r"\\?\pictures"), None);
    assert_eq!(parent_path(r"\\?\C:\a"), Some("\\\\?\\C:\\".to_string()));
    assert!(!path_has_several_components(r"\\?\C:"));
    assert!(path_has_several_components(r"\\?\C:\"));
    assert!(is_absolute_path(r"\\?\C:x") && is_absolute_path(r"\\.\COM1"));

    assert_eq!(join_paths(r"\\?\C:\a", "b/c"), r"\\?\C:\a\b\c");
    assert_eq!(join_paths(r"\\?\C:\a", r".\b\..\..\c"), r"\\?\C:\c");
    assert_eq!(join_paths(r"\\?\C:\a", r"..\..\.."), "\\\\?\\C:\\");
    assert_eq!(join_paths(r"\\?\C:\a\.", "b"), r"\\?\C:\a\.\b");
    assert_eq!(join_paths(r"\\?\C:\a\", r"\b"), r"\\?\C:\b");
    assert_eq!(join_paths(r"\\?\C:", "b"), r"\\?\C:\b");
    assert_eq!(join_paths(r"\\?\C:\a", ""), "\\\\?\\C:\\a\\");
    assert_eq!(join_paths(r"\\?\C:\a", "D:b"), "D:b");
    assert_eq!(join_paths(r"\\?\UNC\s\h", "b"), r"\\?\UNC\s\h\b");
    assert_eq!(join_paths(r"C:\a", r"..\b"), r"C:\a\..\b");

    assert_eq!(parent_path(r".\a"), Some(".".to_string()));
    assert_eq!(parent_path("."), Some(String::new()));
    assert_eq!(parent_path("C:."), None);
    assert!(!path_has_several_components("C:.") && path_has_several_components(r".\a"));
    assert_eq!(path_file_name(r"\\.\COM1"), None);
    assert_eq!(path_file_name(r"\\s\h\a"), Some("a".to_string()));
}

#[test]
fn references_are_expanded() {
    let environment = variables(&[("HOME", "C:\\home"), ("STRASSE", "x")]);
    assert_eq!(expand("${home}\\a$$b", &environment), Ok("C:\\home\\a$b".to_string()));
    assert_eq!(expand("${straße}", &environment), Ok("x".to_string()));
    let refused = |text: &str| expand(text, &environment).unwrap_err().message();
    assert_eq!(
        refused("$x"),
        "preflight failed: a single '$' is not a valid interpolation"
    );
    assert_eq!(refused("${x"), "preflight failed: unterminated environment reference");
    assert_eq!(refused("${x}"), "preflight failed: environment variable is missing: x");
}

#[test]
fn executables_are_found_on_the_search_path() {
    let environment = variables(&[("PATH", "C:\\bin;tools")]);
    let candidates = executable_candidates("agent", "C:\\work", &environment).unwrap();
    assert_eq!(
        candidates,
        vec![
            "C:\\bin\\agent".to_string(),
            "C:\\bin\\agent.exe".to_string(),
            "C:\\work\\tools\\agent".to_string(),
            "C:\\work\\tools\\agent.exe".to_string(),
        ]
    );
    assert_eq!(
        resolve_executable("agent", "C:\\work", &environment, &vec![false, false, false, true]),
        Ok("C:\\work\\tools\\agent.exe".to_string())
    );
    assert_eq!(
        resolve_executable("agent", "C:\\work", &environment, &vec![false; 4]),
        Err(RunError::Preflight("executable was not found on PATH: agent".to_string()))
    );
    assert_eq!(
        executable_candidates("agent.exe", "C:\\work", &environment).unwrap().len(),
        2
    );
    assert_eq!(
        executable_candidates("agent", "C:\\work", &TextMap::new()),
        Err(RunError::Preflight("PATH is missing".to_string()))
    );
    assert_eq!(
        resolve_executable("C:\\x\\agent.exe", "C:\\work", &environment, &vec![true]),
        Ok("C:\\x\\agent.exe".to_string())
    );
    assert_eq!(
        executable_candidates("x\\agent.exe", "C:\\work", &environment),
        Err(RunError::Preflight(
            "executable is not an existing absolute file: x\\agent.exe".to_string()
        ))
    );
}

#[test]
fn configurations_are_resolved_before_the_first_launch() {
    let base = variables(&[("HOME", "C:\\home"), ("PATH", "C:\\bin"), ("TEMP", "x")]);
    let configuration = configuration("service", "always", 1);
    let overlaid = overlay_environment(&configuration, &base).unwrap();
    assert_eq!(
        overlaid,
        variables(&[("HOME", "C:\\home"), ("MODE", "$C:\\home"), ("PATH", "C:\\bin")])
    );
    let resolved =
        preflight_configuration(&configuration, &base, true, &vec![false, true]).unwrap();
    assert_eq!(resolved.executable, "C:\\bin\\agent.exe");
    assert_eq!(resolved.working_directory, "C:\\home");
    assert_eq!(resolved.environment, overlaid);
    let refused =
        preflight_configuration(&configuration, &base, false, &vec![false, true]).unwrap_err();
    assert_eq!(
        refused.message(),
        "preflight failed: working directory is not an existing absolute directory: C:\\home"
    );
    let listed = list_variables(&variables(&[("B", "2"), ("A", "1")]));
    assert_eq!(listed[0].name, "A");
    assert_eq!(listed[1].value, "2");
    assert_eq!(check_spec_size(4 * 1024 * 1024), Ok(()));
    assert_eq!(
        check_spec_size(4 * 1024 * 1024 + 1).unwrap_err().message(),
        "execution snapshot exceeds 4 MiB"
    );
}

#[test]
fn checkpoints_hold_what_was_resolved() {
    let resolved = recovered_preflight(&checkpoint("running", 1)).unwrap();
    assert_eq!(resolved.executable, "C:\\bin\\agent.exe");
    assert_eq!(resolved.environment.get("A"), Some(&"1".to_string()));
    let mut early = checkpoint("launching", 1);
    early.resolved_executable = String::new();
    assert!(recovered_preflight(&early).is_none());
}

#[test]
fn attempts_are_retried_within_the_policy() {
    assert!(should_retry(&policy("on-failure", 2), false, 1));
    assert!(!should_retry(&policy("on-failure", 2), false, 2));
    assert!(!should_retry(&policy("on-failure", 2), true, 0));
    assert!(should_retry(&policy("always", 1), true, 0));
    assert!(!should_retry(&policy("never", 9), false, 0));
    let mut unlimited = policy("always", 0);
    unlimited.restart.max_restarts_unlimited = true;
    assert!(should_retry(&unlimited, false, u32::MAX));
    assert_eq!(retry_delay(&policy("always", 1), 1), 100);
    assert_eq!(retry_delay(&policy("always", 1), 2), 300);
    assert_eq!(retry_delay(&policy("always", 1), 3), 500);
    assert!(is_successful(&policy("always", 1), Some(3)));
    assert!(!is_successful(&policy("always", 1), Some(1)));
    assert!(!is_successful(&policy("always", 1), None));
}

#[test]
fn attempts_have_directories_of_their_own() {
    let configuration = configuration("service", "always", 1);
    let attempt = attempt_configuration(&configuration, 7);
    assert_eq!(attempt.attempt, 7);
    assert_eq!(attempt.log_directory, "C:\\logs\\agent\\run-1\\attempt-000007");
    assert_eq!(
        attempt_result_path(&configuration.runtime_journal, 7),
        Ok("C:\\run\\attempt-000007\\result.pb".to_string())
    );
    assert_eq!(
        attempt_result_path("", 7),
        Err(RunError::Preflight("runtime journal has no parent".to_string()))
    );
}

#[test]
fn supervisors_follow_their_checkpoint() {
    let next = SupervisorIdentity::following(&recovered("running", 1), "new".to_string());
    assert_eq!((next.id.as_str(), next.incarnation), ("s", 5));
    let first = SupervisorIdentity::following(&fresh(), "new".to_string());
    assert_eq!((first.id.as_str(), first.incarnation), ("new", 1));
}

#[test]
fn runs_record_launch_retry_and_end() {
    let mut runner = Runner::start(
        configuration("job", "on-failure", 1),
        identity(),
        &fresh(),
        false,
        1_000,
    );
    assert_eq!(runner.attempt, 1);
    runner.launch(None, 1_000);
    assert_eq!(steps(&mut runner), vec!["checkpoint launching", "prepare"]);
    runner.prepared(preflight());
    assert_eq!(steps(&mut runner), vec!["checkpoint launching", "launch"]);
    runner.launched(77);
    assert_eq!(steps(&mut runner), vec!["checkpoint running"]);
    runner.running_recorded(Ok(()), 1_010);
    assert_eq!(steps(&mut runner), vec!["observe 1 attempt-started"]);
    runner.exited(Ok(9), false, false, 1_020);
    assert_eq!(
        steps(&mut runner),
        vec![
            "attempt result 1",
            "observe 2 attempt-exited",
            "checkpoint restart_backoff",
            "observe 3 restart-backoff",
            "wait 100",
        ]
    );
    assert!(matches!(
        runner.phase,
        RunPhase::Backoff { successful: false, decision_retries: 0, retry_at_unix_ms: 1_120, .. }
    ));
    runner.backoff_elapsed(1_120);
    runner.launch(None, 1_120);
    assert_eq!(steps(&mut runner), vec!["checkpoint launching", "launch"]);
    assert_eq!(runner.attempt, 2);
    runner.launched(78);
    runner.running_recorded(Ok(()), 1_130);
    steps(&mut runner);
    runner.exited(Ok(9), false, false, 1_140);
    assert_eq!(
        steps(&mut runner),
        vec![
            "attempt result 2",
            "observe 5 attempt-exited",
            "observe 6 failed",
            "result failed",
        ]
    );
    assert!(matches!(runner.phase, RunPhase::Done { .. }));
}

#[test]
fn requested_stops_end_the_run() {
    let mut runner =
        Runner::start(configuration("job", "on-failure", 9), identity(), &fresh(), false, 0);
    runner.launch(None, 0);
    runner.prepared(preflight());
    runner.launched(77);
    runner.running_recorded(Ok(()), 0);
    steps(&mut runner);
    runner.exited(Ok(1), true, true, 10);
    assert_eq!(
        steps(&mut runner),
        vec!["attempt result 1", "observe 2 attempt-exited", "observe 3 cancelled", "result cancelled"]
    );

    let mut waiting =
        Runner::start(configuration("service", "always", 9), identity(), &fresh(), false, 0);
    waiting.launch(None, 0);
    waiting.preparation_failed("no file".to_string(), false, 5);
    assert_eq!(
        steps(&mut waiting)[2..].to_vec(),
        vec![
            "attempt result 1",
            "observe 1 launch-failed",
            "checkpoint restart_backoff",
            "observe 2 restart-backoff",
            "wait 100",
        ]
    );
    waiting.backoff_stopped(50);
    assert_eq!(steps(&mut waiting), vec!["observe 3 stopped", "result stopped"]);
    match waiting.phase {
        RunPhase::Done { result } => {
            assert!(result.stop_requested && !result.launched);
            assert_eq!(result.ended_unix_ms, 50);
        }
        other => panic!("{other:?}"),
    }
}

#[test]
fn policies_can_deny_a_pending_retry() {
    let mut runner =
        Runner::start(configuration("service", "always", 9), identity(), &fresh(), false, 0);
    runner.launch(None, 0);
    runner.launch_failed("no file".to_string(), 5);
    steps(&mut runner);
    let update = PolicyUpdate { policy: policy("never", 0), policy_hash: vec![0xab] };
    runner.policy_in_backoff(&update, 6);
    assert_eq!(
        steps(&mut runner),
        vec![
            "checkpoint restart_backoff",
            "observe 3 policy-applied",
            "observe 4 failed",
            "result failed",
        ]
    );
    assert!(matches!(runner.phase, RunPhase::Done { .. }));
}

#[test]
fn policies_apply_to_a_running_attempt() {
    let mut runner =
        Runner::start(configuration("service", "always", 9), identity(), &fresh(), false, 0);
    runner.launch(None, 0);
    runner.prepared(preflight());
    runner.launched(77);
    runner.running_recorded(Ok(()), 0);
    steps(&mut runner);
    let update = PolicyUpdate { policy: policy("never", 0), policy_hash: vec![0xab] };
    assert_eq!(runner.policy_checkpoint(&update).phase, "running");
    runner.policy_while_running(&update, 6);
    match &runner.take_effects()[..] {
        [RunEffect::Observe(observation)] => {
            assert_eq!(observation.kind, "policy-applied");
            assert_eq!(observation.detail, "ab");
            assert_eq!(observation.workload_process_id, 77);
        }
        other => panic!("{other:?}"),
    }
    assert_eq!(runner.configuration.policy.restart.policy, "never");

    let mut changed = configuration("service", "always", 9);
    apply_policy(&mut changed, &update);
    assert_eq!(changed.policy.restart.policy, "never");
}

#[test]
fn lost_jobs_are_not_run_again() {
    let mut job = Runner::start(
        configuration("job", "on-failure", 9),
        identity(),
        &recovered("running", 2),
        false,
        100,
    );
    assert_eq!(
        steps(&mut job),
        vec![
            "attempt result 2",
            "observe 3 supervisor-lost",
            "observe 4 outcome-unknown",
            "result outcome-unknown",
        ]
    );
    let mut service = Runner::start(
        configuration("service", "always", 9),
        identity(),
        &recovered("launching", 2),
        false,
        100,
    );
    assert_eq!(
        steps(&mut service),
        vec![
            "attempt result 2",
            "observe 3 supervisor-lost",
            "checkpoint restart_backoff",
            "observe 4 restart-backoff",
            "wait 300",
        ]
    );
    let mut stopped = Runner::start(
        configuration("service", "always", 9),
        identity(),
        &recovered("running", 2),
        true,
        100,
    );
    assert_eq!(steps(&mut stopped), vec!["observe 3 stopped", "result stopped"]);
    let mut pending = Runner::start(
        configuration("service", "always", 9),
        identity(),
        &recovered("restart_backoff", 2),
        false,
        100,
    );
    assert_eq!(steps(&mut pending), vec!["wait 4900"]);
}

#[test]
fn unrecorded_starts_count_as_failed_launches() {
    let mut runner =
        Runner::start(configuration("service", "never", 0), identity(), &fresh(), false, 0);
    runner.launch(None, 0);
    runner.prepared(preflight());
    runner.launched(77);
    runner.running_recorded(Err("full".to_string()), 3);
    match runner.phase {
        RunPhase::Done { result } => {
            assert_eq!(result.error, "failed to persist running state: full");
            assert!(!result.launched);
        }
        other => panic!("{other:?}"),
    }
    let mut late =
        Runner::start(configuration("service", "never", 0), identity(), &fresh(), false, 0);
    late.launch(None, 0);
    late.prepared(preflight());
    late.launched(77);
    late.running_recorded(Ok(()), 3);
    late.start_not_recorded("full".to_string(), 4);
    match late.phase {
        RunPhase::Done { result } => {
            assert_eq!(result.error, "failed to persist attempt start: full");
        }
        other => panic!("{other:?}"),
    }
    assert_eq!(failed_result(1, 2, "x".to_string()).error, "x");
    assert!(stopped_result(4).stop_requested);
}

#[test]
fn stops_follow_the_method_and_the_session() {
    assert_eq!(
        stop_plan(&policy("always", 1), false),
        StopPlan { method: StopMethod::CtrlBreak, wait_ms: 30_000 }
    );
    assert_eq!(
        stop_plan(&policy("always", 1), true),
        StopPlan { method: StopMethod::CtrlBreak, wait_ms: 25_000 }
    );
    let mut kill = policy("always", 1);
    kill.stop.method = "kill".to_string();
    assert_eq!(stop_plan(&kill, false).method, StopMethod::Kill);
    kill.stop.method = "command".to_string();
    assert_eq!(stop_plan(&kill, false).method, StopMethod::Command);

    assert_eq!(
        while_running(Signal::SessionEnding, false),
        RunningStep::Stop { session_ending: true }
    );
    assert_eq!(
        while_running(Signal::StopFlag { open: true, raised: true }, false),
        RunningStep::Stop { session_ending: false }
    );
    assert_eq!(
        while_running(Signal::StopFlag { open: true, raised: false }, false),
        RunningStep::Continue
    );
    assert_eq!(
        while_running(Signal::StopFlag { open: false, raised: true }, false),
        RunningStep::AwaitExit
    );
    assert_eq!(while_running(Signal::Input { open: false }, false), RunningStep::AwaitExit);
    assert!(stops_backoff(Signal::Input { open: true }));
    assert!(!stops_backoff(Signal::Input { open: false }));
    assert!(stops_backoff(Signal::SessionEnding));
    assert!(stop_requested(false, Some(true)) && stop_requested(true, None));
    assert!(!stop_requested(false, None));
    assert!(is_stop_line("  STOP\r") && !is_stop_line("stop it"));
}
