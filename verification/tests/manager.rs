use susm::config::model::WorkloadKind;
use susm::config::raw::{
    RawDefinition, RawEnvironment, RawKind, RawLogging, RawRestart, RawRestartLimit,
    RawRestartPolicy, RawRetentionAge, RawStop, RawStopCommand, RawStopMethod,
};
use susm::control::{
    authenticate, check_execution_id, check_first_message, check_report, check_watch,
    execution_cursor, execution_id_result, execution_next_cursor, inbound_step, page_size,
    reload_response, workload_id, workload_page, FirstMessage, Inbound, InboundStep,
    ReadLogsRequest,
};
use susm::ids::WorkloadId;
use susm::manager::error::{map_error, Audience, ManagerError, StatusCode};
use susm::manager::execution::{
    finished_row, MonitorStep, RecoveryMonitor, SupervisorClaim, SupervisorObservation,
};
use susm::manager::launch::{
    assign_execution, execution_runtime_root, io_finish, prepare_launch, stopped_attempt_result,
    supervisor_retry_delay, supervisor_stop_wait, LaunchEvent, LaunchLoop, LaunchStep,
};
use susm::manager::model::{
    active_state, execution_view, is_terminal_kind, progress_observation, ActiveState, Workload,
    WorkloadRecord,
};
use susm::manager::requests::RerunStep;
use susm::manager::state::{Command, ManagerEffect, ManagerState, StartStep};
use susm::messages::{AttemptResult, ExecutionConfiguration};
use susm::ordered::TextMap;
use susm::snapshot::{
    clear_execution_hash, definition_snapshot, duration_ms, kind_name, policy_update,
    set_execution_hash, unhashed_update,
};
use susm::storage::{
    read_execution, replace_definitions, Enablement, ExecutionColumns, ObservationUpdate,
    ProgressObservation, StorageError, StoredExecution, StoredWorkload, TerminalObservation,
};
use susm::text::hex;
use susm::time::Duration;

fn raw(kind: RawKind) -> RawDefinition {
    RawDefinition {
        kind,
        executable: "agent.exe".to_string(),
        arguments: vec!["-v".to_string()],
        working_directory: None,
        success_exit_codes: None,
        environment: RawEnvironment { set: Vec::new(), unset: Vec::new() },
        restart: None,
        stop: None,
        logging: None,
    }
}

fn snapshot(kind: RawKind, id: &str) -> ExecutionConfiguration {
    let definition =
        raw(kind).into_definition(WorkloadId::parse(id.to_string()).unwrap()).unwrap();
    definition_snapshot(&definition)
}

fn record(kind: RawKind, id: &str) -> WorkloadRecord {
    WorkloadRecord {
        kind: snapshot(kind, id).kind,
        definition: Some(snapshot(kind, id)),
        policy_hash: vec![1],
        enabled: false,
        last_outcome: String::new(),
    }
}

fn state() -> ManagerState {
    let mut state = ManagerState::new();
    state.add_workload("agent".to_string(), record(RawKind::Service, "agent"));
    state.add_workload("backup".to_string(), record(RawKind::Job, "backup"));
    state
}

fn started(state: &mut ManagerState, id: &str) -> StoredExecution {
    let mut configuration = snapshot(
        if id == "backup" { RawKind::Job } else { RawKind::Service },
        id,
    );
    assign_execution(&mut configuration, "run-1", "session", "C:\\susm-supervisor.exe", None);
    let row = state.enter_start(id, &configuration, vec![9], 50);
    state.confirm_start(id).unwrap();
    row
}

fn row(execution: &str, state: &str) -> StoredExecution {
    StoredExecution {
        id: execution.to_string(),
        workload_id: "agent".to_string(),
        state: state.to_string(),
        supervisor_process_id: 4,
        workload_process_id: 5,
        attempt: 2,
        started_unix_ms: 100,
        ended_unix_ms: 0,
        exit_code: None,
        error: String::new(),
        snapshot: Vec::new(),
        committed_sequence: 3,
    }
}

fn observation(sequence: u64, kind: &str, detail: &str) -> SupervisorObservation {
    SupervisorObservation {
        sequence,
        kind: kind.to_string(),
        exit_code: Some(1),
        detail: detail.to_string(),
        attempt: 2,
        workload_process_id: 8,
    }
}

#[test]
fn snapshots_hold_the_definition() {
    let mut full = raw(RawKind::Service);
    full.restart = Some(RawRestart {
        policy: Some(RawRestartPolicy::Always),
        max_restarts: Some(RawRestartLimit::Keyword("unlimited".to_string())),
        reset_after: Some(Duration::from_secs(2)),
        backoff: None,
    });
    full.stop = Some(RawStop {
        method: Some(RawStopMethod::Command),
        timeout: Some(Duration::from_secs(3)),
        command: Some(RawStopCommand {
            executable: "ctl.exe".to_string(),
            arguments: vec!["stop".to_string()],
        }),
    });
    full.logging = Some(RawLogging {
        capture: None,
        segment_size: Some("1KiB".to_string()),
        segment_age: None,
        retention_size: Some("unlimited".to_string()),
        retention_age: Some(RawRetentionAge::Value(Duration::from_secs(9))),
    });
    let definition =
        full.into_definition(WorkloadId::parse("agent".to_string()).unwrap()).unwrap();
    let snapshot = definition_snapshot(&definition);
    assert_eq!(snapshot.workload_id, "agent");
    assert_eq!(snapshot.kind, "service");
    assert_eq!(snapshot.arguments, vec!["-v".to_string()]);
    assert_eq!(snapshot.process_definition_hash, definition.process_hash().as_bytes().to_vec());
    let policy = &snapshot.policy;
    assert_eq!(policy.success_exit_codes, vec![0]);
    assert_eq!(policy.restart.policy, "always");
    assert!(policy.restart.max_restarts_unlimited);
    assert_eq!(policy.restart.reset_after_ms, 2000);
    assert_eq!(policy.restart.backoff_initial_ms, 250);
    assert_eq!(policy.restart.backoff_maximum_ms, 30_000);
    assert_eq!(policy.stop.method, "command");
    assert_eq!(policy.stop.timeout_ms, 3000);
    assert_eq!(policy.stop.executable, "ctl.exe");
    assert_eq!(policy.logging.segment_size, 1024);
    assert!(policy.logging.retention_size_unlimited);
    assert_eq!(policy.logging.retention_age_ms, 9000);
    assert_eq!(duration_ms(Duration::from_nanos(1_999_999).unwrap()), 1);
    assert_eq!(kind_name(WorkloadKind::Job), "job");
}

#[test]
fn snapshots_are_sealed_with_their_digest() {
    let mut configuration = snapshot(RawKind::Job, "backup");
    set_execution_hash(&mut configuration, b"abc");
    assert_eq!(
        hex(&configuration.execution_config_hash),
        "ba7816bf8f01cfea414140de5dae2223b00361a396177a9cb410ff61f20015ad"
    );
    clear_execution_hash(&mut configuration);
    assert!(configuration.execution_config_hash.is_empty());
    assert!(unhashed_update(&configuration).policy_hash.is_empty());
    assert_eq!(
        hex(&policy_update(&configuration, b"abc").policy_hash),
        "ba7816bf8f01cfea414140de5dae2223b00361a396177a9cb410ff61f20015ad"
    );
}

#[test]
fn services_start_once_and_jobs_exclusively() {
    let mut state = state();
    assert!(matches!(state.start_service("agent"), Ok(StartStep::Launch(_))));
    let row = started(&mut state, "agent");
    assert_eq!(row.state, "starting");
    assert_eq!(row.started_unix_ms, 50);
    assert_eq!(row.snapshot, vec![9]);
    assert!(state.is_active("agent"));
    assert!(!state.is_quiescent());
    match state.start_service("agent") {
        Ok(StartStep::Active(workload)) => assert_eq!(workload.execution_id, "run-1"),
        other => panic!("{other:?}"),
    }
    started(&mut state, "backup");
    assert!(matches!(state.run_job("backup"), Err(ManagerError::AlreadyActive(id)) if id == "backup"));
    let wrong = state.run_job("agent").unwrap_err();
    assert_eq!(wrong.message(), "workload 'agent' is a service, not a job");
    assert!(matches!(state.start_service("x"), Err(ManagerError::NotFound(_))));

    let mut missing = record(RawKind::Service, "gone");
    missing.definition = None;
    state.add_workload("gone".to_string(), missing);
    assert!(matches!(state.start_service("gone"), Err(ManagerError::DefinitionMissing(_))));
    assert_eq!(state.workload("gone").unwrap().state, "definition-missing");
}

#[test]
fn abandoned_starts_leave_no_trace() {
    let mut state = state();
    let configuration = snapshot(RawKind::Service, "agent");
    state.enter_start("agent", &configuration, Vec::new(), 1);
    state.abandon_start("agent");
    assert!(!state.is_active("agent"));
    assert_eq!(state.workload("agent").unwrap().state, "inactive");
}

#[test]
fn stops_are_sent_and_can_be_repeated() {
    let mut state = state();
    let (changed, workload) = state.stop_service("agent").unwrap();
    assert!(!changed);
    assert_eq!(workload.state, "inactive");
    started(&mut state, "agent");
    let (changed, workload) = state.stop_service("agent").unwrap();
    assert!(changed);
    assert_eq!(workload.state, "stopping");
    match &state.take_effects()[..] {
        [ManagerEffect::Cancel { execution_id }, ManagerEffect::Send { command, .. }] => {
            assert_eq!(execution_id, "run-1");
            assert_eq!(command.kind(), "stop");
        }
        other => panic!("{other:?}"),
    }
    let (_, again) = state.restart_service("agent").unwrap();
    assert_eq!(again.state, "stopping");
    assert!(state.complete_execution("agent", "run-1", "stopped"));
    assert_eq!(state.workload("agent").unwrap().last_outcome, "stopped");
    assert_eq!(state.replacement_kind("agent"), Some(WorkloadKind::Service));

    assert!(matches!(state.cancel_job("agent"), Err(ManagerError::WrongKind { .. })));
    assert!(matches!(state.rerun_job("backup"), Ok(RerunStep::Starting(StartStep::Launch(_)))));
    started(&mut state, "backup");
    assert!(matches!(state.rerun_job("backup"), Ok(RerunStep::Stopping(true, _))));
    assert_eq!(Command::SessionEnding.kind(), "session-ending");
    let stop = Command::Stop.encoded(vec![1]);
    assert_eq!((stop.kind.as_str(), stop.payload), ("stop", vec![]));
    let update = Command::UpdatePolicy { workload_id: "a".to_string() }.encoded(vec![1]);
    assert_eq!((update.kind.as_str(), update.payload), ("update-policy", vec![1]));
    assert_eq!(
        Command::UpdatePolicy { workload_id: "a".to_string() }.kind(),
        "update-policy"
    );
}

#[test]
fn ending_sessions_stop_everything() {
    let mut state = state();
    started(&mut state, "agent");
    state.restart_service("agent").unwrap();
    state.take_effects();
    state.end_session();
    let effects = state.take_effects();
    assert_eq!(effects.len(), 2);
    assert!(matches!(state.start_service("backup"), Err(ManagerError::SessionEnding)));
    assert!(!state.complete_execution("agent", "run-1", "stopped"));
    assert!(state.is_quiescent());
    let revision = state.revision;
    state.end_session();
    assert_eq!(state.revision, revision);
}

#[test]
fn logs_are_those_of_the_active_or_newest_execution() {
    let mut state = state();
    let request = |workload: &str, execution: &str| ReadLogsRequest {
        workload_id: workload.to_string(),
        execution_id: execution.to_string(),
        attempt: 0,
        stream: "all".to_string(),
        follow: false,
    };
    let rows = vec![row("run-9", "failed"), row("run-8", "completed")];
    let some = |id: &str| Some(id.to_string());
    assert_eq!(state.read_logs(&request("agent", ""), &rows).unwrap(), some("run-9"));
    assert_eq!(state.read_logs(&request("agent", ""), &Vec::new()).unwrap(), None);
    started(&mut state, "agent");
    assert_eq!(state.read_logs(&request("agent", ""), &rows).unwrap(), some("run-1"));
    assert_eq!(state.read_logs(&request("agent", "run-8"), &rows).unwrap(), some("run-8"));
    assert!(matches!(
        state.read_logs(&request("x", ""), &rows),
        Err(ManagerError::NotFound(id)) if id == "x"
    ));
}

#[test]
fn workloads_can_be_enabled() {
    let mut state = state();
    let revision = state.revision;
    let workload = state.set_enabled("backup", true, true).unwrap();
    assert!(workload.enabled);
    assert_eq!(state.revision, revision + 1);
    assert_eq!(state.enabled_workloads(WorkloadKind::Job), vec!["backup".to_string()]);
    assert!(state.enabled_workloads(WorkloadKind::Service).is_empty());
    assert!(matches!(state.set_enabled("x", true, false), Err(ManagerError::NotFound(_))));
    assert_eq!(state.list_workloads().len(), 2);
    let kept = |kind: &str, enabled: bool| Enablement {
        kind: kind.to_string(),
        enabled,
        last_triggered_session: "before".to_string(),
    };
    let mut job = kept("job", true);
    assert!(job.claim_enabled_job("now"));
    assert_eq!(job.last_triggered_session, "now");
    assert!(!job.claim_enabled_job("now"));
    assert!(job.claim_enabled_job("later"));
    assert!(!kept("service", true).claim_enabled_job("now"));
    let mut disabled = kept("job", false);
    assert!(!disabled.claim_enabled_job("now"));
    assert_eq!(disabled.last_triggered_session, "before");
}

#[test]
fn reloads_settle() {
    let mut state = state();
    started(&mut state, "agent");
    let refused = state.check_reload(&vec![snapshot(RawKind::Job, "agent")]).unwrap_err();
    assert!(matches!(refused, ManagerError::KindChangeActive(id) if id == "agent"));
    assert!(state.check_reload(&vec![snapshot(RawKind::Service, "backup")]).is_ok());

    let mut changed = record(RawKind::Service, "agent");
    changed.policy_hash = vec![2];
    if let Some(definition) = changed.definition.as_mut() {
        definition.process_definition_hash = vec![7];
    }
    state.apply_reload(true, vec![("agent".to_string(), changed)]);
    let workload = state.workload("agent").unwrap();
    assert!(workload.restart_required && workload.policy_sync_pending);
    match &state.take_effects()[..] {
        [ManagerEffect::Send { command, .. }] => assert_eq!(command.kind(), "update-policy"),
        other => panic!("{other:?}"),
    }
    let revision = state.revision;
    state.apply_reload(false, Vec::new());
    assert_eq!(state.revision, revision);
}

#[test]
fn executions_of_other_sessions_are_closed() {
    let mut state = state();
    let mut configuration = snapshot(RawKind::Service, "agent");
    configuration.manager_session_id = "before".to_string();
    let closed = state
        .recover_execution(row("old", "running"), &configuration, vec![1], "now", 777)
        .unwrap();
    assert_eq!(closed.state, "stopped");
    assert_eq!(closed.ended_unix_ms, 777);
    assert_eq!(closed.error, "execution belonged to an ended manager session");
    assert_eq!(state.workload("agent").unwrap().last_outcome, "stopped");

    configuration.manager_session_id = "now".to_string();
    assert!(state
        .recover_execution(row("run-1", "running"), &configuration, vec![1], "now", 777)
        .is_none());
    assert_eq!(state.workload("agent").unwrap().state, "recovering");
    assert_eq!(state.unowned_executions(), vec!["run-1".to_string()]);
    assert_eq!(state.find_holder("run-1"), Some("agent".to_string()));
}

fn recovered() -> (ManagerState, ExecutionConfiguration) {
    let mut state = state();
    let mut configuration = snapshot(RawKind::Service, "agent");
    configuration.manager_session_id = "now".to_string();
    configuration.execution_config_hash = vec![6];
    state.recover_execution(row("run-1", "running"), &configuration, vec![1], "now", 0);
    (state, configuration)
}

fn claim() -> SupervisorClaim {
    SupervisorClaim {
        workload_id: "agent".to_string(),
        manager_session_id: "now".to_string(),
        execution_config_hash: vec![6],
        process_id: 4,
    }
}

#[test]
fn supervisors_attach_with_the_right_identity() {
    let (mut state, configuration) = recovered();
    let stored = row("run-1", "running");
    let mut wrong = claim();
    wrong.execution_config_hash = vec![7];
    assert!(matches!(
        state.attach_supervisor(&stored, &configuration, &wrong, "a".to_string()),
        Err(ManagerError::SupervisorIdentityMismatch)
    ));
    let mut other = claim();
    other.process_id = 5;
    assert!(matches!(
        state.attach_supervisor(&stored, &configuration, &other, "a".to_string()),
        Err(ManagerError::SupervisorIdentityMismatch)
    ));
    assert!(matches!(
        state.attach_supervisor(&row("run-2", "running"), &configuration, &claim(), "a".to_string()),
        Err(ManagerError::NotFound(_))
    ));
    let revision = state.revision;
    assert!(state
        .attach_supervisor(&stored, &configuration, &claim(), "a".to_string())
        .is_ok());
    assert_eq!(state.workload("agent").unwrap().state, "running");
    assert_eq!(state.revision, revision + 1);
    state.supervisor_disconnected("run-1", "old");
    assert_eq!(state.workload("agent").unwrap().state, "running");
    assert_eq!(state.revision, revision + 1);
    state.supervisor_disconnected("run-1", "a");
    assert_eq!(state.workload("agent").unwrap().state, "recovering");
    assert_eq!(state.revision, revision + 2);
}

#[test]
fn observations_are_committed_once_and_in_order() {
    let mut stored = row("run-1", "running");
    assert!(matches!(stored.commit_observation(3, ObservationUpdate::Acknowledge), Ok(false)));
    match stored.commit_observation(5, ObservationUpdate::Acknowledge) {
        Err(StorageError::ObservationOutOfOrder { expected, actual }) => {
            assert_eq!((expected, actual), (4, 5));
        }
        other => panic!("{other:?}"),
    }
    let progress = ProgressObservation {
        state: "running".to_string(),
        workload_process_id: 8,
        attempt: 3,
        error: None,
    };
    assert!(matches!(
        stored.commit_observation(4, ObservationUpdate::Progress(progress)),
        Ok(true)
    ));
    assert_eq!((stored.committed_sequence, stored.attempt), (4, 3));
    let terminal = TerminalObservation {
        state: "failed".to_string(),
        ended_unix_ms: 900,
        exit_code: Some(1),
        error: "gone".to_string(),
        attempt: 3,
    };
    assert!(matches!(
        stored.commit_observation(5, ObservationUpdate::Terminal(terminal)),
        Ok(true)
    ));
    assert_eq!(stored.state, "failed");
    assert_eq!(stored.ended_unix_ms, 900);
    assert_eq!(stored.exit_code, Some(1));
}

#[test]
fn observations_move_the_workload() {
    let (mut state, _) = recovered();
    let stored = row("run-1", "running");
    let started = observation(4, "attempt-started", "");
    let (update, terminal) = state.plan_observation(&stored, &started, 5);
    assert!(!terminal && matches!(update, ObservationUpdate::Progress(_)));
    assert!(!state.apply_observation(&stored, &started, terminal));
    let workload = state.workload("agent").unwrap();
    assert_eq!((workload.state.as_str(), workload.workload_process_id), ("running", 8));

    let failed = observation(5, "failed", "gone");
    let (update, terminal) = state.plan_observation(&stored, &failed, 900);
    match update {
        ObservationUpdate::Terminal(update) => {
            assert_eq!((update.state.as_str(), update.ended_unix_ms), ("failed", 900));
        }
        other => panic!("{other:?}"),
    }
    assert!(terminal);
    assert!(!state.apply_observation(&stored, &failed, terminal));
    assert!(state.is_quiescent());
    assert_eq!(state.workload("agent").unwrap().last_outcome, "failed");
}

#[test]
fn policies_are_confirmed_by_their_digest() {
    let (mut state, _) = recovered();
    let mut changed = record(RawKind::Service, "agent");
    changed.policy_hash = vec![0xab];
    state.apply_reload(true, vec![("agent".to_string(), changed)]);
    assert!(state.workload("agent").unwrap().policy_sync_pending);
    let stored = row("run-1", "running");
    state.apply_observation(&stored, &observation(4, "policy-applied", "00"), false);
    assert!(state.workload("agent").unwrap().policy_sync_pending);
    state.apply_observation(&stored, &observation(5, "policy-applied", "ab"), false);
    assert!(!state.workload("agent").unwrap().policy_sync_pending);
}

#[test]
fn lost_supervisors_are_replaced_after_a_while() {
    let (mut state, configuration) = recovered();
    let mut monitor = RecoveryMonitor::new(1_000);
    assert!(matches!(monitor.step(&mut state, "run-1", 3_999), MonitorStep::Wait));
    match monitor.step(&mut state, "run-1", 4_000) {
        MonitorStep::Replace { workload_id } => assert_eq!(workload_id, "agent"),
        other => panic!("{other:?}"),
    }
    assert_eq!(state.workload("agent").unwrap().state, "starting");
    assert!(matches!(monitor.step(&mut state, "run-9", 4_000), MonitorStep::Gone));
    state.supervisor_launched("agent", "run-1", 66);
    assert_eq!(state.workload("agent").unwrap().supervisor_process_id, 66);

    let (mut other, _) = recovered();
    let (kept, restart) = other
        .supervisor_terminal(
            row("run-1", "running"),
            &configuration,
            "completed",
            Some(0),
            String::new(),
            800,
        )
        .unwrap();
    assert_eq!((kept.state.as_str(), kept.ended_unix_ms, restart), ("completed", 800, false));
    assert!(other.is_quiescent());
}

#[test]
fn supervisors_are_launched_within_the_budget() {
    let configuration = snapshot(RawKind::Job, "backup");
    let mut launches = LaunchLoop::new();
    assert!(matches!(
        launches.handle(&configuration, LaunchEvent::Ready { cancelled: false }),
        LaunchStep::Spawn
    ));
    for failures in 1..8 {
        match launches.handle(&configuration, LaunchEvent::SpawnFailed { error: "x".to_string() }) {
            LaunchStep::Sleep { millis } => assert_eq!(millis, supervisor_retry_delay(failures)),
            other => panic!("{other:?}"),
        }
    }
    match launches.handle(&configuration, LaunchEvent::SpawnFailed { error: "x".to_string() }) {
        LaunchStep::Finish(finish) => assert_eq!(finish.state, "supervisor-unavailable"),
        other => panic!("{other:?}"),
    }
    assert_eq!(supervisor_retry_delay(1), 100);
    assert_eq!(supervisor_retry_delay(4), 800);
    assert_eq!(supervisor_retry_delay(40), 5_000);
    assert_eq!(supervisor_stop_wait(&configuration), 15_000);

    let mut cancelled = LaunchLoop::new();
    match cancelled.handle(&configuration, LaunchEvent::Ready { cancelled: true }) {
        LaunchStep::Finish(finish) => assert_eq!(finish.state, "cancelled"),
        other => panic!("{other:?}"),
    }
    let mut ended = LaunchLoop::new();
    assert!(matches!(
        ended.handle(&configuration, LaunchEvent::Spawned { process_id: 12 }),
        LaunchStep::Await
    ));
    let result = AttemptResult { exit_code: Some(0), stop_requested: false, ..stopped_attempt_result() };
    match ended
        .handle(&configuration, LaunchEvent::Ended { cancelled: false, result: Some(result) })
    {
        LaunchStep::Finish(finish) => {
            assert_eq!(finish.state, "completed");
            assert_eq!(finish.supervisor_process_id, 12);
        }
        other => panic!("{other:?}"),
    }
    assert_eq!(io_finish("failed", 1, "C:\\x", "denied").error, "C:\\x: denied");
    let kept = finished_row(row("run-1", "running"), "failed", 3, Some(2), "gone", 9);
    assert_eq!((kept.state.as_str(), kept.workload_process_id, kept.ended_unix_ms), ("failed", 0, 9));
}

#[test]
fn launches_have_files_of_their_own() {
    assert_eq!(
        execution_runtime_root("C:\\data", "", "run-1"),
        "C:\\data\\runtime\\sessions\\standalone\\executions\\run-1"
    );
    let mut configuration = snapshot(RawKind::Service, "agent");
    assign_execution(
        &mut configuration,
        "run-1",
        "s",
        "C:\\susm-supervisor.exe",
        Some("C:\\pin".to_string()),
    );
    assert_eq!(configuration.version_pin, "C:\\pin");
    let spec = prepare_launch(&mut configuration, "C:\\data", "agent", "run-1");
    let root = "C:\\data\\runtime\\sessions\\s\\executions\\run-1";
    assert_eq!(spec, format!("{root}\\execution.pb"));
    assert_eq!(configuration.result_file, format!("{root}\\result.pb"));
    assert_eq!(configuration.runtime_journal, format!("{root}\\runtime.susm-runtime.open"));
    assert_eq!(configuration.log_directory, "C:\\data\\logs\\agent\\run-1");
    assert_eq!(configuration.attempt, 1);
}

#[test]
fn states_are_named_apart() {
    for state in [
        ActiveState::Starting,
        ActiveState::Launching,
        ActiveState::Running,
        ActiveState::LaunchFailed,
        ActiveState::AttemptExited,
        ActiveState::SupervisorLost,
        ActiveState::RestartBackoff,
        ActiveState::Stopping,
        ActiveState::Recovering,
    ] {
        assert_eq!(active_state(state.name()), state);
    }
    assert_eq!(active_state("odd"), ActiveState::Recovering);
    assert!(is_terminal_kind("outcome-unknown") && !is_terminal_kind("running"));
    let lost = progress_observation("supervisor-lost", 2, 9, "gone").unwrap();
    assert_eq!(lost.state, ActiveState::SupervisorLost);
    assert_eq!((lost.workload_process_id, lost.error.as_deref()), (0, Some("gone")));
    assert!(progress_observation("policy-applied", 2, 9, "").is_none());
    assert_eq!(progress_observation("attempt-exited", 2, 9, "").unwrap().error, None);
    assert_eq!(execution_view(row("run-1", "running")).execution_id, "run-1");
}

#[test]
fn errors_map_to_status_codes() {
    let not_found = ManagerError::NotFound("x".to_string());
    assert_eq!(map_error(&not_found, Audience::User), StatusCode::NotFound);
    assert_eq!(
        map_error(&ManagerError::AlreadyActive("x".to_string()), Audience::User),
        StatusCode::AlreadyExists
    );
    assert_eq!(
        map_error(&ManagerError::SessionEnding, Audience::User),
        StatusCode::FailedPrecondition
    );
    assert_eq!(
        map_error(&ManagerError::Config("x".to_string()), Audience::User),
        StatusCode::InvalidArgument
    );
    assert_eq!(
        map_error(&ManagerError::InvalidSystemTime, Audience::User),
        StatusCode::Internal
    );
    assert_eq!(
        ManagerError::InvalidSystemTime.message(),
        "system time is before the Unix epoch"
    );
}

#[test]
fn rows_are_read_from_signed_columns() {
    let columns = |attempt: i64, committed: i64| ExecutionColumns {
        id: "run-1".to_string(),
        workload_id: "agent".to_string(),
        state: "running".to_string(),
        supervisor_process_id: 1,
        workload_process_id: 2,
        attempt,
        started_unix_ms: 4,
        ended_unix_ms: 5,
        exit_code: Some(6),
        error: String::new(),
        snapshot: vec![1],
        committed_sequence: committed,
    };
    let read = read_execution(columns(3, 7)).unwrap();
    assert_eq!((read.attempt, read.exit_code, read.committed_sequence), (3, Some(6), 7));
    assert!(read_execution(columns(-1, 7)).is_err());
    assert!(read_execution(columns(3, -7)).is_err());
}

#[test]
fn reloads_keep_what_users_set() {
    let stored = |id: &str, enabled: bool, outcome: &str| StoredWorkload {
        id: id.to_string(),
        kind: "service".to_string(),
        definition: Some(vec![1]),
        enabled,
        last_outcome: outcome.to_string(),
    };
    let mut rows: TextMap<StoredWorkload> = TextMap::new();
    rows.insert("a".to_string(), stored("a", true, "failed"));
    rows.insert("b".to_string(), stored("b", true, ""));
    let mut next = stored("a", false, "");
    next.definition = Some(vec![2]);
    assert!(replace_definitions(&mut rows, &None, &[1], &vec![next]));
    let kept = rows.get("a").unwrap();
    assert!(kept.enabled);
    assert_eq!(kept.last_outcome, "failed");
    assert_eq!(kept.definition, Some(vec![2]));
    assert_eq!(rows.get("b").unwrap().definition, None);
    assert!(!replace_definitions(&mut rows, &Some(vec![1]), &[1], &Vec::new()));
}

#[test]
fn requests_are_checked() {
    assert!(check_execution_id("018f3e5c-0000-7000-8000-000000000000").is_ok());
    let refused = check_execution_id("x").unwrap_err();
    assert_eq!(refused.code, StatusCode::InvalidArgument);
    assert_eq!(refused.message, "execution_id must be a UUID");
    assert!(execution_id_result(Some(1)).is_ok() && execution_id_result(None).is_err());
    assert!(authenticate(true).is_ok());
    assert_eq!(authenticate(false).unwrap_err().code, StatusCode::Unauthenticated);
    assert_eq!(workload_id("agent".to_string()).unwrap(), "agent");
    assert!(workload_id("Agent!".to_string()).is_err());
    assert_eq!(page_size(0).unwrap(), 100);
    assert_eq!(page_size(1000).unwrap(), 1000);
    assert_eq!(page_size(1001).unwrap_err().message, "page_size must not exceed 1000");
    assert_eq!(execution_cursor("").unwrap(), None);
    assert_eq!(execution_cursor("-12").unwrap(), Some(-12));
    assert_eq!(execution_cursor("x").unwrap_err().message, "execution cursor is invalid");
    let executions = vec![execution_view(row("run-1", "running"))];
    assert_eq!(execution_next_cursor(&executions, 1), "100");
    assert_eq!(execution_next_cursor(&executions, 2), "");
    assert!(check_watch(1, 1).is_ok());
    assert!(check_watch(0, 1).is_err());
}

#[test]
fn pages_follow_each_other() {
    let workloads: Vec<Workload> = state().list_workloads();
    let (first, cursor) = workload_page(&workloads, "", 1);
    assert_eq!(first[0].workload_id, "agent");
    assert_eq!(cursor, "agent");
    let (second, cursor) = workload_page(&workloads, &cursor, 1);
    assert_eq!(second[0].workload_id, "backup");
    let (rest, _) = workload_page(&workloads, "backup", 5);
    assert!(rest.is_empty());
    assert!(cursor.is_empty() || cursor == "backup");
    let listed = state().list_executions("agent", vec![row("run-1", "running")]).unwrap();
    assert_eq!(listed.len(), 1);
    assert!(matches!(state().list_executions("x", Vec::new()), Err(ManagerError::NotFound(_))));
}

#[test]
fn reloads_answer_with_their_faults() {
    let ok = reload_response(Ok((true, "abc".to_string())), "C:\\config");
    assert!(ok.changed && ok.diagnostics.is_empty());
    assert_eq!(ok.generation, "abc");
    let failed = reload_response(Err("bad".to_string()), "C:\\config");
    assert!(!failed.changed);
    assert_eq!(failed.diagnostics[0].path, "C:\\config");
    assert_eq!(failed.diagnostics[0].message, "bad");
}

#[test]
fn attachments_begin_with_a_greeting() {
    assert!(check_first_message(FirstMessage::Hello).is_ok());
    assert_eq!(
        check_first_message(FirstMessage::Missing).unwrap_err().code,
        StatusCode::InvalidArgument
    );
    assert!(check_first_message(FirstMessage::Other).is_err());
    assert!(check_report("attempt-started").is_ok());
    assert!(check_report("odd").is_err());
    assert!(matches!(inbound_step(&Inbound::Closed), InboundStep::End));
    assert!(matches!(inbound_step(&Inbound::Ignored), InboundStep::Continue));
    assert!(matches!(
        inbound_step(&Inbound::Report { kind: "failed".to_string() }),
        InboundStep::Record
    ));
    assert!(matches!(
        inbound_step(&Inbound::Report { kind: "odd".to_string() }),
        InboundStep::Refuse(_)
    ));
}
