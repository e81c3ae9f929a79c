use susm::control::{
    attempt_number, compress_segment, logs_execution, read_segment, wants_execution, LogReader,
    ReadLogsRequest,
};
use susm::controller_link::{read_command, CommandMeaning, Hello, LinkState};
use susm::log_journal::{decode_journal, encode_entry, OutputChunk, OutputStream, ReadLogsResponse};
use susm::log_segments::{
    files_to_remove, is_journal_file, should_rotate, FinalizedFile, SegmentNames, WriterAction,
    WriterEvent, WriterState,
};
use susm::messages::{
    Checkpoint, ExecutionConfiguration, ExecutionPolicy, LoggingSettings, RestartSettings,
    RuntimeObservation, StopSettings,
};
use susm::runner::SupervisorIdentity;
use susm::runtime_journal::{
    frame_payload, scan_frames, JournalError, RuntimeFrame, RuntimeJournal, RuntimeRecord,
    MAX_RUNTIME_FRAME_BYTES,
};
use susm::storage::{ObservationUpdate, StoredExecution};
use susm::time::Duration;

fn settings() -> LoggingSettings {
    LoggingSettings {
        capture_logs: true,
        segment_size: 100,
        segment_age_ms: 1000,
        retention_size: 150,
        retention_size_unlimited: false,
        retention_age_ms: 10,
        retention_age_unlimited: false,
    }
}

fn configuration() -> ExecutionConfiguration {
    ExecutionConfiguration {
        manager_session_id: "session".to_string(),
        workload_id: "agent".to_string(),
        execution_id: "run-1".to_string(),
        kind: "service".to_string(),
        executable: "agent.exe".to_string(),
        arguments: Vec::new(),
        working_directory: "C:\\".to_string(),
        environment_set: Vec::new(),
        environment_unset: Vec::new(),
        policy: ExecutionPolicy {
            success_exit_codes: vec![0],
            restart: RestartSettings {
                policy: "never".to_string(),
                max_restarts: 0,
                max_restarts_unlimited: false,
                reset_after_ms: 0,
                backoff_initial_ms: 0,
                backoff_multiplier: 0,
                backoff_maximum_ms: 0,
            },
            stop: StopSettings {
                method: "kill".to_string(),
                timeout_ms: 0,
                executable: String::new(),
                arguments: Vec::new(),
            },
            logging: settings(),
        },
        process_definition_hash: Vec::new(),
        execution_config_hash: vec![5],
        supervisor_executable: String::new(),
        version_pin: String::new(),
        attempt: 3,
        log_directory: String::new(),
        runtime_journal: String::new(),
        result_file: String::new(),
    }
}

fn chunk(sequence: u64, bytes: &[u8]) -> OutputChunk {
    OutputChunk {
        stream: OutputStream::Stderr,
        sequence,
        timestamp_unix_ms: -5,
        bytes: bytes.to_vec(),
    }
}

fn observation(sequence: u64, kind: &str, terminal: bool) -> RuntimeObservation {
    RuntimeObservation {
        sequence,
        kind: kind.to_string(),
        attempt: 1,
        exit_code: None,
        detail: String::new(),
        observed_unix_ms: 0,
        terminal,
        workload_process_id: 0,
    }
}

fn checkpoint(phase: &str, committed_sequence: u64) -> Checkpoint {
    Checkpoint {
        manager_session_id: String::new(),
        workload_id: String::new(),
        execution_id: String::new(),
        supervisor_id: "s".to_string(),
        incarnation: 1,
        execution_config_hash: Vec::new(),
        attempt: 1,
        phase: phase.to_string(),
        last_sequence: 0,
        committed_sequence,
        retry_at_unix_ms: 0,
        resolved_executable: String::new(),
        resolved_working_directory: String::new(),
        resolved_environment: Vec::new(),
    }
}

#[test]
fn entries_are_written_field_by_field() {
    let entry = encode_entry(&configuration(), &chunk(7, b"a\n"));
    let mut expected: Vec<u8> = Vec::new();
    expected.extend_from_slice(
        b"SUSM_FORMAT=1\nSUSM_RECORD=output\nSUSM_TIMESTAMP_UNIX_MS=-5\nSUSM_WORKLOAD=agent\n\
          SUSM_EXECUTION=run-1\nSUSM_ATTEMPT=3\nSUSM_SEQUENCE=7\nSUSM_STREAM=stderr\nMESSAGE\n",
    );
    expected.extend_from_slice(&[2, 0, 0, 0, 0, 0, 0, 0, b'a', b'\n', b'\n', b'\n']);
    assert_eq!(entry, expected);
    assert_eq!(OutputStream::Stdout.name(), "stdout");
}

#[test]
fn entries_are_read_back() {
    let mut bytes = encode_entry(&configuration(), &chunk(7, b"a\n\nMESSAGE\n"));
    bytes.extend(encode_entry(&configuration(), &chunk(8, &[0xff, 0])));
    let records = decode_journal(&bytes, "run-1", 3);
    assert_eq!(
        records[0],
        ReadLogsResponse {
            execution_id: "run-1".to_string(),
            attempt: 3,
            stream: "stderr".to_string(),
            sequence: 7,
            timestamp_unix_ms: -5,
            message: b"a\n\nMESSAGE\n".to_vec(),
            gap: String::new(),
        }
    );
    assert_eq!(records.len(), 2);
    assert_eq!(records[1].message, vec![0xff, 0]);
    let torn = decode_journal(&bytes[..bytes.len() - 5], "run-1", 3);
    assert_eq!(torn.len(), 1);
}

#[test]
fn unreadable_fields_are_replaced() {
    let mut bytes: Vec<u8> = Vec::new();
    bytes.extend_from_slice(b"SUSM_STREAM=o\xff\nSUSM_SEQUENCE=x\nother\nMESSAGE\n");
    bytes.extend_from_slice(&[1, 0, 0, 0, 0, 0, 0, 0, b'm', b'\n', b'\n']);
    let records = decode_journal(&bytes, "e", 1);
    assert_eq!(records.len(), 1);
    assert_eq!(records[0].stream, "o\u{fffd}");
    assert_eq!(records[0].sequence, 0);
    assert!(decode_journal(b"SUSM_STREAM=stdout\n\n", "e", 1).is_empty());
}

#[test]
fn segments_rotate_by_size_and_age() {
    assert!(!should_rotate(0, 1000, Duration::from_secs(9), settings()));
    assert!(!should_rotate(60, 40, Duration::from_millis(999), settings()));
    assert!(should_rotate(60, 41, Duration::from_millis(0), settings()));
    assert!(should_rotate(1, 0, Duration::from_millis(1000), settings()));
    assert!(should_rotate(u64::MAX, u64::MAX, Duration::from_millis(0), settings()));
}

#[test]
fn chunks_are_written_once_to_numbered_segments() {
    let (state, actions) = WriterState::start(settings());
    assert_eq!(actions, vec![WriterAction::CreateDirectory, WriterAction::Open { segment: 0 }]);
    let (state, actions) =
        state.handle(WriterEvent::Chunk { entry: 90, elapsed: Duration::from_millis(1) });
    assert_eq!(actions, vec![WriterAction::Write]);
    let (state, actions) =
        state.handle(WriterEvent::Chunk { entry: 20, elapsed: Duration::from_millis(2) });
    assert_eq!(
        actions,
        vec![
            WriterAction::Finish,
            WriterAction::ApplyRetention,
            WriterAction::Open { segment: 1 },
            WriterAction::Write,
        ]
    );
    assert_eq!(state.open, Some(20));
    assert_eq!(state.next_segment, 2);
    let (state, actions) = state.handle(WriterEvent::Tick { elapsed: Duration::from_secs(2) });
    assert_eq!(
        actions,
        vec![
            WriterAction::Flush,
            WriterAction::Finish,
            WriterAction::ApplyRetention,
            WriterAction::Open { segment: 2 },
        ]
    );
    let mut quiet = settings();
    quiet.capture_logs = false;
    let (state, actions) = state
        .handle(WriterEvent::Settings { settings: quiet, elapsed: Duration::from_millis(0) });
    assert_eq!(actions, vec![WriterAction::Finish]);
    let (state, actions) =
        state.handle(WriterEvent::Chunk { entry: 5, elapsed: Duration::from_millis(0) });
    assert!(actions.is_empty());
    let (state, actions) = state
        .handle(WriterEvent::Settings { settings: settings(), elapsed: Duration::from_millis(0) });
    assert_eq!(
        actions,
        vec![
            WriterAction::CreateDirectory,
            WriterAction::Open { segment: 3 },
            WriterAction::ApplyRetention,
        ]
    );
    let (state, actions) = state.handle(WriterEvent::Closed);
    assert_eq!(actions, vec![WriterAction::Finish, WriterAction::ApplyRetention]);
    assert_eq!(state.open, None);
}

#[test]
fn segments_are_named_by_time_and_number() {
    let names = SegmentNames::at(1_700_000_000_000_000_001, 12, 99).unwrap();
    assert_eq!(names.open, "20231114T221320.000000001Z-000012.susm-journal.open");
    assert_eq!(names.finalized, "20231114T221320.000000001Z-000012.susm-journal");
    assert_eq!(names.temporary, "20231114T221320.000000001Z-000012.susm-journal.zst.99.tmp");
    assert_eq!(names.compressed, "20231114T221320.000000001Z-000012.susm-journal.zst");
    assert!(SegmentNames::at(i128::MAX, 0, 0).is_none());
    assert_eq!(
        SegmentNames::from_stamp("20231114T221320", 1, 2).open,
        "20231114T221320     -000001.susm-journal.open"
    );
    assert!(is_journal_file(&names.compressed));
    assert!(!is_journal_file("notes.txt"));
}

#[test]
fn retention_removes_the_oldest_files() {
    let file = |modified: i128, bytes: u64| FinalizedFile { modified, bytes };
    let millis: i128 = 1_000_000;
    let files = vec![
        file(30 * millis, 100),
        file(5 * millis, 100),
        file(28 * millis, 100),
        file(40 * millis, 40),
    ];
    let gone = files_to_remove(&files, 35 * millis, settings());
    assert_eq!(gone, vec![1, 2]);
    let mut unlimited = settings();
    unlimited.retention_age_unlimited = true;
    unlimited.retention_size_unlimited = true;
    assert!(files_to_remove(&files, 35 * millis, unlimited).is_empty());
    let mut small = settings();
    small.retention_age_unlimited = true;
    small.retention_size = 0;
    assert_eq!(files_to_remove(&files, 35 * millis, small), vec![1, 2, 0, 3]);
}

#[test]
fn frames_are_read_back() {
    let mut bytes = frame_payload(b"123456789").unwrap();
    assert_eq!(bytes[0..4].to_vec(), vec![9, 0, 0, 0]);
    assert_eq!(bytes[13..17].to_vec(), vec![0x83, 0x92, 0x06, 0xe3]);
    bytes.extend(frame_payload(b"").unwrap());
    let scan = scan_frames(&bytes);
    assert!(scan.refusal.is_none());
    assert_eq!(scan.payloads, vec![b"123456789".to_vec(), Vec::new()]);

    let torn = scan_frames(&bytes[..bytes.len() - 1]);
    assert!(torn.refusal.is_none());
    assert_eq!(torn.payloads.len(), 1);

    let mut damaged = frame_payload(b"abc").unwrap();
    damaged[5] ^= 1;
    let refused = scan_frames(&damaged);
    assert!(matches!(refused.refusal, Some(JournalError::ChecksumMismatch)));

    let oversized = scan_frames(&[0xff, 0xff, 0xff, 0xff]);
    assert!(matches!(oversized.refusal, Some(JournalError::TooLarge)));
    let payload = vec![0u8; MAX_RUNTIME_FRAME_BYTES + 1];
    assert_eq!(
        frame_payload(&payload).unwrap_err().message(),
        "runtime journal frame exceeds 4 MiB"
    );
}

#[test]
fn journals_recover_what_they_recorded() {
    let decoded = vec![
        Ok(RuntimeFrame {
            format: 1,
            record: Some(RuntimeRecord::Checkpoint(checkpoint("starting", 2))),
        }),
        Ok(RuntimeFrame {
            format: 1,
            record: Some(RuntimeRecord::Observation(observation(3, "running", false))),
        }),
    ];
    let mut journal = RuntimeJournal::open(decoded, None).unwrap();
    journal.append_observation(observation(4, "exited", true));
    journal.acknowledge(1);
    journal.append_checkpoint(checkpoint("stopped", 0));
    let recovery = journal.recovery();
    assert_eq!(recovery.last_sequence, 4);
    assert_eq!(recovery.committed_sequence, 2);
    assert_eq!(recovery.checkpoint.unwrap().phase, "stopped");
    let unsent = journal.observations_after(3);
    assert_eq!(unsent.len(), 1);
    assert_eq!(unsent[0].kind, "exited");

    assert_eq!(journal.encode(b"x").unwrap(), frame_payload(b"x").unwrap());
    assert!(journal.finalize());
    assert!(!journal.finalize());
    assert_eq!(journal.encode(b"x").unwrap_err().message(), "runtime journal is finalized");
    assert_eq!(RuntimeJournal::new().recovery().last_sequence, 0);
}

#[test]
fn journals_refuse_foreign_frames() {
    let newer: Vec<Result<RuntimeFrame, String>> =
        vec![Ok(RuntimeFrame { format: 2, record: None })];
    assert_eq!(
        RuntimeJournal::open(newer, None).unwrap_err().message(),
        "unsupported runtime journal frame"
    );
    let broken: Vec<Result<RuntimeFrame, String>> = vec![Err("tag".to_string())];
    assert!(matches!(
        RuntimeJournal::open(broken, None),
        Err(JournalError::Decode(reason)) if reason == "tag"
    ));
    assert_eq!(
        RuntimeJournal::open(Vec::new(), Some(JournalError::ChecksumMismatch))
            .unwrap_err()
            .message(),
        "runtime journal checksum mismatch"
    );
}

#[test]
fn links_send_what_is_not_committed_yet() {
    let mut journal = RuntimeJournal::new();
    journal.append_observation(observation(1, "starting", false));
    journal.append_observation(observation(2, "running", false));
    let (link, unsent, acknowledged) = LinkState::attach(&mut journal, 1);
    assert!(acknowledged);
    assert_eq!(journal.recovery().committed_sequence, 1);
    assert_eq!(unsent.len(), 1);
    assert_eq!(link.sent_sequence, 2);
    let (link, sent) = link.observed(&observation(2, "running", false));
    assert!(!sent);
    let (link, sent) = link.observed(&observation(3, "exited", true));
    assert!(sent);
    assert_eq!(link.terminal_sequence, Some(3));
    let link = link.acknowledged(2);
    assert!(!link.done);
    assert!(link.acknowledged(3).done);

    let mut finished = RuntimeJournal::new();
    finished.append_observation(observation(1, "exited", true));
    let (link, unsent, acknowledged) = LinkState::attach(&mut finished, 1);
    assert!(acknowledged && unsent.is_empty());
    let link = link.observations_closed(&finished);
    assert!(!link.observations_open);
    assert_eq!(link.terminal_sequence, Some(1));
}

#[test]
fn attached_supervisors_bring_controllers_up_to_date() {
    let mut journal = RuntimeJournal::new();
    for sequence in 1..=4 {
        journal.append_observation(observation(sequence, "running", false));
    }
    let mut row = StoredExecution {
        id: "run-1".to_string(),
        workload_id: "agent".to_string(),
        state: "running".to_string(),
        supervisor_process_id: 1,
        workload_process_id: 2,
        attempt: 1,
        started_unix_ms: 3,
        ended_unix_ms: 0,
        exit_code: None,
        error: String::new(),
        snapshot: Vec::new(),
        committed_sequence: 2,
    };
    let (_, unsent, _) = LinkState::attach(&mut journal, 1);
    let mut changes = Vec::new();
    for observation in &unsent {
        changes.push(
            row.commit_observation(observation.sequence, ObservationUpdate::Acknowledge).unwrap(),
        );
    }
    assert_eq!(changes, vec![false, true, true]);
    assert_eq!(row.committed_sequence, journal.recovery().last_sequence);
}

#[test]
fn links_introduce_their_supervisor() {
    let mut journal = RuntimeJournal::new();
    journal.append_observation(observation(6, "running", false));
    let identity = SupervisorIdentity { id: "s".to_string(), incarnation: 2 };
    let hello = Hello::new(&configuration(), &identity, &journal);
    assert_eq!(hello.manager_session_id, "session");
    assert_eq!(hello.workload_id, "agent");
    assert_eq!(hello.execution_id, "run-1");
    assert_eq!(hello.supervisor_id, "s");
    assert_eq!(hello.incarnation, 2);
    assert_eq!(hello.execution_config_hash, vec![5]);
    assert_eq!(hello.last_sequence, 6);
    assert_eq!(read_command("stop"), CommandMeaning::Stop);
    assert_eq!(read_command("session-ending"), CommandMeaning::Stop);
    assert_eq!(read_command("update-policy"), CommandMeaning::UpdatePolicy);
    assert_eq!(read_command("Stop"), CommandMeaning::Unknown);
}

#[test]
fn compressed_segments_are_read_back() {
    let bytes = vec![b'a'; 5000];
    let compressed = compress_segment(&bytes).unwrap();
    assert!(compressed.len() < 500);
    assert_eq!(read_segment("t-000001.susm-journal.ZST", compressed.clone()), Ok(bytes));
    assert_eq!(read_segment("t-000001.susm-journal", compressed.clone()), Ok(compressed));
    assert!(read_segment("x.zst", vec![1, 2, 3]).is_err());
    let mut mixed: Vec<u8> = Vec::new();
    let mut state: u64 = 1;
    while mixed.len() < 400_000 {
        state = state.wrapping_mul(6_364_136_223_846_793_005).wrapping_add(1);
        mixed.push((state >> 56) as u8);
    }
    for plain in [Vec::new(), vec![0], vec![7; 131_073], mixed] {
        let packed = compress_segment(&plain).unwrap();
        assert_ne!(packed, plain);
        assert_eq!(read_segment("t.zst", packed), Ok(plain));
    }
}

#[test]
fn log_records_are_handed_out_once() {
    let request = |stream: &str| ReadLogsRequest {
        workload_id: "agent".to_string(),
        execution_id: "run-1".to_string(),
        attempt: 2,
        stream: stream.to_string(),
        follow: false,
    };
    let chosen = logs_execution(&request("all"), Some("run-2"), Some("run-3"));
    assert_eq!(chosen, Some("run-1".to_string()));
    assert!(wants_execution(&chosen, "run-1") && !wants_execution(&chosen, "run-2"));
    assert!(!request("all").wants_attempt(1));
    let mut any = request("all");
    any.execution_id = String::new();
    any.attempt = 0;
    assert!(any.wants_attempt(9));
    let active = logs_execution(&any, Some("run-2"), Some("run-3"));
    assert_eq!(active, Some("run-2".to_string()));
    assert!(wants_execution(&active, "run-2") && !wants_execution(&active, "run-1"));
    assert_eq!(logs_execution(&any, None, Some("run-3")), Some("run-3".to_string()));
    assert_eq!(logs_execution(&any, None, None), None);
    assert!(!wants_execution(&None, "run-1"));
    assert_eq!(attempt_number("attempt-12"), 12);
    assert_eq!(attempt_number("attempt-x"), 0);
    assert_eq!(attempt_number("12"), 0);

    let record = |stream: &str, sequence: u64| ReadLogsResponse {
        execution_id: "run-1".to_string(),
        attempt: 2,
        stream: stream.to_string(),
        sequence,
        timestamp_unix_ms: 0,
        message: Vec::new(),
        gap: String::new(),
    };
    let mut reader = LogReader::new();
    assert!(!reader.hand_out(&request("stderr"), &chosen, &record("stdout", 1)));
    assert!(!reader.hand_out(&request("all"), &active, &record("stdout", 1)));
    assert!(!reader.hand_out(&request("all"), &None, &record("stdout", 1)));
    assert!(reader.hand_out(&request("all"), &chosen, &record("stdout", 1)));
    assert!(!reader.hand_out(&request("all"), &chosen, &record("stdout", 1)));
    assert!(reader.hand_out(&request("all"), &chosen, &record("stderr", 1)));
    assert!(reader.hand_out(&request("all"), &chosen, &record("stdout", 2)));
    let mut later = record("stdout", 3);
    later.attempt = 3;
    assert!(!reader.hand_out(&request("all"), &chosen, &later));
    any.attempt = 0;
    assert!(reader.hand_out(&any, &chosen, &later));

    let found = || {
        let mut other = record("stdout", 1);
        other.execution_id = "run-2".to_string();
        let mut earlier = record("stdout", 1);
        earlier.attempt = 1;
        vec![
            record("stdout", 1),
            other,
            record("stderr", 1),
            record("stdout", 2),
            earlier,
            record("stdout", 1),
            record("stdout", 4),
        ]
    };
    let mut reader = LogReader::new();
    assert!(reader.hand_out(&request("stdout"), &chosen, &record("stdout", 2)));
    assert_eq!(
        reader.hand_out_all(&request("stdout"), &chosen, found()),
        vec![record("stdout", 1), record("stdout", 4)]
    );
    assert_eq!(reader.hand_out_all(&request("stdout"), &chosen, found()), Vec::new());
}
