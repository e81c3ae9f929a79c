use susm::diagnostics::{
    apply_retention, complete_record, dropped_object, dropped_record, is_finished,
    lines_on_arrival, lines_on_shutdown, next_sequence, normalize_record,
    segment_names, segment_names_at, Closing, Component, DiagnosticsError, QueueState, Segment,
    Submission, QUEUE_BYTES, RETENTION_BYTES, SEGMENT_BYTES,
};
use susm::log_segments::FinalizedFile;
use susm::pipe::{
    control_pipe_name, host_pipe_name, supervisor_pipe_name, CallerIdentity, InvalidSid,
    OpenRetry, PipeAccess, PipeConnectError, UserSid,
};
use susm::session::{
    ending_event_descriptor, ending_event_name, is_signaled, EventWait, SessionEventError,
};
use susm::startup::{
    check_session, config_directory, controller_diagnostics, exit_code, manager_paths,
    required_environment, supervisor_diagnostics, waits_longer,
};
use susm::time::Duration;

fn sid(text: &str) -> UserSid {
    UserSid::parse_windows(text.to_string()).unwrap()
}

#[test]
fn sids_are_recognised() {
    assert_eq!(sid("S-1-5-21").as_str(), "S-1-5-21");
    for text in ["s-1", "S1", "S-1\\x", "S-1/x", "S-1\0"] {
        assert_eq!(UserSid::parse_windows(text.to_string()), Err(InvalidSid));
    }
    assert_eq!(InvalidSid.message(), "invalid Windows SID");
    assert!(sid("S-1").same_user(&sid("S-1")) && !sid("S-1").same_user(&sid("S-2")));
}

#[test]
fn pipes_are_named_by_user_and_session() {
    assert_eq!(
        control_pipe_name(&sid("S-1"), "abc"),
        "\\\\.\\pipe\\susm\\users\\S-1\\sessions\\abc\\control\\v1"
    );
    assert_eq!(
        supervisor_pipe_name(&sid("S-1"), ""),
        "\\\\.\\pipe\\susm\\users\\S-1\\sessions\\standalone\\supervisors\\v1"
    );
    assert_ne!(control_pipe_name(&sid("S-1"), "a"), control_pipe_name(&sid("S-1"), "b"));
    assert_ne!(control_pipe_name(&sid("S-1"), "a"), control_pipe_name(&sid("S-2"), "a"));
    assert_eq!(host_pipe_name(), "\\\\.\\pipe\\susm\\host\\v1");
}

#[test]
fn pipes_serve_their_user() {
    let user = PipeAccess::User(sid("S-1"));
    assert_eq!(user.security_descriptor(), "D:P(A;;GA;;;SY)(A;;GA;;;S-1)");
    assert_eq!(
        PipeAccess::AuthenticatedUsers.security_descriptor(),
        "D:P(A;;GA;;;SY)(A;;GRGW;;;AU)"
    );
    let caller = |text: &str| CallerIdentity { sid: sid(text), process_id: 1 };
    assert!(user.serves(&caller("S-1")));
    assert!(!user.serves(&caller("S-2")));
    assert!(PipeAccess::AuthenticatedUsers.serves(&caller("S-2")));
}

#[test]
fn busy_pipes_are_tried_again_ever_later() {
    let mut retry = OpenRetry::new();
    assert_eq!(retry.failed(Some(2)), Some(20));
    assert_eq!(retry.failed(Some(231)), Some(40));
    for _ in 0..10 {
        retry.failed(Some(231));
    }
    assert_eq!(retry.failed(Some(2)), Some(1000));
    assert_eq!(retry.failed(Some(5)), None);
    assert_eq!(retry.failed(None), None);
    assert_eq!(
        PipeConnectError::TimedOut.message(),
        "timed out waiting for the SUSM named pipe"
    );
    assert_eq!(
        PipeConnectError::Transport("x".to_string()).message(),
        "named-pipe transport failed: x"
    );
}

#[test]
fn sessions_have_their_own_events() {
    assert_eq!(
        ending_event_name("0a-F").unwrap(),
        "Global\\SUSM-manager-session-0a-F-ending"
    );
    for text in ["", "a b", "x\\y"] {
        assert!(matches!(
            ending_event_name(text),
            Err(SessionEventError::InvalidManagerSessionId)
        ));
    }
    assert_eq!(
        ending_event_name(&"a".repeat(65)).unwrap_err().message(),
        "invalid manager-session id"
    );
    assert_eq!(
        ending_event_descriptor(&sid("S-1")),
        "D:P(A;;GA;;;SY)(A;;0x00100000;;;S-1)"
    );
    assert!(matches!(is_signaled(EventWait::Object), Ok(true)));
    assert!(matches!(is_signaled(EventWait::Timeout), Ok(false)));
    assert_eq!(
        is_signaled(EventWait::Other(7)).unwrap_err().message(),
        "manager-session ending event failed: unexpected event wait result 7"
    );
    assert_eq!(
        is_signaled(EventWait::Failed("x".to_string())).unwrap_err().message(),
        "manager-session ending event failed: x"
    );
}

#[test]
fn controllers_find_their_directories() {
    assert_eq!(required_environment("X", Some("v")), Ok("v".to_string()));
    assert_eq!(
        required_environment("X", Some("")),
        Err("required environment variable X is missing".to_string())
    );
    assert!(required_environment("X", None).is_err());
    assert_eq!(config_directory("C:\\u"), "C:\\u\\.config\\susm\\workloads.d");
    let defaults = manager_paths(None, None, None, None, "C:\\u", "C:\\l", "C:\\b");
    assert_eq!(defaults.config_directory, "C:\\u\\.config\\susm\\workloads.d");
    assert_eq!(defaults.data_directory, "C:\\l\\susm");
    assert_eq!(defaults.supervisor_executable, "C:\\b\\susm-supervisor.exe");
    let given = manager_paths(
        Some("c".to_string()),
        Some("d".to_string()),
        Some("s".to_string()),
        Some("m".to_string()),
        "",
        "",
        "",
    );
    assert_eq!(given.config_directory, "c");
    assert_eq!(given.data_directory, "d");
    assert_eq!(given.supervisor_executable, "s");
    assert_eq!(given.manager_session_id, Some("m".to_string()));
    assert_eq!(controller_diagnostics("C:\\l"), "C:\\l\\susm\\diagnostics\\controller");
    assert_eq!(
        supervisor_diagnostics("C:\\l", "agent", "run-1"),
        "C:\\l\\susm\\diagnostics\\supervisors\\agent\\run-1"
    );
    assert!(check_session(None).is_ok());
    assert!(check_session(Some("018f3e5c-0000-7000-8000-000000000000")).is_ok());
    assert!(check_session(Some("x")).is_err());
    assert!(waits_longer(29_999, false) && !waits_longer(30_000, false) && !waits_longer(0, true));
    assert_eq!(exit_code(Some(3)), 3);
    assert_eq!(exit_code(None), 1);
}

#[test]
fn diagnostic_queues_are_bounded() {
    let mut queue = QueueState::new();
    assert_eq!(queue.submit(0), Submission::Ignored);
    assert_eq!(queue.submit(QUEUE_BYTES + 1), Submission::Dropped);
    assert_eq!(queue.submit(QUEUE_BYTES), Submission::Sent);
    assert_eq!(queue.submit(1), Submission::Dropped);
    queue.received(QUEUE_BYTES);
    assert!(queue.reserve(5));
    queue.not_sent(5);
    assert_eq!(queue.queued_bytes, 0);
    assert_eq!(queue.take_dropped(), 3);
    assert_eq!(queue.take_dropped(), 0);
    queue.shutdown = true;
    assert_eq!(queue.submit(1), Submission::Ignored);
}

#[test]
fn diagnostic_records_say_where_they_come_from() {
    let line = normalize_record(
        Component::Controller,
        9,
        b"{\"level\":\"INFO\",\"fields\":{\"name\":\"started\"}}",
    )
    .unwrap();
    assert_eq!(
        String::from_utf8(line).unwrap(),
        "{\"component\":\"controller\",\"fields\":{\"name\":\"started\"},\"level\":\"INFO\",\
         \"name\":\"started\",\"pid\":9}\n"
    );
    let unnamed = normalize_record(Component::Host, 1, b"{}").unwrap();
    assert_eq!(
        String::from_utf8(unnamed).unwrap(),
        "{\"component\":\"host\",\"name\":\"event\",\"pid\":1}\n"
    );
    assert!(normalize_record(Component::Host, 1, b"[]").is_none());
    assert!(normalize_record(Component::Host, 1, b"x").is_none());
    let dropped = dropped_record(Component::Supervisor, 2, "now", 7);
    assert_eq!(
        String::from_utf8(dropped.clone()).unwrap(),
        "{\"component\":\"supervisor\",\"fields\":{\"count\":7},\"level\":\"WARN\",\
         \"name\":\"diagnostics_dropped\",\"pid\":2,\"target\":\"susm_diagnostics\",\
         \"timestamp\":\"now\"}\n"
    );
    assert_eq!(
        lines_on_arrival(Component::Supervisor, 2, "now", 7, b"{}").first(),
        Some(&dropped)
    );
    assert_eq!(lines_on_arrival(Component::Supervisor, 2, "now", 0, b"{}").len(), 1);
    let last = lines_on_shutdown(
        Component::Supervisor,
        2,
        "now",
        7,
        &vec![b"{}".to_vec(), b"x".to_vec()],
    );
    assert_eq!(last.len(), 2);
    assert_eq!(last.last(), Some(&dropped));
}

#[test]
fn completed_records_keep_what_they_said() {
    let mut fields = serde_json::Map::new();
    fields.insert("name".to_string(), serde_json::Value::from("renamed"));
    let mut record = serde_json::Map::new();
    record.insert("name".to_string(), serde_json::Value::from("other"));
    record.insert("pid".to_string(), serde_json::Value::from("none"));
    record.insert("level".to_string(), serde_json::Value::from("INFO"));
    record.insert("fields".to_string(), serde_json::Value::Object(fields));
    complete_record(Component::Host, 5, &mut record);
    assert_eq!(record.get("level"), Some(&serde_json::Value::from("INFO")));
    assert_eq!(record.get("name"), Some(&serde_json::Value::from("renamed")));
    assert_eq!(record.get("pid"), Some(&serde_json::Value::from(5)));
    assert_eq!(record.get("component"), Some(&serde_json::Value::from("host")));
    assert_eq!(record.len(), 5);
    let once = record.clone();
    complete_record(Component::Host, 5, &mut record);
    assert_eq!(record, once);
    record.insert("fields".to_string(), serde_json::Value::from("text"));
    complete_record(Component::Host, 5, &mut record);
    assert_eq!(record.get("name"), Some(&serde_json::Value::from("event")));
    let dropped = dropped_object(Component::Controller, 3, "t", u64::MAX);
    assert_eq!(dropped.len(), 7);
    assert_eq!(dropped["fields"]["count"], serde_json::Value::from(u64::MAX));
}

#[test]
fn diagnostic_segments_rotate_and_are_named() {
    let mut segment = Segment::open();
    assert_eq!(segment.finish(), Closing::Remove);
    assert!(!segment.should_rotate(SEGMENT_BYTES + 1, Duration::from_secs(90_000)));
    assert_eq!(segment.write_record(10, Duration::from_secs(0)), None);
    assert!(segment.should_rotate(0, Duration::from_secs(86_400)));
    assert_eq!(
        segment.write_record(SEGMENT_BYTES, Duration::from_secs(0)),
        Some(Closing::Finish)
    );
    assert_eq!(segment.bytes, SEGMENT_BYTES);
    let (open, finished) = segment_names("20260101T000000.000000000Z", 77, 3);
    assert_eq!(open, "20260101T000000.000000000Z-0000000077-003.jsonl.open");
    assert_eq!(finished, "20260101T000000.000000000Z-0000000077-003.jsonl");
    let (at, _) = segment_names_at(0, 1, 0).unwrap();
    assert_eq!(at, "19700101T000000.000000000Z-0000000001-000.jsonl.open");
    assert_eq!(next_sequence(0).unwrap(), 1);
    assert!(next_sequence(999).is_err());
    assert!(is_finished("C:\\d\\x.jsonl") && !is_finished("C:\\d\\x.jsonl.open"));
    assert_eq!(Component::Supervisor.name(), "supervisor");
    assert_eq!(Component::Host.writer_name(), "susm-host-diagnostics");
    assert!(Component::Host.is_private() && !Component::Controller.is_private());
    assert_eq!(
        DiagnosticsError::SubscriberAlreadyConfigured.message(),
        "the process diagnostic subscriber is already configured"
    );
}

#[test]
fn diagnostic_files_are_kept_for_a_week() {
    let day: i128 = 86_400_000_000_000;
    let file = |modified: i128, bytes: u64| FinalizedFile { modified, bytes };
    let files = vec![file(10 * day, 1), file(2 * day, 1), file(3 * day, 1)];
    assert_eq!(apply_retention(&files, 10 * day), vec![1]);
    let heavy = vec![file(5, RETENTION_BYTES), file(4, 1), file(6, 1)];
    assert_eq!(apply_retention(&heavy, 10), vec![1, 0]);
}
