use susm::cli::command::{
    controller_pipe, host_answer, judge_controller, plan, run_rpc, Command, LogStream, Plan,
    Request, Response, Shown,
};
use susm::cli::json::{
    executions_json, log_json, mutation_json, reload_json, status_json, versions_json,
    workload_json, workloads_json, Document, JsonValue, Member,
};
use susm::cli::local::{show_result, LocalResult};
use susm::cli::logs::{LabelStyle, LogOptions, Piece, ShownRecord};
use susm::cli::output::{
    format_timestamp, instant_text, optional_number, shorten, status_tone, workload_notes, Block,
    Cell, ColorMode, HumanOutput, Tone,
};
use susm::control::{Diagnostic, ReloadResponse};
use susm::host::state::HostStatus;
use susm::log_journal::ReadLogsResponse;
use susm::manager::model::{Execution, Workload};
use susm::pipe::UserSid;
use susm::versions::InstalledVersion;

fn workload() -> Workload {
    Workload {
        workload_id: "agent".to_string(),
        kind: "service".to_string(),
        enabled: true,
        state: "running".to_string(),
        execution_id: "run-1".to_string(),
        supervisor_process_id: 4,
        workload_process_id: 0,
        attempt: 2,
        error: String::new(),
        last_outcome: "failed".to_string(),
        definition_missing: true,
        restart_required: false,
        policy_sync_pending: true,
    }
}

fn execution() -> Execution {
    Execution {
        execution_id: "run-1".to_string(),
        workload_id: "agent".to_string(),
        state: "failed".to_string(),
        supervisor_process_id: 0,
        workload_process_id: 0,
        attempt: 1,
        started_unix_ms: 1_700_000_000_001,
        ended_unix_ms: 0,
        exit_code: Some(3),
        error: "gone".to_string(),
    }
}

fn version() -> InstalledVersion {
    InstalledVersion {
        version: "1.2.3".to_string(),
        identity: "0123456789abcdef".to_string(),
        path: "C:\\v".to_string(),
        current: true,
        pin_count: 2,
    }
}

fn status(running: bool) -> HostStatus {
    HostStatus {
        registered: true,
        controller_running: running,
        manager_session_id: "018f3e5c-0000-7000-8000-000000000000".to_string(),
        controller_process_id: 9,
        message: String::new(),
    }
}

fn record(stream: &str, message: &[u8]) -> ReadLogsResponse {
    ReadLogsResponse {
        execution_id: "run-1".to_string(),
        attempt: 2,
        stream: stream.to_string(),
        sequence: 5,
        timestamp_unix_ms: 1_700_000_000_001,
        message: message.to_vec(),
        gap: String::new(),
    }
}

fn shown(cell: &Cell) -> (String, Tone) {
    (cell.text.clone(), cell.tone)
}

fn details(block: Block) -> Vec<(String, String)> {
    match block {
        Block::Details(rows) => {
            rows.into_iter().map(|row| (row.key, row.value.text)).collect()
        }
        other => panic!("{other:?}"),
    }
}

fn pair(key: &str, value: &str) -> (String, String) {
    (key.to_string(), value.to_string())
}

fn text(pieces: &Vec<Piece>) -> String {
    pieces
        .iter()
        .map(|piece| match piece {
            Piece::Bytes(bytes) => String::from_utf8_lossy(bytes).into_owned(),
            Piece::Label { text, .. } => text.clone(),
            Piece::Text(text) => text.clone(),
        })
        .collect()
}

fn members(list: &Vec<Member>) -> Vec<String> {
    list.iter().map(|member| member.name.clone()).collect()
}

#[test]
fn values_are_shown_in_short() {
    assert_eq!(optional_number(0), "-");
    assert_eq!(optional_number(7), "7");
    assert_eq!(shorten("0123456789abcdef", 12), "0123456789ab");
    assert_eq!(shorten("ab", 12), "ab");
    assert_eq!(shorten("aé", 2), "aé");
    assert_eq!(format_timestamp(0), "-");
    assert_eq!(format_timestamp(1_700_000_000_001), "2023-11-14T22:13:20.001Z");
    assert_eq!(format_timestamp(i64::MAX), "9223372036854775807");
    assert_eq!(instant_text(5, Some("x".to_string())), "x");
    assert_eq!(instant_text(0, Some("x".to_string())), "-");
    assert_eq!(instant_text(5, None), "5");
    assert_eq!(workload_notes(&workload()), "definition missing, policy sync pending");
    assert!(ColorMode::Always.uses_colors(false));
    assert!(!ColorMode::Never.uses_colors(true));
    assert!(ColorMode::Auto.uses_colors(true) && !ColorMode::Auto.uses_colors(false));
}

#[test]
fn states_have_their_tone() {
    assert_eq!(status_tone("completed"), Tone::Green);
    assert_eq!(status_tone("restart-backoff"), Tone::Yellow);
    assert_eq!(status_tone("not registered"), Tone::Red);
    assert_eq!(status_tone("inactive"), Tone::Grey);
}

#[test]
fn workloads_are_shown_in_detail_and_in_rows() {
    let output = HumanOutput::new();
    assert_eq!(
        details(output.workload(&workload())),
        vec![
            pair("Name", "agent"),
            pair("Kind", "service"),
            pair("State", "running"),
            pair("Enabled", "yes"),
            pair("Execution", "run-1"),
            pair("Supervisor PID", "4"),
            pair("Attempt", "2"),
            pair("Last outcome", "failed"),
            pair("Notes", "definition missing, policy sync pending"),
        ]
    );
    match output.workloads(&vec![workload()]) {
        Block::Table { headers, rows } => {
            assert_eq!(headers.len(), 7);
            assert_eq!(headers[0], "NAME");
            assert_eq!(shown(&rows[0][1]), ("service".to_string(), Tone::Cyan));
            assert_eq!(shown(&rows[0][2]), ("running".to_string(), Tone::Green));
            assert_eq!(shown(&rows[0][4]), ("-".to_string(), Tone::Plain));
        }
        other => panic!("{other:?}"),
    }
    assert!(matches!(output.workloads(&Vec::new()), Block::Empty(text) if text == "No workloads"));
    let blocks = output.mutation(false, &workload());
    assert!(matches!(&blocks[0], Block::Notice(text) if text == "agent unchanged"));
    let blocks = output.mutation(true, &workload());
    assert!(matches!(&blocks[0], Block::Success(text) if text == "Updated agent"));
}

#[test]
fn executions_are_shown_in_detail_and_in_rows() {
    let output = HumanOutput::new();
    assert_eq!(
        details(output.execution(&execution())),
        vec![
            pair("Execution", "run-1"),
            pair("Workload", "agent"),
            pair("State", "failed"),
            pair("Started", "2023-11-14T22:13:20.001Z"),
            pair("Attempt", "1"),
            pair("Exit code", "3"),
            pair("Error", "gone"),
        ]
    );
    match output.executions(&vec![execution()]) {
        Block::Table { headers, rows } => {
            assert_eq!(headers[5], "EXIT");
            assert_eq!(shown(&rows[0][5]), ("3".to_string(), Tone::Plain));
            assert_eq!(shown(&rows[0][6]), ("gone".to_string(), Tone::Red));
        }
        other => panic!("{other:?}"),
    }
    assert!(matches!(output.executions(&Vec::new()), Block::Empty(_)));
}

#[test]
fn controllers_and_versions_are_shown() {
    let output = HumanOutput::new();
    let mut idle = status(false);
    idle.message = "conflict".to_string();
    assert_eq!(
        details(output.controller_status(&idle)),
        vec![
            pair("State", "recovering"),
            pair("Registered", "yes"),
            pair("Manager session", "018f3e5c-0000-7000-8000-000000000000"),
            pair("Process ID", "9"),
            pair("Message", "conflict"),
        ]
    );
    match output.versions(&vec![version()]) {
        Block::Table { headers, rows } => {
            assert_eq!(headers[1], "IDENTITY");
            assert_eq!(shown(&rows[0][1]), ("0123456789ab".to_string(), Tone::Plain));
            assert_eq!(shown(&rows[0][2]), ("current".to_string(), Tone::Green));
        }
        other => panic!("{other:?}"),
    }
    let blocks = output.installed(&version(), 9);
    assert!(matches!(&blocks[0], Block::Success(text) if text == "Installed SUSM 1.2.3"));
    let blocks = output.selected(&version());
    assert!(matches!(&blocks[0], Block::Success(text) if text == "Selected SUSM 1.2.3"));
    assert!(matches!(
        output.garbage_collected(3),
        Block::Success(text) if text == "Removed 3 unused version or staging entries"
    ));
    assert!(matches!(
        output.uninstalled(),
        Block::Success(text) if text == "Removed the per-user SUSM installation"
    ));
    let blocks = output.controller_restart("m");
    assert!(matches!(&blocks[0], Block::Success(text) if text == "Controller restart requested"));
    let blocks = output.reload(false, "abc");
    assert!(matches!(&blocks[0], Block::Notice(text) if text == "Configuration unchanged"));
    let diagnostics = vec![Diagnostic { path: "p".to_string(), message: "bad".to_string() }];
    match output.reload_diagnostics(&diagnostics) {
        Block::Table { rows, .. } => {
            assert_eq!(shown(&rows[0][1]), ("bad".to_string(), Tone::Red));
        }
        other => panic!("{other:?}"),
    }
}

#[test]
fn log_bytes_are_never_changed() {
    let mut output = HumanOutput::new();
    let plain = LogOptions { timestamps: false, prefix: false };
    let printed = output.log_record(&record("stderr", b"a\xffb"), plain);
    assert!(printed.to_stderr);
    assert!(matches!(&printed.pieces[..], [Piece::Bytes(bytes)] if bytes == b"a\xffb"));
    assert!(!output.stderr_line_start && output.stdout_line_start);

    let labelled = LogOptions { timestamps: true, prefix: true };
    let printed = output.log_record(&record("stdout", b"one\ntwo"), labelled);
    assert!(!printed.to_stderr);
    assert_eq!(
        text(&printed.pieces),
        "2023-11-14T22:13:20.001Z stdout#2 | one\n2023-11-14T22:13:20.001Z stdout#2 | two"
    );
    assert!(matches!(
        &printed.pieces[0],
        Piece::Label { style: LabelStyle::Dimmed, .. }
    ));
    let printed = output.log_record(&record("stdout", b" more\n"), labelled);
    assert_eq!(text(&printed.pieces), " more\n");
    assert!(output.stdout_line_start);

    let mut gap = record("stdout", b"");
    gap.gap = "3 records".to_string();
    let printed = output.log_record(&gap, plain);
    assert!(printed.to_stderr);
    assert_eq!(text(&printed.pieces), "\nwarning: log gap: 3 records\n");
    assert!(output.stderr_line_start);
}

#[test]
fn json_takes_the_place_of_text() {
    let output = HumanOutput::new();
    let results = vec![
        (LocalResult::ConfigDirectory("C:\\c".to_string()), vec!["path"]),
        (
            LocalResult::Installed { version: version(), controller_process_id: 9 },
            vec!["version", "identity", "path", "current", "pin_count", "controller_process_id"],
        ),
        (LocalResult::Uninstalled, vec!["uninstalled"]),
        (
            LocalResult::Selected(version()),
            vec!["version", "identity", "path", "current", "pin_count"],
        ),
        (LocalResult::Collected(3), vec!["removed"]),
        (
            LocalResult::Controller(status(true)),
            vec!["registered", "running", "manager_session_id", "process_id", "message"],
        ),
        (
            LocalResult::Restarted(status(true)),
            vec!["registered", "running", "manager_session_id", "process_id", "message"],
        ),
    ];
    for (result, names) in &results {
        match show_result(result, true, &output) {
            Shown::Json(Document::Object(object)) => assert_eq!(&members(&object), names),
            other => panic!("{other:?}"),
        }
        assert!(matches!(show_result(result, false, &output), Shown::Blocks(_)));
    }
    let mut printer = HumanOutput::new();
    let options = LogOptions { timestamps: false, prefix: false };
    assert!(matches!(
        printer.show_record(&record("stdout", b"a"), options, true),
        ShownRecord::Json(Document::Object(object)) if object.len() == 7
    ));
    assert!(printer.stdout_line_start);
    assert!(matches!(
        printer.show_record(&record("stdout", b"a"), options, false),
        ShownRecord::Printed(printed) if !printed.to_stderr
    ));
    assert!(!printer.stdout_line_start);
    let versions = LocalResult::Versions(vec![version()]);
    assert!(matches!(
        show_result(&versions, true, &output),
        Shown::Json(Document::List(list)) if list.len() == 1
    ));
    match show_result(&LocalResult::Collected(3), true, &output) {
        Shown::Json(Document::Object(object)) => {
            assert!(matches!(object[0].value, JsonValue::Natural(3)));
        }
        other => panic!("{other:?}"),
    }
    match show_result(&LocalResult::ConfigDirectory("C:\\c".to_string()), false, &output) {
        Shown::Blocks(blocks) => {
            assert!(matches!(&blocks[..], [Block::Line(text)] if text == "C:\\c"));
        }
        other => panic!("{other:?}"),
    }
}

#[test]
fn documents_hold_every_member() {
    let workload_members = workload_json(&workload());
    assert_eq!(workload_members.len(), 13);
    assert_eq!(workload_members[0].name, "workload_id");
    assert!(matches!(&workload_members[0].value, JsonValue::Text(text) if text == "agent"));
    assert!(matches!(workload_members[2].value, JsonValue::Flag(true)));
    assert!(matches!(&workloads_json(&vec![workload()]), Document::List(list) if list.len() == 1));
    match executions_json(&vec![execution()]) {
        Document::List(list) => {
            assert_eq!(list[0].len(), 10);
            assert!(matches!(list[0][6].value, JsonValue::Integer(1_700_000_000_001)));
            assert!(matches!(list[0][8].value, JsonValue::Natural(3)));
        }
        other => panic!("{other:?}"),
    }
    match versions_json(&vec![version()]) {
        Document::List(list) => assert_eq!(
            members(&list[0]),
            vec!["version", "identity", "path", "current", "pin_count"]
        ),
        other => panic!("{other:?}"),
    }
    assert_eq!(
        members(&status_json(&status(true))),
        vec!["registered", "running", "manager_session_id", "process_id", "message"]
    );
    let log = log_json(&record("stdout", b"a\xff"));
    assert_eq!(log.len(), 7);
    assert!(log
        .iter()
        .any(|member| matches!(&member.value, JsonValue::Text(text) if text == "a\u{fffd}")));
    assert!(matches!(
        mutation_json(true, &workload()),
        Document::ObjectWith { name, .. } if name == "workload"
    ));
    assert!(matches!(
        reload_json(true, "abc", &Vec::new()),
        Document::ObjectWithList { name, .. } if name == "diagnostics"
    ));
}

#[test]
fn commands_are_planned() {
    assert!(matches!(plan(Command::ConfigPath), Ok(Plan::ShowConfigDirectory)));
    assert!(matches!(plan(Command::Reload), Ok(Plan::Ask(Request::Reload))));
    assert!(matches!(
        plan(Command::List),
        Ok(Plan::Ask(Request::ListWorkloads { page_size: 1000, cursor })) if cursor.is_empty()
    ));
    assert!(matches!(
        plan(Command::Executions { workload: "a".to_string() }),
        Ok(Plan::Ask(Request::ListExecutions { page_size: 100, .. }))
    ));
    match plan(Command::Logs {
        workload: "a".to_string(),
        execution: None,
        attempt: None,
        stream: LogStream::Stderr,
        follow: true,
    }) {
        Ok(Plan::Ask(Request::ReadLogs(request))) => {
            assert_eq!(request.execution_id, "");
            assert_eq!(request.attempt, 0);
            assert_eq!(request.stream, "stderr");
            assert!(request.follow);
        }
        other => panic!("{other:?}"),
    }
    assert_eq!(
        plan(Command::Install { user: false, source: None }).unwrap_err(),
        "only per-user installation is supported; pass --user"
    );
    assert_eq!(
        plan(Command::Uninstall { user: false }).unwrap_err(),
        "only per-user uninstallation is supported; pass --user"
    );
    assert_eq!(
        plan(Command::Upgrade { source: None, gc: false }).unwrap_err(),
        "provide one bundle path or the gc subcommand"
    );
    assert!(plan(Command::Upgrade { source: Some("x".to_string()), gc: true }).is_err());
    assert!(matches!(
        plan(Command::Upgrade { source: None, gc: true }),
        Ok(Plan::CollectGarbage)
    ));
    assert_eq!(LogStream::All.as_str(), "all");
}

#[test]
fn controllers_are_asked_only_while_they_run() {
    let sid = UserSid::parse_windows("S-1".to_string()).unwrap();
    assert_eq!(
        controller_pipe(&sid, &status(true)),
        Ok("\\\\.\\pipe\\susm\\users\\S-1\\sessions\\018f3e5c-0000-7000-8000-000000000000\\control\\v1"
            .to_string())
    );
    assert_eq!(
        controller_pipe(&sid, &status(false)),
        Err("no controller is running for the current manager session".to_string())
    );
    let mut odd = status(true);
    odd.manager_session_id = "x".to_string();
    assert!(controller_pipe(&sid, &odd).is_err());
    assert_eq!(
        judge_controller(&sid, &status(true), Err("odd".to_string())),
        Err("odd".to_string())
    );
    assert!(host_answer(Some(status(true))).is_ok());
    assert_eq!(host_answer(None).unwrap_err(), "host returned no status");
}

#[test]
fn answers_are_shown_as_asked() {
    let output = HumanOutput::new();
    let reload = |diagnostics: Vec<Diagnostic>| {
        Response::Reload(ReloadResponse {
            changed: true,
            generation: "abc".to_string(),
            diagnostics,
        })
    };
    let reply = run_rpc(reload(Vec::new()), false, &output);
    assert!(reply.error.is_none());
    assert!(matches!(reply.shown, Shown::Blocks(blocks) if blocks.len() == 2));
    let fault = Diagnostic { path: "p".to_string(), message: "bad".to_string() };
    let reply = run_rpc(reload(vec![fault]), false, &output);
    assert_eq!(reply.error.as_deref(), Some("configuration was not reloaded"));
    let reply = run_rpc(Response::Workloads(vec![workload()]), true, &output);
    assert!(matches!(reply.shown, Shown::Json(Document::List(_))));
    let reply = run_rpc(Response::Workload(None), false, &output);
    assert_eq!(reply.error.as_deref(), Some("controller returned no workload"));
    assert!(matches!(reply.shown, Shown::Nothing));
    let reply = run_rpc(Response::Execution(None), true, &output);
    assert_eq!(reply.error.as_deref(), Some("controller returned no execution"));
    let reply = run_rpc(Response::Execution(Some(execution())), true, &output);
    assert!(matches!(reply.shown, Shown::Json(Document::Object(_))));
    let reply = run_rpc(
        Response::Mutation { changed: true, workload: Some(workload()) },
        false,
        &output,
    );
    assert!(matches!(reply.shown, Shown::Blocks(_)));
    let reply = run_rpc(Response::Executions(Vec::new()), false, &output);
    assert!(matches!(reply.shown, Shown::Blocks(_)));
}
