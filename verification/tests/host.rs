use susm::bundle::{digest_text, Manifest, ManifestFile, Selection};
use susm::host::controller_loop::{ControllerLoop, LoopAction, LoopEvent, LoopPhase, RunnerCommand};
use susm::host::launcher::{
    check_bounded, check_controller, check_recorded, check_selected_manifest, check_selection,
    file_time, judge_selection, launch_texts, reject_reparse_point, selection_path,
    user_local_app_data, validate_manifest, wide_path, LaunchError, ProcessIdentity,
};
use susm::host::registry::{
    decode_dword, decode_qword, decode_string, encode_dword, encode_qword, encode_string,
    read_runtime, registration_key, runtime_key, save_runtime, RuntimeSession,
};
use susm::host::service::{
    check_copied_image, check_installed_image, diagnostics_directory, host_image, host_step,
    required_privileges, restart_delays, service_step, session_notification, stop_step,
    HostRuntimeCommand, HostStep, ImageFound, ServiceEvent, ServiceStep, SessionChange,
};
use susm::host::sessions::{active_sessions, ActiveSessions, ConnectState, SessionFacts};
use susm::host::state::{runtime_session, HostEffect, HostState};
use susm::manager::error::StatusCode;
use susm::ordered::TextMap;
use susm::time::Duration;

const PROCESS: ProcessIdentity = ProcessIdentity { process_id: 9, creation_time: 90 };

fn facts(session_id: u32, sid: &str, authentication_id: u64) -> SessionFacts {
    SessionFacts {
        session_id,
        state: ConnectState::Active,
        sid: Some(sid.to_string()),
        authentication_id: Some(authentication_id),
    }
}

fn inventory(list: Vec<SessionFacts>) -> ActiveSessions {
    active_sessions(&list)
}

fn effects(host: &mut HostState) -> Vec<String> {
    host.take_effects()
        .into_iter()
        .map(|effect| match effect {
            HostEffect::Persist { sid, session } => {
                format!("persist {sid} {}", session.manager_session_id)
            }
            HostEffect::RemoveRuntime { sid } => format!("remove {sid}"),
            HostEffect::SignalEvent { sid } => format!("signal {sid}"),
            HostEffect::SignalPrevious { sid, manager_session_id } => {
                format!("signal previous {sid} {manager_session_id}")
            }
            HostEffect::EndRunner { sid } => format!("end {sid}"),
            HostEffect::DetachRunner { sid } => format!("detach {sid}"),
            HostEffect::RestartRunner { sid } => format!("restart {sid}"),
            HostEffect::Start { sid, manager_session_id, adopted, .. } => {
                format!("start {sid} {manager_session_id} {}", adopted.is_some())
            }
        })
        .collect()
}

#[test]
fn controllers_are_launched_again() {
    let (state, actions) = ControllerLoop::start(None);
    assert_eq!(actions, vec![LoopAction::Launch]);
    let (state, actions) = state.handle(LoopEvent::LaunchFailed);
    assert_eq!(actions, vec![LoopAction::Wait(250)]);
    let (state, actions) = state.handle(LoopEvent::Elapsed);
    assert_eq!(actions, vec![LoopAction::Launch]);
    assert_eq!(state.delay_ms, 500);
    let (state, actions) = state.handle(LoopEvent::Launched(PROCESS));
    assert_eq!(actions, vec![LoopAction::Publish(Some(PROCESS))]);
    let (state, actions) = state.handle(LoopEvent::Exited(Duration::from_secs(1)));
    assert_eq!(actions, vec![LoopAction::Publish(None), LoopAction::Wait(500)]);
    let (state, _) = state.handle(LoopEvent::Elapsed);
    let (state, _) = state.handle(LoopEvent::Launched(PROCESS));
    let (_, actions) = state.handle(LoopEvent::Exited(Duration::from_secs(300)));
    assert_eq!(actions, vec![LoopAction::Publish(None), LoopAction::Wait(250)]);
}

#[test]
fn controller_waits_are_bounded() {
    let (mut state, _) = ControllerLoop::start(None);
    for _ in 0..20 {
        state = state.handle(LoopEvent::LaunchFailed).0;
        state = state.handle(LoopEvent::Elapsed).0;
    }
    assert_eq!(state.delay_ms, 30_000);
    let state = state.handle(LoopEvent::LaunchFailed).0;
    let (state, actions) = state.handle(LoopEvent::Command(RunnerCommand::Restart));
    assert_eq!(actions, vec![LoopAction::Launch]);
    assert_eq!(state.delay_ms, 250);
}

#[test]
fn controllers_are_restarted_ended_and_detached() {
    let (state, actions) = ControllerLoop::start(Some(PROCESS));
    assert_eq!(actions, vec![LoopAction::Publish(Some(PROCESS))]);
    let (restarted, actions) = state.handle(LoopEvent::Command(RunnerCommand::Restart));
    assert_eq!(
        actions,
        vec![LoopAction::Terminate, LoopAction::Publish(None), LoopAction::Launch]
    );
    assert_eq!(restarted.phase, LoopPhase::Launching);
    let (detached, actions) = state.handle(LoopEvent::Command(RunnerCommand::Detach));
    assert!(actions.is_empty());
    assert_eq!(detached.phase, LoopPhase::Over);
    let (ending, actions) = state.handle(LoopEvent::Command(RunnerCommand::EndSession));
    assert_eq!(actions, vec![LoopAction::AwaitExit(30_000)]);
    let (over, actions) = ending.handle(LoopEvent::Exited(Duration::from_secs(1)));
    assert_eq!(actions, vec![LoopAction::Publish(None)]);
    assert_eq!(over.phase, LoopPhase::Over);
    let (over, actions) = ending.handle(LoopEvent::Elapsed);
    assert_eq!(
        actions,
        vec![LoopAction::Terminate, LoopAction::Publish(None)]
    );
    let (still, actions) = over.handle(LoopEvent::LaunchFailed);
    assert!(actions.is_empty());
    assert_eq!(still.phase, LoopPhase::Over);
}

#[test]
fn registry_values_are_read_back() {
    assert_eq!(registration_key("S-1"), "SOFTWARE\\SUSM\\Registrations\\S-1");
    assert_eq!(runtime_key("S-1"), "SOFTWARE\\SUSM\\Runtime\\ManagerSessions\\S-1");
    assert_eq!(encode_string("ab"), vec![0x61, 0, 0x62, 0, 0, 0]);
    assert_eq!(decode_string(&encode_string("a€😀")), Some("a€😀".to_string()));
    assert_eq!(decode_string(&[0x61]), None);
    assert_eq!(decode_string(&[0, 0xd8]), None);
    assert_eq!(decode_dword(&encode_dword(7)), Some(7));
    assert_eq!(decode_dword(&[1]), None);
    assert_eq!(decode_qword(&encode_qword(u64::MAX)), Some(u64::MAX));
    assert_eq!(decode_qword(&[1]), None);
    let session = RuntimeSession {
        manager_session_id: "m".to_string(),
        windows_session_id: 2,
        authentication_id: 3,
        controller_process_id: 4,
        controller_creation_time: 5,
    };
    let read = read_runtime(&save_runtime(&session)).unwrap();
    assert_eq!(read.manager_session_id, "m");
    assert_eq!(
        (read.windows_session_id, read.authentication_id, read.controller_process_id),
        (2, 3, 4)
    );
    assert_eq!(read.controller_creation_time, 5);
}

#[test]
fn conflicts_are_users_with_several_sessions() {
    let mut idle = facts(4, "S-3", 40);
    idle.state = ConnectState::Other;
    let mut unknown = facts(5, "S-4", 50);
    unknown.authentication_id = None;
    let found = inventory(vec![
        facts(1, "S-1", 10),
        facts(2, "S-2", 20),
        facts(3, "S-1", 30),
        idle,
        unknown,
    ]);
    assert_eq!(found.sessions.len(), 2);
    let session = found.sessions.get("S-1").unwrap();
    assert_eq!((session.session_id, session.authentication_id, session.entry), (1, 10, 0));
    assert!(found.conflicts.contains_key("S-1") && !found.conflicts.contains_key("S-2"));
    assert_eq!(found.logons.len(), 3);
    assert!(found.logons.contains(&(3, 30)));
}

fn running() -> HostState {
    let mut host = HostState::new(&vec!["S-1".to_string()], TextMap::new());
    let found = inventory(vec![facts(1, "S-1", 10)]);
    host.begin_reconcile(&found, &vec!["S-1".to_string()]);
    host.reconcile_user("S-1", &found, "m1");
    let session = *found.sessions.get("S-1").unwrap();
    host.begin_launch("S-1");
    host.started("S-1", "m1", session, Some(PROCESS));
    host
}

#[test]
fn registered_users_get_a_controller() {
    let mut host = HostState::new(&vec!["S-1".to_string()], TextMap::new());
    assert_eq!(host.users(), vec!["S-1".to_string()]);
    let found = inventory(vec![facts(1, "S-1", 10)]);
    host.begin_reconcile(&found, &vec!["S-1".to_string()]);
    host.reconcile_user("S-1", &found, "m1");
    assert_eq!(effects(&mut host), vec!["remove S-1", "start S-1 m1 false"]);
    let mut host = running();
    let started = effects(&mut host);
    assert_eq!(started.last(), Some(&"persist S-1 m1".to_string()));
    let status = host.status("S-1");
    assert!(status.registered && status.controller_running);
    assert_eq!(status.controller_process_id, 9);
    assert!(!host.status("S-2").registered);

    host.begin_reconcile(&found, &vec!["S-1".to_string()]);
    host.reconcile_user("S-1", &found, "m2");
    assert_eq!(effects(&mut host), vec!["persist S-1 m1"]);
    host.process_changed("S-1", None);
    assert!(!host.status("S-1").controller_running);
}

#[test]
fn controllers_do_not_outlive_their_session() {
    let mut host = running();
    effects(&mut host);
    let none = inventory(Vec::new());
    host.begin_reconcile(&none, &vec!["S-1".to_string()]);
    host.reconcile_user("S-1", &none, "m2");
    assert_eq!(effects(&mut host), vec!["signal S-1", "end S-1", "remove S-1"]);
    assert!(!host.status("S-1").controller_running);
    assert_eq!(host.status("S-1").manager_session_id, "");
}

#[test]
fn conflicting_sessions_start_nothing() {
    let mut host = HostState::new(&vec!["S-1".to_string()], TextMap::new());
    let found = inventory(vec![facts(1, "S-1", 10), facts(2, "S-1", 20)]);
    host.begin_reconcile(&found, &vec!["S-1".to_string()]);
    host.reconcile_user("S-1", &found, "m1");
    assert!(effects(&mut host).iter().all(|effect| !effect.starts_with("start")));
    assert_eq!(
        host.status("S-1").message,
        "multiple eligible Windows sessions are active for this user"
    );
}

#[test]
fn controllers_are_taken_over() {
    let mut saved: TextMap<RuntimeSession> = TextMap::new();
    saved.insert("S-1".to_string(), runtime_session("m0", 1, 10, Some(PROCESS)));
    saved.insert("S-9".to_string(), runtime_session("m9", 7, 70, None));
    let mut host = HostState::new(&vec!["S-1".to_string()], saved);
    assert_eq!(effects(&mut host), vec!["remove S-9"]);
    let found = inventory(vec![facts(1, "S-1", 10)]);
    host.begin_reconcile(&found, &vec!["S-1".to_string()]);
    host.reconcile_user("S-1", &found, "m1");
    assert_eq!(effects(&mut host), vec!["start S-1 m0 true"]);

    let mut saved: TextMap<RuntimeSession> = TextMap::new();
    saved.insert("S-1".to_string(), runtime_session("m0", 1, 11, Some(PROCESS)));
    let mut other = HostState::new(&vec!["S-1".to_string()], saved);
    other.begin_reconcile(&found, &vec!["S-1".to_string()]);
    other.reconcile_user("S-1", &found, "m1");
    assert_eq!(
        effects(&mut other),
        vec!["signal previous S-1 m0", "remove S-1", "start S-1 m1 false"]
    );
}

#[test]
fn ended_logons_are_not_started() {
    let mut host = running();
    effects(&mut host);
    host.end_windows_session(1);
    assert_eq!(effects(&mut host), vec!["signal S-1", "end S-1", "remove S-1"]);
    let found = inventory(vec![facts(1, "S-1", 10)]);
    host.begin_reconcile(&found, &vec!["S-1".to_string()]);
    host.reconcile_user("S-1", &found, "m2");
    assert!(effects(&mut host).is_empty());
    let next = inventory(vec![facts(1, "S-1", 12)]);
    host.begin_reconcile(&next, &vec!["S-1".to_string()]);
    host.reconcile_user("S-1", &next, "m2");
    assert_eq!(effects(&mut host).last(), Some(&"start S-1 m2 false".to_string()));
}

#[test]
fn users_register_and_unregister() {
    let mut host = HostState::new(&Vec::new(), TextMap::new());
    assert!(host.register_user("S-1"));
    let found = inventory(vec![facts(1, "S-1", 10)]);
    host.start_registered("S-1", &found, "m1");
    assert_eq!(effects(&mut host), vec!["start S-1 m1 false"]);
    host.started("S-1", "m1", *found.sessions.get("S-1").unwrap(), Some(PROCESS));
    effects(&mut host);
    assert!(!host.register_user("S-1"));
    assert!(host.restart_controller("S-1").is_ok());
    assert_eq!(effects(&mut host), vec!["restart S-1"]);
    let refused = host.restart_controller("S-2").unwrap_err();
    assert_eq!((refused.code, refused.message.as_str()), (StatusCode::NotFound, "user is not registered"));
    host.unregister_user("S-1");
    assert_eq!(effects(&mut host), vec!["signal S-1", "end S-1", "remove S-1"]);
    assert!(!host.status("S-1").registered);
    host.register_user("S-3");
    let unavailable = host.restart_controller("S-3").unwrap_err();
    assert_eq!(unavailable.code, StatusCode::Unavailable);
}

#[test]
fn hosts_detach_or_end_their_controllers() {
    let mut host = running();
    effects(&mut host);
    host.detach_all();
    assert_eq!(effects(&mut host), vec!["persist S-1 m1", "detach S-1"]);
    assert!(host.users().is_empty());
    let mut host = running();
    effects(&mut host);
    host.end_all();
    assert_eq!(effects(&mut host), vec!["signal S-1", "end S-1", "remove S-1"]);
}

#[test]
fn services_react_to_the_system() {
    assert_eq!(service_step(ServiceEvent::Start), ServiceStep::Launch);
    assert_eq!(
        service_step(ServiceEvent::Stop),
        ServiceStep::Finish(HostRuntimeCommand::Detach)
    );
    assert_eq!(
        service_step(ServiceEvent::Preshutdown),
        ServiceStep::Finish(HostRuntimeCommand::Preshutdown)
    );
    let change = |change: SessionChange, session_id: Option<u32>| {
        service_step(ServiceEvent::SessionChange { change, session_id })
    };
    assert_eq!(
        change(SessionChange::Logon, Some(4)),
        ServiceStep::Tell(HostRuntimeCommand::Reconcile)
    );
    assert_eq!(
        change(SessionChange::Logoff, Some(4)),
        ServiceStep::Tell(HostRuntimeCommand::EndSession(4))
    );
    assert_eq!(change(SessionChange::Logoff, None), ServiceStep::Nothing);
    assert_eq!(change(SessionChange::Other, Some(4)), ServiceStep::Nothing);
    assert_eq!(service_step(ServiceEvent::Other), ServiceStep::Nothing);
    assert_eq!(session_notification(8, 8, 5), Some(5));
    assert_eq!(session_notification(7, 8, 5), None);
    assert_eq!(host_step(Some(HostRuntimeCommand::Reconcile)), HostStep::Reconcile);
    assert_eq!(
        host_step(Some(HostRuntimeCommand::EndSession(5))),
        HostStep::EndWindowsSession(5)
    );
    assert_eq!(host_step(Some(HostRuntimeCommand::Preshutdown)), HostStep::EndAll);
    assert_eq!(host_step(Some(HostRuntimeCommand::Detach)), HostStep::DetachAll);
    assert_eq!(host_step(None), HostStep::DetachAll);
}

#[test]
fn services_are_installed_as_whole_images() {
    assert_eq!(restart_delays(), vec![1, 5, 30]);
    let privileges = required_privileges();
    assert_eq!(
        String::from_utf16(&privileges).unwrap(),
        "SeTcbPrivilege\0SeAssignPrimaryTokenPrivilege\0SeIncreaseQuotaPrivilege\0\0"
    );
    let image = host_image("C:\\P", "1.0.0", "ab", "u");
    assert_eq!(image.root, "C:\\P\\SUSM\\host");
    assert_eq!(image.directory, "C:\\P\\SUSM\\host\\versions\\1.0.0-ab");
    assert_eq!(image.executable, "C:\\P\\SUSM\\host\\versions\\1.0.0-ab\\susm-host.exe");
    assert_eq!(image.staging, "C:\\P\\SUSM\\host\\.1.0.0.u.tmp");
    assert_eq!(image.staged, "C:\\P\\SUSM\\host\\.1.0.0.u.tmp\\susm-host.exe");
    assert_eq!(check_installed_image("d", &ImageFound::Nothing, "ab"), Ok(false));
    assert_eq!(
        check_installed_image("d", &ImageFound::Executable("ab".to_string()), "ab"),
        Ok(true)
    );
    assert_eq!(
        check_installed_image("d", &ImageFound::Empty, "ab"),
        Err("host installation is corrupt: d".to_string())
    );
    assert!(check_copied_image("ab", "ab").is_ok());
    assert_eq!(
        check_copied_image("ab", "cd"),
        Err("copied host image failed digest verification".to_string())
    );
    assert_eq!(stop_step(0, false), Ok(Some(250)));
    assert_eq!(stop_step(3, true), Ok(None));
    assert_eq!(
        stop_step(140, false),
        Err("SUSMHost did not stop within 35 seconds".to_string())
    );
    assert_eq!(
        diagnostics_directory(Some("C:\\D")),
        Ok("C:\\D\\SUSM\\diagnostics\\host".to_string())
    );
    assert_eq!(diagnostics_directory(Some("")), Err("ProgramData is missing".to_string()));
}

fn selection(version: &str, digest: &str) -> Selection {
    Selection {
        bundle_format: 1,
        version: version.to_string(),
        manifest_sha256: digest.to_string(),
    }
}

fn manifest() -> Manifest {
    Manifest {
        bundle_format: 1,
        version: "1.2.3".to_string(),
        target: "x86_64-pc-windows-msvc".to_string(),
        protocol_major: 1,
        controller_schema_read_min: 1,
        controller_schema_read_max: 2,
        controller_schema_write: 2,
        supervisor_runtime_formats: vec![1],
        files: vec![ManifestFile {
            path: "susmd.exe".to_string(),
            size: 10,
            sha256: digest_text(b"controller"),
        }],
    }
}

#[test]
fn controllers_are_the_selected_ones() {
    assert_eq!(selection_path("C:\\l"), "C:\\l\\Programs\\susm\\current.susm-install");
    let identity = digest_text(b"text");
    assert_eq!(
        check_selection("C:\\l", &Vec::new(), &Ok(selection("1.2.3", &identity))).unwrap(),
        format!("C:\\l\\Programs\\susm\\versions\\1.2.3-{identity}")
    );
    let refused = |version: &str, digest: &str| {
        check_selection("C:\\l", &Vec::new(), &Ok(selection(version, digest)))
            .unwrap_err()
            .message()
    };
    assert!(refused("1.2.3+x", &identity)
        .ends_with("selection version or manifest identity is invalid"));
    assert!(refused("1.2.3", "x").ends_with("selection version or manifest identity is invalid"));
    assert!(matches!(
        check_selection("C:\\l", &Vec::new(), &Ok(selection("x", &identity))),
        Err(LaunchError::InstallationVersion(_))
    ));
    let mut newer = selection("1.2.3", &identity);
    newer.bundle_format = 2;
    assert!(judge_selection("C:\\l", &Vec::new(), &Ok(newer), &Ok(String::new()))
        .unwrap_err()
        .message()
        .ends_with("selection bundle_format must be 1"));

    let chosen = selection("1.2.3", &identity);
    assert!(validate_manifest(&manifest(), &chosen, "x86_64").is_ok());
    assert!(validate_manifest(&manifest(), &selection("1.2.4", &identity), "x86_64").is_err());
    let declared =
        check_selected_manifest(&chosen, &b"text".to_vec(), &Ok(manifest()), "x86_64").unwrap();
    assert_eq!(declared.size, 10);
    assert!(check_selected_manifest(&chosen, &b"other".to_vec(), &Ok(manifest()), "x86_64")
        .unwrap_err()
        .message()
        .ends_with("selected manifest digest does not match the selection"));
    assert!(check_controller("c", true, 10, &digest_text(b"controller"), &declared).is_ok());
    assert!(matches!(
        check_controller("c", true, 11, &digest_text(b"controller"), &declared),
        Err(LaunchError::ControllerMissing(path)) if path == "c"
    ));
    assert!(check_controller("c", true, 10, "x", &declared)
        .unwrap_err()
        .message()
        .ends_with("susmd.exe digest does not match its manifest"));
    assert!(check_bounded("p", true, 5, 5).is_ok());
    assert!(check_bounded("p", false, 5, 5)
        .unwrap_err()
        .message()
        .ends_with("p is not a bounded regular file"));
    assert!(reject_reparse_point("p", false).is_ok());
    assert!(reject_reparse_point("p", true).unwrap_err().message().ends_with("p is a reparse point"));
}

#[test]
fn controllers_are_launched_in_their_session() {
    let texts = launch_texts("C:\\v\\susmd.exe", "m").unwrap();
    assert_eq!(texts.application, wide_path("C:\\v\\susmd.exe").unwrap());
    assert_eq!(texts.directory, wide_path("C:\\v").unwrap());
    let mut command: Vec<u16> =
        "\"C:\\v\\susmd.exe\" --manager-session-id m".encode_utf16().collect();
    command.push(0);
    assert_eq!(texts.command_line, command);
    assert!(wide_path("a\0").is_err());
    assert_eq!(file_time(1, 2), (1u64 << 32) | 2);
    assert_eq!(check_recorded(PROCESS, 3, 90, 3).unwrap(), PROCESS);
    assert!(check_recorded(PROCESS, 3, 91, 3)
        .unwrap_err()
        .message()
        .ends_with("recorded controller PID was reused"));
    assert!(check_recorded(PROCESS, 3, 90, 4)
        .unwrap_err()
        .message()
        .ends_with("recorded controller belongs to another Windows session"));
    let mut block: Vec<u16> = "A=1\0localAppData=C:\\l\0\0".encode_utf16().collect();
    assert_eq!(user_local_app_data(&block).unwrap(), "C:\\l");
    block = "A=1\0\0".encode_utf16().collect();
    assert!(matches!(user_local_app_data(&block), Err(LaunchError::LocalAppDataMissing)));
}
