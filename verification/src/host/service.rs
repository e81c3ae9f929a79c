//! The host as a service of the machine: how it is installed, and what it does when it is told
//! something.

use vstd::prelude::*;
use vstd::string::*;

use crate::paths::{join_paths, joined};
use crate::text::same_text;
use crate::utf16::{push_utf16, utf16};

verus! {

/// The name of the service.
pub const SERVICE_NAME: &'static str = "SUSMHost";

/// The name under which the service is shown.
pub const DISPLAY_NAME: &'static str = "SUSM Host";

/// What the service is for.
pub const DESCRIPTION: &'static str = "Starts and recovers registered SUSM per-user controllers";

/// The account under which the service runs.
pub const ACCOUNT: &'static str = "LocalSystem";

/// The argument with which the service is started.
pub const SERVICE_ARGUMENT: &'static str = "service";

/// After which time without a failure the count of failures starts again, in seconds.
pub const FAILURE_RESET_SECONDS: u64 = 86_400;

/// How long the service is given when the machine shuts down, in seconds.
pub const PRESHUTDOWN_SECONDS: u64 = 45;

/// How often the host holds its users against the sessions of the machine, in seconds.
pub const RECONCILE_SECONDS: u64 = 5;

/// The name of the host's executable.
pub const HOST_EXECUTABLE: &'static str = "susm-host.exe";

/// The wait before the service is started again, after its first failure, its second and those that
/// follow, in seconds.
pub fn restart_delays() -> (delays: Vec<u64>)
    ensures
        delays@ == seq![1u64, 5u64, 30u64],
{
    let mut delays: Vec<u64> = Vec::new();
    delays.push(1);
    delays.push(5);
    delays.push(30);
    assert(delays@ =~= seq![1u64, 5u64, 30u64]);
    delays
}

/// The privileges of the service, as the system takes them.
pub fn required_privileges() -> (units: Vec<u16>)
    ensures
        units@ == utf16(
            "SeTcbPrivilege\0SeAssignPrimaryTokenPrivilege\0SeIncreaseQuotaPrivilege\0\0"@,
        ),
{
    let mut units: Vec<u16> = Vec::new();
    push_utf16(
        &mut units,
        "SeTcbPrivilege\0SeAssignPrimaryTokenPrivilege\0SeIncreaseQuotaPrivilege\0\0",
    );
    assert(units@ =~= utf16(
        "SeTcbPrivilege\0SeAssignPrimaryTokenPrivilege\0SeIncreaseQuotaPrivilege\0\0"@,
    ));
    units
}

/// Where an executable of the host is installed, and where it is put together.
#[derive(Debug)]
pub struct HostImage {
    /// The directory of all of the host's files.
    pub root: String,
    /// The directory of all versions.
    pub versions: String,
    /// The directory of this version.
    pub directory: String,
    pub executable: String,
    pub staging: String,
    pub staged: String,
}

/// The directory of all of the host's files.
pub open spec fn host_root(program_files: Seq<char>) -> Seq<char> {
    joined(joined(program_files, "SUSM"@), "host"@)
}

/// Where the host of a version is installed whose executable has a digest. `id` makes the directory
/// unique in which it is put together.
pub fn host_image(program_files: &str, version: &str, digest: &str, id: &str) -> (image: HostImage)
    ensures
        image.root@ == host_root(program_files@),
        image.versions@ == joined(image.root@, "versions"@),
        image.directory@ == joined(image.versions@, version@ + "-"@ + digest@),
        image.executable@ == joined(image.directory@, HOST_EXECUTABLE@),
        image.staging@ == joined(image.root@, "."@ + version@ + "."@ + id@ + ".tmp"@),
        image.staged@ == joined(image.staging@, HOST_EXECUTABLE@),
{
    let company: String = join_paths(program_files, "SUSM");
    let root: String = join_paths(company.as_str(), "host");
    let versions: String = join_paths(root.as_str(), "versions");
    let mut identity: String = version.to_owned();
    identity.append("-");
    identity.append(digest);
    let directory: String = join_paths(versions.as_str(), identity.as_str());
    let executable: String = join_paths(directory.as_str(), HOST_EXECUTABLE);
    let mut name: String = ".".to_owned();
    name.append(version);
    name.append(".");
    name.append(id);
    name.append(".tmp");
    let staging: String = join_paths(root.as_str(), name.as_str());
    let staged: String = join_paths(staging.as_str(), HOST_EXECUTABLE);
    HostImage { root, versions, directory, executable, staging, staged }
}

/// What is found where the host is to be installed.
#[derive(Debug)]
pub enum ImageFound {
    /// Nothing.
    Nothing,
    /// A directory without the executable.
    Empty,
    /// The executable, with this digest.
    Executable(String),
}

/// Whether the host is installed already: what is there has to be what is installed.
pub fn check_installed_image(directory: &str, found: &ImageFound, expected: &str) -> (result: Result<
    bool,
    String,
>)
    ensures
        match *found {
            ImageFound::Nothing => result == Ok::<bool, String>(false),
            ImageFound::Executable(digest) => if digest@ == expected@ {
                result == Ok::<bool, String>(true)
            } else {
                result matches Err(reason) && reason@ == "host installation is corrupt: "@
                    + directory@
            },
            ImageFound::Empty => result matches Err(reason) && reason@
                == "host installation is corrupt: "@ + directory@,
        },
{
    match found {
        ImageFound::Nothing => {
            return Ok(false);
        },
        ImageFound::Executable(digest) => {
            if same_text(digest.as_str(), expected) {
                return Ok(true);
            }
        },
        ImageFound::Empty => {},
    }
    let mut reason: String = "host installation is corrupt: ".to_owned();
    reason.append(directory);
    Err(reason)
}

/// Refuses a copy that is not what was copied.
pub fn check_copied_image(digest: &str, expected: &str) -> (result: Result<(), String>)
    ensures
        match result {
            Ok(_) => digest@ == expected@,
            Err(reason) => digest@ != expected@ && reason@
                == "copied host image failed digest verification"@,
        },
{
    if same_text(digest, expected) {
        Ok(())
    } else {
        Err("copied host image failed digest verification".to_owned())
    }
}

/// How often a service that is stopping is looked at.
pub const STOP_POLLS: u32 = 140;

/// How long is waited between two looks at a service that is stopping, in milliseconds.
pub const STOP_POLL_MS: u64 = 250;

/// What follows a look at a service that is stopping, after `polls` earlier ones: nothing where it
/// has stopped, or one more look, or the end of the patience.
pub fn stop_step(polls: u32, stopped: bool) -> (result: Result<Option<u64>, String>)
    requires
        polls <= STOP_POLLS,
    ensures
        match result {
            Ok(None) => polls < STOP_POLLS && stopped,
            Ok(Some(wait)) => polls < STOP_POLLS && !stopped && wait == STOP_POLL_MS,
            Err(reason) => polls == STOP_POLLS && reason@
                == "SUSMHost did not stop within 35 seconds"@,
        },
{
    if polls >= STOP_POLLS {
        return Err("SUSMHost did not stop within 35 seconds".to_owned());
    }
    if stopped {
        Ok(None)
    } else {
        Ok(Some(STOP_POLL_MS))
    }
}

/// A change of a session of the machine.
#[derive(Clone, Copy, Debug, PartialEq, Eq, Structural)]
pub enum SessionChange {
    Logon,
    Logoff,
    Other,
}

/// What the service is told by the system.
#[derive(Clone, Copy, Debug, PartialEq, Eq, Structural)]
pub enum ServiceEvent {
    Start,
    Stop,
    /// A session has changed; which one, where that can be read.
    SessionChange { change: SessionChange, session_id: Option<u32> },
    /// The machine is about to shut down.
    Preshutdown,
    Other,
}

/// What the host is told to do.
#[derive(Clone, Copy, Debug, PartialEq, Eq, Structural)]
pub enum HostRuntimeCommand {
    Reconcile,
    EndSession(u32),
    Detach,
    Preshutdown,
}

/// What the service does when it is told something.
#[derive(Clone, Copy, Debug, PartialEq, Eq, Structural)]
pub enum ServiceStep {
    Nothing,
    /// The host is started.
    Launch,
    /// The host is told this and goes on.
    Tell(HostRuntimeCommand),
    /// The host is told this, and its end is waited for.
    Finish(HostRuntimeCommand),
}

/// What the service does when it is told something.
pub open spec fn told(event: ServiceEvent) -> ServiceStep {
    match event {
        ServiceEvent::Start => ServiceStep::Launch,
        ServiceEvent::Stop => ServiceStep::Finish(HostRuntimeCommand::Detach),
        ServiceEvent::Preshutdown => ServiceStep::Finish(HostRuntimeCommand::Preshutdown),
        ServiceEvent::SessionChange { change, session_id } => match (change, session_id) {
            (SessionChange::Logon, Some(_)) => ServiceStep::Tell(HostRuntimeCommand::Reconcile),
            (SessionChange::Logoff, Some(id)) => ServiceStep::Tell(
                HostRuntimeCommand::EndSession(id),
            ),
            _ => ServiceStep::Nothing,
        },
        ServiceEvent::Other => ServiceStep::Nothing,
    }
}

/// What the service does when it is told something.
pub fn service_step(event: ServiceEvent) -> (step: ServiceStep)
    ensures
        step == told(event),
{
    match event {
        ServiceEvent::Start => ServiceStep::Launch,
        ServiceEvent::Stop => ServiceStep::Finish(HostRuntimeCommand::Detach),
        ServiceEvent::Preshutdown => ServiceStep::Finish(HostRuntimeCommand::Preshutdown),
        ServiceEvent::SessionChange { change, session_id } => match (change, session_id) {
            (SessionChange::Logon, Some(_)) => ServiceStep::Tell(HostRuntimeCommand::Reconcile),
            (SessionChange::Logoff, Some(id)) => ServiceStep::Tell(
                HostRuntimeCommand::EndSession(id),
            ),
            _ => ServiceStep::Nothing,
        },
        ServiceEvent::Other => ServiceStep::Nothing,
    }
}

/// The session that a notification names, where the notification has the size that it should have.
pub fn session_notification(size: u32, expected_size: u32, session_id: u32) -> (session: Option<u32>)
    ensures
        session == if size == expected_size {
            Some(session_id)
        } else {
            None
        },
{
    if size == expected_size {
        Some(session_id)
    } else {
        None
    }
}

/// What the host does about its users.
#[derive(Clone, Copy, Debug, PartialEq, Eq, Structural)]
pub enum HostStep {
    Reconcile,
    EndWindowsSession(u32),
    /// All sessions end, and the host with them.
    EndAll,
    /// The controllers are left to themselves, and the host ends.
    DetachAll,
}

/// What the host does when it is told something, or when nobody can tell it anything any more.
pub fn host_step(command: Option<HostRuntimeCommand>) -> (step: HostStep)
    ensures
        step == match command {
            Some(HostRuntimeCommand::Reconcile) => HostStep::Reconcile,
            Some(HostRuntimeCommand::EndSession(id)) => HostStep::EndWindowsSession(id),
            Some(HostRuntimeCommand::Preshutdown) => HostStep::EndAll,
            Some(HostRuntimeCommand::Detach) | None => HostStep::DetachAll,
        },
{
    match command {
        Some(HostRuntimeCommand::Reconcile) => HostStep::Reconcile,
        Some(HostRuntimeCommand::EndSession(id)) => HostStep::EndWindowsSession(id),
        Some(HostRuntimeCommand::Preshutdown) => HostStep::EndAll,
        Some(HostRuntimeCommand::Detach) | None => HostStep::DetachAll,
    }
}

/// The directory of the host's diagnostics.
pub fn diagnostics_directory(program_data: Option<&str>) -> (result: Result<String, String>)
    ensures
        match result {
            Ok(path) => program_data matches Some(data) && data@.len() > 0 && path@ == joined(
                joined(joined(data@, "SUSM"@), "diagnostics"@),
                "host"@,
            ),
            Err(reason) => (program_data matches Some(data) ==> data@.len() == 0) && reason@
                == "ProgramData is missing"@,
        },
{
    match program_data {
        Some(data) => {
            if data.unicode_len() > 0 {
                let company: String = join_paths(data, "SUSM");
                let diagnostics: String = join_paths(company.as_str(), "diagnostics");
                return Ok(join_paths(diagnostics.as_str(), "host"));
            }
        },
        None => {},
    }
    Err("ProgramData is missing".to_owned())
}

} // verus!
