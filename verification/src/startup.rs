//! Where the controller and the supervisors find their files, and how they end.

use vstd::prelude::*;
use vstd::string::*;

use crate::control::{parse_uuid, uuid_of};
use crate::paths::{join_paths, joined};

verus! {

/// The value of an environment variable that has to be there. An empty one counts as missing.
pub fn required_environment(name: &str, value: Option<&str>) -> (result: Result<String, String>)
    ensures
        match result {
            Ok(found) => value matches Some(text) && text@.len() > 0 && found@ == text@,
            Err(reason) => (value matches Some(text) ==> text@.len() == 0) && reason@
                == "required environment variable "@ + name@ + " is missing"@,
        },
{
    match value {
        Some(text) => {
            if text.unicode_len() > 0 {
                return Ok(text.to_owned());
            }
        },
        None => {},
    }
    let mut reason: String = "required environment variable ".to_owned();
    reason.append(name);
    reason.append(" is missing");
    Err(reason)
}

/// Where the definitions of workloads lie in a user's profile.
pub open spec fn config_directory_in(profile: Seq<char>) -> Seq<char> {
    joined(joined(joined(profile, ".config"@), "susm"@), "workloads.d"@)
}

/// Where the definitions of workloads lie in a user's profile.
pub fn config_directory(profile: &str) -> (path: String)
    ensures
        path@ == config_directory_in(profile@),
{
    let config: String = join_paths(profile, ".config");
    let susm: String = join_paths(config.as_str(), "susm");
    join_paths(susm.as_str(), "workloads.d")
}

/// Where a controller finds and keeps its files, and for which session it runs.
#[derive(Debug)]
pub struct ManagerPaths {
    pub config_directory: String,
    pub data_directory: String,
    pub supervisor_executable: String,
    pub manager_session_id: Option<String>,
}

/// A text that was given, or another.
pub open spec fn given_or(given: Option<String>, other: Seq<char>) -> Seq<char> {
    match given {
        Some(text) => text@,
        None => other,
    }
}

/// The paths of a controller: those that were given, and otherwise those in the user's profile, in
/// the user's local data, and beside the controller's executable.
pub fn manager_paths(
    config: Option<String>,
    data: Option<String>,
    supervisor: Option<String>,
    manager_session_id: Option<String>,
    profile: &str,
    local_app_data: &str,
    executable_directory: &str,
) -> (paths: ManagerPaths)
    ensures
        paths.config_directory@ == given_or(config, config_directory_in(profile@)),
        paths.data_directory@ == given_or(data, joined(local_app_data@, "susm"@)),
        paths.supervisor_executable@ == given_or(
            supervisor,
            joined(executable_directory@, "susm-supervisor.exe"@),
        ),
        paths.manager_session_id == manager_session_id,
{
    ManagerPaths {
        config_directory: match config {
            Some(path) => path,
            None => self::config_directory(profile),
        },
        data_directory: match data {
            Some(path) => path,
            None => join_paths(local_app_data, "susm"),
        },
        supervisor_executable: match supervisor {
            Some(path) => path,
            None => join_paths(executable_directory, "susm-supervisor.exe"),
        },
        manager_session_id,
    }
}

/// Refuses to run for a session whose id is no universally unique identifier.
pub fn check_session(manager_session_id: Option<&str>) -> (result: Result<(), String>)
    ensures
        match result {
            Ok(_) => manager_session_id matches Some(id) ==> uuid_of(id@) is Ok,
            Err(reason) => manager_session_id matches Some(id) && uuid_of(id@) == Err::<
                u128,
                Seq<char>,
            >(reason@),
        },
{
    match manager_session_id {
        Some(id) => match parse_uuid(id) {
            Ok(_) => Ok(()),
            Err(reason) => Err(reason),
        },
        None => Ok(()),
    }
}

/// The directory of the controller's diagnostics.
pub fn controller_diagnostics(local_app_data: &str) -> (path: String)
    ensures
        path@ == joined(
            joined(joined(local_app_data@, "susm"@), "diagnostics"@),
            "controller"@,
        ),
{
    let susm: String = join_paths(local_app_data, "susm");
    let diagnostics: String = join_paths(susm.as_str(), "diagnostics");
    join_paths(diagnostics.as_str(), "controller")
}

/// The directory of the diagnostics of the supervisor of an execution.
pub fn supervisor_diagnostics(local_app_data: &str, workload_id: &str, execution_id: &str) -> (path:
    String)
    ensures
        path@ == joined(
            joined(
                joined(
                    joined(joined(local_app_data@, "susm"@), "diagnostics"@),
                    "supervisors"@,
                ),
                workload_id@,
            ),
            execution_id@,
        ),
{
    let susm: String = join_paths(local_app_data, "susm");
    let diagnostics: String = join_paths(susm.as_str(), "diagnostics");
    let supervisors: String = join_paths(diagnostics.as_str(), "supervisors");
    let workload: String = join_paths(supervisors.as_str(), workload_id);
    join_paths(workload.as_str(), execution_id)
}

/// How long a controller waits for its executions to end with the session, in milliseconds.
pub const QUIESCE_WAIT_MS: u64 = 30_000;

/// How often a controller looks whether its executions have ended, in milliseconds.
pub const QUIESCE_POLL_MS: u64 = 50;

/// How long a supervisor waits for what it has sent to be taken, in milliseconds.
pub const LINK_WAIT_MS: u64 = 5_000;

/// Whether a controller whose session is ending waits longer.
pub fn waits_longer(elapsed_ms: u64, quiescent: bool) -> (waits: bool)
    ensures
        waits == (!quiescent && elapsed_ms < QUIESCE_WAIT_MS),
{
    !quiescent && elapsed_ms < QUIESCE_WAIT_MS
}

/// The code with which a supervisor ends, for the one of its workload.
pub fn exit_code(code: Option<u32>) -> (exit: i32)
    ensures
        exit == match code {
            Some(code) => if code < 255 {
                code as int
            } else {
                255
            },
            None => 1,
        },
        0 <= exit <= 255,
{
    match code {
        Some(code) => if code < 255 {
            code as i32
        } else {
            255
        },
        None => 1,
    }
}

} // verus!
