//! What the commands of the client mean, and what it shows.

use vstd::prelude::*;
use vstd::utf8::{
    decode_utf8_encode_utf8, encode_utf8, encode_utf8_decode_utf8, encode_utf8_valid_utf8,
    is_char_boundary, is_char_boundary_iff_not_is_continuation_byte,
    is_char_boundary_start_end_of_seq, valid_utf8_split,
};

use crate::cli::command::{
    Command, Plan, Request, Response, ShownView, command_refusal, is_plan, reply_to,
};
use crate::cli::json::{
    DocumentView, ValueView, execution_members, log_members, status_members, version_members,
    workload_members,
};
use crate::cli::local::{LocalResult, local_blocks, local_document};
use crate::cli::logs::{
    LabelStyle, LogOptions, PieceView, Printed, line_end, piece_views, prefix_pieces, prints,
};
use crate::cli::output::{
    BlockView, DetailView, HumanOutput, Tone, answer, controller_details, controller_state,
    execution_details, execution_row, instant, mutation_blocks, notes, number_or_dash, shortened,
    tone_of, version_row, workload_details, workload_row,
};
use crate::log_journal::LogView;
use crate::numerals::signed_decimal;
use crate::host::state::StatusView;
use crate::manager::model::{ExecutionFacts, WorkloadView};
use crate::text::decimal;
use crate::versions::VersionView;

verus! {

/// Each command asks for the request of its own name and for no other, of the workload or the
/// execution that it names: a stop stops, a start starts, and so on for all of them.
pub proof fn law_commands_ask_for_what_they_say(command: Command, request: Request)
    requires
        is_plan(command, Plan::Ask(request)),
    ensures
        command is Reload <==> request is Reload,
        command is List <==> request is ListWorkloads,
        command is Status <==> request is GetWorkload,
        command is Start <==> request is Start,
        command is Stop <==> request is Stop,
        command is Restart <==> request is Restart,
        command is Run <==> request is Run,
        command is Cancel <==> request is Cancel,
        command is Rerun <==> request is Rerun,
        command is Enable <==> request is Enable,
        command is Disable <==> request is Disable,
        command is Executions <==> request is ListExecutions,
        command is Execution <==> request is GetExecution,
        command is Logs <==> request is ReadLogs,
        command is Status ==> request->GetWorkload_workload_id@ == command->Status_workload@,
        command is Start ==> request->Start_workload_id@ == command->Start_service@,
        command is Stop ==> request->Stop_workload_id@ == command->Stop_service@,
        command is Restart ==> request->Restart_workload_id@ == command->Restart_service@,
        command is Run ==> request->Run_workload_id@ == command->Run_job@,
        command is Cancel ==> request->Cancel_workload_id@ == command->Cancel_job@,
        command is Rerun ==> request->Rerun_workload_id@ == command->Rerun_job@,
        command is Enable ==> request->Enable_workload_id@ == command->Enable_workload@,
        command is Disable ==> request->Disable_workload_id@ == command->Disable_workload@,
        command is Executions ==> request->ListExecutions_workload_id@
            == command->Executions_workload@,
        command is Execution ==> request->GetExecution_execution_id@
            == command->Execution_execution_id@,
        command is Logs ==> request->ReadLogs_0.workload_id@ == command->Logs_workload@,
{
}

/// Lists are asked for from their beginning, a thousand workloads or a hundred executions at once.
pub proof fn law_lists_are_asked_for_from_the_beginning(command: Command, request: Request)
    requires
        is_plan(command, Plan::Ask(request)),
    ensures
        request matches Request::ListWorkloads { page_size, cursor } ==> page_size == 1000
            && cursor@.len() == 0,
        request matches Request::ListExecutions { page_size, cursor, .. } ==> page_size == 100
            && cursor@.len() == 0,
{
}

/// A request for captured output is for the execution, the attempt and the stream that the command
/// names: without an execution or an attempt it names none, and it follows exactly where asked to.
pub proof fn law_logs_are_asked_for_as_named(command: Command, request: Request)
    requires
        is_plan(command, Plan::Ask(request)),
        command is Logs,
    ensures
        ({
            let logs = request->ReadLogs_0;
            &&& command->Logs_execution matches Some(id) ==> logs.execution_id@ == id@
            &&& command->Logs_execution is None ==> logs.execution_id@.len() == 0
            &&& command->Logs_attempt matches Some(attempt) ==> logs.attempt == attempt
            &&& command->Logs_attempt is None ==> logs.attempt == 0
            &&& logs.follow == command->Logs_follow
            &&& command->Logs_stream is Stdout <==> logs.stream@ == "stdout"@
            &&& command->Logs_stream is Stderr <==> logs.stream@ == "stderr"@
            &&& command->Logs_stream is All <==> logs.stream@ == "all"@
        }),
{
    reveal_strlit("stdout");
    reveal_strlit("stderr");
    reveal_strlit("all");
    assert("stdout"@.len() == 6 && "stderr"@.len() == 6 && "all"@.len() == 3);
    assert("stdout"@[3] == 'o' && "stderr"@[3] == 'e');
}

/// Two commands that make the same request are the same command: no two of different names do, nor
/// two that name different workloads.
pub proof fn law_requests_tell_commands_apart(one: Command, other: Command, request: Request)
    requires
        is_plan(one, Plan::Ask(request)),
        is_plan(other, Plan::Ask(request)),
    ensures
        one is Reload <==> other is Reload,
        one is List <==> other is List,
        one is Status <==> other is Status,
        one is Start <==> other is Start,
        one is Stop <==> other is Stop,
        one is Restart <==> other is Restart,
        one is Run <==> other is Run,
        one is Cancel <==> other is Cancel,
        one is Rerun <==> other is Rerun,
        one is Enable <==> other is Enable,
        one is Disable <==> other is Disable,
        one is Executions <==> other is Executions,
        one is Execution <==> other is Execution,
        one is Logs <==> other is Logs,
        one is Start ==> one->Start_service@ == other->Start_service@,
        one is Stop ==> one->Stop_service@ == other->Stop_service@,
        one is Restart ==> one->Restart_service@ == other->Restart_service@,
        one is Run ==> one->Run_job@ == other->Run_job@,
        one is Cancel ==> one->Cancel_job@ == other->Cancel_job@,
        one is Rerun ==> one->Rerun_job@ == other->Rerun_job@,
        one is Enable ==> one->Enable_workload@ == other->Enable_workload@,
        one is Disable ==> one->Disable_workload@ == other->Disable_workload@,
{
}

/// What is done without asking the controller: each such command is carried out as itself, with what
/// it was given, and no other command is.
pub proof fn law_local_commands_are_carried_out_as_they_are(command: Command, plan: Plan)
    requires
        is_plan(command, plan),
    ensures
        command is ConfigPath <==> plan is ShowConfigDirectory,
        command is Completions <==> plan is GenerateCompletions,
        command is Install <==> plan is Install,
        command is Uninstall <==> plan is Uninstall,
        command is Upgrade && command->Upgrade_source is Some <==> plan is Upgrade,
        command is Upgrade && command->Upgrade_gc <==> plan is CollectGarbage,
        command is Rollback <==> plan is Rollback,
        command is Versions <==> plan is ListVersions,
        command is ControllerStatus <==> plan is ShowController,
        command is ControllerRestart <==> plan is RestartController,
        plan matches Plan::Install { source } ==> source == command->Install_source
            && command->Install_user,
        plan is Uninstall ==> command->Uninstall_user,
        plan matches Plan::Upgrade { source } ==> command->Upgrade_source == Some(source)
            && !command->Upgrade_gc,
        plan matches Plan::Rollback { prefix } ==> prefix
            == command->Rollback_version_or_manifest_prefix,
{
}

/// Which commands are refused: an installation or an uninstallation that is not for the user alone,
/// and an upgrade that names both a bundle and the removal of old versions, or neither. Every other
/// command has a plan.
pub proof fn law_commands_are_refused_for_cause(command: Command)
    ensures
        command_refusal(command) is Some <==> {
            ||| command is Install && !command->Install_user
            ||| command is Uninstall && !command->Uninstall_user
            ||| command is Upgrade && (command->Upgrade_gc <==> command->Upgrade_source is Some)
        },
        command_refusal(command) is Some ==> forall|plan: Plan| !#[trigger] is_plan(command, plan),
{
}

/// The tone of a state says how things are: green where they are well, yellow while they change,
/// red where something is wrong, and grey otherwise.
pub proof fn law_tones_say_how_things_are(state: Seq<char>)
    ensures
        tone_of(state) == Tone::Green <==> state == "running"@ || state == "completed"@ || state
            == "current"@,
        tone_of(state) == Tone::Yellow <==> state == "starting"@ || state == "launching"@ || state
            == "recovering"@ || state == "restart-backoff"@ || state == "stopping"@,
        tone_of(state) == Tone::Red <==> state == "failed"@ || state == "launch-failed"@ || state
            == "supervisor-lost"@ || state == "outcome-unknown"@ || state == "definition-missing"@
            || state == "not registered"@,
        tone_of(state) == Tone::Plain || tone_of(state) == Tone::Cyan ==> false,
{
    reveal_strlit("running");
    reveal_strlit("completed");
    reveal_strlit("current");
    reveal_strlit("starting");
    reveal_strlit("launching");
    reveal_strlit("recovering");
    reveal_strlit("restart-backoff");
    reveal_strlit("stopping");
    reveal_strlit("failed");
    reveal_strlit("launch-failed");
    reveal_strlit("supervisor-lost");
    reveal_strlit("outcome-unknown");
    reveal_strlit("definition-missing");
    reveal_strlit("not registered");
    assert("running"@.len() == 7 && "completed"@.len() == 9 && "current"@.len() == 7);
    assert("starting"@.len() == 8 && "launching"@.len() == 9 && "recovering"@.len() == 10
        && "restart-backoff"@.len() == 15 && "stopping"@.len() == 8);
    assert("failed"@.len() == 6 && "launch-failed"@.len() == 13 && "supervisor-lost"@.len() == 15
        && "outcome-unknown"@.len() == 15 && "definition-missing"@.len() == 18
        && "not registered"@.len() == 14);
    assert("completed"@[0] == 'c' && "launching"@[0] == 'l');
    assert("restart-backoff"@[0] == 'r' && "supervisor-lost"@[0] == 's' && "outcome-unknown"@[0]
        == 'o');
}

/// Zero stands for no number, and every other number for itself.
pub proof fn law_zero_is_shown_as_none(value: u32, unix_ms: i64, written: Seq<char>)
    ensures
        value == 0 ==> number_or_dash(value) == "-"@,
        value != 0 ==> number_or_dash(value) == decimal(value as nat),
        instant(0, Some(written)) == "-"@,
        unix_ms != 0 ==> instant(unix_ms, Some(written)) == written,
        unix_ms != 0 ==> instant(unix_ms, None) == signed_decimal(unix_ms as int),
        answer(true).text == "yes"@ && answer(true).tone == Tone::Green,
        answer(false).text == "no"@ && answer(false).tone == Tone::Grey,
{
}

/// Whether some details say this under that name.
pub open spec fn says(details: Seq<DetailView>, key: Seq<char>, text: Seq<char>) -> bool {
    exists|i: int|
        0 <= i < details.len() && (#[trigger] details[i]).key == key && details[i].value.text
            == text
}

/// The notes on a workload say what has to be done about it, and nothing where nothing has.
pub proof fn law_notes_say_what_is_to_be_done(workload: WorkloadView)
    ensures
        notes(workload).contains("definition missing"@) <==> workload.definition_missing,
        notes(workload).contains("restart required"@) <==> workload.restart_required,
        notes(workload).contains("policy sync pending"@) <==> workload.policy_sync_pending,
        notes(workload).len() == 0 <==> !workload.definition_missing && !workload.restart_required
            && !workload.policy_sync_pending,
{
    reveal_strlit("definition missing");
    reveal_strlit("restart required");
    reveal_strlit("policy sync pending");
    assert("definition missing"@.len() == 18 && "restart required"@.len() == 16
        && "policy sync pending"@.len() == 19);
    let all = notes(workload);
    if workload.definition_missing {
        assert(all[0] == "definition missing"@);
    }
    if workload.restart_required {
        assert(all[if workload.definition_missing {
            1
        } else {
            0
        }] == "restart required"@);
    }
    if workload.policy_sync_pending {
        assert(all[all.len() - 1] == "policy sync pending"@);
    }
}

/// A row of the list of workloads holds what its column says.
pub proof fn law_workload_rows_fit_their_columns(workload: WorkloadView)
    ensures
        ({
            let headers = crate::cli::output::workload_headers();
            let row = workload_row(workload);
            &&& row.len() == headers.len()
            &&& forall|i: int|
                #![trigger row[i]]
                0 <= i < row.len() ==> {
                    &&& headers[i] == "NAME"@ ==> row[i].text == workload.workload_id
                    &&& headers[i] == "KIND"@ ==> row[i].text == workload.kind
                    &&& headers[i] == "STATE"@ ==> row[i].text == workload.state && row[i].tone
                        == tone_of(workload.state)
                    &&& headers[i] == "ENABLED"@ ==> (row[i].text == "yes"@ <==> workload.enabled)
                    &&& headers[i] == "ATTEMPT"@ && workload.attempt != 0 ==> row[i].text == decimal(
                        workload.attempt as nat,
                    )
                    &&& headers[i] == "PID"@ && workload.workload_process_id != 0 ==> row[i].text
                        == decimal(workload.workload_process_id as nat)
                    &&& headers[i] == "NOTES"@ ==> (row[i].text.len() == 0 <== notes(workload).len()
                        == 0)
                }
        }),
{
    reveal_strlit("NAME");
    reveal_strlit("KIND");
    reveal_strlit("STATE");
    reveal_strlit("ENABLED");
    reveal_strlit("PID");
    reveal_strlit("ATTEMPT");
    reveal_strlit("NOTES");
    reveal_strlit("yes");
    reveal_strlit("no");
    assert("yes"@.len() == 3 && "no"@.len() == 2);
    assert("NAME"@.len() == 4 && "KIND"@.len() == 4 && "STATE"@.len() == 5 && "ENABLED"@.len() == 7
        && "PID"@.len() == 3 && "ATTEMPT"@.len() == 7 && "NOTES"@.len() == 5);
    assert("NAME"@[0] == 'N' && "KIND"@[0] == 'K' && "STATE"@[0] == 'S' && "NOTES"@[0] == 'N'
        && "ENABLED"@[0] == 'E' && "ATTEMPT"@[0] == 'A');
}

/// A row of the list of executions holds what its column says.
pub proof fn law_execution_rows_fit_their_columns(execution: ExecutionFacts)
    ensures
        ({
            let headers = crate::cli::output::execution_headers();
            let row = execution_row(execution);
            &&& row.len() == headers.len()
            &&& forall|i: int|
                #![trigger row[i]]
                0 <= i < row.len() ==> {
                    &&& headers[i] == "EXECUTION"@ ==> row[i].text == execution.execution_id
                    &&& headers[i] == "STATE"@ ==> row[i].text == execution.state && row[i].tone
                        == tone_of(execution.state)
                    &&& headers[i] == "STARTED"@ ==> row[i].text == crate::cli::output::shown_time(
                        execution.started_unix_ms,
                    )
                    &&& headers[i] == "ATTEMPT"@ && execution.attempt != 0 ==> row[i].text
                        == decimal(execution.attempt as nat)
                    &&& headers[i] == "PID"@ && execution.workload_process_id != 0 ==> row[i].text
                        == decimal(execution.workload_process_id as nat)
                    &&& headers[i] == "EXIT"@ ==> row[i].text == match execution.exit_code {
                        Some(code) => decimal(code as nat),
                        None => "-"@,
                    }
                    &&& headers[i] == "ERROR"@ ==> row[i].text == execution.error
                }
        }),
{
    reveal_strlit("EXECUTION");
    reveal_strlit("STATE");
    reveal_strlit("STARTED");
    reveal_strlit("PID");
    reveal_strlit("ATTEMPT");
    reveal_strlit("EXIT");
    reveal_strlit("ERROR");
    assert("EXECUTION"@.len() == 9 && "STATE"@.len() == 5 && "STARTED"@.len() == 7 && "PID"@.len()
        == 3 && "ATTEMPT"@.len() == 7 && "EXIT"@.len() == 4 && "ERROR"@.len() == 5);
    assert("STATE"@[0] == 'S' && "ERROR"@[0] == 'E' && "STARTED"@[0] == 'S' && "ATTEMPT"@[0] == 'A');
}

/// A row of the list of versions holds what its column says.
pub proof fn law_version_rows_fit_their_columns(version: VersionView)
    ensures
        ({
            let headers = crate::cli::output::version_headers();
            let row = version_row(version);
            &&& row.len() == headers.len()
            &&& forall|i: int|
                #![trigger row[i]]
                0 <= i < row.len() ==> {
                    &&& headers[i] == "VERSION"@ ==> row[i].text == version.version
                    &&& headers[i] == "STATUS"@ ==> (row[i].text == "current"@ <==> version.current)
                    &&& headers[i] == "PINS"@ ==> row[i].text == decimal(version.pin_count as nat)
                    &&& headers[i] == "PATH"@ ==> row[i].text == version.path
                }
        }),
{
    reveal_strlit("VERSION");
    reveal_strlit("IDENTITY");
    reveal_strlit("STATUS");
    reveal_strlit("PINS");
    reveal_strlit("PATH");
    reveal_strlit("current");
    reveal_strlit("installed");
    assert("current"@.len() == 7 && "installed"@.len() == 9);
    assert("VERSION"@.len() == 7 && "IDENTITY"@.len() == 8 && "STATUS"@.len() == 6 && "PINS"@.len()
        == 4 && "PATH"@.len() == 4);
    assert("PINS"@[1] == 'I' && "PATH"@[1] == 'A');
}

/// The state of a controller: running where it runs, recovering where it is registered and does
/// not, and otherwise not registered.
pub proof fn law_controllers_are_shown_as_they_are(status: StatusView)
    ensures
        controller_state(status) == "running"@ <==> status.controller_running,
        controller_state(status) == "recovering"@ <==> !status.controller_running
            && status.registered,
        controller_state(status) == "not registered"@ <==> !status.controller_running
            && !status.registered,
        says(controller_details(status), "State"@, controller_state(status)),
        says(
            controller_details(status),
            "Registered"@,
            if status.registered {
                "yes"@
            } else {
                "no"@
            },
        ),
        status.manager_session_id.len() > 0 ==> says(
            controller_details(status),
            "Manager session"@,
            status.manager_session_id,
        ),
        status.controller_process_id != 0 ==> says(
            controller_details(status),
            "Process ID"@,
            decimal(status.controller_process_id as nat),
        ),
        status.message.len() > 0 ==> says(controller_details(status), "Message"@, status.message),
{
    reveal_strlit("running");
    reveal_strlit("recovering");
    reveal_strlit("not registered");
    assert("running"@.len() == 7 && "recovering"@.len() == 10 && "not registered"@.len() == 14);
    let details = controller_details(status);
    assert(details[0].key == "State"@);
    assert(details[1].key == "Registered"@);
    let sessions: int = if status.manager_session_id.len() > 0 {
        1
    } else {
        0
    };
    let processes: int = if status.controller_process_id != 0 {
        1
    } else {
        0
    };
    if sessions == 1 {
        assert(details[2].key == "Manager session"@);
    }
    if processes == 1 {
        assert(details[2 + sessions].key == "Process ID"@);
    }
    if status.message.len() > 0 {
        assert(details[2 + sessions + processes].key == "Message"@);
    }
}

/// The details of a workload name it, its kind, its state and whether it is enabled; what else there
/// is to say is said, and an error above all.
pub proof fn law_workload_details_leave_nothing_out(workload: WorkloadView)
    ensures
        ({
            let details = workload_details(workload);
            &&& says(details, "Name"@, workload.workload_id)
            &&& says(details, "Kind"@, workload.kind)
            &&& says(details, "State"@, workload.state)
            &&& says(
                details,
                "Enabled"@,
                if workload.enabled {
                    "yes"@
                } else {
                    "no"@
                },
            )
            &&& workload.execution_id.len() > 0 ==> says(
                details,
                "Execution"@,
                workload.execution_id,
            )
            &&& workload.workload_process_id != 0 ==> says(
                details,
                "Process ID"@,
                decimal(workload.workload_process_id as nat),
            )
            &&& workload.supervisor_process_id != 0 ==> says(
                details,
                "Supervisor PID"@,
                decimal(workload.supervisor_process_id as nat),
            )
            &&& workload.attempt != 0 ==> says(
                details,
                "Attempt"@,
                decimal(workload.attempt as nat),
            )
            &&& workload.last_outcome.len() > 0 ==> says(
                details,
                "Last outcome"@,
                workload.last_outcome,
            )
            &&& workload.error.len() > 0 ==> says(details, "Error"@, workload.error)
        }),
{
    let details = workload_details(workload);
    let a: int = if workload.execution_id.len() > 0 {
        1
    } else {
        0
    };
    let b: int = if workload.workload_process_id != 0 {
        a + 1
    } else {
        a
    };
    let c: int = if workload.supervisor_process_id != 0 {
        b + 1
    } else {
        b
    };
    let d: int = if workload.attempt != 0 {
        c + 1
    } else {
        c
    };
    assert(details[0].key == "Name"@ && details[1].key == "Kind"@ && details[2].key == "State"@
        && details[3].key == "Enabled"@);
    if a > 0 {
        assert(details[4].key == "Execution"@);
    }
    if b > a {
        assert(details[4 + a].key == "Process ID"@);
    }
    if c > b {
        assert(details[4 + b].key == "Supervisor PID"@);
    }
    if d > c {
        assert(details[4 + c].key == "Attempt"@);
    }
    if workload.last_outcome.len() > 0 {
        assert(details[4 + d].key == "Last outcome"@);
    }
    if workload.error.len() > 0 {
        assert(details[details.len() - 1].key == "Error"@);
    }
}

/// The details of an execution name it, its workload, its state and its start; what else there is to
/// say is said, and an exit code and an error above all.
pub proof fn law_execution_details_leave_nothing_out(execution: ExecutionFacts)
    ensures
        ({
            let details = execution_details(execution);
            &&& says(details, "Execution"@, execution.execution_id)
            &&& says(details, "Workload"@, execution.workload_id)
            &&& says(details, "State"@, execution.state)
            &&& says(
                details,
                "Started"@,
                crate::cli::output::shown_time(execution.started_unix_ms),
            )
            &&& execution.ended_unix_ms != 0 ==> says(
                details,
                "Ended"@,
                crate::cli::output::shown_time(execution.ended_unix_ms),
            )
            &&& execution.supervisor_process_id != 0 ==> says(
                details,
                "Supervisor PID"@,
                decimal(execution.supervisor_process_id as nat),
            )
            &&& execution.workload_process_id != 0 ==> says(
                details,
                "Process ID"@,
                decimal(execution.workload_process_id as nat),
            )
            &&& execution.attempt != 0 ==> says(
                details,
                "Attempt"@,
                decimal(execution.attempt as nat),
            )
            &&& execution.exit_code matches Some(code) ==> says(
                details,
                "Exit code"@,
                decimal(code as nat),
            )
            &&& execution.error.len() > 0 ==> says(details, "Error"@, execution.error)
        }),
{
    let details = execution_details(execution);
    let a: int = if execution.ended_unix_ms != 0 {
        1
    } else {
        0
    };
    let b: int = if execution.supervisor_process_id != 0 {
        a + 1
    } else {
        a
    };
    let c: int = if execution.workload_process_id != 0 {
        b + 1
    } else {
        b
    };
    let d: int = if execution.attempt != 0 {
        c + 1
    } else {
        c
    };
    assert(details[0].key == "Execution"@ && details[1].key == "Workload"@ && details[2].key
        == "State"@ && details[3].key == "Started"@);
    if a > 0 {
        assert(details[4].key == "Ended"@);
    }
    if b > a {
        assert(details[4 + a].key == "Supervisor PID"@);
    }
    if c > b {
        assert(details[4 + b].key == "Process ID"@);
    }
    if d > c {
        assert(details[4 + c].key == "Attempt"@);
    }
    if execution.exit_code is Some {
        assert(details[4 + d].key == "Exit code"@);
    }
    if execution.error.len() > 0 {
        assert(details[details.len() - 1].key == "Error"@);
    }
}

/// Whether a workload was changed is told as it is: a success exactly where it was.
pub proof fn law_changes_are_told_as_they_are(changed: bool, workload: WorkloadView)
    ensures
        ({
            let blocks = mutation_blocks(changed, workload);
            &&& blocks.len() == 2
            &&& blocks[0] is Success <==> changed
            &&& blocks[0] is Notice <==> !changed
            &&& blocks[1] matches BlockView::Details(details) && says(
                details,
                "State"@,
                workload.state,
            ) && (workload.error.len() > 0 ==> says(details, "Error"@, workload.error))
        }),
{
    let details = mutation_blocks(changed, workload)[1]->Details_0;
    assert(details[0].key == "State"@);
    if workload.error.len() > 0 {
        assert(details[details.len() - 1].key == "Error"@);
    }
}

/// Whether an object says this under that name.
pub open spec fn holds(
    members: Seq<(Seq<char>, ValueView)>,
    name: Seq<char>,
    value: ValueView,
) -> bool {
    members.contains((name, value))
}

/// A workload as an object holds all of it, each part under its name.
pub proof fn law_workload_objects_leave_nothing_out(workload: WorkloadView)
    ensures
        ({
            let members = workload_members(workload);
            &&& members.len() == 13
            &&& holds(members, "workload_id"@, ValueView::Text(workload.workload_id))
            &&& holds(members, "kind"@, ValueView::Text(workload.kind))
            &&& holds(members, "enabled"@, ValueView::Flag(workload.enabled))
            &&& holds(members, "state"@, ValueView::Text(workload.state))
            &&& holds(members, "execution_id"@, ValueView::Text(workload.execution_id))
            &&& holds(
                members,
                "supervisor_process_id"@,
                ValueView::Natural(workload.supervisor_process_id as u64),
            )
            &&& holds(
                members,
                "workload_process_id"@,
                ValueView::Natural(workload.workload_process_id as u64),
            )
            &&& holds(members, "attempt"@, ValueView::Natural(workload.attempt as u64))
            &&& holds(members, "error"@, ValueView::Text(workload.error))
            &&& holds(members, "last_outcome"@, ValueView::Text(workload.last_outcome))
            &&& holds(members, "definition_missing"@, ValueView::Flag(workload.definition_missing))
            &&& holds(members, "restart_required"@, ValueView::Flag(workload.restart_required))
            &&& holds(
                members,
                "policy_sync_pending"@,
                ValueView::Flag(workload.policy_sync_pending),
            )
        }),
{
    let members = workload_members(workload);
    assert(members[0].0 == "workload_id"@ && members[1].0 == "kind"@ && members[2].0 == "enabled"@);
    assert(members[3].0 == "state"@ && members[4].0 == "execution_id"@ && members[5].0
        == "supervisor_process_id"@);
    assert(members[6].0 == "workload_process_id"@ && members[7].0 == "attempt"@ && members[8].0
        == "error"@);
    assert(members[9].0 == "last_outcome"@ && members[10].0 == "definition_missing"@
        && members[11].0 == "restart_required"@ && members[12].0 == "policy_sync_pending"@);
}

/// An execution as an object holds all of it, each part under its name; without an exit code there
/// is none.
pub proof fn law_execution_objects_leave_nothing_out(execution: ExecutionFacts)
    ensures
        ({
            let members = execution_members(execution);
            &&& members.len() == 10
            &&& holds(members, "execution_id"@, ValueView::Text(execution.execution_id))
            &&& holds(members, "workload_id"@, ValueView::Text(execution.workload_id))
            &&& holds(members, "state"@, ValueView::Text(execution.state))
            &&& holds(
                members,
                "supervisor_process_id"@,
                ValueView::Natural(execution.supervisor_process_id as u64),
            )
            &&& holds(
                members,
                "workload_process_id"@,
                ValueView::Natural(execution.workload_process_id as u64),
            )
            &&& holds(members, "attempt"@, ValueView::Natural(execution.attempt as u64))
            &&& holds(
                members,
                "started_unix_ms"@,
                ValueView::Integer(execution.started_unix_ms),
            )
            &&& holds(members, "ended_unix_ms"@, ValueView::Integer(execution.ended_unix_ms))
            &&& execution.exit_code matches Some(code) ==> holds(
                members,
                "exit_code"@,
                ValueView::Natural(code as u64),
            )
            &&& execution.exit_code is None ==> holds(members, "exit_code"@, ValueView::Null)
            &&& holds(members, "error"@, ValueView::Text(execution.error))
        }),
{
    let members = execution_members(execution);
    assert(members[0].0 == "execution_id"@ && members[1].0 == "workload_id"@ && members[2].0
        == "state"@ && members[3].0 == "supervisor_process_id"@ && members[4].0
        == "workload_process_id"@);
    assert(members[5].0 == "attempt"@ && members[6].0 == "started_unix_ms"@ && members[7].0
        == "ended_unix_ms"@ && members[8].0 == "exit_code"@ && members[9].0 == "error"@);
}

/// A version, the state of a controller and a record of output as objects hold all of them, each
/// part under its name.
pub proof fn law_other_objects_leave_nothing_out(
    version: VersionView,
    status: StatusView,
    record: LogView,
)
    ensures
        ({
            let members = version_members(version);
            &&& holds(members, "version"@, ValueView::Text(version.version))
            &&& holds(members, "identity"@, ValueView::Text(version.identity))
            &&& holds(members, "path"@, ValueView::Text(version.path))
            &&& holds(members, "current"@, ValueView::Flag(version.current))
            &&& holds(members, "pin_count"@, ValueView::Natural(version.pin_count as u64))
        }),
        ({
            let members = status_members(status);
            &&& holds(members, "registered"@, ValueView::Flag(status.registered))
            &&& holds(members, "running"@, ValueView::Flag(status.controller_running))
            &&& holds(members, "manager_session_id"@, ValueView::Text(status.manager_session_id))
            &&& holds(
                members,
                "process_id"@,
                ValueView::Natural(status.controller_process_id as u64),
            )
            &&& holds(members, "message"@, ValueView::Text(status.message))
        }),
        ({
            let members = log_members(record);
            &&& holds(members, "execution_id"@, ValueView::Text(record.execution_id))
            &&& holds(members, "attempt"@, ValueView::Natural(record.attempt as u64))
            &&& holds(members, "stream"@, ValueView::Text(record.stream))
            &&& holds(members, "sequence"@, ValueView::Natural(record.sequence))
            &&& holds(
                members,
                "timestamp_unix_ms"@,
                ValueView::Integer(record.timestamp_unix_ms),
            )
            &&& holds(members, "gap"@, ValueView::Text(record.gap))
        }),
{
    let members = version_members(version);
    assert(members[0].0 == "version"@ && members[1].0 == "identity"@ && members[2].0 == "path"@
        && members[3].0 == "current"@ && members[4].0 == "pin_count"@);
    let members = status_members(status);
    assert(members[0].0 == "registered"@ && members[1].0 == "running"@ && members[2].0
        == "manager_session_id"@ && members[3].0 == "process_id"@ && members[4].0 == "message"@);
    let members = log_members(record);
    assert(members[0].0 == "execution_id"@ && members[1].0 == "attempt"@ && members[2].0
        == "stream"@ && members[3].0 == "sequence"@ && members[4].0 == "timestamp_unix_ms"@
        && members[6].0 == "gap"@);
}

/// With which error the client ends: an answer without what was asked for is one, and so is a
/// reload that was refused, unless it is told to a program, which reads that itself. Everything
/// else ends well.
pub proof fn law_answers_end_in_errors_for_cause(response: Response, json: bool)
    ensures
        reply_to(response, json).error is Some <==> {
            ||| response matches Response::Workload(None)
            ||| response matches Response::Mutation { workload: None, .. }
            ||| response matches Response::Execution(None)
            ||| !json && (response matches Response::Reload(reload) && reload.diagnostics@.len() > 0)
        },
        reply_to(response, json).shown is Nothing <==> {
            ||| response matches Response::Workload(None)
            ||| response matches Response::Mutation { workload: None, .. }
            ||| response matches Response::Execution(None)
        },
{
}

/// What a program is told of an answer: lists with one object for each thing that was found, in the
/// order in which they came, and whether anything changed.
pub proof fn law_programs_are_told_everything(response: Response, i: int)
    ensures
        ({
            let shown = reply_to(response, true).shown;
            &&& response matches Response::Workloads(workloads) ==> (shown matches ShownView::Json(
                DocumentView::List(list),
            ) && list.len() == workloads@.len() && (0 <= i < list.len() ==> list[i]
                == workload_members(workloads@[i]@)))
            &&& response matches Response::Executions(executions) ==> (shown
                matches ShownView::Json(DocumentView::List(list)) && list.len()
                == executions@.len() && (0 <= i < list.len() ==> list[i] == execution_members(
                executions@[i]@,
            )))
            &&& response matches Response::Reload(reload) ==> (shown matches ShownView::Json(
                DocumentView::ObjectWithList { members, name, list },
            ) && holds(members, "changed"@, ValueView::Flag(reload.changed)) && holds(
                members,
                "generation"@,
                ValueView::Text(reload.generation@),
            ) && name == "diagnostics"@ && list.len() == reload.diagnostics@.len() && (0 <= i
                < list.len() ==> holds(
                list[i],
                "path"@,
                ValueView::Text(reload.diagnostics@[i].path@),
            ) && holds(list[i], "message"@, ValueView::Text(reload.diagnostics@[i].message@))))
            &&& response matches Response::Mutation { changed, workload: Some(workload) } ==> (shown
                matches ShownView::Json(DocumentView::ObjectWith { members, name, object })
                && holds(members, "changed"@, ValueView::Flag(changed)) && name == "workload"@
                && object == workload_members(workload@))
            &&& response matches Response::Execution(Some(execution)) ==> shown == ShownView::Json(
                DocumentView::Object(execution_members(execution@)),
            )
        }),
{
    if let Response::Reload(reload) = response {
        let shown = reply_to(response, true).shown->Json_0;
        let members = shown->ObjectWithList_members;
        assert(members[0] == ("changed"@, ValueView::Flag(reload.changed)));
        assert(members[1] == ("generation"@, ValueView::Text(reload.generation@)));
        let list = shown->list;
        if 0 <= i < list.len() {
            assert(list[i][0] == ("path"@, ValueView::Text(reload.diagnostics@[i].path@)));
            assert(list[i][1] == ("message"@, ValueView::Text(reload.diagnostics@[i].message@)));
        }
    }
    if let Response::Mutation { changed, workload: Some(_) } = response {
        let members = reply_to(response, true).shown->Json_0->ObjectWith_members;
        assert(members[0] == ("changed"@, ValueView::Flag(changed)));
    }
}

/// What people are told of an answer: a table with one row for each thing that was found, or that
/// there is none; a reload as a success exactly where something changed.
pub proof fn law_people_are_told_everything(response: Response, i: int)
    ensures
        ({
            let shown = reply_to(response, false).shown;
            &&& response matches Response::Workloads(workloads) ==> (shown
                matches ShownView::Blocks(blocks) && blocks.len() == 1 && (blocks[0] is Empty
                <==> workloads@.len() == 0) && (blocks[0] matches BlockView::Table { headers, rows }
                ==> rows.len() == workloads@.len() && (0 <= i < rows.len() ==> rows[i]
                == workload_row(workloads@[i]@))))
            &&& response matches Response::Executions(executions) ==> (shown
                matches ShownView::Blocks(blocks) && blocks.len() == 1 && (blocks[0] is Empty
                <==> executions@.len() == 0) && (blocks[0] matches BlockView::Table {
                headers,
                rows,
            } ==> rows.len() == executions@.len() && (0 <= i < rows.len() ==> rows[i]
                == execution_row(executions@[i]@))))
            &&& response matches Response::Workload(Some(workload)) ==> shown == ShownView::Blocks(
                seq![BlockView::Details(workload_details(workload@))],
            )
            &&& response matches Response::Execution(Some(execution)) ==> shown
                == ShownView::Blocks(seq![BlockView::Details(execution_details(execution@))])
            &&& response matches Response::Mutation { changed, workload: Some(workload) } ==> shown
                == ShownView::Blocks(mutation_blocks(changed, workload@))
            &&& response matches Response::Reload(reload) ==> (shown matches ShownView::Blocks(
                blocks,
            ) && (blocks[0] is Table <==> reload.diagnostics@.len() > 0) && (blocks[0] is Success
                <==> reload.diagnostics@.len() == 0 && reload.changed) && (blocks[0] is Notice
                <==> reload.diagnostics@.len() == 0 && !reload.changed))
        }),
{
}

/// What is told of the commands that are carried out here holds what came of them.
pub proof fn law_local_results_are_told(result: LocalResult, i: int)
    ensures
        ({
            let document = local_document(result);
            let blocks = local_blocks(result);
            &&& result matches LocalResult::ConfigDirectory(path) ==> (document
                matches DocumentView::Object(members) && holds(
                members,
                "path"@,
                ValueView::Text(path@),
            ) && blocks == seq![BlockView::Line(path@)])
            &&& result matches LocalResult::Installed { version, controller_process_id } ==> (
            document matches DocumentView::Object(members) && holds(
                members,
                "version"@,
                ValueView::Text(version@.version),
            ) && holds(
                members,
                "controller_process_id"@,
                ValueView::Natural(controller_process_id as u64),
            ))
            &&& result matches LocalResult::Collected(removed) ==> (document
                matches DocumentView::Object(members) && holds(
                members,
                "removed"@,
                ValueView::Natural(removed as u64),
            ))
            &&& result matches LocalResult::Uninstalled ==> (document matches DocumentView::Object(
                members,
            ) && holds(members, "uninstalled"@, ValueView::Flag(true)))
            &&& result matches LocalResult::Selected(version) ==> document == DocumentView::Object(
                version_members(version@),
            )
            &&& result matches LocalResult::Versions(versions) ==> (document
                matches DocumentView::List(list) && list.len() == versions@.len() && (0 <= i
                < list.len() ==> list[i] == version_members(versions@[i]@)))
            &&& result matches LocalResult::Versions(versions) ==> (blocks[0] is Empty
                <==> versions@.len() == 0)
            &&& result matches LocalResult::Controller(status) ==> document == DocumentView::Object(
                status_members(status@),
            ) && blocks == seq![BlockView::Details(controller_details(status@))]
            &&& result matches LocalResult::Restarted(status) ==> document == DocumentView::Object(
                status_members(status@),
            )
        }),
{
    let document = local_document(result);
    match result {
        LocalResult::ConfigDirectory(path) => {
            assert(document->Object_0[0] == ("path"@, ValueView::Text(path@)));
        },
        LocalResult::Installed { version, controller_process_id } => {
            let members = document->Object_0;
            assert(members[0] == ("version"@, ValueView::Text(version@.version)));
            assert(members[members.len() - 1] == (
                "controller_process_id"@,
                ValueView::Natural(controller_process_id as u64),
            ));
        },
        LocalResult::Collected(removed) => {
            assert(document->Object_0[0] == ("removed"@, ValueView::Natural(removed as u64)));
        },
        LocalResult::Uninstalled => {
            assert(document->Object_0[0] == ("uninstalled"@, ValueView::Flag(true)));
        },
        _ => {},
    }
}

/// A line ends at its first end of line and includes it, or else at the end.
pub proof fn law_lines_end_at_their_end(bytes: Seq<u8>)
    requires
        bytes.len() > 0,
    ensures
        0 < line_end(bytes) <= bytes.len(),
        forall|i: int| 0 <= i < line_end(bytes) - 1 ==> #[trigger] bytes[i] != 10,
        bytes[line_end(bytes) - 1] == 10 || line_end(bytes) == bytes.len(),
    decreases bytes.len(),
{
    if bytes[0] != 10 && bytes.len() > 1 {
        let rest = bytes.drop_first();
        law_lines_end_at_their_end(rest);
        assert forall|i: int| 0 <= i < line_end(bytes) - 1 implies #[trigger] bytes[i] != 10 by {
            if i > 0 {
                assert(rest[i - 1] == bytes[i]);
            }
        }
        assert(rest[line_end(rest) - 1] == bytes[line_end(bytes) - 1]);
    } else if bytes.len() == 1 {
        assert(bytes.drop_first().len() == 0);
        assert(line_end(bytes.drop_first()) == 0);
    }
}

/// The marks of a line are those that were asked for: its time, and its stream with its attempt.
pub proof fn law_marks_are_those_asked_for(record: LogView, options: LogOptions)
    ensures
        ({
            let pieces = prefix_pieces(record, options);
            let time = PieceView::Label {
                style: LabelStyle::Dimmed,
                text: crate::cli::output::shown_time(record.timestamp_unix_ms),
            };
            &&& pieces.len() == 0 <==> !options.timestamps && !options.prefix
            &&& options.timestamps ==> pieces[0] == time
            &&& options.prefix ==> (pieces[pieces.len() - 2] matches PieceView::Label { style, text }
                && text == record.stream + "#"@ + decimal(record.attempt as nat) && (style
                == LabelStyle::Magenta <==> record.stream == "stderr"@) && (style
                == LabelStyle::Cyan <==> record.stream != "stderr"@))
            &&& options.timestamps && !options.prefix ==> pieces.len() == 2
            &&& !options.timestamps && options.prefix ==> pieces.len() == 2
        }),
{
}

/// Where a record is printed: what a workload wrote to its standard error on the standard error, what
/// it wrote to its standard output on the standard output, and a gap as a warning on the standard
/// error. The other stream is not touched, and a stream that a line was ended on begins the next.
pub proof fn law_records_are_printed_on_their_stream(
    before: HumanOutput,
    record: LogView,
    options: LogOptions,
    printed: Printed,
    after: HumanOutput,
)
    requires
        prints(before, record, options, printed, after),
    ensures
        printed.to_stderr <==> record.gap.len() > 0 || record.stream == "stderr"@,
        printed.to_stderr ==> after.stdout_line_start == before.stdout_line_start,
        !printed.to_stderr ==> after.stderr_line_start == before.stderr_line_start,
        record.gap.len() > 0 ==> after.stderr_line_start,
        record.gap.len() == 0 && record.message.len() > 0 && record.stream == "stderr"@ ==> (
        after.stderr_line_start <==> record.message.last() == 10),
        record.gap.len() == 0 && record.message.len() > 0 && record.stream != "stderr"@ ==> (
        after.stdout_line_start <==> record.message.last() == 10),
        record.gap.len() == 0 && record.message.len() == 0 ==> after == before,
        record.gap.len() == 0 ==> crate::cli::logs::bytes_printed(piece_views(printed.pieces@))
            == record.message,
        record.gap.len() > 0 ==> exists|i: int|
            0 <= i < printed.pieces@.len() && #[trigger] piece_views(printed.pieces@)[i]
                == PieceView::Text(" log gap: "@ + record.gap + "\n"@),
        record.gap.len() == 0 && !options.timestamps && !options.prefix ==> piece_views(
            printed.pieces@,
        ) == seq![PieceView::Bytes(record.message)],
{
    let stderr = record.stream == "stderr"@;
    if record.gap.len() == 0 {
        crate::cli::logs::law_log_bytes_are_never_changed(
            record,
            options,
            if stderr {
                before.stderr_line_start
            } else {
                before.stdout_line_start
            },
        );
    } else {
        let pieces = piece_views(printed.pieces@);
        assert(pieces.len() == printed.pieces@.len());
        assert(pieces[pieces.len() - 1] == PieceView::Text(" log gap: "@ + record.gap + "\n"@));
    }
}

/// A shortened text is the beginning of the text, of that many bytes; a text is shown in full where it
/// has no more, or where a character would be cut.
pub proof fn law_shortened_texts_begin_the_text(value: Seq<char>, length: int)
    requires
        0 <= length,
    ensures
        ({
            let bytes = encode_utf8(value);
            let text = shortened(value, length);
            &&& length >= bytes.len() ==> text == value
            &&& length < bytes.len() && !(0x80 <= bytes[length] <= 0xbf) ==> encode_utf8(text)
                == bytes.take(length)
            &&& length < bytes.len() && 0x80 <= bytes[length] <= 0xbf ==> text == value
        }),
{
    let bytes = encode_utf8(value);
    encode_utf8_decode_utf8(value);
    encode_utf8_valid_utf8(value);
    is_char_boundary_start_end_of_seq(bytes);
    if length < bytes.len() {
        is_char_boundary_iff_not_is_continuation_byte(bytes, length);
        if is_char_boundary(bytes, length) {
            valid_utf8_split(bytes, length);
            assert(bytes.take(length) =~= bytes.subrange(0, length));
            decode_utf8_encode_utf8(bytes.take(length));
        }
    } else {
        assert(bytes.take(bytes.len() as int) =~= bytes);
    }
}

} // verus!
