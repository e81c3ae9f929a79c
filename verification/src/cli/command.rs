//! What the client does for a command: what it asks, of whom, and what it makes of the answer.

use vstd::prelude::*;
use vstd::string::*;

use crate::cli::json::{
    Document, DocumentView, execution_json, execution_members, executions_json, mutation_json,
    reload_document, reload_json, workload_members, workloads_json,
};
use crate::cli::output::{
    Block, BlockView, HumanOutput, block_views, detail, diagnostic_row, execution_details,
    execution_headers, execution_row, mutation_blocks, table, Tone, workload_details,
    workload_headers, workload_row,
};
use crate::control::{Diagnostic, ReadLogsRequest, ReloadResponse, parse_uuid, uuid_of};
use crate::host::state::HostStatus;
use crate::manager::model::{Execution, Workload};
use crate::pipe::{UserSid, control_pipe_name, user_pipe};

verus! {

/// Which captured output is asked for.
#[derive(Clone, Copy, Debug, PartialEq, Eq, Structural)]
pub enum LogStream {
    Stdout,
    Stderr,
    All,
}

impl LogStream {
    pub open spec fn text(self) -> Seq<char> {
        match self {
            LogStream::Stdout => "stdout"@,
            LogStream::Stderr => "stderr"@,
            LogStream::All => "all"@,
        }
    }

    pub fn as_str(self) -> (text: &'static str)
        ensures
            text@ == self.text(),
    {
        match self {
            LogStream::Stdout => "stdout",
            LogStream::Stderr => "stderr",
            LogStream::All => "all",
        }
    }
}

/// A command of the user.
#[derive(Debug)]
pub enum Command {
    ConfigPath,
    Completions,
    Reload,
    List,
    Status { workload: String },
    Start { service: String },
    Stop { service: String },
    Restart { service: String },
    Run { job: String },
    Cancel { job: String },
    Rerun { job: String },
    Enable { workload: String },
    Disable { workload: String },
    Executions { workload: String },
    Execution { execution_id: String },
    Logs {
        workload: String,
        execution: Option<String>,
        attempt: Option<u32>,
        stream: LogStream,
        follow: bool,
    },
    ControllerStatus,
    ControllerRestart,
    Install { user: bool, source: Option<String> },
    Uninstall { user: bool },
    Upgrade { source: Option<String>, gc: bool },
    Rollback { version_or_manifest_prefix: String },
    Versions,
}

/// What is asked of the controller.
#[derive(Debug)]
pub enum Request {
    Reload,
    ListWorkloads { page_size: u32, cursor: String },
    GetWorkload { workload_id: String },
    Start { workload_id: String },
    Stop { workload_id: String },
    Restart { workload_id: String },
    Run { workload_id: String },
    Cancel { workload_id: String },
    Rerun { workload_id: String },
    Enable { workload_id: String },
    Disable { workload_id: String },
    ListExecutions { workload_id: String, page_size: u32, cursor: String },
    GetExecution { execution_id: String },
    ReadLogs(ReadLogsRequest),
}

/// What the client does for a command.
#[derive(Debug)]
pub enum Plan {
    ShowConfigDirectory,
    GenerateCompletions,
    /// A bundle is installed, without a source the one beside the client.
    Install { source: Option<String> },
    Uninstall,
    Upgrade { source: String },
    CollectGarbage,
    Rollback { prefix: String },
    ListVersions,
    ShowController,
    RestartController,
    /// The controller is asked this.
    Ask(Request),
}

/// How many workloads are listed at once.
pub const WORKLOAD_PAGE: u32 = 1000;

/// How many executions are listed at once.
pub const EXECUTION_PAGE: u32 = 100;

/// Whether a request for captured output asks for what a command names.
pub open spec fn asks_for(
    request: ReadLogsRequest,
    workload: Seq<char>,
    execution: Option<String>,
    attempt: Option<u32>,
    stream: LogStream,
    follow: bool,
) -> bool {
    &&& request.workload_id@ == workload
    &&& request.execution_id@ == match execution {
        Some(id) => id@,
        None => Seq::empty(),
    }
    &&& request.attempt == match attempt {
        Some(number) => number,
        None => 0,
    }
    &&& request.stream@ == stream.text()
    &&& request.follow == follow
}

/// Whether a request is the one that a command makes.
pub open spec fn is_request(command: Command, request: Request) -> bool {
    match command {
        Command::Reload => request == Request::Reload,
        Command::List => request matches Request::ListWorkloads { page_size, cursor } && page_size
            == WORKLOAD_PAGE && cursor@ == Seq::<char>::empty(),
        Command::Status { workload } => request matches Request::GetWorkload { workload_id }
            && workload_id@ == workload@,
        Command::Start { service } => request matches Request::Start { workload_id } && workload_id@
            == service@,
        Command::Stop { service } => request matches Request::Stop { workload_id } && workload_id@
            == service@,
        Command::Restart { service } => request matches Request::Restart { workload_id }
            && workload_id@ == service@,
        Command::Run { job } => request matches Request::Run { workload_id } && workload_id@ == job@,
        Command::Cancel { job } => request matches Request::Cancel { workload_id } && workload_id@
            == job@,
        Command::Rerun { job } => request matches Request::Rerun { workload_id } && workload_id@
            == job@,
        Command::Enable { workload } => request matches Request::Enable { workload_id }
            && workload_id@ == workload@,
        Command::Disable { workload } => request matches Request::Disable { workload_id }
            && workload_id@ == workload@,
        Command::Executions { workload } => request matches Request::ListExecutions {
            workload_id,
            page_size,
            cursor,
        } && workload_id@ == workload@ && page_size == EXECUTION_PAGE && cursor@ == Seq::<
            char,
        >::empty(),
        Command::Execution { execution_id } => request matches Request::GetExecution {
            execution_id: id,
        } && id@ == execution_id@,
        Command::Logs { workload, execution, attempt, stream, follow } =>
            request matches Request::ReadLogs(logs) && asks_for(
            logs,
            workload@,
            execution,
            attempt,
            stream,
            follow,
        ),
        _ => false,
    }
}

/// Whether a plan is the one for a command.
pub open spec fn is_plan(command: Command, plan: Plan) -> bool {
    match command {
        Command::ConfigPath => plan == Plan::ShowConfigDirectory,
        Command::Completions => plan == Plan::GenerateCompletions,
        Command::Install { user, source } => user && plan == (Plan::Install { source }),
        Command::Uninstall { user } => user && plan == Plan::Uninstall,
        Command::Upgrade { source, gc } => match (source, gc) {
            (Some(path), false) => plan == (Plan::Upgrade { source: path }),
            (None, true) => plan == Plan::CollectGarbage,
            _ => false,
        },
        Command::Rollback { version_or_manifest_prefix } => plan == (Plan::Rollback {
            prefix: version_or_manifest_prefix,
        }),
        Command::Versions => plan == Plan::ListVersions,
        Command::ControllerStatus => plan == Plan::ShowController,
        Command::ControllerRestart => plan == Plan::RestartController,
        _ => plan matches Plan::Ask(request) && is_request(command, request),
    }
}

/// Why a command is refused, or nothing.
pub open spec fn command_refusal(command: Command) -> Option<Seq<char>> {
    match command {
        Command::Install { user, source: _ } => if user {
            None
        } else {
            Some("only per-user installation is supported; pass --user"@)
        },
        Command::Uninstall { user } => if user {
            None
        } else {
            Some("only per-user uninstallation is supported; pass --user"@)
        },
        Command::Upgrade { source, gc } => if source is Some != gc {
            None
        } else {
            Some("provide one bundle path or the gc subcommand"@)
        },
        _ => None,
    }
}

/// What the client does for a command, or why it does nothing.
pub fn plan(command: Command) -> (result: Result<Plan, String>)
    ensures
        match result {
            Ok(plan) => command_refusal(command) is None && is_plan(command, plan),
            Err(reason) => command_refusal(command) == Some(reason@),
        },
{
    Ok(
        match command {
            Command::ConfigPath => Plan::ShowConfigDirectory,
            Command::Completions => Plan::GenerateCompletions,
            Command::Install { user, source } => {
                if !user {
                    return Err("only per-user installation is supported; pass --user".to_owned());
                }
                Plan::Install { source }
            },
            Command::Uninstall { user } => {
                if !user {
                    return Err("only per-user uninstallation is supported; pass --user".to_owned());
                }
                Plan::Uninstall
            },
            Command::Upgrade { source, gc } => match (source, gc) {
                (Some(path), false) => Plan::Upgrade { source: path },
                (None, true) => Plan::CollectGarbage,
                _ => {
                    return Err("provide one bundle path or the gc subcommand".to_owned());
                },
            },
            Command::Rollback { version_or_manifest_prefix } => Plan::Rollback {
                prefix: version_or_manifest_prefix,
            },
            Command::Versions => Plan::ListVersions,
            Command::ControllerStatus => Plan::ShowController,
            Command::ControllerRestart => Plan::RestartController,
            Command::Reload => Plan::Ask(Request::Reload),
            Command::List => {
                let cursor: String = String::new();
                assert(cursor@ =~= Seq::<char>::empty());
                Plan::Ask(Request::ListWorkloads { page_size: WORKLOAD_PAGE, cursor })
            },
            Command::Status { workload } => Plan::Ask(
                Request::GetWorkload { workload_id: workload },
            ),
            Command::Start { service } => Plan::Ask(Request::Start { workload_id: service }),
            Command::Stop { service } => Plan::Ask(Request::Stop { workload_id: service }),
            Command::Restart { service } => Plan::Ask(Request::Restart { workload_id: service }),
            Command::Run { job } => Plan::Ask(Request::Run { workload_id: job }),
            Command::Cancel { job } => Plan::Ask(Request::Cancel { workload_id: job }),
            Command::Rerun { job } => Plan::Ask(Request::Rerun { workload_id: job }),
            Command::Enable { workload } => Plan::Ask(Request::Enable { workload_id: workload }),
            Command::Disable { workload } => Plan::Ask(Request::Disable { workload_id: workload }),
            Command::Executions { workload } => {
                let cursor: String = String::new();
                assert(cursor@ =~= Seq::<char>::empty());
                Plan::Ask(
                    Request::ListExecutions {
                        workload_id: workload,
                        page_size: EXECUTION_PAGE,
                        cursor,
                    },
                )
            },
            Command::Execution { execution_id } => Plan::Ask(
                Request::GetExecution { execution_id },
            ),
            Command::Logs { workload, execution, attempt, stream, follow } => {
                let execution_id: String = match execution {
                    Some(id) => id,
                    None => String::new(),
                };
                proof {
                    if execution is None {
                        assert(execution_id@ =~= Seq::empty());
                    }
                }
                Plan::Ask(
                    Request::ReadLogs(
                        ReadLogsRequest {
                            workload_id: workload,
                            execution_id,
                            attempt: match attempt {
                                Some(number) => number,
                                None => 0,
                            },
                            stream: stream.as_str().to_owned(),
                            follow,
                        },
                    ),
                )
            },
        },
    )
}

/// The pipe of the controller that runs for a user, or why there is none, where the id of its
/// session reads as `session`.
pub fn judge_controller(sid: &UserSid, status: &HostStatus, session: Result<u128, String>) -> (
result: Result<String, String>)
    ensures
        match result {
            Ok(name) => status@.controller_running && status@.manager_session_id.len() > 0
                && session is Ok && name@ == user_pipe(
                sid@,
                status@.manager_session_id,
                "control"@,
            ),
            Err(reason) => if !status@.controller_running || status@.manager_session_id.len() == 0 {
                reason@ == "no controller is running for the current manager session"@
            } else {
                session matches Err(refused) && reason@ == refused@
            },
        },
{
    if !status.controller_running || status.manager_session_id.as_str().unicode_len() == 0 {
        return Err("no controller is running for the current manager session".to_owned());
    }
    match session {
        Ok(_) => Ok(control_pipe_name(sid, status.manager_session_id.as_str())),
        Err(reason) => Err(reason),
    }
}

/// The pipe of the controller that runs for a user, or why there is none.
pub fn controller_pipe(sid: &UserSid, status: &HostStatus) -> (result: Result<String, String>)
    ensures
        match result {
            Ok(name) => status@.controller_running && status@.manager_session_id.len() > 0
                && uuid_of(status@.manager_session_id) is Ok && name@ == user_pipe(
                sid@,
                status@.manager_session_id,
                "control"@,
            ),
            Err(reason) => if !status@.controller_running || status@.manager_session_id.len() == 0 {
                reason@ == "no controller is running for the current manager session"@
            } else {
                uuid_of(status@.manager_session_id) == Err::<u128, Seq<char>>(reason@)
            },
        },
{
    judge_controller(sid, status, parse_uuid(status.manager_session_id.as_str()))
}

/// How the controller of the user stands, as the host answers.
pub fn host_answer(status: Option<HostStatus>) -> (result: Result<HostStatus, String>)
    ensures
        match result {
            Ok(found) => status == Some(found),
            Err(reason) => status is None && reason@ == "host returned no status"@,
        },
{
    match status {
        Some(found) => Ok(found),
        None => Err("host returned no status".to_owned()),
    }
}

/// What the controller answers.
#[derive(Debug)]
pub enum Response {
    Reload(ReloadResponse),
    Workloads(Vec<Workload>),
    Workload(Option<Workload>),
    Mutation { changed: bool, workload: Option<Workload> },
    Executions(Vec<Execution>),
    Execution(Option<Execution>),
}

/// What is shown of an answer.
#[derive(Debug)]
pub enum Shown {
    Nothing,
    Json(Document),
    Blocks(Vec<Block>),
}

#[verifier::ext_equal]
pub enum ShownView {
    Nothing,
    Json(DocumentView),
    Blocks(Seq<BlockView>),
}

impl Shown {
    pub open spec fn view(&self) -> ShownView {
        match *self {
            Shown::Nothing => ShownView::Nothing,
            Shown::Json(document) => ShownView::Json(document@),
            Shown::Blocks(blocks) => ShownView::Blocks(block_views(blocks@)),
        }
    }
}

/// What is made of an answer: what is shown, and with which error the client ends.
#[derive(Debug)]
pub struct Reply {
    pub shown: Shown,
    pub error: Option<String>,
}

#[verifier::ext_equal]
pub struct ReplyView {
    pub shown: ShownView,
    pub error: Option<Seq<char>>,
}

impl Reply {
    pub open spec fn view(&self) -> ReplyView {
        ReplyView {
            shown: self.shown@,
            error: match self.error {
                Some(text) => Some(text@),
                None => None,
            },
        }
    }
}

/// A reply that only shows something.
pub open spec fn showing(shown: ShownView) -> ReplyView {
    ReplyView { shown, error: None }
}

/// A reply that is only an error.
pub open spec fn failing(reason: Seq<char>) -> ReplyView {
    ReplyView { shown: ShownView::Nothing, error: Some(reason) }
}

/// What is made of the answer to a reload.
pub open spec fn reload_reply(response: ReloadResponse, json: bool) -> ReplyView {
    if json {
        showing(
            ShownView::Json(
                reload_document(response.changed, response.generation@, response.diagnostics@),
            ),
        )
    } else if response.diagnostics@.len() == 0 {
        showing(
            ShownView::Blocks(
                seq![
                    if response.changed {
                        BlockView::Success("Configuration reloaded"@)
                    } else {
                        BlockView::Notice("Configuration unchanged"@)
                    },
                    BlockView::Details(
                        seq![detail("Generation"@, response.generation@, Tone::Plain)],
                    ),
                ],
            ),
        )
    } else {
        ReplyView {
            shown: ShownView::Blocks(
                seq![
                    BlockView::Table {
                        headers: seq!["FILE"@, "ERROR"@],
                        rows: response.diagnostics@.map_values(
                            |diagnostic: Diagnostic| diagnostic_row(diagnostic),
                        ),
                    },
                ],
            ),
            error: Some("configuration was not reloaded"@),
        }
    }
}

/// What is made of an answer.
pub open spec fn reply_to(response: Response, json: bool) -> ReplyView {
    match response {
        Response::Reload(response) => reload_reply(response, json),
        Response::Workloads(workloads) => showing(
            if json {
                ShownView::Json(
                    DocumentView::List(
                        workloads@.map_values(|workload: Workload| workload_members(workload@)),
                    ),
                )
            } else {
                ShownView::Blocks(
                    seq![
                        table(
                            workload_headers(),
                            workloads@.map_values(|workload: Workload| workload_row(workload@)),
                            "No workloads"@,
                        ),
                    ],
                )
            },
        ),
        Response::Workload(None) => failing("controller returned no workload"@),
        Response::Workload(Some(workload)) => showing(
            if json {
                ShownView::Json(DocumentView::List(seq![workload_members(workload@)]))
            } else {
                ShownView::Blocks(seq![BlockView::Details(workload_details(workload@))])
            },
        ),
        Response::Mutation { changed: _, workload: None } => failing(
            "controller returned no workload"@,
        ),
        Response::Mutation { changed, workload: Some(workload) } => showing(
            if json {
                ShownView::Json(
                    DocumentView::ObjectWith {
                        members: seq![
                            ("changed"@, crate::cli::json::ValueView::Flag(changed)),
                        ],
                        name: "workload"@,
                        object: workload_members(workload@),
                    },
                )
            } else {
                ShownView::Blocks(mutation_blocks(changed, workload@))
            },
        ),
        Response::Executions(executions) => showing(
            if json {
                ShownView::Json(
                    DocumentView::List(
                        executions@.map_values(
                            |execution: Execution| execution_members(execution@),
                        ),
                    ),
                )
            } else {
                ShownView::Blocks(
                    seq![
                        table(
                            execution_headers(),
                            executions@.map_values(
                                |execution: Execution| execution_row(execution@),
                            ),
                            "No executions"@,
                        ),
                    ],
                )
            },
        ),
        Response::Execution(None) => failing("controller returned no execution"@),
        Response::Execution(Some(execution)) => showing(
            if json {
                ShownView::Json(DocumentView::Object(execution_members(execution@)))
            } else {
                ShownView::Blocks(seq![BlockView::Details(execution_details(execution@))])
            },
        ),
    }
}

fn show(shown: Shown) -> (reply: Reply)
    ensures
        reply@ == showing(shown@),
{
    Reply { shown, error: None }
}

fn fail(reason: &str) -> (reply: Reply)
    ensures
        reply@ == failing(reason@),
{
    Reply { shown: Shown::Nothing, error: Some(reason.to_owned()) }
}

pub(crate) fn one_block(block: Block) -> (shown: Shown)
    ensures
        shown@ == ShownView::Blocks(seq![block@]),
{
    let mut blocks: Vec<Block> = Vec::new();
    blocks.push(block);
    assert(block_views(blocks@) =~= seq![block@]);
    Shown::Blocks(blocks)
}

fn show_reload(response: ReloadResponse, json: bool, output: &HumanOutput) -> (reply: Reply)
    ensures
        reply@ == reload_reply(response, json),
{
    if json {
        return show(
            Shown::Json(
                reload_json(
                    response.changed,
                    response.generation.as_str(),
                    &response.diagnostics,
                ),
            ),
        );
    }
    if response.diagnostics.len() == 0 {
        return show(
            Shown::Blocks(output.reload(response.changed, response.generation.as_str())),
        );
    }
    Reply {
        shown: one_block(output.reload_diagnostics(&response.diagnostics)),
        error: Some("configuration was not reloaded".to_owned()),
    }
}

/// What is made of an answer of the controller, for programs or for people.
pub fn run_rpc(response: Response, json: bool, output: &HumanOutput) -> (reply: Reply)
    ensures
        reply@ == reply_to(response, json),
{
    match response {
        Response::Reload(response) => show_reload(response, json, output),
        Response::Workloads(workloads) => {
            if json {
                show(Shown::Json(workloads_json(&workloads)))
            } else {
                show(one_block(output.workloads(&workloads)))
            }
        },
        Response::Workload(None) => fail("controller returned no workload"),
        Response::Workload(Some(workload)) => {
            if json {
                let ghost members = workload_members(workload@);
                let mut one: Vec<Workload> = Vec::new();
                one.push(workload);
                let document: Document = workloads_json(&one);
                assert(one@.map_values(|workload: Workload| workload_members(workload@)) =~= seq![
                    members,
                ]);
                show(Shown::Json(document))
            } else {
                show(one_block(output.workload(&workload)))
            }
        },
        Response::Mutation { changed: _, workload: None } => {
            fail("controller returned no workload")
        },
        Response::Mutation { changed, workload: Some(workload) } => {
            if json {
                show(Shown::Json(mutation_json(changed, &workload)))
            } else {
                show(Shown::Blocks(output.mutation(changed, &workload)))
            }
        },
        Response::Executions(executions) => {
            if json {
                show(Shown::Json(executions_json(&executions)))
            } else {
                show(one_block(output.executions(&executions)))
            }
        },
        Response::Execution(None) => fail("controller returned no execution"),
        Response::Execution(Some(execution)) => {
            if json {
                show(Shown::Json(Document::Object(execution_json(&execution))))
            } else {
                show(one_block(output.execution(&execution)))
            }
        },
    }
}

} // verus!
