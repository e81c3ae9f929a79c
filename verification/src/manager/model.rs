//! What the manager knows of a workload and of an execution, and how it shows them.

use vstd::prelude::*;
use vstd::string::*;

use crate::messages::{ConfigurationView, ExecutionConfiguration, copy_bytes};
use crate::storage::{ExecutionRow, StoredExecution};
use crate::text::{same_text, text_view};

verus! {

/// What the manager knows of a workload.
#[derive(Debug)]
pub struct WorkloadRecord {
    pub kind: String,
    pub definition: Option<ExecutionConfiguration>,
    /// The digest of the policy of the definition.
    pub policy_hash: Vec<u8>,
    pub enabled: bool,
    pub last_outcome: String,
}

#[verifier::ext_equal]
pub struct WorkloadFacts {
    pub kind: Seq<char>,
    pub definition: Option<ConfigurationView>,
    pub policy_hash: Seq<u8>,
    pub enabled: bool,
    pub last_outcome: Seq<char>,
}

/// The configuration that may be there.
pub open spec fn configuration_view(configuration: Option<ExecutionConfiguration>) -> Option<
    ConfigurationView,
> {
    match configuration {
        Some(configuration) => Some(configuration@),
        None => None,
    }
}

impl WorkloadRecord {
    pub open spec fn view(&self) -> WorkloadFacts {
        WorkloadFacts {
            kind: self.kind@,
            definition: configuration_view(self.definition),
            policy_hash: self.policy_hash@,
            enabled: self.enabled,
            last_outcome: self.last_outcome@,
        }
    }
}

/// Where an execution stands.
#[derive(Clone, Copy, Debug, PartialEq, Eq, Structural)]
pub enum ActiveState {
    Starting,
    Launching,
    Running,
    LaunchFailed,
    AttemptExited,
    SupervisorLost,
    RestartBackoff,
    Stopping,
    Recovering,
}

impl ActiveState {
    pub open spec fn text(self) -> Seq<char> {
        match self {
            ActiveState::Starting => "starting"@,
            ActiveState::Launching => "launching"@,
            ActiveState::Running => "running"@,
            ActiveState::LaunchFailed => "launch-failed"@,
            ActiveState::AttemptExited => "attempt-exited"@,
            ActiveState::SupervisorLost => "supervisor-lost"@,
            ActiveState::RestartBackoff => "restart-backoff"@,
            ActiveState::Stopping => "stopping"@,
            ActiveState::Recovering => "recovering"@,
        }
    }

    pub fn name(self) -> (name: &'static str)
        ensures
            name@ == self.text(),
    {
        match self {
            ActiveState::Starting => "starting",
            ActiveState::Launching => "launching",
            ActiveState::Running => "running",
            ActiveState::LaunchFailed => "launch-failed",
            ActiveState::AttemptExited => "attempt-exited",
            ActiveState::SupervisorLost => "supervisor-lost",
            ActiveState::RestartBackoff => "restart-backoff",
            ActiveState::Stopping => "stopping",
            ActiveState::Recovering => "recovering",
        }
    }
}

/// The state that a text names; a text that names none means that the execution is recovering.
pub open spec fn state_named(text: Seq<char>) -> ActiveState {
    if text == "starting"@ {
        ActiveState::Starting
    } else if text == "launching"@ {
        ActiveState::Launching
    } else if text == "running"@ {
        ActiveState::Running
    } else if text == "launch-failed"@ {
        ActiveState::LaunchFailed
    } else if text == "attempt-exited"@ {
        ActiveState::AttemptExited
    } else if text == "supervisor-lost"@ {
        ActiveState::SupervisorLost
    } else if text == "restart-backoff"@ {
        ActiveState::RestartBackoff
    } else if text == "stopping"@ {
        ActiveState::Stopping
    } else {
        ActiveState::Recovering
    }
}

pub fn active_state(text: &str) -> (state: ActiveState)
    ensures
        state == state_named(text@),
{
    if same_text(text, "starting") {
        ActiveState::Starting
    } else if same_text(text, "launching") {
        ActiveState::Launching
    } else if same_text(text, "running") {
        ActiveState::Running
    } else if same_text(text, "launch-failed") {
        ActiveState::LaunchFailed
    } else if same_text(text, "attempt-exited") {
        ActiveState::AttemptExited
    } else if same_text(text, "supervisor-lost") {
        ActiveState::SupervisorLost
    } else if same_text(text, "restart-backoff") {
        ActiveState::RestartBackoff
    } else if same_text(text, "stopping") {
        ActiveState::Stopping
    } else {
        ActiveState::Recovering
    }
}

/// What a state is called names that state.
pub proof fn law_states_are_named_apart(state: ActiveState)
    ensures
        state_named(state.text()) == state,
{
    reveal_strlit("starting");
    reveal_strlit("launching");
    reveal_strlit("running");
    reveal_strlit("launch-failed");
    reveal_strlit("attempt-exited");
    reveal_strlit("supervisor-lost");
    reveal_strlit("restart-backoff");
    reveal_strlit("stopping");
    reveal_strlit("recovering");
    assert("starting"@[0] == 's' && "starting"@[2] == 'a');
    assert("launching"@[6] == 'i' && "launch-failed"@[6] == '-');
    assert("running"@[0] == 'r' && "running"@[1] == 'u');
    assert("supervisor-lost"@[1] == 'u' && "stopping"@[2] == 'o');
    assert("restart-backoff"@[2] == 's' && "recovering"@[2] == 'c');
}

/// An execution that has not ended.
#[derive(Debug)]
pub struct ActiveExecution {
    pub execution_id: String,
    pub supervisor_process_id: u32,
    pub workload_process_id: u32,
    pub attempt: u32,
    pub error: String,
    pub state: ActiveState,
    /// Whether this manager launched the supervisor and waits for it.
    pub locally_owned: bool,
    /// Whether the workload is started again once the execution has ended.
    pub restart_after: bool,
    pub process_definition_hash: Vec<u8>,
    pub policy_hash: Vec<u8>,
    /// Whether the definition has changed in what only a restart can change.
    pub restart_required: bool,
    /// Whether the supervisor has not yet confirmed the current policy.
    pub policy_sync_pending: bool,
    /// The attachment of the supervisor, while it is attached.
    pub attachment_id: Option<String>,
}

#[verifier::ext_equal]
pub struct ActiveFacts {
    pub execution_id: Seq<char>,
    pub supervisor_process_id: u32,
    pub workload_process_id: u32,
    pub attempt: u32,
    pub error: Seq<char>,
    pub state: ActiveState,
    pub locally_owned: bool,
    pub restart_after: bool,
    pub process_definition_hash: Seq<u8>,
    pub policy_hash: Seq<u8>,
    pub restart_required: bool,
    pub policy_sync_pending: bool,
    pub attachment_id: Option<Seq<char>>,
}

impl ActiveExecution {
    pub open spec fn view(&self) -> ActiveFacts {
        ActiveFacts {
            execution_id: self.execution_id@,
            supervisor_process_id: self.supervisor_process_id,
            workload_process_id: self.workload_process_id,
            attempt: self.attempt,
            error: self.error@,
            state: self.state,
            locally_owned: self.locally_owned,
            restart_after: self.restart_after,
            process_definition_hash: self.process_definition_hash@,
            policy_hash: self.policy_hash@,
            restart_required: self.restart_required,
            policy_sync_pending: self.policy_sync_pending,
            attachment_id: text_view(self.attachment_id),
        }
    }
}

impl Clone for ActiveExecution {
    fn clone(&self) -> (copy: ActiveExecution)
        ensures
            copy@ == self@,
    {
        ActiveExecution {
            execution_id: self.execution_id.clone(),
            supervisor_process_id: self.supervisor_process_id,
            workload_process_id: self.workload_process_id,
            attempt: self.attempt,
            error: self.error.clone(),
            state: self.state,
            locally_owned: self.locally_owned,
            restart_after: self.restart_after,
            process_definition_hash: copy_bytes(&self.process_definition_hash),
            policy_hash: copy_bytes(&self.policy_hash),
            restart_required: self.restart_required,
            policy_sync_pending: self.policy_sync_pending,
            attachment_id: match &self.attachment_id {
                Some(id) => Some(id.clone()),
                None => None,
            },
        }
    }
}

/// A workload as it is shown.
#[derive(Debug)]
pub struct Workload {
    pub workload_id: String,
    pub kind: String,
    pub enabled: bool,
    pub state: String,
    pub execution_id: String,
    pub supervisor_process_id: u32,
    pub workload_process_id: u32,
    pub attempt: u32,
    pub error: String,
    pub last_outcome: String,
    pub definition_missing: bool,
    pub restart_required: bool,
    pub policy_sync_pending: bool,
}

#[verifier::ext_equal]
pub struct WorkloadView {
    pub workload_id: Seq<char>,
    pub kind: Seq<char>,
    pub enabled: bool,
    pub state: Seq<char>,
    pub execution_id: Seq<char>,
    pub supervisor_process_id: u32,
    pub workload_process_id: u32,
    pub attempt: u32,
    pub error: Seq<char>,
    pub last_outcome: Seq<char>,
    pub definition_missing: bool,
    pub restart_required: bool,
    pub policy_sync_pending: bool,
}

impl Workload {
    pub open spec fn view(&self) -> WorkloadView {
        WorkloadView {
            workload_id: self.workload_id@,
            kind: self.kind@,
            enabled: self.enabled,
            state: self.state@,
            execution_id: self.execution_id@,
            supervisor_process_id: self.supervisor_process_id,
            workload_process_id: self.workload_process_id,
            attempt: self.attempt,
            error: self.error@,
            last_outcome: self.last_outcome@,
            definition_missing: self.definition_missing,
            restart_required: self.restart_required,
            policy_sync_pending: self.policy_sync_pending,
        }
    }
}

impl Clone for Workload {
    fn clone(&self) -> (copy: Workload)
        ensures
            copy@ == self@,
    {
        Workload {
            workload_id: self.workload_id.clone(),
            kind: self.kind.clone(),
            enabled: self.enabled,
            state: self.state.clone(),
            execution_id: self.execution_id.clone(),
            supervisor_process_id: self.supervisor_process_id,
            workload_process_id: self.workload_process_id,
            attempt: self.attempt,
            error: self.error.clone(),
            last_outcome: self.last_outcome.clone(),
            definition_missing: self.definition_missing,
            restart_required: self.restart_required,
            policy_sync_pending: self.policy_sync_pending,
        }
    }
}

/// How a workload is shown.
pub open spec fn shown(
    id: Seq<char>,
    record: WorkloadFacts,
    active: Option<ActiveFacts>,
) -> WorkloadView {
    let idle = WorkloadView {
        workload_id: id,
        kind: record.kind,
        enabled: record.enabled,
        state: if record.definition is Some {
            "inactive"@
        } else {
            "definition-missing"@
        },
        execution_id: Seq::empty(),
        supervisor_process_id: 0,
        workload_process_id: 0,
        attempt: 0,
        error: Seq::empty(),
        last_outcome: record.last_outcome,
        definition_missing: record.definition is None,
        restart_required: false,
        policy_sync_pending: false,
    };
    match active {
        None => idle,
        Some(active) => WorkloadView {
            state: active.state.text(),
            execution_id: active.execution_id,
            supervisor_process_id: active.supervisor_process_id,
            workload_process_id: active.workload_process_id,
            attempt: active.attempt,
            error: active.error,
            restart_required: active.restart_required,
            policy_sync_pending: active.policy_sync_pending,
            ..idle
        },
    }
}

pub fn workload_view(id: &str, record: &WorkloadRecord, active: Option<&ActiveExecution>) -> (view:
    Workload)
    ensures
        view@ == shown(
            id@,
            record@,
            match active {
                Some(active) => Some(active@),
                None => None,
            },
        ),
{
    let missing: bool = record.definition.is_none();
    let idle: &str = if missing {
        "definition-missing"
    } else {
        "inactive"
    };
    let mut view = Workload {
        workload_id: id.to_owned(),
        kind: record.kind.clone(),
        enabled: record.enabled,
        state: idle.to_owned(),
        execution_id: String::new(),
        supervisor_process_id: 0,
        workload_process_id: 0,
        attempt: 0,
        error: String::new(),
        last_outcome: record.last_outcome.clone(),
        definition_missing: missing,
        restart_required: false,
        policy_sync_pending: false,
    };
    assert(view.execution_id@ =~= Seq::empty());
    assert(view.error@ =~= Seq::empty());
    if let Some(active) = active {
        view.state = active.state.name().to_owned();
        view.execution_id = active.execution_id.clone();
        view.supervisor_process_id = active.supervisor_process_id;
        view.workload_process_id = active.workload_process_id;
        view.attempt = active.attempt;
        view.error = active.error.clone();
        view.restart_required = active.restart_required;
        view.policy_sync_pending = active.policy_sync_pending;
    }
    view
}

/// An execution as it is shown.
#[derive(Debug)]
pub struct Execution {
    pub execution_id: String,
    pub workload_id: String,
    pub state: String,
    pub supervisor_process_id: u32,
    pub workload_process_id: u32,
    pub attempt: u32,
    pub started_unix_ms: i64,
    pub ended_unix_ms: i64,
    pub exit_code: Option<u32>,
    pub error: String,
}

#[verifier::ext_equal]
pub struct ExecutionFacts {
    pub execution_id: Seq<char>,
    pub workload_id: Seq<char>,
    pub state: Seq<char>,
    pub supervisor_process_id: u32,
    pub workload_process_id: u32,
    pub attempt: u32,
    pub started_unix_ms: i64,
    pub ended_unix_ms: i64,
    pub exit_code: Option<u32>,
    pub error: Seq<char>,
}

impl Execution {
    pub open spec fn view(&self) -> ExecutionFacts {
        ExecutionFacts {
            execution_id: self.execution_id@,
            workload_id: self.workload_id@,
            state: self.state@,
            supervisor_process_id: self.supervisor_process_id,
            workload_process_id: self.workload_process_id,
            attempt: self.attempt,
            started_unix_ms: self.started_unix_ms,
            ended_unix_ms: self.ended_unix_ms,
            exit_code: self.exit_code,
            error: self.error@,
        }
    }
}

/// How an execution is shown.
pub open spec fn execution_facts(row: ExecutionRow) -> ExecutionFacts {
    ExecutionFacts {
        execution_id: row.id,
        workload_id: row.workload_id,
        state: row.state,
        supervisor_process_id: row.supervisor_process_id,
        workload_process_id: row.workload_process_id,
        attempt: row.attempt,
        started_unix_ms: row.started_unix_ms,
        ended_unix_ms: row.ended_unix_ms,
        exit_code: row.exit_code,
        error: row.error,
    }
}

pub fn execution_view(value: StoredExecution) -> (view: Execution)
    ensures
        view@ == execution_facts(value@),
{
    Execution {
        execution_id: value.id,
        workload_id: value.workload_id,
        state: value.state,
        supervisor_process_id: value.supervisor_process_id,
        workload_process_id: value.workload_process_id,
        attempt: value.attempt,
        started_unix_ms: value.started_unix_ms,
        ended_unix_ms: value.ended_unix_ms,
        exit_code: value.exit_code,
        error: value.error,
    }
}

/// Whether an observation of this kind ends an execution.
pub open spec fn ends_execution(kind: Seq<char>) -> bool {
    kind == "completed"@ || kind == "failed"@ || kind == "stopped"@ || kind == "cancelled"@ || kind
        == "outcome-unknown"@
}

pub fn is_terminal_kind(kind: &str) -> (terminal: bool)
    ensures
        terminal == ends_execution(kind@),
{
    same_text(kind, "completed") || same_text(kind, "failed") || same_text(kind, "stopped")
        || same_text(kind, "cancelled") || same_text(kind, "outcome-unknown")
}

/// What an observation tells of a running execution.
#[derive(Debug)]
pub struct ActiveProgress {
    pub state: ActiveState,
    pub workload_process_id: u32,
    pub attempt: u32,
    pub error: Option<String>,
}

#[verifier::ext_equal]
pub struct ProgressFacts {
    pub state: ActiveState,
    pub workload_process_id: u32,
    pub attempt: u32,
    pub error: Option<Seq<char>>,
}

impl ActiveProgress {
    pub open spec fn view(&self) -> ProgressFacts {
        ProgressFacts {
            state: self.state,
            workload_process_id: self.workload_process_id,
            attempt: self.attempt,
            error: text_view(self.error),
        }
    }
}

/// A detail, where there is one.
pub open spec fn some_detail(detail: Seq<char>) -> Option<Seq<char>> {
    if detail.len() == 0 {
        None
    } else {
        Some(detail)
    }
}

/// What an observation of this kind tells of a running execution.
pub open spec fn progress_of(
    kind: Seq<char>,
    attempt: u32,
    process_id: u32,
    detail: Seq<char>,
) -> Option<ProgressFacts> {
    if kind == "attempt-started"@ {
        Some(
            ProgressFacts {
                state: ActiveState::Running,
                workload_process_id: process_id,
                attempt,
                error: Some(Seq::empty()),
            },
        )
    } else if kind == "launch-failed"@ {
        Some(
            ProgressFacts {
                state: ActiveState::LaunchFailed,
                workload_process_id: 0,
                attempt,
                error: Some(detail),
            },
        )
    } else if kind == "attempt-exited"@ {
        Some(
            ProgressFacts {
                state: ActiveState::AttemptExited,
                workload_process_id: 0,
                attempt,
                error: some_detail(detail),
            },
        )
    } else if kind == "supervisor-lost"@ {
        Some(
            ProgressFacts {
                state: ActiveState::SupervisorLost,
                workload_process_id: 0,
                attempt,
                error: Some(detail),
            },
        )
    } else if kind == "restart-backoff"@ {
        Some(
            ProgressFacts {
                state: ActiveState::RestartBackoff,
                workload_process_id: 0,
                attempt,
                error: some_detail(detail),
            },
        )
    } else {
        None
    }
}

/// The view of what may be there.
pub open spec fn progress_view(progress: Option<ActiveProgress>) -> Option<ProgressFacts> {
    match progress {
        Some(progress) => Some(progress@),
        None => None,
    }
}

pub fn progress_observation(kind: &str, attempt: u32, process_id: u32, detail: &str) -> (progress:
    Option<ActiveProgress>)
    ensures
        progress_view(progress) == progress_of(kind@, attempt, process_id, detail@),
{
    let optional: Option<String> = if detail.is_empty() {
        None
    } else {
        Some(detail.to_owned())
    };
    assert(detail@.len() == 0 ==> detail@ =~= Seq::empty());
    if same_text(kind, "attempt-started") {
        let none: String = String::new();
        assert(none@ =~= Seq::empty());
        Some(
            ActiveProgress {
                state: ActiveState::Running,
                workload_process_id: process_id,
                attempt,
                error: Some(none),
            },
        )
    } else if same_text(kind, "launch-failed") {
        Some(
            ActiveProgress {
                state: ActiveState::LaunchFailed,
                workload_process_id: 0,
                attempt,
                error: Some(detail.to_owned()),
            },
        )
    } else if same_text(kind, "attempt-exited") {
        Some(
            ActiveProgress {
                state: ActiveState::AttemptExited,
                workload_process_id: 0,
                attempt,
                error: optional,
            },
        )
    } else if same_text(kind, "supervisor-lost") {
        Some(
            ActiveProgress {
                state: ActiveState::SupervisorLost,
                workload_process_id: 0,
                attempt,
                error: Some(detail.to_owned()),
            },
        )
    } else if same_text(kind, "restart-backoff") {
        Some(
            ActiveProgress {
                state: ActiveState::RestartBackoff,
                workload_process_id: 0,
                attempt,
                error: optional,
            },
        )
    } else {
        None
    }
}

} // verus!
