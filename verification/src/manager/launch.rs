//! How the manager launches the supervisor of an execution, launches it again when it fails, and
//! what it makes of the result.

use vstd::prelude::*;
use vstd::string::*;
use vstd::arithmetic::power2::{lemma_pow2_strictly_increases, lemma2_to64, pow2};

use crate::manager::execution::stopped_name;
use crate::manager::model::{ends_execution, is_terminal_kind};
use crate::messages::{AttemptResult, ConfigurationView, ExecutionConfiguration, ResultView};
use crate::paths::{join_paths, joined};
use crate::runner::{is_success, is_successful};
use crate::text::{join, same_text};

verus! {

/// The directory in which an execution keeps its files.
pub open spec fn runtime_root(
    data_directory: Seq<char>,
    session: Seq<char>,
    execution_id: Seq<char>,
) -> Seq<char> {
    let sessions = joined(joined(data_directory, "runtime"@), "sessions"@);
    let own = joined(
        sessions,
        if session.len() == 0 {
            "standalone"@
        } else {
            session
        },
    );
    joined(joined(own, "executions"@), execution_id)
}

pub fn execution_runtime_root(data_directory: &str, session: &str, execution_id: &str) -> (root:
    String)
    ensures
        root@ == runtime_root(data_directory@, session@, execution_id@),
{
    let name: &str = if session.is_empty() {
        "standalone"
    } else {
        session
    };
    let runtime: String = join_paths(data_directory, "runtime");
    let sessions: String = join_paths(runtime.as_str(), "sessions");
    let own: String = join_paths(sessions.as_str(), name);
    let executions: String = join_paths(own.as_str(), "executions");
    join_paths(executions.as_str(), execution_id)
}

/// The directory in which an execution keeps its output.
pub open spec fn output_directory(
    data_directory: Seq<char>,
    workload_id: Seq<char>,
    execution_id: Seq<char>,
) -> Seq<char> {
    joined(joined(joined(data_directory, "logs"@), workload_id), execution_id)
}

/// A definition as it is handed to a supervisor: the first attempt of an execution, with the
/// files that it keeps.
pub open spec fn launched(
    definition: ConfigurationView,
    data_directory: Seq<char>,
    workload_id: Seq<char>,
    execution_id: Seq<char>,
) -> ConfigurationView {
    let root = runtime_root(data_directory, definition.manager_session_id, execution_id);
    ConfigurationView {
        execution_id,
        attempt: 1,
        result_file: joined(root, "result.pb"@),
        runtime_journal: joined(root, "runtime.susm-runtime.open"@),
        log_directory: output_directory(data_directory, workload_id, execution_id),
        ..definition
    }
}

/// Completes a definition for its supervisor. The answer is the file that it is handed over in.
pub fn prepare_launch(
    definition: &mut ExecutionConfiguration,
    data_directory: &str,
    workload_id: &str,
    execution_id: &str,
) -> (spec_path: String)
    ensures
        final(definition)@ == launched(
            old(definition)@,
            data_directory@,
            workload_id@,
            execution_id@,
        ),
        spec_path@ == joined(
            runtime_root(data_directory@, old(definition)@.manager_session_id, execution_id@),
            "execution.pb"@,
        ),
{
    let root: String = execution_runtime_root(
        data_directory,
        definition.manager_session_id.as_str(),
        execution_id,
    );
    let logs: String = join_paths(data_directory, "logs");
    let workload: String = join_paths(logs.as_str(), workload_id);
    definition.execution_id = execution_id.to_owned();
    definition.attempt = 1;
    definition.result_file = join_paths(root.as_str(), "result.pb");
    definition.runtime_journal = join_paths(root.as_str(), "runtime.susm-runtime.open");
    definition.log_directory = join_paths(workload.as_str(), execution_id);
    join_paths(root.as_str(), "execution.pb")
}

/// Gives a definition to an execution: its ids, the supervisor that runs it and the file that
/// keeps the version of that supervisor in use, if there is one.
pub fn assign_execution(
    definition: &mut ExecutionConfiguration,
    execution_id: &str,
    session: &str,
    supervisor_executable: &str,
    version_pin: Option<String>,
)
    ensures
        final(definition)@ == (ConfigurationView {
            execution_id: execution_id@,
            manager_session_id: session@,
            supervisor_executable: supervisor_executable@,
            version_pin: match version_pin {
                Some(pin) => pin@,
                None => old(definition)@.version_pin,
            },
            ..old(definition)@
        }),
{
    definition.execution_id = execution_id.to_owned();
    definition.manager_session_id = session.to_owned();
    definition.supervisor_executable = supervisor_executable.to_owned();
    if let Some(pin) = version_pin {
        definition.version_pin = pin;
    }
}

/// How many times in a row a supervisor may fail.
pub const SUPERVISOR_LAUNCH_BUDGET: u32 = 8;

/// What a supervisor is given beyond its own time to stop, in milliseconds.
pub const STOP_GRACE_MS: u64 = 5_000;

/// How long a supervisor is given to stop, in milliseconds.
pub fn supervisor_stop_wait(definition: &ExecutionConfiguration) -> (millis: u64)
    ensures
        millis == if definition.policy.stop.timeout_ms + STOP_GRACE_MS > u64::MAX {
            u64::MAX
        } else {
            (definition.policy.stop.timeout_ms + STOP_GRACE_MS) as u64
        },
{
    definition.policy.stop.timeout_ms.saturating_add(STOP_GRACE_MS)
}

/// How long the manager waits after so many failures, in milliseconds: a tenth of a second,
/// doubled with every failure up to five seconds.
pub open spec fn retry_delay_ms(failures: u32) -> u64 {
    if failures <= 1 {
        100
    } else if 100 * pow2((failures - 1) as nat) >= 5_000 {
        5_000
    } else {
        (100 * pow2((failures - 1) as nat)) as u64
    }
}

pub fn supervisor_retry_delay(failures: u32) -> (millis: u64)
    ensures
        millis == retry_delay_ms(failures),
{
    let mut delay: u64 = 100;
    let mut done: u32 = 1;
    proof {
        lemma2_to64();
    }
    while done < failures && delay < 5_000
        invariant
            1 <= done,
            done <= failures || failures == 0 && done == 1,
            delay < 10_000,
            delay == 100 * pow2((done - 1) as nat),
        decreases failures - done,
    {
        proof {
            vstd::arithmetic::power2::lemma_pow2_unfold(done as nat);
        }
        delay = delay * 2;
        done += 1;
    }
    proof {
        if failures > done {
            lemma_pow2_strictly_increases((done - 1) as nat, (failures - 1) as nat);
        }
    }
    if delay > 5_000 {
        5_000
    } else {
        delay
    }
}

/// How an execution ended that the manager waited for.
#[derive(Debug)]
pub struct ExecutionFinish {
    pub state: String,
    pub exit_code: Option<u32>,
    pub error: String,
    pub supervisor_process_id: u32,
}

#[verifier::ext_equal]
pub struct FinishView {
    pub state: Seq<char>,
    pub exit_code: Option<u32>,
    pub error: Seq<char>,
    pub supervisor_process_id: u32,
}

impl ExecutionFinish {
    pub open spec fn view(&self) -> FinishView {
        FinishView {
            state: self.state@,
            exit_code: self.exit_code,
            error: self.error@,
            supervisor_process_id: self.supervisor_process_id,
        }
    }
}

/// What is made of a result: the outcome that it names, or else whether it was stopped, or else
/// what its exit code means.
pub open spec fn finish_of(
    configuration: ConfigurationView,
    result: ResultView,
    cancelled: bool,
    process_id: u32,
) -> FinishView {
    FinishView {
        state: if ends_execution(result.outcome) {
            result.outcome
        } else if cancelled || result.stop_requested {
            stopped_name(configuration.kind)
        } else if is_success(configuration.policy, result.exit_code) {
            "completed"@
        } else {
            "failed"@
        },
        exit_code: result.exit_code,
        error: result.error,
        supervisor_process_id: process_id,
    }
}

/// The result of an execution that was stopped before it left one.
pub open spec fn no_result() -> ResultView {
    ResultView {
        launched: false,
        exit_code: None,
        error: Seq::empty(),
        started_unix_ms: 0,
        ended_unix_ms: 0,
        stop_requested: true,
        forced: false,
        outcome: Seq::empty(),
    }
}

pub fn stopped_attempt_result() -> (result: AttemptResult)
    ensures
        result@ == no_result(),
{
    let result = AttemptResult {
        launched: false,
        exit_code: None,
        error: String::new(),
        started_unix_ms: 0,
        ended_unix_ms: 0,
        stop_requested: true,
        forced: false,
        outcome: String::new(),
    };
    assert(result@ =~= no_result());
    result
}

/// The end of an execution that a file or a process stood in the way of.
pub fn io_finish(state: &str, process_id: u32, path: &str, error: &str) -> (finish: ExecutionFinish)
    ensures
        finish@ == (FinishView {
            state: state@,
            exit_code: None,
            error: path@ + ": "@ + error@,
            supervisor_process_id: process_id,
        }),
{
    let mut text: String = join(path, ": ");
    text.append(error);
    ExecutionFinish {
        state: state.to_owned(),
        exit_code: None,
        error: text,
        supervisor_process_id: process_id,
    }
}

fn finish_execution(
    configuration: &ExecutionConfiguration,
    result: AttemptResult,
    cancelled: bool,
    process_id: u32,
) -> (finish: ExecutionFinish)
    ensures
        finish@ == finish_of(configuration@, result@, cancelled, process_id),
{
    let state: String = if is_terminal_kind(result.outcome.as_str()) {
        result.outcome.clone()
    } else if cancelled || result.stop_requested {
        if same_text(configuration.kind.as_str(), "job") {
            "cancelled".to_owned()
        } else {
            "stopped".to_owned()
        }
    } else if is_successful(&configuration.policy, result.exit_code) {
        "completed".to_owned()
    } else {
        "failed".to_owned()
    };
    ExecutionFinish {
        state,
        exit_code: result.exit_code,
        error: result.error,
        supervisor_process_id: process_id,
    }
}

/// How the launching of a supervisor stands.
#[derive(Clone, Copy, Debug, PartialEq, Eq, Structural)]
pub struct LaunchLoop {
    pub failures: u32,
    pub process_id: u32,
}

/// What happened to the supervisor of an execution.
#[derive(Debug)]
pub enum LaunchEvent {
    /// It is time to launch one.
    Ready { cancelled: bool },
    /// It could not be launched.
    SpawnFailed { error: String },
    /// It was launched.
    Spawned { process_id: u32 },
    /// It ended, after it was told to stop or by itself, with this result.
    Ended { cancelled: bool, result: Option<AttemptResult> },
}

/// What is done next for an execution.
#[derive(Debug)]
pub enum LaunchStep {
    /// Launch a supervisor.
    Spawn,
    /// Wait for the supervisor.
    Await,
    /// Wait, and launch another one unless the execution is cancelled meanwhile.
    Sleep { millis: u64 },
    /// The execution has ended.
    Finish(ExecutionFinish),
}

/// A [`LaunchStep`] as mathematical text.
#[verifier::ext_equal]
pub enum StepView {
    Spawn,
    Await,
    Sleep { millis: u64 },
    Finish(FinishView),
}

impl LaunchStep {
    pub open spec fn view(&self) -> StepView {
        match *self {
            LaunchStep::Spawn => StepView::Spawn,
            LaunchStep::Await => StepView::Await,
            LaunchStep::Sleep { millis } => StepView::Sleep { millis },
            LaunchStep::Finish(finish) => StepView::Finish(finish@),
        }
    }
}

pub open spec fn one_failure_more(failures: u32) -> u32 {
    if failures == u32::MAX {
        failures
    } else {
        (failures + 1) as u32
    }
}

impl LaunchLoop {
    /// What follows the failure of a supervisor: another one, or the end once the budget is spent.
    pub open spec fn failed(self, error: Seq<char>, process_id: u32) -> (LaunchLoop, StepView) {
        let failures = one_failure_more(self.failures);
        (
            LaunchLoop { failures, ..self },
            if failures >= SUPERVISOR_LAUNCH_BUDGET {
                StepView::Finish(
                    FinishView {
                        state: "supervisor-unavailable"@,
                        exit_code: None,
                        error,
                        supervisor_process_id: process_id,
                    },
                )
            } else {
                StepView::Sleep { millis: retry_delay_ms(failures) }
            },
        )
    }

    /// What follows an event.
    pub open spec fn next(self, configuration: ConfigurationView, event: LaunchEvent) -> (
        LaunchLoop,
        StepView,
    ) {
        match event {
            LaunchEvent::Ready { cancelled } => (
                self,
                if cancelled {
                    StepView::Finish(
                        finish_of(configuration, no_result(), true, self.process_id),
                    )
                } else {
                    StepView::Spawn
                },
            ),
            LaunchEvent::SpawnFailed { error } => self.failed(
                configuration.supervisor_executable + ": "@ + error@,
                0,
            ),
            LaunchEvent::Spawned { process_id } => (
                LaunchLoop { process_id, ..self },
                StepView::Await,
            ),
            LaunchEvent::Ended { cancelled, result } => match result {
                Some(result) => (
                    self,
                    StepView::Finish(
                        finish_of(configuration, result@, cancelled, self.process_id),
                    ),
                ),
                None => if cancelled {
                    (
                        self,
                        StepView::Finish(
                            finish_of(configuration, no_result(), true, self.process_id),
                        ),
                    )
                } else {
                    self.failed(
                        "supervisor launch budget exhausted without a terminal result"@,
                        self.process_id,
                    )
                },
            },
        }
    }

    /// Nothing was launched yet.
    pub fn new() -> (state: LaunchLoop)
        ensures
            state == (LaunchLoop { failures: 0, process_id: 0 }),
    {
        LaunchLoop { failures: 0, process_id: 0 }
    }

    /// Takes one event and says what is done next.
    pub fn handle(&mut self, configuration: &ExecutionConfiguration, event: LaunchEvent) -> (step:
        LaunchStep)
        ensures
            (*final(self), step@) == old(self).next(configuration@, event),
    {
        match event {
            LaunchEvent::Ready { cancelled } => {
                if cancelled {
                    LaunchStep::Finish(
                        finish_execution(
                            configuration,
                            stopped_attempt_result(),
                            true,
                            self.process_id,
                        ),
                    )
                } else {
                    LaunchStep::Spawn
                }
            },
            LaunchEvent::SpawnFailed { error } => {
                self.failures = self.failures.saturating_add(1);
                if self.failures >= SUPERVISOR_LAUNCH_BUDGET {
                    LaunchStep::Finish(
                        io_finish(
                            "supervisor-unavailable",
                            0,
                            configuration.supervisor_executable.as_str(),
                            error.as_str(),
                        ),
                    )
                } else {
                    LaunchStep::Sleep { millis: supervisor_retry_delay(self.failures) }
                }
            },
            LaunchEvent::Spawned { process_id } => {
                self.process_id = process_id;
                LaunchStep::Await
            },
            LaunchEvent::Ended { cancelled, result } => {
                match result {
                    Some(result) => LaunchStep::Finish(
                        finish_execution(configuration, result, cancelled, self.process_id),
                    ),
                    None => {
                        if cancelled {
                            return LaunchStep::Finish(
                                finish_execution(
                                    configuration,
                                    stopped_attempt_result(),
                                    true,
                                    self.process_id,
                                ),
                            );
                        }
                        self.failures = self.failures.saturating_add(1);
                        if self.failures >= SUPERVISOR_LAUNCH_BUDGET {
                            LaunchStep::Finish(
                                ExecutionFinish {
                                    state: "supervisor-unavailable".to_owned(),
                                    exit_code: None,
                                    error:
                                        "supervisor launch budget exhausted without a terminal result".to_owned(),
                                    supervisor_process_id: self.process_id,
                                },
                            )
                        } else {
                            LaunchStep::Sleep { millis: supervisor_retry_delay(self.failures) }
                        }
                    },
                }
            },
        }
    }
}

/// A supervisor is launched at most as often as the budget allows: every failure counts, and the
/// last one ends the execution.
pub proof fn law_supervisors_are_launched_within_the_budget(
    state: LaunchLoop,
    configuration: ConfigurationView,
    event: LaunchEvent,
)
    requires
        state.failures < SUPERVISOR_LAUNCH_BUDGET,
    ensures
        state.next(configuration, event).1 !is Finish ==> state.next(configuration, event).0.failures
            < SUPERVISOR_LAUNCH_BUDGET,
        state.next(configuration, event).1 is Sleep ==> state.next(configuration, event).0.failures
            == state.failures + 1,
        state.failures <= state.next(configuration, event).0.failures <= state.failures + 1,
{
}

/// The waits between launches grow from a tenth of a second, and never exceed five seconds.
pub proof fn law_launch_delays_are_bounded(failures: u32)
    requires
        failures < u32::MAX,
    ensures
        100 <= retry_delay_ms(failures) <= 5_000,
        retry_delay_ms(failures) <= retry_delay_ms((failures + 1) as u32),
{
    lemma2_to64();
    if failures >= 1 {
        vstd::arithmetic::power2::lemma_pow2_unfold(failures as nat);
        vstd::arithmetic::power2::lemma_pow2_pos((failures - 1) as nat);
    }
}

/// A cancelled execution that left no outcome is never reported as completed or failed.
pub proof fn law_cancelled_executions_are_reported_as_stopped(
    state: LaunchLoop,
    configuration: ConfigurationView,
    result: Option<AttemptResult>,
)
    requires
        result matches Some(result) ==> !ends_execution(result@.outcome),
    ensures
        state.next(configuration, LaunchEvent::Ended { cancelled: true, result }).1 matches
            StepView::Finish(finish) && finish.state == stopped_name(configuration.kind),
{
    reveal_strlit("completed");
    reveal_strlit("failed");
    reveal_strlit("stopped");
    reveal_strlit("cancelled");
    reveal_strlit("outcome-unknown");
    assert("completed"@.len() > 0 && "failed"@.len() > 0 && "stopped"@.len() > 0
        && "cancelled"@.len() > 0 && "outcome-unknown"@.len() > 0);
}

} // verus!
