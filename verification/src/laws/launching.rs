//! What it means to launch a supervisor, and to launch it again.

use vstd::arithmetic::power2::lemma_pow2_unfold;
use vstd::prelude::*;

use crate::manager::launch::{
    LaunchEvent, LaunchLoop, StepView, finish_of, launched, retry_delay_ms, runtime_root,
};
use crate::messages::{ConfigurationView, ResultView};
use crate::paths::joined;

verus! {

/// A supervisor that failed is launched again after a tenth of a second, then after twice as long
/// each time, and never later than after five seconds.
pub proof fn law_launches_are_spaced_out(failures: u32)
    requires
        0 < failures < u32::MAX,
    ensures
        retry_delay_ms(1) == 100,
        retry_delay_ms(0) == 100,
        2 * retry_delay_ms(failures) <= 5_000 ==> retry_delay_ms((failures + 1) as u32) == 2
            * retry_delay_ms(failures),
        2 * retry_delay_ms(failures) > 5_000 ==> retry_delay_ms((failures + 1) as u32) == 5_000,
{
    lemma_pow2_unfold(failures as nat);
    if failures == 1 {
        vstd::arithmetic::power2::lemma2_to64();
    }
}

/// The eighth failure in a row ends the execution as one whose supervisor is not to be had, and no
/// earlier one does: after each of those another supervisor is launched.
pub proof fn law_the_eighth_failure_is_the_last(
    state: LaunchLoop,
    configuration: ConfigurationView,
    event: LaunchEvent,
)
    requires
        state.failures < 8,
        event is SpawnFailed || (event matches LaunchEvent::Ended { cancelled, result } && !cancelled
            && result is None),
    ensures
        ({
            let (after, step) = state.next(configuration, event);
            &&& after.failures == state.failures + 1
            &&& after.process_id == state.process_id
            &&& state.failures == 7 <==> step is Finish
            &&& state.failures < 7 <==> step is Sleep
            &&& step matches StepView::Sleep { millis } ==> millis == retry_delay_ms(
                after.failures,
            )
            &&& step matches StepView::Finish(finish) ==> finish.state == "supervisor-unavailable"@
                && finish.exit_code is None
            &&& step matches StepView::Finish(finish) ==> (event matches LaunchEvent::SpawnFailed {
                error,
            } ==> finish.supervisor_process_id == 0 && finish.error
                == configuration.supervisor_executable + ": "@ + error@)
            &&& step matches StepView::Finish(finish) ==> (event is Ended
                ==> finish.supervisor_process_id == state.process_id)
        }),
{
}

/// A supervisor is launched where it is time for one and nobody has cancelled the execution, and
/// waited for once it runs; a result ends the execution at once, and so does a cancellation.
pub proof fn law_launches_go_their_way(
    state: LaunchLoop,
    configuration: ConfigurationView,
    event: LaunchEvent,
)
    ensures
        ({
            let (after, step) = state.next(configuration, event);
            &&& event matches LaunchEvent::Ready { cancelled } ==> (step is Spawn <==> !cancelled)
                && (step is Finish <==> cancelled) && after == state
            &&& event matches LaunchEvent::Spawned { process_id } ==> step is Await
                && after.process_id == process_id && after.failures == state.failures
            &&& event matches LaunchEvent::Ended { cancelled, result } ==> (cancelled || result
                is Some ==> step is Finish && after == state)
            &&& step is Spawn ==> event is Ready
            &&& step is Await ==> event is Spawned
        }),
{
}

/// How an execution ended that was waited for: as its result says, where that says how; otherwise as
/// stopped or cancelled exactly where it was told to stop, and otherwise as completed exactly where
/// its exit code counts as success. The exit code, the error and the supervisor are kept.
pub proof fn law_results_say_how_executions_ended(
    configuration: ConfigurationView,
    result: ResultView,
    cancelled: bool,
    process_id: u32,
)
    ensures
        ({
            let finish = finish_of(configuration, result, cancelled, process_id);
            let says = result.outcome == "completed"@ || result.outcome == "failed"@
                || result.outcome == "stopped"@ || result.outcome == "cancelled"@ || result.outcome
                == "outcome-unknown"@;
            let stopped = cancelled || result.stop_requested;
            let success = result.exit_code matches Some(code)
                && configuration.policy.success_exit_codes.contains(code);
            &&& says ==> finish.state == result.outcome
            &&& !says && stopped && configuration.kind == "job"@ ==> finish.state == "cancelled"@
            &&& !says && stopped && configuration.kind != "job"@ ==> finish.state == "stopped"@
            &&& !says && !stopped ==> (finish.state == "completed"@ <==> success) && (finish.state
                == "failed"@ <==> !success)
            &&& finish.exit_code == result.exit_code && finish.error == result.error
                && finish.supervisor_process_id == process_id
        }),
{
    reveal_strlit("completed");
    reveal_strlit("failed");
    assert("completed"@.len() == 9 && "failed"@.len() == 6);
}

/// What a result that a supervisor left makes of an execution, and that a cancelled execution
/// without one is not reported as completed or failed.
pub proof fn law_ended_supervisors_end_their_execution(
    state: LaunchLoop,
    configuration: ConfigurationView,
    event: LaunchEvent,
)
    requires
        event is Ended,
    ensures
        ({
            let step = state.next(configuration, event).1;
            let cancelled = event->Ended_cancelled;
            &&& event->Ended_result matches Some(result) ==> step == StepView::Finish(
                finish_of(configuration, result@, cancelled, state.process_id),
            )
            &&& event->Ended_result is None && cancelled ==> (step matches StepView::Finish(finish)
                && finish.exit_code is None && finish.error.len() == 0
                && finish.supervisor_process_id == state.process_id && finish.state == if configuration.kind
                == "job"@ {
                "cancelled"@
            } else {
                "stopped"@
            })
        }),
{
    reveal_strlit("completed");
    reveal_strlit("failed");
    reveal_strlit("stopped");
    reveal_strlit("cancelled");
    reveal_strlit("outcome-unknown");
    assert("completed"@.len() == 9 && "failed"@.len() == 6 && "stopped"@.len() == 7
        && "cancelled"@.len() == 9 && "outcome-unknown"@.len() == 15);
}

/// A launched execution is the definition as it is, for its first attempt; its result and its journal
/// lie in the directory of the execution, and its output in another of its own.
pub proof fn law_launched_executions_are_the_definition(
    definition: ConfigurationView,
    data_directory: Seq<char>,
    workload_id: Seq<char>,
    execution_id: Seq<char>,
)
    ensures
        ({
            let spec = launched(definition, data_directory, workload_id, execution_id);
            let root = runtime_root(data_directory, definition.manager_session_id, execution_id);
            &&& spec.execution_id == execution_id && spec.attempt == 1
            &&& spec.result_file == joined(root, "result.pb"@)
            &&& spec.runtime_journal == joined(root, "runtime.susm-runtime.open"@)
            &&& spec.log_directory == joined(
                joined(joined(data_directory, "logs"@), workload_id),
                execution_id,
            )
            &&& spec.workload_id == definition.workload_id && spec.kind == definition.kind
                && spec.executable == definition.executable && spec.arguments
                == definition.arguments && spec.working_directory == definition.working_directory
                && spec.environment_set == definition.environment_set && spec.environment_unset
                == definition.environment_unset && spec.policy == definition.policy
                && spec.manager_session_id == definition.manager_session_id
                && spec.process_definition_hash == definition.process_definition_hash
                && spec.execution_config_hash == definition.execution_config_hash
                && spec.supervisor_executable == definition.supervisor_executable
                && spec.version_pin == definition.version_pin
        }),
{
}

/// The files of an execution lie under its session, or with those that have none.
pub proof fn law_files_of_executions_lie_under_their_session(
    data_directory: Seq<char>,
    session: Seq<char>,
    execution_id: Seq<char>,
)
    ensures
        ({
            let sessions = joined(joined(data_directory, "runtime"@), "sessions"@);
            &&& session.len() > 0 ==> runtime_root(data_directory, session, execution_id) == joined(
                joined(joined(sessions, session), "executions"@),
                execution_id,
            )
            &&& session.len() == 0 ==> runtime_root(data_directory, session, execution_id) == joined(
                joined(joined(sessions, "standalone"@), "executions"@),
                execution_id,
            )
        }),
{
}

} // verus!
