//! What a supervisor does with an execution.

use vstd::prelude::*;

use crate::messages::{CheckpointView, ConfigurationView, PolicyView, ResultView};
use crate::preflight::PreflightView;
use crate::runner::{
    EffectView, PhaseView, RunnerView, RunningStep, Signal, StopMethod, delay_ms, ends_backoff,
    exit_result, failed, grown, outcome, planned_stop, retries, running_meaning, stopped, trimmed,
};
use crate::process::is_white_space;
use crate::text::hex_text;

verus! {

/// Whether a policy counts an exit code as success.
pub open spec fn succeeds(policy: PolicyView, exit_code: Option<u32>) -> bool {
    exists|i: int|
        0 <= i < policy.success_exit_codes.len() && exit_code == Some(
            #[trigger] policy.success_exit_codes[i],
        )
}

/// Whether an attempt ran so long that the retries before it no longer count.
pub open spec fn ran_long(policy: PolicyView, result: ResultView) -> bool {
    let reset = policy.restart.reset_after_ms;
    let ran = result.ended_unix_ms - result.started_unix_ms;
    result.launched && reset > 0 && (ran >= reset || ran >= i64::MAX)
}

/// The names of the outcomes differ.
pub proof fn law_outcomes_are_told_apart()
    ensures
        "completed"@ != "failed"@,
        "completed"@ != "cancelled"@,
        "completed"@ != "stopped"@,
        "failed"@ != "cancelled"@,
        "failed"@ != "stopped"@,
        "cancelled"@ != "stopped"@,
        "outcome-unknown"@ != "completed"@,
        "outcome-unknown"@ != "failed"@,
        "outcome-unknown"@ != "stopped"@,
        "outcome-unknown"@ != "cancelled"@,
        "job"@ != "service"@,
{
    reveal_strlit("completed");
    reveal_strlit("failed");
    reveal_strlit("cancelled");
    reveal_strlit("stopped");
    reveal_strlit("outcome-unknown");
    reveal_strlit("job");
    reveal_strlit("service");
    assert("completed"@[0] == 'c' && "cancelled"@[1] == 'a' && "completed"@[1] == 'o');
    assert("failed"@[0] == 'f' && "stopped"@[0] == 's' && "outcome-unknown"@[0] == 'o');
    assert("cancelled"@[0] == 'c');
    assert("job"@.len() == 3 && "service"@.len() == 7);
}

/// A run ends as its last attempt did. Without a request to stop it is completed where the process
/// exited with a code that counts as success, and failed otherwise, also where there is no exit
/// code. With such a request a job is cancelled, and anything else is stopped.
pub proof fn law_runs_end_as_their_last_attempt_did(
    configuration: ConfigurationView,
    result: ResultView,
)
    ensures
        outcome(configuration, result) == "completed"@ <==> !result.stop_requested && succeeds(
            configuration.policy,
            result.exit_code,
        ),
        outcome(configuration, result) == "failed"@ <==> !result.stop_requested && !succeeds(
            configuration.policy,
            result.exit_code,
        ),
        outcome(configuration, result) == "cancelled"@ <==> result.stop_requested
            && configuration.kind == "job"@,
        outcome(configuration, result) == "stopped"@ <==> result.stop_requested
            && configuration.kind != "job"@,
{
    law_outcomes_are_told_apart();
    if let Some(code) = result.exit_code {
        let codes = configuration.policy.success_exit_codes;
        if codes.contains(code) {
            let i = choose|i: int| 0 <= i < codes.len() && codes[i] == code;
            assert(codes[i] == code);
        }
    }
}

/// The end of an attempt ends the run unless another attempt follows. Another one follows exactly
/// where no stop was requested, the policy restarts after such an end, and restarts are left: their
/// number is unlimited or was not reached since the last attempt that ran long enough.
pub proof fn law_another_attempt_follows_where_the_policy_says_so(
    runner: RunnerView,
    result: ResultView,
    now: i64,
)
    ensures
        ({
            let after = runner.attempt_ended(result, now);
            let policy = runner.configuration.policy;
            let used: int = if ran_long(policy, result) {
                0
            } else {
                runner.retries as int
            };
            &&& after.phase is Backoff <==> {
                &&& !result.stop_requested
                &&& policy.restart.policy == "always"@ || policy.restart.policy == "on-failure"@
                    && !succeeds(policy, result.exit_code)
                &&& policy.restart.max_restarts_unlimited || used < policy.restart.max_restarts
            }
            &&& after.phase is Backoff || after.phase == PhaseView::Done { result }
            &&& after.configuration == runner.configuration
        }),
{
    if let Some(code) = result.exit_code {
        let codes = runner.configuration.policy.success_exit_codes;
        if codes.contains(code) {
            let i = choose|i: int| 0 <= i < codes.len() && codes[i] == code;
            assert(codes[i] == code);
        }
    }
}

/// What is written down when an attempt ends: how the attempt went, under its number; and where the
/// run ends with it, a terminal observation and the result of the run, which name the same outcome
/// and keep what is known of the attempt.
pub proof fn law_ends_are_written_down(runner: RunnerView, result: ResultView, now: i64)
    ensures
        ({
            let after = runner.attempt_ended(result, now);
            let count = runner.effects.len() as int;
            &&& after.effects.take(count) == runner.effects
            &&& after.effects[count] == (EffectView::WriteAttemptResult {
                attempt: runner.attempt,
                result,
            })
            &&& after.effects[count + 1] matches EffectView::Observe(seen) && !seen.terminal
                && seen.attempt == runner.attempt && seen.exit_code == result.exit_code
                && seen.detail == result.error && seen.kind == if result.launched {
                "attempt-exited"@
            } else {
                "launch-failed"@
            }
            &&& after.phase is Done ==> {
                let name = outcome(runner.configuration, result);
                &&& after.effects.len() == count + 4
                &&& after.effects[count + 2] matches EffectView::Observe(seen) && seen.terminal
                    && seen.kind == name && seen.attempt == runner.attempt && seen.exit_code
                    == result.exit_code && seen.detail == result.error
                &&& after.effects[count + 3] == EffectView::WriteResult(
                    ResultView { outcome: name, ..result },
                )
            }
        }),
{
    let after = runner.attempt_ended(result, now);
    assert(after.effects.take(runner.effects.len() as int) =~= runner.effects);
}

/// Where another attempt follows, it is the next one, one more retry is counted, and it begins after
/// the wait that the policy prescribes for that retry: the wait is the last thing asked for, its
/// end is checkpointed, and the controller hears of it.
pub proof fn law_the_next_attempt_waits_its_turn(runner: RunnerView, result: ResultView, now: i64)
    requires
        runner.attempt_ended(result, now).phase is Backoff,
        runner.retries < u32::MAX - 1,
        runner.attempt < u32::MAX,
        0 <= now < 0x3fff_ffff_ffff_ffff,
        runner.configuration.policy.restart.backoff_maximum_ms < 0x3fff_ffff_ffff_ffff,
    ensures
        ({
            let after = runner.attempt_ended(result, now);
            let policy = runner.configuration.policy;
            let used: int = if ran_long(policy, result) {
                0
            } else {
                runner.retries as int
            };
            let count = runner.effects.len() as int;
            let wait = delay_ms(policy, (used + 1) as u32);
            &&& after.retries == used + 1
            &&& after.attempt == runner.attempt + 1
            &&& after.phase matches PhaseView::Backoff {
                successful,
                decision_retries,
                retry_at_unix_ms,
                denied,
            } && successful == succeeds(policy, result.exit_code) && decision_retries == used
                && retry_at_unix_ms == now + wait && denied == Some(result)
            &&& after.effects.len() == count + 5
            &&& after.effects[count + 2] matches EffectView::Checkpoint(kept) && kept.phase
                == "restart_backoff"@ && kept.attempt == after.attempt && kept.retry_at_unix_ms == now
                + wait
            &&& after.effects[count + 3] matches EffectView::Observe(seen) && seen.kind
                == "restart-backoff"@ && !seen.terminal
            &&& after.effects[count + 4] matches EffectView::Wait { millis } && millis == wait
        }),
{
    law_first_and_later_delays(runner.configuration.policy, 1);
    crate::runner::law_delays_grow_within_bounds(runner.configuration.policy, runner.retries);
    crate::runner::law_delays_grow_within_bounds(
        runner.configuration.policy,
        (runner.retries + 1) as u32,
    );
    crate::runner::law_delays_grow_within_bounds(runner.configuration.policy, 1);
    if let Some(code) = result.exit_code {
        let codes = runner.configuration.policy.success_exit_codes;
        if codes.contains(code) {
            let i = choose|i: int| 0 <= i < codes.len() && codes[i] == code;
            assert(codes[i] == code);
        }
    }
}

/// The first retry waits for the initial delay, and every later one for the delay before it times
/// the multiplier; none waits longer than the maximum. Where a setting is zero, it counts as one.
pub proof fn law_first_and_later_delays(policy: PolicyView, retry: u32)
    requires
        1 <= retry < u32::MAX,
    ensures
        ({
            let restart = policy.restart;
            let initial: int = if restart.backoff_initial_ms == 0 {
                1
            } else {
                restart.backoff_initial_ms as int
            };
            let multiplier: int = if restart.backoff_multiplier == 0 {
                1
            } else {
                restart.backoff_multiplier as int
            };
            let maximum: int = if restart.backoff_maximum_ms == 0 {
                1
            } else {
                restart.backoff_maximum_ms as int
            };
            let next = delay_ms(policy, retry) * multiplier;
            &&& delay_ms(policy, 1) == if initial < maximum {
                initial
            } else {
                maximum
            }
            &&& delay_ms(policy, (retry + 1) as u32) == if next < maximum {
                next
            } else {
                maximum
            }
        }),
{
    let restart = policy.restart;
    let initial = crate::runner::at_least_one(restart.backoff_initial_ms as nat);
    let multiplier = crate::runner::at_least_one(restart.backoff_multiplier as nat);
    let maximum = crate::runner::at_least_one(restart.backoff_maximum_ms as nat);
    let before = grown(initial, multiplier, maximum, (retry - 1) as nat);
    let now = grown(initial, multiplier, maximum, retry as nat);
    assert(now == crate::runner::smaller(before * multiplier, maximum));
    if before > maximum {
        assert(before * multiplier >= maximum) by (nonlinear_arith)
            requires
                before > maximum,
                multiplier >= 1,
        ;
        assert(maximum * multiplier >= maximum) by (nonlinear_arith)
            requires
                maximum >= 1,
                multiplier >= 1,
        ;
    }
}

/// A process that exits is an attempt that was launched and ended with its code; one that cannot be
/// waited for is a failure that nobody asked for.
pub proof fn law_exits_are_taken_as_they_were(
    started: i64,
    code: u32,
    error: Seq<char>,
    stop_requested: bool,
    forced: bool,
    now: i64,
)
    ensures
        ({
            let exited = exit_result(started, Ok(code), stop_requested, forced, now);
            &&& exited.launched && exited.exit_code == Some(code) && exited.error.len() == 0
            &&& exited.stop_requested == stop_requested && exited.forced == forced
            &&& exited.started_unix_ms == started && exited.ended_unix_ms == now
        }),
        ({
            let lost = exit_result(started, Err(error), stop_requested, forced, now);
            &&& !lost.launched && lost.exit_code is None && !lost.stop_requested
            &&& lost.error == "process wait failed: "@ + error
            &&& lost.started_unix_ms == started && lost.ended_unix_ms == now
        }),
        ({
            let never = failed(started, now, error);
            &&& !never.launched && never.exit_code is None && !never.stop_requested
            &&& never.error == error && never.started_unix_ms == started && never.ended_unix_ms == now
        }),
        ({
            let stopped = stopped(now);
            &&& !stopped.launched && stopped.exit_code is None && stopped.stop_requested
        }),
{
}

/// A process that was started is checkpointed as running before anyone hears of it, and then the
/// controller hears of it under its number.
pub proof fn law_started_processes_are_recorded(runner: RunnerView, process_id: u32, now: i64)
    requires
        runner.phase is Launching,
    ensures
        ({
            let started = runner.launched(process_id);
            let told = started.running(now);
            let count = runner.effects.len() as int;
            let since = runner.phase->Launching_started_unix_ms;
            &&& started.effects.len() == count + 1
            &&& started.effects[count] matches EffectView::Checkpoint(kept) && kept.phase
                == "running"@ && kept.attempt == runner.attempt
            &&& told.effects.len() == count + 2
            &&& told.effects[count] == started.effects[count]
            &&& told.effects[count + 1] matches EffectView::Observe(seen) && seen.kind
                == "attempt-started"@ && seen.workload_process_id == process_id && !seen.terminal
                && seen.attempt == runner.attempt
            &&& told.phase == PhaseView::Running { started_unix_ms: since, process_id }
            &&& told.attempt == runner.attempt && told.retries == runner.retries
        }),
{
}

/// A process is launched with what was settled for it: where nothing is settled, that is asked for
/// first, and what is settled then is kept for all later attempts.
pub proof fn law_launches_are_prepared_once(
    runner: RunnerView,
    update: Option<(PolicyView, Seq<u8>)>,
    preflight: PreflightView,
    now: i64,
)
    ensures
        ({
            let launched = runner.launch(update, now);
            &&& launched.effects.last() == EffectView::Launch <==> runner.preflight is Some
            &&& launched.effects.last() == EffectView::Prepare <==> runner.preflight is None
            &&& launched.preflight == runner.preflight
            &&& launched.phase == runner.phase
        }),
        ({
            let prepared = runner.prepared(preflight);
            &&& prepared.effects.last() == EffectView::Launch
            &&& prepared.preflight == Some(preflight)
            &&& prepared.configuration == runner.configuration
            &&& prepared.launch(None, now).effects.last() == EffectView::Launch
        }),
{
}

/// A policy that arrives is the policy from then on, before a launch, while a process runs and during
/// a wait; nothing else of the configuration changes, and the controller hears its digest.
pub proof fn law_new_policies_are_adopted(
    runner: RunnerView,
    policy: PolicyView,
    hash: Seq<u8>,
    now: i64,
)
    ensures
        ({
            let wanted = ConfigurationView { policy, ..runner.configuration };
            let count = runner.effects.len() as int;
            let launching = runner.launch(Some((policy, hash)), now);
            let running = runner.policy_while_running(policy, hash, now);
            let waiting = runner.policy_in_backoff(policy, hash, now);
            &&& launching.configuration == wanted
            &&& launching.effects[count + 1] matches EffectView::Observe(seen) && seen.kind
                == "policy-applied"@ && seen.detail == hex_text(hash)
            &&& running.configuration == wanted
            &&& running.phase == runner.phase
            &&& running.effects[count] matches EffectView::Observe(seen) && seen.kind
                == "policy-applied"@ && seen.detail == hex_text(hash)
            &&& runner.phase is Backoff ==> {
                &&& waiting.configuration == wanted
                &&& waiting.effects[count + 1] matches EffectView::Observe(seen) && seen.kind
                    == "policy-applied"@ && seen.detail == hex_text(hash)
            }
        }),
{
}

/// A policy that arrives during a wait lets the wait go on exactly where it would have allowed the
/// attempt that is waited for. Otherwise the run ends as the attempt before did.
pub proof fn law_waits_go_on_where_the_new_policy_allows(
    runner: RunnerView,
    policy: PolicyView,
    hash: Seq<u8>,
    now: i64,
)
    requires
        runner.phase is Backoff,
    ensures
        ({
            let after = runner.policy_in_backoff(policy, hash, now);
            let successful = runner.phase->Backoff_successful;
            let used = runner.phase->Backoff_decision_retries;
            let allowed = (policy.restart.policy == "always"@ || policy.restart.policy
                == "on-failure"@ && !successful) && (policy.restart.max_restarts_unlimited || used
                < policy.restart.max_restarts);
            &&& allowed ==> after.phase == runner.phase
            &&& !allowed ==> after.phase is Done
            &&& !allowed && runner.phase->Backoff_denied is Some ==> after.phase->Done_result
                == runner.phase->Backoff_denied->0
            &&& !allowed ==> (after.effects.last() matches EffectView::WriteResult(written)
                && written.outcome == outcome(after.configuration, after.phase->Done_result))
        }),
{
}

/// A run without a checkpoint begins with its first attempt; so does one whose wait is over, with
/// the attempt that was waited for. A wait that is not over is waited to its end.
pub proof fn law_runs_begin_where_they_stood(
    configuration: ConfigurationView,
    id: Seq<char>,
    incarnation: u32,
    checkpoint: CheckpointView,
    last_sequence: u64,
    committed_sequence: u64,
    stop_requested: bool,
    now: i64,
)
    requires
        configuration.attempt > 0,
        checkpoint.attempt > 0,
        checkpoint.phase == "restart_backoff"@,
        0 <= now,
    ensures
        ({
            let fresh = RunnerView::begin(
                configuration,
                id,
                incarnation,
                None,
                last_sequence,
                committed_sequence,
                stop_requested,
                now,
            );
            let resumed = RunnerView::begin(
                configuration,
                id,
                incarnation,
                Some(checkpoint),
                last_sequence,
                committed_sequence,
                stop_requested,
                now,
            );
            &&& fresh.phase == PhaseView::Launching { started_unix_ms: now }
            &&& fresh.attempt == configuration.attempt && fresh.configuration.attempt
                == configuration.attempt
            &&& fresh.retries == configuration.attempt - 1
            &&& fresh.preflight is None
            &&& fresh.recorder.sequence == last_sequence
            &&& resumed.attempt == checkpoint.attempt && resumed.retries == checkpoint.attempt - 1
            &&& resumed.recorder.id == id && resumed.recorder.sequence == last_sequence
            &&& checkpoint.retry_at_unix_ms <= now ==> resumed.phase == PhaseView::Launching {
                started_unix_ms: now,
            }
            &&& checkpoint.retry_at_unix_ms > now ==> resumed.effects == seq![
                EffectView::Wait { millis: (checkpoint.retry_at_unix_ms - now) as u64 },
            ] && (resumed.phase matches PhaseView::Backoff { retry_at_unix_ms, .. }
                && retry_at_unix_ms == checkpoint.retry_at_unix_ms)
        }),
{
    reveal_strlit("launching");
    reveal_strlit("running");
    reveal_strlit("restart_backoff");
    assert("launching"@.len() == 9 && "running"@.len() == 7 && "restart_backoff"@.len() == 15);
    let resumed = RunnerView::begin(
        configuration,
        id,
        incarnation,
        Some(checkpoint),
        last_sequence,
        committed_sequence,
        stop_requested,
        now,
    );
    if checkpoint.retry_at_unix_ms > now {
        assert(resumed.effects =~= seq![
            EffectView::Wait { millis: (checkpoint.retry_at_unix_ms - now) as u64 },
        ]);
    }
}

/// A service whose supervisor was lost while its process may have run is attempted again exactly where
/// its policy restarts after failures and restarts are left; otherwise it has failed. A stop that
/// was requested meanwhile ends the run instead, whatever its kind.
pub proof fn law_lost_services_are_restarted_by_policy(
    configuration: ConfigurationView,
    id: Seq<char>,
    incarnation: u32,
    checkpoint: CheckpointView,
    last_sequence: u64,
    committed_sequence: u64,
    now: i64,
)
    requires
        checkpoint.phase == "launching"@ || checkpoint.phase == "running"@,
        checkpoint.attempt > 0,
    ensures
        ({
            let policy = configuration.policy;
            let begun = RunnerView::begin(
                configuration,
                id,
                incarnation,
                Some(checkpoint),
                last_sequence,
                committed_sequence,
                false,
                now,
            );
            let ended = RunnerView::begin(
                configuration,
                id,
                incarnation,
                Some(checkpoint),
                last_sequence,
                committed_sequence,
                true,
                now,
            );
            &&& configuration.kind != "job"@ ==> (begun.phase is Backoff <==> (policy.restart.policy
                == "always"@ || policy.restart.policy == "on-failure"@) && (
            policy.restart.max_restarts_unlimited || checkpoint.attempt - 1
                < policy.restart.max_restarts))
            &&& configuration.kind != "job"@ && begun.phase !is Backoff ==> (begun.effects.last()
                matches EffectView::WriteResult(written) && written.outcome == "failed"@)
            &&& configuration.kind == "job"@ ==> (begun.effects.last() matches EffectView::WriteResult(
                written,
            ) && written.outcome == "outcome-unknown"@)
            &&& ended.phase is Done
            &&& ended.effects.last() matches EffectView::WriteResult(written) && written.outcome
                == if configuration.kind == "job"@ {
                "cancelled"@
            } else {
                "stopped"@
            }
        }),
{
}

/// Whether another attempt is allowed, in full.
pub proof fn law_policies_decide_about_restarts(policy: PolicyView, successful: bool, used: u32)
    ensures
        policy.restart.policy == "never"@ ==> !retries(policy, successful, used),
        policy.restart.policy == "on-failure"@ && successful ==> !retries(policy, successful, used),
        policy.restart.policy == "always"@ ==> retries(policy, true, used) == retries(
            policy,
            false,
            used,
        ),
        policy.restart.policy == "always"@ || policy.restart.policy == "on-failure"@ ==> (retries(
            policy,
            false,
            used,
        ) <==> policy.restart.max_restarts_unlimited || used < policy.restart.max_restarts),
{
    reveal_strlit("never");
    reveal_strlit("on-failure");
    reveal_strlit("always");
    assert("never"@.len() == 5 && "on-failure"@.len() == 10 && "always"@.len() == 6);
}

/// A process is stopped as its policy says, and given the time that its policy says; while the
/// session ends it is given at most twenty-five seconds.
pub proof fn law_processes_are_stopped_by_policy(policy: PolicyView)
    ensures
        planned_stop(policy, false).wait_ms == policy.stop.timeout_ms,
        planned_stop(policy, true).wait_ms <= 25_000,
        policy.stop.timeout_ms <= 25_000 ==> planned_stop(policy, true).wait_ms
            == policy.stop.timeout_ms,
        policy.stop.timeout_ms > 25_000 ==> planned_stop(policy, true).wait_ms == 25_000,
        planned_stop(policy, true).method == planned_stop(policy, false).method,
        planned_stop(policy, false).method == StopMethod::Kill <==> policy.stop.method == "kill"@,
        planned_stop(policy, false).method == StopMethod::Command <==> policy.stop.method
            == "command"@,
        policy.stop.method == "ctrl-break"@ ==> planned_stop(policy, false).method
            == StopMethod::CtrlBreak,
{
    reveal_strlit("kill");
    reveal_strlit("command");
    reveal_strlit("ctrl-break");
    assert("kill"@.len() == 4 && "command"@.len() == 7 && "ctrl-break"@.len() == 10);
}

/// What ends a wait is what stops a running process: an ending session, a raised flag and a line that
/// asks for it. A flag that is lowered stops nothing, and neither does a sender that is gone; and
/// only an ending session puts the process in a hurry that was in none.
pub proof fn law_signals_stop_runs_and_waits_alike(signal: Signal, session_ending: bool)
    ensures
        running_meaning(signal, session_ending) is Stop <==> ends_backoff(signal),
        ends_backoff(Signal::SessionEnding),
        ends_backoff(Signal::StopFlag { open: true, raised: true }),
        ends_backoff(Signal::Input { open: true }),
        !ends_backoff(Signal::StopFlag { open: true, raised: false }),
        !ends_backoff(Signal::StopFlag { open: false, raised: true }),
        !ends_backoff(Signal::StopFlag { open: false, raised: false }),
        !ends_backoff(Signal::Input { open: false }),
        running_meaning(signal, session_ending) matches RunningStep::Stop { session_ending: hurry }
            ==> hurry == (session_ending || signal is SessionEnding),
        running_meaning(Signal::StopFlag { open: true, raised: false }, session_ending)
            is Continue,
{
}

/// White space around a line does not count, and nothing else is taken away.
pub proof fn law_lines_are_trimmed(before: Seq<char>, word: Seq<char>, after: Seq<char>)
    requires
        forall|i: int| 0 <= i < before.len() ==> is_white_space(#[trigger] before[i]),
        forall|i: int| 0 <= i < after.len() ==> is_white_space(#[trigger] after[i]),
        word.len() > 0 ==> !is_white_space(word[0]) && !is_white_space(word.last()),
    ensures
        trimmed(before + word + after) == word,
    decreases before.len() + after.len(),
{
    let line = before + word + after;
    if before.len() > 0 {
        assert(line[0] == before[0]);
        assert(line.drop_first() =~= before.drop_first() + word + after);
        law_lines_are_trimmed(before.drop_first(), word, after);
    } else if word.len() == 0 {
        assert(line =~= after);
        if after.len() > 0 {
            assert(line[0] == after[0]);
            assert(line.drop_first() =~= before + word + after.drop_first());
            law_lines_are_trimmed(before, word, after.drop_first());
        } else {
            assert(line =~= word);
        }
    } else {
        assert(line[0] == word[0]);
        if after.len() > 0 {
            assert(line.last() == after.last());
            assert(line.drop_last() =~= before + word + after.drop_last());
            law_lines_are_trimmed(before, word, after.drop_last());
        } else {
            assert(line =~= word);
        }
    }
}

} // verus!
