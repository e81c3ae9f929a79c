//! What requests, reloads and reports mean to the manager.

use vstd::prelude::*;

use crate::config::model::WorkloadKind;
use crate::manager::error::{Audience, ManagerError, ManagerRefusal, StatusCode, status_of};
use crate::manager::execution::{
    RecoveryMonitor, SupervisorClaim, SupervisorObservation, after_millis, first_holder,
    terminal_name, unowned,
};
use crate::manager::model::{
    ActiveFacts, ActiveState, Workload, WorkloadFacts, execution_facts, progress_of,
};
use crate::manager::state::{
    CommandView, ManagerEffectView, ManagerView, StartStep, closed_row, enabled_ids, ending_effects,
    find, kind_conflict, reconcile_effects, reconciled, with_records,
};
use crate::messages::ConfigurationView;
use crate::ordered::{ascending, entries_map, has_key, lemma_entry_in_map, listing, text_precedes};
use crate::snapshot::kind_text;
use crate::storage::{ExecutionRow, UpdateView};

verus! {

/// A map whose keys can be put in order, as those of every map that is kept can.
pub open spec fn orderly<V>(map: Map<Seq<char>, V>) -> bool {
    exists|entries: Seq<(Seq<char>, V)>| ascending(entries) && entries_map(entries) == map
}

proof fn lemma_listing<V>(map: Map<Seq<char>, V>)
    requires
        orderly(map),
    ensures
        ascending(listing(map)),
        forall|key: Seq<char>|
            #[trigger] map.contains_key(key) <==> exists|i: int|
                0 <= i < listing(map).len() && (#[trigger] listing(map)[i]).0 == key,
        forall|i: int|
            0 <= i < listing(map).len() ==> map[(#[trigger] listing(map)[i]).0] == listing(map)[i].1,
{
    let entries = listing(map);
    assert forall|key: Seq<char>|
        #[trigger] map.contains_key(key) <==> exists|i: int|
            0 <= i < entries.len() && (#[trigger] entries[i]).0 == key by {
        assert(entries_map(entries).contains_key(key) <==> has_key(entries, key));
    }
    assert forall|i: int| 0 <= i < entries.len() implies map[(#[trigger] entries[i]).0]
        == entries[i].1 by {
        lemma_entry_in_map(entries, i);
    }
}

/// A stop asks for no replacement: a workload whose replacement nobody asked for is not started
/// again once its execution has ended. A restart asks for one, and it comes unless the session
/// ends; and what was asked for is not forgotten by a later stop.
pub proof fn law_only_restarts_ask_for_a_replacement(
    state: ManagerView,
    id: Seq<char>,
    execution_id: Seq<char>,
)
    requires
        state.active.contains_key(id),
    ensures
        !state.active[id].restart_after ==> !state.stop(id, false).active[id].restart_after
            && !state.stop(id, false).restarts(id, execution_id),
        state.active[id].restart_after ==> state.stop(id, false).active[id].restart_after,
        state.stop(id, true).active[id].restart_after,
        state.stop(id, true).restarts(id, execution_id) <==> !state.session_ending && execution_id
            == state.active[id].execution_id,
        !state.active[id].restart_after ==> !state.restarts(id, execution_id),
{
}

/// A stop reaches the execution that is active, and nothing else: what waits for its supervisor is
/// cancelled, the supervisor is told to stop, and the execution counts as stopping.
pub proof fn law_stops_reach_their_execution(
    state: ManagerView,
    id: Seq<char>,
    other: Seq<char>,
    restart_after: bool,
)
    requires
        state.active.contains_key(id),
        other != id,
    ensures
        ({
            let after = state.stop(id, restart_after);
            let before = state.active[id];
            let now = after.active[id];
            &&& after.workloads == state.workloads && after.session_ending == state.session_ending
            &&& after.active.contains_key(other) <==> state.active.contains_key(other)
            &&& after.active[other] == state.active[other]
            &&& after.active.contains_key(id) && now.state == ActiveState::Stopping
            &&& now.execution_id == before.execution_id && now.attempt == before.attempt
                && now.error == before.error && now.locally_owned == before.locally_owned
                && now.attachment_id == before.attachment_id && now.supervisor_process_id
                == before.supervisor_process_id && now.workload_process_id
                == before.workload_process_id && now.policy_sync_pending
                == before.policy_sync_pending && now.restart_required == before.restart_required
            &&& after.effects == state.effects + seq![
                ManagerEffectView::Cancel { execution_id: before.execution_id },
                ManagerEffectView::Send {
                    execution_id: before.execution_id,
                    command: CommandView::Stop,
                },
            ]
        }),
{
    assert(state.stop(id, restart_after).effects =~= state.effects + seq![
        ManagerEffectView::Cancel { execution_id: state.active[id].execution_id },
        ManagerEffectView::Send {
            execution_id: state.active[id].execution_id,
            command: CommandView::Stop,
        },
    ]);
}

/// An execution that has ended leaves its workload inactive, with its outcome and with everything
/// else that is known of it; no other workload is touched, and nothing is asked of a supervisor.
pub proof fn law_ended_executions_leave_their_outcome(
    state: ManagerView,
    id: Seq<char>,
    other: Seq<char>,
    outcome: Seq<char>,
)
    requires
        state.workloads.contains_key(id),
        other != id,
    ensures
        ({
            let after = state.ended(id, outcome);
            &&& !after.active.contains_key(id)
            &&& after.active.contains_key(other) <==> state.active.contains_key(other)
            &&& after.active[other] == state.active[other]
            &&& after.workloads.dom() == state.workloads.dom()
            &&& after.workloads[id].last_outcome == outcome
            &&& after.workloads[id].enabled == state.workloads[id].enabled
            &&& after.workloads[id].kind == state.workloads[id].kind
            &&& after.workloads[id].definition == state.workloads[id].definition
            &&& after.workloads[id].policy_hash == state.workloads[id].policy_hash
            &&& after.workloads[other] == state.workloads[other]
            &&& after.effects == state.effects
            &&& after.session_ending == state.session_ending
        }),
{
    assert(state.ended(id, outcome).workloads.dom() =~= state.workloads.dom());
}

proof fn lemma_enabled_ids(entries: Seq<(Seq<char>, WorkloadFacts)>, kind: Seq<char>, n: int)
    requires
        0 <= n <= entries.len(),
        ascending(entries),
    ensures
        forall|id: Seq<char>|
            #[trigger] enabled_ids(entries, kind, n).contains(id) <==> exists|i: int|
                0 <= i < n && (#[trigger] entries[i]).0 == id && entries[i].1.enabled
                    && entries[i].1.kind == kind,
        forall|i: int, j: int|
            0 <= i < j < enabled_ids(entries, kind, n).len() ==> text_precedes(
                #[trigger] enabled_ids(entries, kind, n)[i],
                #[trigger] enabled_ids(entries, kind, n)[j],
            ),
    decreases n,
{
    let ids = enabled_ids(entries, kind, n);
    if n > 0 {
        lemma_enabled_ids(entries, kind, n - 1);
        let earlier = enabled_ids(entries, kind, n - 1);
        let entry = entries[n - 1];
        assert forall|id: Seq<char>| #[trigger] ids.contains(id) <==> exists|i: int|
            0 <= i < n && (#[trigger] entries[i]).0 == id && entries[i].1.enabled
                && entries[i].1.kind == kind by {
            if entry.1.enabled && entry.1.kind == kind {
                if ids.contains(id) {
                    let at = choose|at: int| 0 <= at < ids.len() && ids[at] == id;
                    if at < earlier.len() {
                        assert(earlier[at] == id);
                        assert(earlier.contains(id));
                    } else {
                        assert(entries[n - 1].0 == id);
                    }
                }
                if earlier.contains(id) {
                    let at = choose|at: int| 0 <= at < earlier.len() && earlier[at] == id;
                    assert(ids[at] == id);
                }
                if entry.0 == id {
                    assert(ids[ids.len() - 1] == id);
                }
            } else {
                assert(ids == earlier);
                assert(earlier.contains(id) <==> ids.contains(id));
            }
            if exists|i: int|
                0 <= i < n && (#[trigger] entries[i]).0 == id && entries[i].1.enabled
                    && entries[i].1.kind == kind {
                let i = choose|i: int|
                    0 <= i < n && (#[trigger] entries[i]).0 == id && entries[i].1.enabled
                        && entries[i].1.kind == kind;
                if i < n - 1 {
                    assert(earlier.contains(id));
                }
            }
        }
        assert forall|i: int, j: int| 0 <= i < j < ids.len() implies text_precedes(
            #[trigger] ids[i],
            #[trigger] ids[j],
        ) by {
            if j < earlier.len() {
                assert(ids[i] == earlier[i] && ids[j] == earlier[j]);
            } else {
                assert(ids[i] == earlier[i]);
                assert(earlier.contains(ids[i]));
                let at = choose|at: int|
                    0 <= at < n - 1 && (#[trigger] entries[at]).0 == ids[i] && entries[at].1.enabled
                        && entries[at].1.kind == kind;
                assert(text_precedes(entries[at].0, entries[n - 1].0));
            }
        }
    }
}

/// The enabled workloads of a kind are those that are known, enabled and of that kind, services as
/// well as jobs, each once and in the order of their ids.
pub proof fn law_enabled_workloads_are_listed(state: ManagerView, kind: WorkloadKind, id: Seq<char>)
    requires
        orderly(state.workloads),
    ensures
        ({
            let entries = listing(state.workloads);
            let ids = enabled_ids(entries, kind_text(kind), entries.len() as int);
            &&& ids.contains(id) <==> state.workloads.contains_key(id) && state.workloads[id].enabled
                && state.workloads[id].kind == match kind {
                WorkloadKind::Service => "service"@,
                WorkloadKind::Job => "job"@,
            }
            &&& forall|i: int, j: int|
                0 <= i < j < ids.len() ==> text_precedes(#[trigger] ids[i], #[trigger] ids[j])
        }),
{
    let entries = listing(state.workloads);
    lemma_listing(state.workloads);
    lemma_enabled_ids(entries, kind_text(kind), entries.len() as int);
    if state.workloads.contains_key(id) {
        let i = choose|i: int| 0 <= i < entries.len() && (#[trigger] entries[i]).0 == id;
        assert(entries[i].0 == id);
    }
}

/// Enabling or disabling a workload changes that and nothing else: above all it starts and stops
/// nothing.
pub proof fn law_enablement_changes_nothing_else(
    state: ManagerView,
    id: Seq<char>,
    other: Seq<char>,
    enabled: bool,
)
    requires
        state.workloads.contains_key(id),
        other != id,
    ensures
        ({
            let after = state.enabled_as(id, enabled);
            &&& after.workloads[id].enabled == enabled
            &&& after.workloads[id].kind == state.workloads[id].kind
            &&& after.workloads[id].definition == state.workloads[id].definition
            &&& after.workloads[id].last_outcome == state.workloads[id].last_outcome
            &&& after.workloads[id].policy_hash == state.workloads[id].policy_hash
            &&& after.workloads[other] == state.workloads[other]
            &&& after.workloads.dom() == state.workloads.dom()
            &&& after.active == state.active && after.effects == state.effects
                && after.session_ending == state.session_ending
        }),
{
    assert(state.enabled_as(id, enabled).workloads.dom() =~= state.workloads.dom());
}

/// When a request is refused, and why: what is not known is not found, what is of another kind is
/// of the wrong kind, and nothing else is refused.
pub proof fn law_requests_are_refused_for_cause(state: ManagerView, id: Seq<char>, kind: WorkloadKind)
    ensures
        ({
            let asked = match kind {
                WorkloadKind::Service => "service"@,
                WorkloadKind::Job => "job"@,
            };
            &&& state.refusal(id, kind) is None <==> state.workloads.contains_key(id)
                && state.workloads[id].kind == asked
            &&& state.refusal(id, kind) == Some(ManagerRefusal::NotFound(id))
                <==> !state.workloads.contains_key(id)
            &&& state.refusal(id, kind) matches Some(ManagerRefusal::WrongKind {
                id: named,
                expected,
                actual,
            }) ==> named == id && expected == asked && actual == state.workloads[id].kind && actual
                != asked
            &&& state.workloads.contains_key(id) && state.workloads[id].kind != asked
                ==> state.refusal(id, kind)->0 is WrongKind
        }),
{
}

/// When a workload can be started: while the session goes on, where it is known, of the right kind
/// and defined, and, where that is asked for, not active yet.
pub proof fn law_starts_are_refused_for_cause(
    state: ManagerView,
    id: Seq<char>,
    kind: WorkloadKind,
    exclusive: bool,
)
    ensures
        ({
            let refusal = state.start_refusal(id, kind, exclusive);
            let known = state.workloads.contains_key(id) && state.workloads[id].kind == match kind {
                WorkloadKind::Service => "service"@,
                WorkloadKind::Job => "job"@,
            };
            &&& refusal is None <==> !state.session_ending && known
                && state.workloads[id].definition is Some && !(exclusive
                && state.active.contains_key(id))
            &&& refusal == Some(ManagerRefusal::SessionEnding) <==> state.session_ending
            &&& refusal == Some(ManagerRefusal::NotFound(id)) <==> !state.session_ending
                && !state.workloads.contains_key(id)
            &&& refusal == Some(ManagerRefusal::DefinitionMissing(id)) <==> !state.session_ending
                && known && state.workloads[id].definition is None
            &&& refusal == Some(ManagerRefusal::AlreadyActive(id)) <==> !state.session_ending
                && known && state.workloads[id].definition is Some && exclusive
                && state.active.contains_key(id)
        }),
{
}

/// A workload that is entered for a start is active, as the execution that its configuration names,
/// launched by this manager and with nobody asking for a replacement.
pub proof fn law_entered_executions_begin_anew(
    state: ManagerView,
    id: Seq<char>,
    other: Seq<char>,
    configuration: ConfigurationView,
)
    requires
        other != id,
    ensures
        ({
            let after = state.entered(id, configuration);
            let active = after.active[id];
            &&& after.active.contains_key(id) && active.execution_id == configuration.execution_id
            &&& active.state == ActiveState::Starting && active.locally_owned
                && !active.restart_after && !active.restart_required && !active.policy_sync_pending
            &&& active.attempt == 0 && active.supervisor_process_id == 0
                && active.workload_process_id == 0 && active.error.len() == 0
                && active.attachment_id is None
            &&& active.policy_hash == state.workloads[id].policy_hash
            &&& active.process_definition_hash == configuration.process_definition_hash
            &&& after.active[other] == state.active[other] && (after.active.contains_key(other)
                <==> state.active.contains_key(other))
            &&& after.workloads == state.workloads && after.effects == state.effects
        }),
{
}

/// Workloads are shown as they are: an active one with its execution, and an idle one as inactive
/// or as without a definition.
pub proof fn law_workloads_are_shown_as_they_are(state: ManagerView, id: Seq<char>)
    requires
        state.workloads.contains_key(id),
    ensures
        ({
            let view = state.show(id);
            let record = state.workloads[id];
            &&& view.workload_id == id && view.kind == record.kind && view.enabled == record.enabled
                && view.last_outcome == record.last_outcome && view.definition_missing
                == (record.definition is None)
            &&& state.active.contains_key(id) ==> {
                let active = state.active[id];
                view.state == active.state.text() && view.execution_id == active.execution_id
                    && view.supervisor_process_id == active.supervisor_process_id
                    && view.workload_process_id == active.workload_process_id && view.attempt
                    == active.attempt && view.error == active.error && view.restart_required
                    == active.restart_required && view.policy_sync_pending
                    == active.policy_sync_pending
            }
            &&& !state.active.contains_key(id) ==> {
                &&& view.execution_id.len() == 0 && view.error.len() == 0 && view.attempt == 0
                    && view.supervisor_process_id == 0 && view.workload_process_id == 0
                    && !view.restart_required && !view.policy_sync_pending
                &&& record.definition is Some ==> view.state == "inactive"@
                &&& record.definition is None ==> view.state == "definition-missing"@
            }
        }),
{
}

proof fn lemma_ending_effects(
    entries: Seq<(Seq<char>, ActiveFacts)>,
    n: int,
    effect: ManagerEffectView,
)
    requires
        0 <= n <= entries.len(),
    ensures
        ending_effects(entries, n).len() == 2 * n,
        ending_effects(entries, n).contains(effect) <==> exists|i: int|
            0 <= i < n && (effect == (ManagerEffectView::Cancel {
                execution_id: (#[trigger] entries[i]).1.execution_id,
            }) || effect == (ManagerEffectView::Send {
                execution_id: entries[i].1.execution_id,
                command: CommandView::SessionEnding,
            })),
    decreases n,
{
    if n > 0 {
        lemma_ending_effects(entries, n - 1, effect);
        let earlier = ending_effects(entries, n - 1);
        let all = ending_effects(entries, n);
        let id = entries[n - 1].1.execution_id;
        if all.contains(effect) {
            let at = choose|at: int| 0 <= at < all.len() && all[at] == effect;
            if at < earlier.len() {
                assert(earlier[at] == effect);
                assert(earlier.contains(effect));
            } else {
                assert(entries[n - 1].1.execution_id == id);
            }
        }
        if earlier.contains(effect) {
            let at = choose|at: int| 0 <= at < earlier.len() && earlier[at] == effect;
            assert(all[at] == effect);
        }
        assert(all[all.len() - 2] == (ManagerEffectView::Cancel { execution_id: id }));
        assert(all[all.len() - 1] == (ManagerEffectView::Send {
            execution_id: id,
            command: CommandView::SessionEnding,
        }));
    }
}

/// When the session ends every execution hears of it, and nobody else: what waits for a supervisor
/// is cancelled, and each supervisor is told that the session ends. No workload changes.
pub proof fn law_ending_sessions_tell_everybody(state: ManagerView, effect: ManagerEffectView)
    requires
        orderly(state.active),
        !state.session_ending,
    ensures
        state.end_session().workloads == state.workloads,
        state.end_session().session_ending,
        exists|told: Seq<ManagerEffectView>|
            #![auto]
            state.end_session().effects == state.effects + told && (told.contains(effect)
                <==> exists|id: Seq<char>|
                #[trigger] state.active.contains_key(id) && (effect == (ManagerEffectView::Cancel {
                    execution_id: state.active[id].execution_id,
                }) || effect == (ManagerEffectView::Send {
                    execution_id: state.active[id].execution_id,
                    command: CommandView::SessionEnding,
                }))),
{
    let entries = listing(state.active);
    lemma_listing(state.active);
    lemma_ending_effects(entries, entries.len() as int, effect);
    let told = ending_effects(entries, entries.len() as int);
    assert(state.end_session().effects == state.effects + told);
    if exists|id: Seq<char>|
        #[trigger] state.active.contains_key(id) && (effect == (ManagerEffectView::Cancel {
            execution_id: state.active[id].execution_id,
        }) || effect == (ManagerEffectView::Send {
            execution_id: state.active[id].execution_id,
            command: CommandView::SessionEnding,
        })) {
        let id = choose|id: Seq<char>|
            #[trigger] state.active.contains_key(id) && (effect == (ManagerEffectView::Cancel {
                execution_id: state.active[id].execution_id,
            }) || effect == (ManagerEffectView::Send {
                execution_id: state.active[id].execution_id,
                command: CommandView::SessionEnding,
            }));
        let i = choose|i: int| 0 <= i < entries.len() && (#[trigger] entries[i]).0 == id;
        assert(entries[i].1 == state.active[id]);
    }
    if told.contains(effect) {
        let i = choose|i: int|
            0 <= i < entries.len() && (effect == (ManagerEffectView::Cancel {
                execution_id: (#[trigger] entries[i]).1.execution_id,
            }) || effect == (ManagerEffectView::Send {
                execution_id: entries[i].1.execution_id,
                command: CommandView::SessionEnding,
            }));
        assert(state.active.contains_key(entries[i].0));
    }
}

/// An execution that had not ended is taken over where it is of this session, under the id and with
/// the numbers of its row, stopping where it was stopping, and not owned by this manager; one of
/// another session is not: its workload gets the outcome that is left to it.
pub proof fn law_executions_are_taken_over_within_their_session(
    state: ManagerView,
    row: ExecutionRow,
    configuration: ConfigurationView,
    policy_hash: Seq<u8>,
    session: Seq<char>,
    other: Seq<char>,
)
    requires
        other != row.workload_id,
    ensures
        ({
            let after = state.recover(row, configuration, policy_hash, session);
            let id = row.workload_id;
            &&& configuration.manager_session_id == session ==> {
                let active = after.active[id];
                &&& after.active.contains_key(id) && after.workloads == state.workloads
                &&& active.execution_id == row.id && active.attempt == row.attempt && active.error
                    == row.error && active.supervisor_process_id == row.supervisor_process_id
                    && active.workload_process_id == row.workload_process_id
                &&& active.state == ActiveState::Stopping <==> row.state == "stopping"@
                &&& active.state == ActiveState::Recovering <==> row.state != "stopping"@
                &&& !active.locally_owned && !active.restart_after && !active.policy_sync_pending
                    && active.attachment_id is None
                &&& active.policy_hash == policy_hash && active.process_definition_hash
                    == configuration.process_definition_hash
            }
            &&& configuration.manager_session_id != session ==> {
                &&& after.active == state.active
                &&& state.workloads.contains_key(id) ==> after.workloads[id].last_outcome == if configuration.kind
                    == "job"@ {
                    "outcome-unknown"@
                } else {
                    "stopped"@
                }
                &&& after.workloads.contains_key(id) <==> state.workloads.contains_key(id)
                &&& after.workloads[id].enabled == state.workloads[id].enabled
            }
            &&& after.active[other] == state.active[other] && after.workloads[other]
                == state.workloads[other]
            &&& after.effects == state.effects && after.revision == state.revision
        }),
{
}

/// The row of an execution whose session has ended says that it has ended, now, with the outcome
/// that is left to it and without processes; its numbers stay.
pub proof fn law_executions_of_ended_sessions_are_closed(
    row: ExecutionRow,
    outcome: Seq<char>,
    now: i64,
)
    ensures
        ({
            let closed = closed_row(row, outcome, now);
            &&& closed.state == outcome && closed.ended_unix_ms == now && closed.exit_code is None
            &&& closed.supervisor_process_id == 0 && closed.workload_process_id == 0
            &&& closed.error == "execution belonged to an ended manager session"@
            &&& closed.id == row.id && closed.workload_id == row.workload_id && closed.attempt
                == row.attempt && closed.started_unix_ms == row.started_unix_ms && closed.snapshot
                == row.snapshot && closed.committed_sequence == row.committed_sequence
        }),
{
}

/// What a reload makes of an execution whose workload is still defined: it has to be restarted
/// exactly where its program is no longer the one that is defined, and its supervisor is sent the
/// policy until it has confirmed the one that is defined now. An execution without a definition goes
/// on as it is. Nothing else about it changes.
pub proof fn law_reloads_ask_only_for_what_is_needed(active: ActiveFacts, record: WorkloadFacts)
    ensures
        ({
            let (next, changed, sent) = reconciled(active, Some(record));
            &&& record.definition matches Some(definition) ==> {
                &&& next.restart_required <==> active.process_definition_hash
                    != definition.process_definition_hash
                &&& next.policy_hash == record.policy_hash
                &&& next.policy_sync_pending <==> active.policy_sync_pending || active.policy_hash
                    != record.policy_hash
                &&& sent <==> next.policy_sync_pending
            }
            &&& record.definition is None ==> !next.restart_required && !sent && next.policy_hash
                == active.policy_hash && next.policy_sync_pending == active.policy_sync_pending
            &&& changed <==> next.restart_required != active.restart_required || next.policy_hash
                != active.policy_hash
            &&& next.execution_id == active.execution_id && next.state == active.state
                && next.restart_after == active.restart_after && next.locally_owned
                == active.locally_owned && next.attachment_id == active.attachment_id
                && next.attempt == active.attempt && next.error == active.error
                && next.supervisor_process_id == active.supervisor_process_id
                && next.workload_process_id == active.workload_process_id
                && next.process_definition_hash == active.process_definition_hash
            &&& reconciled(active, None) == (ActiveFacts {
                restart_required: false,
                ..active
            }, active.restart_required, false)
        }),
{
}

proof fn lemma_reconcile_effects(
    entries: Seq<(Seq<char>, ActiveFacts)>,
    workloads: Map<Seq<char>, WorkloadFacts>,
    n: int,
    effect: ManagerEffectView,
)
    requires
        0 <= n <= entries.len(),
    ensures
        reconcile_effects(entries, workloads, n).contains(effect) <==> exists|i: int|
            0 <= i < n && effect == (ManagerEffectView::Send {
                execution_id: (#[trigger] entries[i]).1.execution_id,
                command: CommandView::UpdatePolicy { workload_id: entries[i].0 },
            }) && reconciled(entries[i].1, find(workloads, entries[i].0)).2,
    decreases n,
{
    if n > 0 {
        lemma_reconcile_effects(entries, workloads, n - 1, effect);
        let earlier = reconcile_effects(entries, workloads, n - 1);
        let all = reconcile_effects(entries, workloads, n);
        if all.contains(effect) {
            let at = choose|at: int| 0 <= at < all.len() && all[at] == effect;
            if at < earlier.len() {
                assert(earlier[at] == effect);
                assert(earlier.contains(effect));
            } else {
                assert(entries[n - 1].1.execution_id == entries[n - 1].1.execution_id);
            }
        }
        if earlier.contains(effect) {
            let at = choose|at: int| 0 <= at < earlier.len() && earlier[at] == effect;
            assert(all[at] == effect);
        }
        if reconciled(entries[n - 1].1, find(workloads, entries[n - 1].0)).2 {
            assert(all[all.len() - 1] == (ManagerEffectView::Send {
                execution_id: entries[n - 1].1.execution_id,
                command: CommandView::UpdatePolicy { workload_id: entries[n - 1].0 },
            }));
        }
    }
}

/// After a reload every execution has been held against its own workload, a policy is sent to
/// exactly those supervisors that have not confirmed the one that is defined, and a reload counts
/// as a change of executions exactly where one of them changed.
pub proof fn law_reloads_reach_every_execution(state: ManagerView, id: Seq<char>)
    requires
        orderly(state.active),
        state.active.contains_key(id),
    ensures
        ({
            let after = state.reconcile();
            let (next, changed, sent) = reconciled(state.active[id], find(state.workloads, id));
            &&& after.active.dom() == state.active.dom() && after.active[id] == next
            &&& after.workloads == state.workloads && after.revision == state.revision
                && after.session_ending == state.session_ending
            &&& sent ==> after.effects.contains(
                ManagerEffectView::Send {
                    execution_id: state.active[id].execution_id,
                    command: CommandView::UpdatePolicy { workload_id: id },
                },
            )
            &&& changed ==> state.reconcile_differs()
        }),
        state.reconcile_differs() <==> exists|other: Seq<char>|
            #[trigger] state.active.contains_key(other) && reconciled(
                state.active[other],
                find(state.workloads, other),
            ).1,
{
    let entries = listing(state.active);
    lemma_listing(state.active);
    assert(state.reconcile().active.dom() =~= state.active.dom());
    let effect = ManagerEffectView::Send {
        execution_id: state.active[id].execution_id,
        command: CommandView::UpdatePolicy { workload_id: id },
    };
    let n = entries.len() as int;
    lemma_reconcile_effects(entries, state.workloads, n, effect);
    let at = choose|i: int| 0 <= i < entries.len() && (#[trigger] entries[i]).0 == id;
    assert(entries[at].0 == id && entries[at].1 == state.active[id]);
    if reconciled(state.active[id], find(state.workloads, id)).2 {
        let sent = reconcile_effects(entries, state.workloads, n);
        let i = choose|i: int| 0 <= i < sent.len() && sent[i] == effect;
        assert((state.effects + sent)[state.effects.len() + i] == effect);
    }
    assert(state.reconcile_differs() <==> exists|other: Seq<char>|
        #[trigger] state.active.contains_key(other) && reconciled(
            state.active[other],
            find(state.workloads, other),
        ).1) by {
        if state.reconcile_differs() {
            let i = choose|i: int|
                0 <= i < n && reconciled(
                    (#[trigger] entries[i]).1,
                    find(state.workloads, entries[i].0),
                ).1;
            assert(state.active.contains_key(entries[i].0));
        }
        if exists|other: Seq<char>|
            #[trigger] state.active.contains_key(other) && reconciled(
                state.active[other],
                find(state.workloads, other),
            ).1 {
            let other = choose|other: Seq<char>|
                #[trigger] state.active.contains_key(other) && reconciled(
                    state.active[other],
                    find(state.workloads, other),
                ).1;
            let i = choose|i: int| 0 <= i < entries.len() && (#[trigger] entries[i]).0 == other;
            assert(entries[i].1 == state.active[other]);
        }
    }
}

/// A policy is sent to nobody whose supervisor has confirmed it.
pub proof fn law_confirmed_policies_are_not_sent_again(
    state: ManagerView,
    effect: ManagerEffectView,
)
    requires
        orderly(state.active),
        state.reconcile().effects.contains(effect),
        !state.effects.contains(effect),
    ensures
        exists|id: Seq<char>|
            #[trigger] state.active.contains_key(id) && effect == (ManagerEffectView::Send {
                execution_id: state.active[id].execution_id,
                command: CommandView::UpdatePolicy { workload_id: id },
            }) && state.workloads.contains_key(id) && state.workloads[id].definition is Some && (
            state.active[id].policy_sync_pending || state.active[id].policy_hash
                != state.workloads[id].policy_hash),
{
    let entries = listing(state.active);
    lemma_listing(state.active);
    let n = entries.len() as int;
    lemma_reconcile_effects(entries, state.workloads, n, effect);
    let sent = reconcile_effects(entries, state.workloads, n);
    let all = state.effects + sent;
    let at = choose|at: int| 0 <= at < all.len() && all[at] == effect;
    if at < state.effects.len() {
        assert(state.effects[at] == effect);
    } else {
        assert(sent[at - state.effects.len()] == effect);
    }
    let i = choose|i: int|
        0 <= i < n && effect == (ManagerEffectView::Send {
            execution_id: (#[trigger] entries[i]).1.execution_id,
            command: CommandView::UpdatePolicy { workload_id: entries[i].0 },
        }) && reconciled(entries[i].1, find(state.workloads, entries[i].0)).2;
    assert(state.active.contains_key(entries[i].0));
}

/// A reload is refused exactly where a definition would turn an active service into a job or the
/// other way round.
pub proof fn law_active_workloads_keep_their_kind(
    state: ManagerView,
    definitions: Seq<ConfigurationView>,
    n: int,
)
    requires
        0 <= n <= definitions.len(),
    ensures
        kind_conflict(state, definitions, n) is None <==> forall|i: int|
            0 <= i < n && state.active.contains_key((#[trigger] definitions[i]).workload_id)
                && state.workloads.contains_key(definitions[i].workload_id) ==> definitions[i].kind
                == state.workloads[definitions[i].workload_id].kind,
        kind_conflict(state, definitions, n) matches Some(id) ==> exists|i: int|
            0 <= i < n && (#[trigger] definitions[i]).workload_id == id && state.active.contains_key(
                id,
            ) && state.workloads.contains_key(id) && definitions[i].kind != state.workloads[id].kind,
    decreases n,
{
    if n > 0 {
        law_active_workloads_keep_their_kind(state, definitions, n - 1);
        let last = definitions[n - 1];
        if kind_conflict(state, definitions, n - 1) is Some {
            let id = kind_conflict(state, definitions, n - 1)->0;
            let i = choose|i: int|
                0 <= i < n - 1 && (#[trigger] definitions[i]).workload_id == id
                    && state.active.contains_key(id) && state.workloads.contains_key(id)
                    && definitions[i].kind != state.workloads[id].kind;
            assert(definitions[i].workload_id == id);
        } else if kind_conflict(state, definitions, n) is Some {
            assert(definitions[n - 1].workload_id == last.workload_id);
        } else {
            assert forall|i: int|
                0 <= i < n && state.active.contains_key((#[trigger] definitions[i]).workload_id)
                    && state.workloads.contains_key(
                    definitions[i].workload_id,
                ) implies definitions[i].kind == state.workloads[definitions[i].workload_id].kind by {}
        }
    }
}

/// After a reload a workload is known as the last record of it says, and as before where there is
/// none.
pub proof fn law_records_replace_what_was_known(
    workloads: Map<Seq<char>, WorkloadFacts>,
    records: Seq<(Seq<char>, WorkloadFacts)>,
    id: Seq<char>,
)
    ensures
        (forall|i: int| 0 <= i < records.len() ==> (#[trigger] records[i]).0 != id) ==> (
        with_records(workloads, records).contains_key(id) <==> workloads.contains_key(id))
            && with_records(workloads, records)[id] == workloads[id],
        forall|i: int|
            #![trigger records[i]]
            0 <= i < records.len() && records[i].0 == id && (forall|j: int|
                i < j < records.len() ==> (#[trigger] records[j]).0 != id) ==> with_records(
                workloads,
                records,
            ).contains_key(id) && with_records(workloads, records)[id] == records[i].1,
    decreases records.len(),
{
    if records.len() > 0 {
        let rest = records.drop_last();
        law_records_replace_what_was_known(workloads, rest, id);
        let last = records[records.len() - 1];
        if last.0 != id {
            assert forall|i: int|
                #![trigger records[i]]
                0 <= i < records.len() && records[i].0 == id && (forall|j: int|
                    i < j < records.len() ==> (#[trigger] records[j]).0 != id) implies with_records(
                workloads,
                records,
            ).contains_key(id) && with_records(workloads, records)[id] == records[i].1 by {
                assert(rest[i] == records[i]);
                assert forall|j: int| i < j < rest.len() implies (#[trigger] rest[j]).0 != id by {
                    assert(rest[j] == records[j]);
                }
            }
            if forall|i: int| 0 <= i < records.len() ==> (#[trigger] records[i]).0 != id {
                assert forall|i: int| 0 <= i < rest.len() implies (#[trigger] rest[i]).0 != id by {
                    assert(rest[i] == records[i]);
                }
            }
        }
    }
}

/// What a reload leaves: workloads as they are known now, held against their executions; and its
/// revision is raised exactly where definitions or executions changed.
pub proof fn law_reloads_count_where_something_changed(
    state: ManagerView,
    changed: bool,
    records: Seq<(Seq<char>, WorkloadFacts)>,
)
    requires
        state.revision < u64::MAX,
    ensures
        ({
            let after = state.reloaded(changed, records);
            let known = ManagerView { workloads: with_records(state.workloads, records), ..state };
            &&& after.workloads == known.workloads
            &&& after.active == known.reconcile().active
            &&& after.effects == known.reconcile().effects
            &&& after.session_ending == state.session_ending
            &&& after.revision == state.revision + 1 <==> changed || known.reconcile_differs()
            &&& after.revision == state.revision <==> !changed && !known.reconcile_differs()
        }),
{
}

proof fn lemma_first_holder(
    entries: Seq<(Seq<char>, ActiveFacts)>,
    execution_id: Seq<char>,
    n: int,
)
    requires
        0 <= n <= entries.len(),
    ensures
        first_holder(entries, execution_id, n) is None <==> forall|i: int|
            0 <= i < n ==> (#[trigger] entries[i]).1.execution_id != execution_id,
        first_holder(entries, execution_id, n) matches Some(id) ==> exists|i: int|
            0 <= i < n && (#[trigger] entries[i]).0 == id && entries[i].1.execution_id
                == execution_id,
    decreases n,
{
    if n > 0 {
        lemma_first_holder(entries, execution_id, n - 1);
        if first_holder(entries, execution_id, n - 1) is None
            && entries[n - 1].1.execution_id == execution_id {
            assert(entries[n - 1].0 == entries[n - 1].0);
        }
        if first_holder(entries, execution_id, n - 1) is Some {
            let id = first_holder(entries, execution_id, n - 1)->0;
            let i = choose|i: int|
                0 <= i < n - 1 && (#[trigger] entries[i]).0 == id && entries[i].1.execution_id
                    == execution_id;
            assert(entries[i].1.execution_id == execution_id);
        }
    }
}

/// The workload of an execution is one whose active execution it is, and there is none exactly where
/// it is nobody's.
pub proof fn law_executions_are_found_where_they_are(state: ManagerView, execution_id: Seq<char>)
    requires
        orderly(state.active),
    ensures
        state.holder(execution_id) matches Some(id) ==> state.active.contains_key(id)
            && state.active[id].execution_id == execution_id,
        state.holder(execution_id) is None <==> forall|id: Seq<char>|
            #[trigger] state.active.contains_key(id) ==> state.active[id].execution_id
                != execution_id,
{
    let entries = listing(state.active);
    lemma_listing(state.active);
    lemma_first_holder(entries, execution_id, entries.len() as int);
    if state.holder(execution_id) is None {
        assert forall|id: Seq<char>| #[trigger]
            state.active.contains_key(id) implies state.active[id].execution_id != execution_id by {
            let i = choose|i: int| 0 <= i < entries.len() && (#[trigger] entries[i]).0 == id;
            assert(entries[i].1 == state.active[id]);
        }
    } else {
        let id = state.holder(execution_id)->0;
        let i = choose|i: int|
            0 <= i < entries.len() && (#[trigger] entries[i]).0 == id && entries[i].1.execution_id
                == execution_id;
        assert(state.active.contains_key(entries[i].0));
    }
}

/// The active execution of a workload is found under its own id and no other.
pub proof fn law_executions_answer_to_their_own_id(
    state: ManagerView,
    id: Seq<char>,
    execution_id: Seq<char>,
)
    ensures
        state.active_as(id, execution_id) is Some <==> state.active.contains_key(id)
            && state.active[id].execution_id == execution_id,
        state.active_as(id, execution_id) matches Some(active) ==> active == state.active[id],
{
}

proof fn lemma_unowned(entries: Seq<(Seq<char>, ActiveFacts)>, n: int, execution_id: Seq<char>)
    requires
        0 <= n <= entries.len(),
    ensures
        unowned(entries, n).contains(execution_id) <==> exists|i: int|
            0 <= i < n && !(#[trigger] entries[i]).1.locally_owned && entries[i].1.execution_id
                == execution_id,
    decreases n,
{
    if n > 0 {
        lemma_unowned(entries, n - 1, execution_id);
        let earlier = unowned(entries, n - 1);
        let all = unowned(entries, n);
        if all.contains(execution_id) {
            let at = choose|at: int| 0 <= at < all.len() && all[at] == execution_id;
            if at < earlier.len() {
                assert(earlier[at] == execution_id);
                assert(earlier.contains(execution_id));
            } else {
                assert(entries[n - 1].1.execution_id == execution_id);
            }
        }
        if earlier.contains(execution_id) {
            let at = choose|at: int| 0 <= at < earlier.len() && earlier[at] == execution_id;
            assert(all[at] == execution_id);
        }
        if !entries[n - 1].1.locally_owned {
            assert(all[all.len() - 1] == entries[n - 1].1.execution_id);
        }
    }
}

/// The executions that have to be watched over are the active ones that this manager did not launch.
pub proof fn law_unowned_executions_are_watched(state: ManagerView, execution_id: Seq<char>)
    requires
        orderly(state.active),
    ensures
        unowned(listing(state.active), listing(state.active).len() as int).contains(execution_id)
            <==> exists|id: Seq<char>|
            #[trigger] state.active.contains_key(id) && !state.active[id].locally_owned
                && state.active[id].execution_id == execution_id,
{
    let entries = listing(state.active);
    lemma_listing(state.active);
    lemma_unowned(entries, entries.len() as int, execution_id);
    if unowned(entries, entries.len() as int).contains(execution_id) {
        let i = choose|i: int|
            0 <= i < entries.len() && !(#[trigger] entries[i]).1.locally_owned
                && entries[i].1.execution_id == execution_id;
        assert(state.active.contains_key(entries[i].0));
    }
    if exists|id: Seq<char>|
        #[trigger] state.active.contains_key(id) && !state.active[id].locally_owned
            && state.active[id].execution_id == execution_id {
        let id = choose|id: Seq<char>|
            #[trigger] state.active.contains_key(id) && !state.active[id].locally_owned
                && state.active[id].execution_id == execution_id;
        let i = choose|i: int| 0 <= i < entries.len() && (#[trigger] entries[i]).0 == id;
        assert(entries[i].1 == state.active[id]);
    }
}

/// How an execution is said to have ended: as stopped or cancelled exactly where it was stopping,
/// otherwise as its result says, and where that says nothing as completed exactly where its exit
/// code is one that counts as success.
pub proof fn law_executions_end_as_they_were_left(
    stopping: bool,
    configuration: ConfigurationView,
    outcome: Seq<char>,
    exit_code: Option<u32>,
)
    ensures
        ({
            let name = terminal_name(stopping, configuration, outcome, exit_code);
            let says = outcome == "completed"@ || outcome == "failed"@ || outcome == "stopped"@
                || outcome == "cancelled"@ || outcome == "outcome-unknown"@;
            let success = exit_code matches Some(code)
                && configuration.policy.success_exit_codes.contains(code);
            &&& stopping && configuration.kind == "job"@ ==> name == "cancelled"@
            &&& stopping && configuration.kind != "job"@ ==> name == "stopped"@
            &&& !stopping && says ==> name == outcome
            &&& !stopping && !says ==> (name == "completed"@ <==> success) && (name == "failed"@
                <==> !success)
        }),
{
    reveal_strlit("completed");
    reveal_strlit("failed");
    assert("completed"@.len() == 9 && "failed"@.len() == 6);
}

/// Which reports end an execution that this manager does not wait for itself: those that say how it
/// ended, of the execution that is active. They are kept as its end, as they were reported.
pub proof fn law_reported_ends_are_kept(
    state: ManagerView,
    row: ExecutionRow,
    observation: SupervisorObservation,
    now: i64,
)
    ensures
        ({
            let kind = observation.kind@;
            let says = kind == "completed"@ || kind == "failed"@ || kind == "stopped"@ || kind
                == "cancelled"@ || kind == "outcome-unknown"@;
            let ends = says && state.active.contains_key(row.workload_id)
                && state.active[row.workload_id].execution_id == row.id
                && !state.active[row.workload_id].locally_owned;
            let update = state.planned_update(row, observation, now);
            &&& state.terminalizes(row, kind) <==> ends
            &&& update is Terminal <==> ends
            &&& update matches UpdateView::Terminal {
                state: kept,
                ended_unix_ms,
                exit_code,
                error,
                attempt,
            } ==> kept == kind && ended_unix_ms == now && exit_code == observation.exit_code
                && error == observation.detail@ && attempt == observation.attempt
            &&& update matches UpdateView::Progress { attempt, .. } ==> attempt
                == observation.attempt
            &&& !ends ==> (update is Progress <==> kind == "attempt-started"@ || kind
                == "launch-failed"@ || kind == "attempt-exited"@ || kind == "supervisor-lost"@
                || kind == "restart-backoff"@)
        }),
{
}

/// What a report tells of a running execution: where it stands, by the name of the report, with its
/// process only while one runs. A start clears the error, a failed launch and a lost supervisor set
/// it, and the others set it where they give a reason.
pub proof fn law_reports_move_executions_on(
    kind: Seq<char>,
    attempt: u32,
    process_id: u32,
    detail: Seq<char>,
)
    ensures
        ({
            let progress = progress_of(kind, attempt, process_id, detail);
            let reason = if detail.len() == 0 {
                None
            } else {
                Some(detail)
            };
            &&& progress is Some <==> kind == "attempt-started"@ || kind == "launch-failed"@ || kind
                == "attempt-exited"@ || kind == "supervisor-lost"@ || kind == "restart-backoff"@
            &&& progress matches Some(facts) ==> {
                &&& facts.attempt == attempt
                &&& facts.state.text() == if kind == "attempt-started"@ {
                    "running"@
                } else {
                    kind
                }
                &&& facts.workload_process_id == if kind == "attempt-started"@ {
                    process_id
                } else {
                    0
                }
                &&& kind == "attempt-started"@ ==> facts.error == Some(Seq::<char>::empty())
                &&& kind == "launch-failed"@ || kind == "supervisor-lost"@ ==> facts.error == Some(
                    detail,
                )
                &&& kind == "attempt-exited"@ || kind == "restart-backoff"@ ==> facts.error
                    == reason
            }
        }),
{
    reveal_strlit("attempt-started");
    reveal_strlit("launch-failed");
    reveal_strlit("attempt-exited");
    reveal_strlit("supervisor-lost");
    reveal_strlit("restart-backoff");
    assert("attempt-started"@.len() == 15 && "launch-failed"@.len() == 13
        && "attempt-exited"@.len() == 14 && "supervisor-lost"@.len() == 15
        && "restart-backoff"@.len() == 15);
    assert("attempt-started"@[0] == 'a' && "supervisor-lost"@[0] == 's' && "restart-backoff"@[0]
        == 'r');
}

/// A report that does not end an execution changes only the execution that it is of, and of that
/// only what it tells: never which execution it is, who launched it, or whether a replacement was
/// asked for.
pub proof fn law_reports_touch_only_their_execution(
    state: ManagerView,
    row: ExecutionRow,
    observation: SupervisorObservation,
    other: Seq<char>,
)
    requires
        other != row.workload_id,
    ensures
        ({
            let after = state.progressed(row, observation);
            let id = row.workload_id;
            let of_it = state.active.contains_key(id) && state.active[id].execution_id == row.id;
            &&& !of_it ==> after == state
            &&& after.workloads == state.workloads && after.effects == state.effects
                && after.session_ending == state.session_ending
            &&& after.active.dom() == state.active.dom()
            &&& after.active[other] == state.active[other]
            &&& of_it ==> {
                let before = state.active[id];
                let now = after.active[id];
                &&& now.execution_id == before.execution_id && now.restart_after
                    == before.restart_after && now.locally_owned == before.locally_owned
                    && now.attachment_id == before.attachment_id && now.supervisor_process_id
                    == before.supervisor_process_id && now.policy_hash == before.policy_hash
                    && now.restart_required == before.restart_required
                &&& observation.kind@ == "attempt-started"@ ==> now.state == ActiveState::Running
                    && now.workload_process_id == observation.workload_process_id && now.attempt
                    == observation.attempt && now.error.len() == 0
                &&& observation.kind@ == "launch-failed"@ ==> now.state
                    == ActiveState::LaunchFailed && now.workload_process_id == 0 && now.attempt
                    == observation.attempt && now.error == observation.detail@
                &&& observation.kind@ == "attempt-exited"@ ==> now.state
                    == ActiveState::AttemptExited && now.workload_process_id == 0
                &&& observation.kind@ == "restart-backoff"@ ==> now.state
                    == ActiveState::RestartBackoff && now.workload_process_id == 0
                &&& observation.kind@ == "supervisor-lost"@ ==> now.state
                    == ActiveState::SupervisorLost && now.error == observation.detail@
                &&& (observation.kind@ == "attempt-exited"@ || observation.kind@
                    == "restart-backoff"@) && observation.detail@.len() == 0 ==> now.error
                    == before.error
                &&& (observation.kind@ == "attempt-exited"@ || observation.kind@
                    == "restart-backoff"@) && observation.detail@.len() > 0 ==> now.error
                    == observation.detail@
                &&& now.policy_sync_pending <==> before.policy_sync_pending && !(observation.kind@
                    == "policy-applied"@ && observation.detail@ == crate::text::hex_text(
                    before.policy_hash,
                ))
            }
        }),
{
    law_reports_move_executions_on(
        observation.kind@,
        observation.attempt,
        observation.workload_process_id,
        observation.detail@,
    );
    assert(state.progressed(row, observation).active.dom() =~= state.active.dom());
    reveal_strlit("attempt-started");
    reveal_strlit("launch-failed");
    reveal_strlit("attempt-exited");
    reveal_strlit("supervisor-lost");
    reveal_strlit("restart-backoff");
    assert("attempt-started"@.len() == 15 && "launch-failed"@.len() == 13
        && "attempt-exited"@.len() == 14 && "supervisor-lost"@.len() == 15
        && "restart-backoff"@.len() == 15);
    assert("attempt-started"@[0] == 'a' && "supervisor-lost"@[0] == 's' && "restart-backoff"@[0]
        == 'r');
}

/// A supervisor can attach exactly where it names the workload, the session and the configuration of
/// the execution, the execution is active, and it is the process that is known, where one is; one
/// that this manager is still launching is not known yet.
pub proof fn law_supervisors_attach_as_themselves(
    state: ManagerView,
    row: ExecutionRow,
    configuration: ConfigurationView,
    claim: SupervisorClaim,
)
    ensures
        ({
            let named = configuration.workload_id == claim.workload_id@
                && configuration.manager_session_id == claim.manager_session_id@
                && configuration.execution_config_hash == claim.execution_config_hash@;
            let current = state.active.contains_key(row.workload_id)
                && state.active[row.workload_id].execution_id == row.id;
            let process = state.active[row.workload_id].supervisor_process_id;
            let owned = state.active[row.workload_id].locally_owned;
            let refusal = state.attach_refusal(row, configuration, claim);
            &&& refusal is None <==> named && current && (process == claim.process_id && (process
                != 0 || !owned) || process == 0 && !owned)
            &&& refusal == Some(ManagerRefusal::NotFound(row.id)) <==> named && !current
            &&& refusal is Some ==> refusal->0 == ManagerRefusal::NotFound(row.id) || refusal->0
                == ManagerRefusal::SupervisorIdentityMismatch
        }),
{
}

/// A supervisor that has attached is the one that is known, by its process and its attachment. One
/// that this manager launched is launching; for another the row says where its execution stands. A
/// policy that it has not confirmed is sent to it, and to nobody else.
pub proof fn law_attached_supervisors_are_known(
    state: ManagerView,
    row: ExecutionRow,
    process_id: u32,
    attachment: Seq<char>,
    other: Seq<char>,
)
    requires
        state.active.contains_key(row.workload_id),
        other != row.workload_id,
    ensures
        ({
            let after = state.attach(row, process_id, attachment);
            let id = row.workload_id;
            let before = state.active[id];
            let now = after.active[id];
            let defined = state.workloads.contains_key(id) && state.workloads[id].definition is Some;
            &&& now.supervisor_process_id == process_id && now.attachment_id == Some(attachment)
            &&& now.execution_id == before.execution_id && now.locally_owned
                == before.locally_owned && now.restart_after == before.restart_after
                && now.policy_hash == before.policy_hash && now.policy_sync_pending
                == before.policy_sync_pending && now.restart_required == before.restart_required
            &&& before.locally_owned ==> now.state == ActiveState::Launching && now.attempt
                == before.attempt && now.error == before.error && now.workload_process_id
                == before.workload_process_id
            &&& !before.locally_owned ==> now.attempt == row.attempt && now.error == row.error
                && now.workload_process_id == row.workload_process_id && (forall|named: ActiveState|
                row.state == #[trigger] named.text() ==> now.state == named)
            &&& after.workloads == state.workloads && after.active[other] == state.active[other]
            &&& before.policy_sync_pending && defined ==> after.effects == state.effects.push(
                ManagerEffectView::Send {
                    execution_id: before.execution_id,
                    command: CommandView::UpdatePolicy { workload_id: id },
                },
            )
            &&& !(before.policy_sync_pending && defined) ==> after.effects == state.effects
        }),
{
    if !state.active[row.workload_id].locally_owned {
        assert forall|named: ActiveState| row.state == #[trigger] named.text() implies state.attach(
            row,
            process_id,
            attachment,
        ).active[row.workload_id].state == named by {
            crate::manager::model::law_states_are_named_apart(named);
        }
    }
}

/// A supervisor whose attachment is lost is waited for: its execution is recovering, unless it is
/// being stopped, this manager waits for it itself, or another attachment has taken its place.
pub proof fn law_lost_supervisors_are_waited_for(
    state: ManagerView,
    execution_id: Seq<char>,
    attachment: Seq<char>,
    id: Seq<char>,
    other: Seq<char>,
)
    requires
        state.holder(execution_id) == Some(id),
        other != id,
    ensures
        ({
            let after = state.disconnect(execution_id, attachment);
            let before = state.active[id];
            let lost = !before.locally_owned && before.state != ActiveState::Stopping
                && before.attachment_id == Some(attachment);
            &&& lost ==> after.active[id].state == ActiveState::Recovering
                && after.active[id].attachment_id is None && after.active[id].execution_id
                == before.execution_id && after.active[id].supervisor_process_id
                == before.supervisor_process_id && after.active[id].restart_after
                == before.restart_after && after.active[id].attempt == before.attempt
            &&& !lost ==> after == state
            &&& after.active[other] == state.active[other] && after.workloads == state.workloads
                && after.effects == state.effects
        }),
{
}

/// A supervisor that was launched is known by its process, and its execution is launching; one of an
/// execution that is not active any more is nobody's.
pub proof fn law_launched_supervisors_are_known(
    state: ManagerView,
    id: Seq<char>,
    execution_id: Seq<char>,
    process_id: u32,
    other: Seq<char>,
)
    requires
        other != id,
    ensures
        ({
            let after = state.launched(id, execution_id, process_id);
            let current = state.active.contains_key(id) && state.active[id].execution_id
                == execution_id;
            &&& !current ==> after == state
            &&& current ==> after.active[id].supervisor_process_id == process_id
                && after.active[id].state == ActiveState::Launching && after.active[id].execution_id
                == execution_id && after.active[id].restart_after
                == state.active[id].restart_after && after.active[id].locally_owned
                == state.active[id].locally_owned
            &&& after.active[other] == state.active[other] && after.workloads == state.workloads
                && after.effects == state.effects
        }),
{
}

/// A supervisor is given three seconds to come back, counted from the moment in which it was first
/// missed; one that came back meanwhile is given them anew.
pub proof fn law_missing_supervisors_are_given_time(
    monitor: RecoveryMonitor,
    state: ActiveState,
    now: u64,
)
    ensures
        ({
            let next = monitor.looked(state, now);
            &&& next.was_recovering <==> state == ActiveState::Recovering
            &&& state == ActiveState::Recovering && !monitor.was_recovering && now <= u64::MAX
                - 3_000 ==> next.replacement_at == now + 3_000
            &&& !(state == ActiveState::Recovering && !monitor.was_recovering)
                ==> next.replacement_at == monitor.replacement_at
        }),
        now <= u64::MAX - 3_000 ==> after_millis(now, 3_000) == now + 3_000,
        after_millis(now, 3_000) >= now,
{
}

/// Rows are shown as they are kept.
pub proof fn law_rows_are_shown_as_they_are(row: ExecutionRow)
    ensures
        ({
            let facts = execution_facts(row);
            facts.execution_id == row.id && facts.workload_id == row.workload_id && facts.state
                == row.state && facts.supervisor_process_id == row.supervisor_process_id
                && facts.workload_process_id == row.workload_process_id && facts.attempt
                == row.attempt && facts.started_unix_ms == row.started_unix_ms
                && facts.ended_unix_ms == row.ended_unix_ms && facts.exit_code == row.exit_code
                && facts.error == row.error
        }),
{
}

/// How refusals are reported: what is not found as not found, what is active already as there
/// already, what the state forbids as a failed precondition, a configuration as the fault of the user
/// who asked for it, and everything else as a fault inside.
pub proof fn law_refusals_are_reported_by_their_cause(refusal: ManagerRefusal, audience: Audience)
    ensures
        ({
            let status = status_of(refusal, audience);
            &&& status == StatusCode::NotFound <==> refusal is NotFound
            &&& status == StatusCode::AlreadyExists <==> refusal is AlreadyActive
            &&& status == StatusCode::FailedPrecondition <==> refusal is DefinitionMissing
                || refusal is WrongKind || refusal is KindChangeActive
                || refusal is SupervisorIdentityMismatch || refusal is SessionEnding
            &&& status == StatusCode::InvalidArgument <==> refusal is Config && audience
                == Audience::User
            &&& status == StatusCode::Internal <==> refusal is Storage || refusal is Encode
                || refusal is Decode || refusal is Io || refusal is InvalidSystemTime || refusal
                is Config && audience == Audience::Supervisor
        }),
{
}

/// The execution of a workload is known while the workload is active, and only then.
pub proof fn law_active_executions_are_known(state: ManagerView, id: Seq<char>)
    ensures
        state.active_execution(id) is Some <==> state.active.contains_key(id),
        state.active.contains_key(id) ==> state.active_execution(id) == Some(
            state.active[id].execution_id,
        ),
{
}

/// A request to stop says whether there was something to stop: it changes nothing where nothing is
/// active, and where it is refused.
pub proof fn law_stops_say_whether_they_stopped(
    state: ManagerView,
    id: Seq<char>,
    kind: WorkloadKind,
    restart_after: bool,
    result: Result<(bool, Workload), ManagerError>,
    after: ManagerView,
)
    requires
        state.stops(id, kind, restart_after, result, after),
    ensures
        result matches Ok((changed, _)) ==> (changed <==> state.active.contains_key(id)),
        result matches Ok((_, view)) ==> view@ == after.show(id),
        !state.active.contains_key(id) || result is Err ==> after == state,
        state.active.contains_key(id) && result is Ok ==> after.active[id].state
            == ActiveState::Stopping && after.active[id].execution_id
            == state.active[id].execution_id,
{
}

/// A request to start leads to a launch of the definition where nothing is active, and otherwise to
/// what is active already.
pub proof fn law_starts_launch_what_is_not_active(
    state: ManagerView,
    id: Seq<char>,
    kind: WorkloadKind,
    exclusive: bool,
    result: Result<StartStep, ManagerError>,
)
    requires
        state.starts(id, kind, exclusive, result),
        result is Ok,
    ensures
        result->Ok_0 is Active <==> state.active.contains_key(id),
        result->Ok_0 matches StartStep::Active(view) ==> view@ == state.show(id),
        result->Ok_0 matches StartStep::Launch(definition) ==> state.workloads[id].definition
            == Some(definition@),
{
}

} // verus!
