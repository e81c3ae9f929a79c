//! What holds of the manager across its operations.

use vstd::prelude::*;

use crate::config::model::WorkloadKind;
use crate::manager::error::ManagerRefusal;
use crate::manager::execution::SupervisorObservation;
use crate::manager::model::{ActiveFacts, ActiveState, WorkloadFacts};
use crate::manager::state::{ManagerView, find, reconciled, starting};
use crate::messages::ConfigurationView;
use crate::ordered::{
    ascending, entries_map, has_key, key_index, lemma_entry_in_map, listing,
};
use crate::storage::ExecutionRow;
use crate::text::hex_text;

verus! {

/// Nothing is started while the session ends.
pub proof fn law_nothing_starts_while_the_session_ends(
    state: ManagerView,
    id: Seq<char>,
    kind: WorkloadKind,
    exclusive: bool,
)
    ensures
        state.end_session().session_ending,
        state.end_session().start_refusal(id, kind, exclusive) == Some(
            ManagerRefusal::SessionEnding,
        ),
{
}

/// Once the session ends everything that is active is being stopped, and nothing of it is started
/// again; and the session ends only once.
pub proof fn law_ending_sessions_stop_everything(
    state: ManagerView,
    id: Seq<char>,
    execution_id: Seq<char>,
)
    requires
        !state.session_ending,
    ensures
        state.end_session().active.dom() == state.active.dom(),
        state.active.contains_key(id) ==> state.end_session().active[id].state
            == ActiveState::Stopping && !state.end_session().active[id].restart_after,
        !state.end_session().restarts(id, execution_id),
        state.end_session().end_session() == state.end_session(),
{
    assert(state.end_session().active.dom() =~= state.active.dom());
}

/// A job that is active is not run a second time.
pub proof fn law_active_jobs_are_not_run_twice(state: ManagerView, id: Seq<char>)
    requires
        !state.session_ending,
        state.active.contains_key(id),
        state.refusal(id, WorkloadKind::Job) is None,
        state.workloads[id].definition is Some,
    ensures
        state.start_refusal(id, WorkloadKind::Job, true) == Some(
            ManagerRefusal::AlreadyActive(id),
        ),
{
}

/// A start that is taken back leaves no trace.
pub proof fn law_abandoned_starts_leave_no_trace(
    state: ManagerView,
    id: Seq<char>,
    configuration: ConfigurationView,
    policy_hash: Seq<u8>,
)
    requires
        !state.active.contains_key(id),
    ensures
        state.with_active(id, starting(configuration, policy_hash)).without_active(id) == state,
{
    assert(state.active.insert(id, starting(configuration, policy_hash)).remove(id)
        =~= state.active);
}

/// A stop that is requested again changes nothing about the execution, and a restart that was
/// asked for is not forgotten.
pub proof fn law_stop_requests_can_be_repeated(
    state: ManagerView,
    id: Seq<char>,
    first: bool,
    again: bool,
)
    requires
        state.active.contains_key(id),
    ensures
        state.stop(id, first).stop(id, again).active == state.stop(id, first || again).active,
        state.stop(id, first).active[id].state == ActiveState::Stopping,
        first ==> state.stop(id, first).stop(id, again).active[id].restart_after,
{
    assert(state.stop(id, first).stop(id, again).active =~= state.stop(
        id,
        first || again,
    ).active);
}

proof fn lemma_listed_keys<V>(map: Map<Seq<char>, V>, i: int)
    requires
        exists|entries: Seq<(Seq<char>, V)>| ascending(entries) && entries_map(entries) == map,
        0 <= i < listing(map).len(),
    ensures
        map.contains_key(listing(map)[i].0),
        map[listing(map)[i].0] == listing(map)[i].1,
{
    lemma_entry_in_map(listing(map), i);
}

/// Holding the executions against the same definitions a second time changes nothing: whether a
/// restart is required is settled, and no policy is newly pending.
pub proof fn law_reloads_settle(state: ManagerView)
    requires
        exists|entries: Seq<(Seq<char>, ActiveFacts)>|
            ascending(entries) && entries_map(entries) == state.reconcile().active,
    ensures
        !state.reconcile().reconcile_differs(),
        state.reconcile().reconcile().active == state.reconcile().active,
{
    let once = state.reconcile();
    let entries = listing(once.active);
    assert forall|i: int| 0 <= i < entries.len() implies !reconciled(
        (#[trigger] entries[i]).1,
        find(once.workloads, entries[i].0),
    ).1 by {
        lemma_listed_keys(once.active, i);
    }
    assert(once.reconcile().active =~= once.active);
}

/// A policy counts as taken over only when the supervisor confirms the very digest that is
/// pending, and then it does.
pub proof fn law_policies_are_confirmed_by_their_digest(
    state: ManagerView,
    row: ExecutionRow,
    observation: SupervisorObservation,
)
    requires
        state.active_as(row.workload_id, row.id) matches Some(active)
            && active.policy_sync_pending,
    ensures
        state.progressed(row, observation).active[row.workload_id].policy_sync_pending == !(
        observation.kind@ == "policy-applied"@ && observation.detail@ == hex_text(
            state.active[row.workload_id].policy_hash,
        )),
        state.progressed(row, observation).active[row.workload_id].policy_hash
            == state.active[row.workload_id].policy_hash,
{
}

/// Whoever has seen a revision has missed nothing while it stands: an execution that is started, is
/// attached to or ends, a stop that is requested, a workload that is enabled or disabled and a
/// session that ends all raise it.
pub proof fn law_changes_raise_the_revision(
    state: ManagerView,
    id: Seq<char>,
    configuration: ConfigurationView,
    row: ExecutionRow,
    process_id: u32,
    text: Seq<char>,
    flag: bool,
)
    requires
        state.revision < u64::MAX,
    ensures
        state.entered(id, configuration).bump().revision == state.revision + 1,
        state.attach(row, process_id, text).revision == state.revision + 1,
        state.ended(id, text).revision == state.revision + 1,
        state.stop(id, flag).revision == state.revision + 1,
        state.enabled_as(id, flag).revision == state.revision + 1,
        !state.session_ending ==> state.end_session().revision == state.revision + 1,
{
}

/// What may change something raises the revision where it does: a supervisor that is launched,
/// reports or is lost.
pub proof fn law_only_what_changes_nothing_keeps_the_revision(
    state: ManagerView,
    id: Seq<char>,
    execution_id: Seq<char>,
    process_id: u32,
    attachment: Seq<char>,
    row: ExecutionRow,
    observation: SupervisorObservation,
)
    requires
        state.revision < u64::MAX,
    ensures
        ({
            let launched = state.launched(id, execution_id, process_id);
            let progressed = state.progressed(row, observation);
            let lost = state.disconnect(execution_id, attachment);
            &&& launched == state || launched.revision == state.revision + 1
            &&& progressed == state || progressed.revision == state.revision + 1
            &&& lost == state || lost.revision == state.revision + 1
        }),
{
}

/// A reload that changes a definition raises the revision, and one that changes none raises it
/// where it changes an execution: otherwise the workloads and the executions stay as they are.
pub proof fn law_reloads_raise_the_revision(
    state: ManagerView,
    changed: bool,
    records: Seq<(Seq<char>, WorkloadFacts)>,
)
    requires
        state.revision < u64::MAX,
        changed || records.len() == 0,
        exists|entries: Seq<(Seq<char>, ActiveFacts)>|
            ascending(entries) && entries_map(entries) == state.active,
    ensures
        ({
            let after = state.reloaded(changed, records);
            &&& changed ==> after.revision == state.revision + 1
            &&& after.revision == state.revision + 1 || after.workloads == state.workloads
                && after.active == state.active && after.revision == state.revision
        }),
{
    if !changed && !state.reconcile_differs() {
        let entries = listing(state.active);
        assert forall|id: Seq<char>| state.active.contains_key(id) implies state.reconcile().active[id]
            == #[trigger] state.active[id] by {
            assert(entries_map(entries).contains_key(id));
            assert(has_key(entries, id));
            let i = key_index(entries, id);
            lemma_listed_keys(state.active, i);
            assert(!reconciled(entries[i].1, find(state.workloads, entries[i].0)).1);
        }
        assert(state.reconcile().active =~= state.active);
    }
}

/// A supervisor of an earlier attachment cannot take the execution from the one that is attached
/// now.
pub proof fn law_old_attachments_cannot_disconnect(
    state: ManagerView,
    execution_id: Seq<char>,
    attachment: Seq<char>,
)
    requires
        state.holder(execution_id) matches Some(id) && state.active[id].attachment_id != Some(
            attachment,
        ),
    ensures
        state.disconnect(execution_id, attachment) == state,
{
}

} // verus!
