//! The state of the manager: how requests, reloads and the end of the session change it.

use vstd::prelude::*;
use vstd::string::*;

use crate::config::model::{WorkloadKind, texts};
use crate::manager::error::{ManagerError, ManagerRefusal};
use crate::manager::model::{
    ActiveExecution, ActiveFacts, ActiveState, Workload, WorkloadFacts, WorkloadRecord,
    WorkloadView, shown, workload_view,
};
use crate::messages::{ConfigurationView, ExecutionConfiguration, copy_bytes};
use crate::ordered::{
    TextMap, ascending, entries_map, lemma_listing_seen, lemma_remade_map, listing, remade, seen,
};
use crate::snapshot::{kind_name, kind_text};
use crate::storage::{ExecutionRow, StoredExecution};
use crate::text::{same_bytes, same_text};

verus! {

/// What a supervisor is told.
#[derive(Debug)]
pub enum Command {
    Stop,
    SessionEnding,
    /// Take over the policy of this workload.
    UpdatePolicy { workload_id: String },
}

/// A [`Command`] as mathematical text.
#[verifier::ext_equal]
pub enum CommandView {
    Stop,
    SessionEnding,
    UpdatePolicy { workload_id: Seq<char> },
}

impl CommandView {
    /// What a command is called.
    pub open spec fn text(self) -> Seq<char> {
        match self {
            CommandView::Stop => "stop"@,
            CommandView::SessionEnding => "session-ending"@,
            CommandView::UpdatePolicy { .. } => "update-policy"@,
        }
    }
}

impl Command {
    pub open spec fn view(&self) -> CommandView {
        match *self {
            Command::Stop => CommandView::Stop,
            Command::SessionEnding => CommandView::SessionEnding,
            Command::UpdatePolicy { workload_id } => CommandView::UpdatePolicy {
                workload_id: workload_id@,
            },
        }
    }

    pub fn kind(&self) -> (kind: &'static str)
        ensures
            kind@ == self@.text(),
    {
        match self {
            Command::Stop => "stop",
            Command::SessionEnding => "session-ending",
            Command::UpdatePolicy { .. } => "update-policy",
        }
    }

    /// The command as it is sent. Only a policy is sent along, as the bytes that it was encoded to.
    pub fn encoded(&self, policy: Vec<u8>) -> (command: ExecutionCommand)
        ensures
            command.kind@ == self@.text(),
            command.payload@ == if self@ is UpdatePolicy {
                policy@
            } else {
                Seq::empty()
            },
    {
        let payload: Vec<u8> = match self {
            Command::UpdatePolicy { .. } => policy,
            Command::Stop | Command::SessionEnding => Vec::new(),
        };
        ExecutionCommand { kind: self.kind().to_owned(), payload }
    }
}

/// A command as it is sent to a supervisor.
#[derive(Debug)]
pub struct ExecutionCommand {
    pub kind: String,
    pub payload: Vec<u8>,
}

/// What is to be done for an execution.
#[derive(Debug)]
pub enum ManagerEffect {
    /// Cancel what waits for the supervisor of this execution.
    Cancel { execution_id: String },
    /// Tell the supervisor of this execution something.
    Send { execution_id: String, command: Command },
}

/// A [`ManagerEffect`] as mathematical text.
#[verifier::ext_equal]
pub enum ManagerEffectView {
    Cancel { execution_id: Seq<char> },
    Send { execution_id: Seq<char>, command: CommandView },
}

impl ManagerEffect {
    pub open spec fn view(&self) -> ManagerEffectView {
        match *self {
            ManagerEffect::Cancel { execution_id } => ManagerEffectView::Cancel {
                execution_id: execution_id@,
            },
            ManagerEffect::Send { execution_id, command } => ManagerEffectView::Send {
                execution_id: execution_id@,
                command: command@,
            },
        }
    }
}

/// The views of some effects.
pub open spec fn manager_effects(effects: Seq<ManagerEffect>) -> Seq<ManagerEffectView> {
    effects.map_values(|effect: ManagerEffect| effect@)
}

/// The workloads as mathematical text.
pub open spec fn workload_facts(workloads: Map<Seq<char>, WorkloadRecord>) -> Map<
    Seq<char>,
    WorkloadFacts,
> {
    workloads.map_values(|record: WorkloadRecord| record@)
}

/// The executions as mathematical text.
pub open spec fn active_facts(active: Map<Seq<char>, ActiveExecution>) -> Map<
    Seq<char>,
    ActiveFacts,
> {
    active.map_values(|execution: ActiveExecution| execution@)
}

/// The state of the manager.
#[derive(Debug)]
pub struct ManagerState {
    pub workloads: TextMap<WorkloadRecord>,
    /// The execution of a workload that has not ended, at most one for each.
    pub active: TextMap<ActiveExecution>,
    pub revision: u64,
    pub session_ending: bool,
    /// What is still to be done, in order.
    pub effects: Vec<ManagerEffect>,
}

#[verifier::ext_equal]
pub struct ManagerView {
    pub workloads: Map<Seq<char>, WorkloadFacts>,
    pub active: Map<Seq<char>, ActiveFacts>,
    pub revision: u64,
    pub session_ending: bool,
    pub effects: Seq<ManagerEffectView>,
}

/// The value of a key, where it has one.
pub open spec fn find<V>(map: Map<Seq<char>, V>, key: Seq<char>) -> Option<V> {
    if map.contains_key(key) {
        Some(map[key])
    } else {
        None
    }
}

/// The next number, or the last one.
pub open spec fn next_revision(revision: u64) -> u64 {
    if revision == u64::MAX {
        revision
    } else {
        (revision + 1) as u64
    }
}

/// What a new execution is known as.
pub open spec fn starting(configuration: ConfigurationView, policy_hash: Seq<u8>) -> ActiveFacts {
    ActiveFacts {
        execution_id: configuration.execution_id,
        supervisor_process_id: 0,
        workload_process_id: 0,
        attempt: 0,
        error: Seq::empty(),
        state: ActiveState::Starting,
        locally_owned: true,
        restart_after: false,
        process_definition_hash: configuration.process_definition_hash,
        policy_hash,
        restart_required: false,
        policy_sync_pending: false,
        attachment_id: None,
    }
}

/// What an execution of this session is known as that was running before the manager was.
pub open spec fn recovering(
    row: ExecutionRow,
    configuration: ConfigurationView,
    policy_hash: Seq<u8>,
) -> ActiveFacts {
    ActiveFacts {
        execution_id: row.id,
        supervisor_process_id: row.supervisor_process_id,
        workload_process_id: row.workload_process_id,
        attempt: row.attempt,
        error: row.error,
        state: if row.state == "stopping"@ {
            ActiveState::Stopping
        } else {
            ActiveState::Recovering
        },
        locally_owned: false,
        restart_after: false,
        process_definition_hash: configuration.process_definition_hash,
        policy_hash,
        restart_required: false,
        policy_sync_pending: false,
        attachment_id: None,
    }
}

/// How an execution ended whose session ended without it.
pub open spec fn stale_outcome(kind: Seq<char>) -> Seq<char> {
    if kind == "job"@ {
        "outcome-unknown"@
    } else {
        "stopped"@
    }
}

/// The row of an execution whose session ended without it.
pub open spec fn closed_row(row: ExecutionRow, outcome: Seq<char>, now: i64) -> ExecutionRow {
    ExecutionRow {
        state: outcome,
        supervisor_process_id: 0,
        workload_process_id: 0,
        ended_unix_ms: now,
        exit_code: None,
        error: "execution belonged to an ended manager session"@,
        ..row
    }
}

/// What a reload makes of an execution: whether a restart is required, and whether the policy
/// has to be sent; whether anything changed; and whether the policy is sent now.
pub open spec fn reconciled(active: ActiveFacts, record: Option<WorkloadFacts>) -> (
    ActiveFacts,
    bool,
    bool,
) {
    match record {
        Some(WorkloadFacts { definition: Some(definition), policy_hash, .. }) => {
            let restart_required = active.process_definition_hash
                != definition.process_definition_hash;
            let other_policy = active.policy_hash != policy_hash;
            let next = ActiveFacts {
                restart_required,
                policy_hash,
                policy_sync_pending: active.policy_sync_pending || other_policy,
                ..active
            };
            (
                next,
                active.restart_required != restart_required || other_policy,
                next.policy_sync_pending,
            )
        },
        _ => (
            ActiveFacts { restart_required: false, ..active },
            active.restart_required,
            false,
        ),
    }
}

/// What is sent after a reload for the first `n` executions.
pub open spec fn reconcile_effects(
    entries: Seq<(Seq<char>, ActiveFacts)>,
    workloads: Map<Seq<char>, WorkloadFacts>,
    n: int,
) -> Seq<ManagerEffectView>
    decreases n,
{
    if n <= 0 {
        Seq::empty()
    } else {
        let earlier = reconcile_effects(entries, workloads, n - 1);
        let (id, active) = entries[n - 1];
        if reconciled(active, find(workloads, id)).2 {
            earlier.push(
                ManagerEffectView::Send {
                    execution_id: active.execution_id,
                    command: CommandView::UpdatePolicy { workload_id: id },
                },
            )
        } else {
            earlier
        }
    }
}

/// Whether a reload changes any of the first `n` executions.
pub open spec fn reconcile_changes(
    entries: Seq<(Seq<char>, ActiveFacts)>,
    workloads: Map<Seq<char>, WorkloadFacts>,
    n: int,
) -> bool {
    exists|i: int|
        0 <= i < n && reconciled((#[trigger] entries[i]).1, find(workloads, entries[i].0)).1
}

/// The first definition that would turn an active service into a job or the other way round.
pub open spec fn kind_conflict(
    state: ManagerView,
    definitions: Seq<ConfigurationView>,
    n: int,
) -> Option<Seq<char>>
    decreases n,
{
    if n <= 0 {
        None
    } else {
        let id = definitions[n - 1].workload_id;
        match kind_conflict(state, definitions, n - 1) {
            Some(conflict) => Some(conflict),
            None => if state.active.contains_key(id) && (find(state.workloads, id) matches Some(
                record,
            ) && record.kind != definitions[n - 1].kind) {
                Some(id)
            } else {
                None
            },
        }
    }
}

impl ManagerView {
    pub open spec fn bump(self) -> ManagerView {
        ManagerView { revision: next_revision(self.revision), ..self }
    }

    pub open spec fn effect(self, effect: ManagerEffectView) -> ManagerView {
        ManagerView { effects: self.effects.push(effect), ..self }
    }

    /// How a workload is shown.
    pub open spec fn show(self, id: Seq<char>) -> WorkloadView {
        shown(id, self.workloads[id], find(self.active, id))
    }

    pub open spec fn with_outcome(self, id: Seq<char>, outcome: Seq<char>) -> ManagerView {
        if self.workloads.contains_key(id) {
            ManagerView {
                workloads: self.workloads.insert(
                    id,
                    WorkloadFacts { last_outcome: outcome, ..self.workloads[id] },
                ),
                ..self
            }
        } else {
            self
        }
    }

    /// The state after an execution was found that had not ended: one of another session is
    /// closed.
    pub open spec fn recover(
        self,
        row: ExecutionRow,
        configuration: ConfigurationView,
        policy_hash: Seq<u8>,
        session: Seq<char>,
    ) -> ManagerView {
        if configuration.manager_session_id != session {
            self.with_outcome(row.workload_id, stale_outcome(configuration.kind))
        } else {
            ManagerView {
                active: self.active.insert(
                    row.workload_id,
                    recovering(row, configuration, policy_hash),
                ),
                ..self
            }
        }
    }

    /// The state after the executions were held against the definitions.
    pub open spec fn reconcile(self) -> ManagerView {
        let entries = listing(self.active);
        ManagerView {
            active: Map::new(
                |id: Seq<char>| self.active.contains_key(id),
                |id: Seq<char>| reconciled(self.active[id], find(self.workloads, id)).0,
            ),
            effects: self.effects + reconcile_effects(
                entries,
                self.workloads,
                entries.len() as int,
            ),
            ..self
        }
    }

    /// Whether holding the executions against the definitions changes any.
    pub open spec fn reconcile_differs(self) -> bool {
        let entries = listing(self.active);
        reconcile_changes(entries, self.workloads, entries.len() as int)
    }

    /// Why a workload of this kind cannot be asked for.
    pub open spec fn refusal(self, id: Seq<char>, kind: WorkloadKind) -> Option<ManagerRefusal> {
        if !self.workloads.contains_key(id) {
            Some(ManagerRefusal::NotFound(id))
        } else if self.workloads[id].kind != kind_text(kind) {
            Some(
                ManagerRefusal::WrongKind {
                    id,
                    expected: kind_text(kind),
                    actual: self.workloads[id].kind,
                },
            )
        } else {
            None
        }
    }

    /// Why a workload cannot be started.
    pub open spec fn start_refusal(
        self,
        id: Seq<char>,
        kind: WorkloadKind,
        exclusive: bool,
    ) -> Option<ManagerRefusal> {
        if self.session_ending {
            Some(ManagerRefusal::SessionEnding)
        } else if self.refusal(id, kind) is Some {
            self.refusal(id, kind)
        } else if self.workloads[id].definition is None {
            Some(ManagerRefusal::DefinitionMissing(id))
        } else if self.active.contains_key(id) && exclusive {
            Some(ManagerRefusal::AlreadyActive(id))
        } else {
            None
        }
    }

    /// The state after the definitions were loaded again: with the workloads that are kept now,
    /// where the definitions changed.
    pub open spec fn reloaded(
        self,
        changed: bool,
        records: Seq<(Seq<char>, WorkloadFacts)>,
    ) -> ManagerView {
        let known = ManagerView { workloads: with_records(self.workloads, records), ..self };
        if changed || known.reconcile_differs() {
            known.reconcile().bump()
        } else {
            known.reconcile()
        }
    }

    /// The state after an execution was entered that is to be launched.
    pub open spec fn entered(self, id: Seq<char>, configuration: ConfigurationView) -> ManagerView {
        ManagerView {
            active: self.active.insert(
                id,
                starting(configuration, self.workloads[id].policy_hash),
            ),
            ..self
        }
    }

    /// The state after it was kept whether a workload is enabled.
    pub open spec fn enabled_as(self, id: Seq<char>, enabled: bool) -> ManagerView {
        ManagerView {
            workloads: self.workloads.insert(
                id,
                WorkloadFacts { enabled, ..self.workloads[id] },
            ),
            ..self
        }.bump()
    }

    /// The state after a stop of an active workload was requested.
    pub open spec fn stop(self, id: Seq<char>, restart_after: bool) -> ManagerView {
        let active = self.active[id];
        let stopping = ActiveFacts {
            restart_after: active.restart_after || restart_after,
            state: ActiveState::Stopping,
            ..active
        };
        ManagerView { active: self.active.insert(id, stopping), ..self }.effect(
            ManagerEffectView::Cancel { execution_id: active.execution_id },
        ).effect(
            ManagerEffectView::Send {
                execution_id: active.execution_id,
                command: CommandView::Stop,
            },
        ).bump()
    }

    /// The state after the session began to end.
    pub open spec fn end_session(self) -> ManagerView {
        if self.session_ending {
            self
        } else {
            let entries = listing(self.active);
            ManagerView {
                session_ending: true,
                active: self.active.map_values(
                    |active: ActiveFacts|
                        ActiveFacts { restart_after: false, state: ActiveState::Stopping, ..active },
                ),
                effects: self.effects + ending_effects(entries, entries.len() as int),
                ..self
            }.bump()
        }
    }
}

/// What is done for the first `n` executions when the session ends.
pub open spec fn ending_effects(entries: Seq<(Seq<char>, ActiveFacts)>, n: int) -> Seq<
    ManagerEffectView,
>
    decreases n,
{
    if n <= 0 {
        Seq::empty()
    } else {
        let execution_id = entries[n - 1].1.execution_id;
        ending_effects(entries, n - 1).push(ManagerEffectView::Cancel { execution_id }).push(
            ManagerEffectView::Send { execution_id, command: CommandView::SessionEnding },
        )
    }
}

/// What comes of a request to start a workload.
#[derive(Debug)]
pub enum StartStep {
    /// The workload is active already, and shown like this.
    Active(Workload),
    /// The workload is to be launched with this definition.
    Launch(ExecutionConfiguration),
}

impl ManagerState {
    pub open spec fn view(&self) -> ManagerView {
        ManagerView {
            workloads: workload_facts(self.workloads.map()),
            active: active_facts(self.active.map()),
            revision: self.revision,
            session_ending: self.session_ending,
            effects: manager_effects(self.effects@),
        }
    }

    /// A manager that knows nothing yet.
    pub fn new() -> (state: ManagerState)
        ensures
            state@ == (ManagerView {
                workloads: Map::empty(),
                active: Map::empty(),
                revision: 0,
                session_ending: false,
                effects: Seq::empty(),
            }),
    {
        let state = ManagerState {
            workloads: TextMap::new(),
            active: TextMap::new(),
            revision: 0,
            session_ending: false,
            effects: Vec::new(),
        };
        assert(state@.workloads =~= Map::empty());
        assert(state@.active =~= Map::empty());
        assert(state@.effects =~= Seq::empty());
        state
    }

    /// Hands out what is to be done, in order.
    pub fn take_effects(&mut self) -> (effects: Vec<ManagerEffect>)
        ensures
            manager_effects(effects@) == old(self)@.effects,
            final(self)@ == (ManagerView { effects: Seq::empty(), ..old(self)@ }),
    {
        let mut effects: Vec<ManagerEffect> = Vec::new();
        std::mem::swap(&mut effects, &mut self.effects);
        assert(self@ =~= (ManagerView { effects: Seq::empty(), ..old(self)@ }));
        effects
    }

    /// Counts a change.
    pub fn bump(&mut self)
        ensures
            final(self)@ == old(self)@.bump(),
    {
        self.revision = self.revision.saturating_add(1);
    }

    pub(crate) fn push_effect(&mut self, effect: ManagerEffect)
        ensures
            final(self)@ == old(self)@.effect(effect@),
    {
        self.effects.push(effect);
        assert(manager_effects(self.effects@) =~= manager_effects(old(self).effects@).push(
            effect@,
        ));
    }

    pub(crate) fn set_active(&mut self, id: &str, active: ActiveExecution)
        ensures
            final(self)@ == (ManagerView {
                active: old(self)@.active.insert(id@, active@),
                ..old(self)@
            }),
    {
        let ghost facts = active@;
        let _ = self.active.insert(id.to_owned(), active);
        assert(self@.active =~= old(self)@.active.insert(id@, facts));
    }

    pub(crate) fn take_active(&mut self, id: &str) -> (active: Option<ActiveExecution>)
        ensures
            final(self)@ == (ManagerView {
                active: old(self)@.active.remove(id@),
                ..old(self)@
            }),
            match active {
                Some(active) => find(old(self)@.active, id@) == Some(active@),
                None => find(old(self)@.active, id@) is None,
            },
    {
        let active: Option<ActiveExecution> = self.active.remove(id);
        assert(self@.active =~= old(self)@.active.remove(id@));
        active
    }

    /// Adds a workload, or replaces what is known of it.
    pub fn add_workload(&mut self, id: String, record: WorkloadRecord)
        ensures
            final(self)@ == (ManagerView {
                workloads: old(self)@.workloads.insert(id@, record@),
                ..old(self)@
            }),
    {
        let ghost facts = record@;
        let _ = self.workloads.insert(id, record);
        assert(self@.workloads =~= old(self)@.workloads.insert(id@, facts));
    }

    pub(crate) fn set_outcome(&mut self, id: &str, outcome: &str)
        ensures
            final(self)@ == old(self)@.with_outcome(id@, outcome@),
    {
        match self.workloads.remove(id) {
            Some(mut record) => {
                record.last_outcome = outcome.to_owned();
                let ghost facts = record@;
                let _ = self.workloads.insert(id.to_owned(), record);
                assert(self@.workloads =~= old(self)@.workloads.insert(id@, facts));
            },
            None => {
                assert(self@.workloads =~= old(self)@.workloads);
            },
        }
    }

    /// Takes over an execution that had not ended. One of another session is closed instead, and
    /// its row is the answer.
    pub fn recover_execution(
        &mut self,
        execution: StoredExecution,
        configuration: &ExecutionConfiguration,
        policy_hash: Vec<u8>,
        session: &str,
        now: i64,
    ) -> (closed: Option<StoredExecution>)
        ensures
            final(self)@ == old(self)@.recover(
                execution@,
                configuration@,
                policy_hash@,
                session@,
            ),
            match closed {
                Some(row) => configuration.manager_session_id@ != session@ && row@ == closed_row(
                    execution@,
                    stale_outcome(configuration.kind@),
                    now,
                ),
                None => configuration.manager_session_id@ == session@,
            },
    {
        if !same_text(configuration.manager_session_id.as_str(), session) {
            let outcome: &str = if same_text(configuration.kind.as_str(), "job") {
                "outcome-unknown"
            } else {
                "stopped"
            };
            self.set_outcome(execution.workload_id.as_str(), outcome);
            let mut row: StoredExecution = execution;
            row.state = outcome.to_owned();
            row.supervisor_process_id = 0;
            row.workload_process_id = 0;
            row.ended_unix_ms = now;
            row.exit_code = None;
            row.error = "execution belonged to an ended manager session".to_owned();
            return Some(row);
        }
        let state: ActiveState = if same_text(execution.state.as_str(), "stopping") {
            ActiveState::Stopping
        } else {
            ActiveState::Recovering
        };
        let active = ActiveExecution {
            execution_id: execution.id,
            supervisor_process_id: execution.supervisor_process_id,
            workload_process_id: execution.workload_process_id,
            attempt: execution.attempt,
            error: execution.error,
            state,
            locally_owned: false,
            restart_after: false,
            process_definition_hash: copy_bytes(&configuration.process_definition_hash),
            policy_hash,
            restart_required: false,
            policy_sync_pending: false,
            attachment_id: None,
        };
        self.set_active(execution.workload_id.as_str(), active);
        None
    }

    /// The number of workloads that are active is none.
    pub fn is_quiescent(&self) -> (quiescent: bool)
        ensures
            quiescent == (self@.active.dom() == Set::<Seq<char>>::empty()),
    {
        let count: usize = self.active.len();
        proof {
            if count == 0 {
                assert(self@.active.dom() =~= Set::<Seq<char>>::empty());
            } else {
                crate::ordered::lemma_entry_in_map(self.active@, 0);
                assert(self@.active.dom().contains(self.active@[0].0));
            }
        }
        count == 0
    }

    /// How a workload is shown.
    pub fn workload(&self, id: &str) -> (result: Result<Workload, ManagerError>)
        ensures
            match result {
                Ok(view) => self@.workloads.contains_key(id@) && view@ == self@.show(id@),
                Err(error) => !self@.workloads.contains_key(id@) && error@
                    == ManagerRefusal::NotFound(id@),
            },
    {
        match self.workloads.get(id) {
            Some(record) => {
                let active: Option<&ActiveExecution> = self.active.get(id);
                Ok(workload_view(id, record, active))
            },
            None => Err(ManagerError::NotFound(id.to_owned())),
        }
    }

    /// How all workloads are shown, in the order of their ids.
    pub fn list_workloads(&self) -> (views: Vec<Workload>)
        ensures
            views@.map_values(|view: Workload| view@) == listing(self@.workloads).map_values(
                |entry: (Seq<char>, WorkloadFacts)| self@.show(entry.0),
            ),
    {
        let mut views: Vec<Workload> = Vec::new();
        let count: usize = self.workloads.len();
        let ghost sight = |record: WorkloadRecord| record@;
        let ghost listed = listing(self@.workloads);
        let ghost wanted = listed.map_values(
            |entry: (Seq<char>, WorkloadFacts)| self@.show(entry.0),
        );
        proof {
            lemma_listing_seen(self.workloads@, sight);
            assert(self@.workloads =~= self.workloads.map().map_values(sight));
            assert(listed == seen(self.workloads@, sight));
        }
        let mut i: usize = 0;
        assert(views@.map_values(|view: Workload| view@) =~= wanted.take(0));
        while i < count
            invariant
                i <= count,
                count == self.workloads@.len(),
                ascending(self.workloads@),
                sight == (|record: WorkloadRecord| record@),
                listed == seen(self.workloads@, sight),
                wanted == listed.map_values(
                    |entry: (Seq<char>, WorkloadFacts)| self@.show(entry.0),
                ),
                views@.map_values(|view: Workload| view@) == wanted.take(i as int),
            decreases count - i,
        {
            let ghost before = views@;
            let id: &str = self.workloads.key(i);
            let record: &WorkloadRecord = self.workloads.value(i);
            let active: Option<&ActiveExecution> = self.active.get(id);
            let view: Workload = workload_view(id, record, active);
            proof {
                crate::ordered::lemma_entry_in_map(self.workloads@, i as int);
                assert(self@.workloads[id@] == record@);
                assert(listed[i as int].0 == id@);
                assert(wanted[i as int] == self@.show(id@));
            }
            views.push(view);
            i += 1;
            assert(views@.map_values(|view: Workload| view@) =~= before.map_values(
                |view: Workload| view@,
            ).push(view@));
            assert(views@.map_values(|view: Workload| view@) =~= wanted.take(i as int));
        }
        assert(wanted.take(i as int) =~= wanted);
        views
    }

    /// Refuses definitions that would turn an active service into a job or the other way round.
    pub fn check_reload(&self, definitions: &Vec<ExecutionConfiguration>) -> (result: Result<
        (),
        ManagerError,
    >)
        ensures
            ({
                let listed = definitions@.map_values(
                    |definition: ExecutionConfiguration| definition@,
                );
                let conflict = kind_conflict(self@, listed, listed.len() as int);
                match result {
                    Ok(_) => conflict is None,
                    Err(error) => conflict matches Some(id) && error@
                        == ManagerRefusal::KindChangeActive(id),
                }
            }),
    {
        let ghost listed = definitions@.map_values(
            |definition: ExecutionConfiguration| definition@,
        );
        let mut i: usize = 0;
        while i < definitions.len()
            invariant
                i <= definitions.len(),
                listed == definitions@.map_values(
                    |definition: ExecutionConfiguration| definition@,
                ),
                kind_conflict(self@, listed, i as int) is None,
            decreases definitions.len() - i,
        {
            let definition: &ExecutionConfiguration = &definitions[i];
            let id: &str = definition.workload_id.as_str();
            assert(listed[i as int] == definition@);
            let active: bool = self.active.contains_key(id);
            let other_kind: bool = match self.workloads.get(id) {
                Some(record) => !same_text(record.kind.as_str(), definition.kind.as_str()),
                None => false,
            };
            if active && other_kind {
                proof {
                    assert(kind_conflict(self@, listed, i + 1) == Some(id@));
                    lemma_conflict_stays(self@, listed, i + 1, listed.len() as int);
                }
                return Err(ManagerError::KindChangeActive(id.to_owned()));
            }
            i += 1;
        }
        Ok(())
    }
}

/// The executions in the order of their workloads, as mathematical text.
spec fn active_entries(active: TextMap<ActiveExecution>) -> Seq<(Seq<char>, ActiveFacts)> {
    seen(active@, |execution: ActiveExecution| execution@)
}

proof fn lemma_active_entries(active: TextMap<ActiveExecution>)
    requires
        ascending(active@),
    ensures
        active_entries(active) == listing(active_facts(active.map())),
        ascending(active_entries(active)),
        entries_map(active_entries(active)) == active_facts(active.map()),
{
    let sight = |execution: ActiveExecution| execution@;
    lemma_listing_seen(active@, sight);
    assert(active_facts(active.map()) =~= active.map().map_values(sight));
}

impl ManagerState {
    /// Holds the executions against the definitions. The answer is whether any of them changed.
    fn reconcile_reload(&mut self) -> (changed: bool)
        ensures
            changed == old(self)@.reconcile_differs(),
            final(self)@ == old(self)@.reconcile(),
    {
        let ghost before = self.active;
        let ghost entries = active_entries(before);
        let ghost workloads = self@.workloads;
        let ghost make = |id: Seq<char>, active: ActiveFacts|
            reconciled(active, find(workloads, id)).0;
        let ghost wanted = remade(entries, make);
        let ghost told = self@.effects;
        let count: usize = self.active.len();
        let mut changed: bool = false;
        let mut i: usize = 0;
        proof {
            lemma_active_entries(before);
            assert(reconcile_effects(entries, workloads, 0) =~= Seq::empty());
            assert(told + reconcile_effects(entries, workloads, 0) =~= told);
        }
        while i < count
            invariant
                i <= count,
                count == entries.len(),
                entries == active_entries(before),
                make == (|id: Seq<char>, active: ActiveFacts|
                    reconciled(active, find(workloads, id)).0),
                wanted == remade(entries, make),
                workloads == self@.workloads,
                self.workloads == old(self).workloads,
                self.revision == old(self).revision,
                self.session_ending == old(self).session_ending,
                ascending(self.active@),
                active_entries(self.active) =~= wanted.take(i as int) + entries.skip(i as int),
                changed == reconcile_changes(entries, workloads, i as int),
                self@.effects == told + reconcile_effects(entries, workloads, i as int),
            decreases count - i,
        {
            let ghost now = active_entries(self.active);
            proof {
                assert(wanted.len() == count);
                let split = wanted.take(i as int) + entries.skip(i as int);
                assert(split.len() == count);
                assert(now == split);
                assert(now.len() == self.active@.len());
            }
            let id: String = self.active.key(i).to_owned();
            let mut active: ActiveExecution = self.active.value(i).clone();
            proof {
                assert(now[i as int] == entries[i as int]);
                assert(now[i as int] == (id@, active@));
            }
            let ghost facts = active@;
            let mut differs: bool = false;
            let mut send: bool = false;
            match self.workloads.get(id.as_str()) {
                Some(record) => {
                    assert(find(workloads, id@) == Some(record@));
                    match &record.definition {
                        Some(definition) => {
                            let restart_required: bool = !same_bytes(
                                active.process_definition_hash.as_slice(),
                                definition.process_definition_hash.as_slice(),
                            );
                            if active.restart_required != restart_required {
                                active.restart_required = restart_required;
                                differs = true;
                            }
                            if !same_bytes(
                                active.policy_hash.as_slice(),
                                record.policy_hash.as_slice(),
                            ) {
                                active.policy_hash = copy_bytes(&record.policy_hash);
                                active.policy_sync_pending = true;
                                differs = true;
                            }
                            send = active.policy_sync_pending;
                        },
                        None => {
                            differs = active.restart_required;
                            active.restart_required = false;
                        },
                    }
                },
                None => {
                    assert(find(workloads, id@) is None);
                    differs = active.restart_required;
                    active.restart_required = false;
                },
            }
            let ghost outcome = reconciled(facts, find(workloads, id@));
            assert(active@ == outcome.0 && differs == outcome.1 && send == outcome.2);
            let execution_id: String = active.execution_id.clone();
            let ghost next_facts = active@;
            let ghost values_before = self.active@;
            self.active.set_value(i, active);
            proof {
                assert(active_entries(self.active) =~= now.update(i as int, (id@, next_facts)));
                assert(wanted[i as int] == (id@, next_facts));
                assert(active_entries(self.active) =~= wanted.take(i + 1) + entries.skip(i + 1));
            }
            if send {
                let ghost effects_before = self.effects@;
                let effect = ManagerEffect::Send {
                    execution_id,
                    command: Command::UpdatePolicy { workload_id: id },
                };
                self.effects.push(effect);
                assert(manager_effects(self.effects@) =~= manager_effects(effects_before).push(
                    effect@,
                ));
            }
            proof {
                assert(self@.effects =~= told + reconcile_effects(entries, workloads, i + 1));
                assert(reconcile_changes(entries, workloads, i + 1) == (reconcile_changes(
                    entries,
                    workloads,
                    i as int,
                ) || outcome.1)) by {
                    if outcome.1 {
                        assert(reconciled(
                            entries[i as int].1,
                            find(workloads, entries[i as int].0),
                        ).1);
                    }
                }
            }
            changed = changed || differs;
            i += 1;
        }
        proof {
            assert(wanted.take(i as int) + entries.skip(i as int) =~= wanted);
            lemma_active_entries(self.active);
            lemma_remade_map(entries, make);
            assert(self@.active =~= old(self)@.reconcile().active);
            assert(self@ =~= old(self)@.reconcile());
        }
        changed
    }

    /// Takes over a reload: the workloads as they are kept now, where the definitions changed.
    pub fn apply_reload(&mut self, changed: bool, persisted: Vec<(String, WorkloadRecord)>)
        requires
            changed || persisted@.len() == 0,
        ensures
            final(self)@ == old(self)@.reloaded(changed, record_list(persisted@)),
    {
        let ghost listed = record_list(persisted@);
        let mut pending: Vec<(String, WorkloadRecord)> = persisted;
        let count: usize = pending.len();
        let mut i: usize = 0;
        assert(with_records(self@.workloads, listed.take(0)) == self@.workloads);
        while i < count
            invariant
                i <= count,
                count == listed.len(),
                record_list(pending@) =~= listed.skip(i as int),
                self@ == (ManagerView {
                    workloads: with_records(old(self)@.workloads, listed.take(i as int)),
                    ..old(self)@
                }),
            decreases count - i,
        {
            let ghost before = pending@;
            assert(record_list(before).len() == before.len() == count - i);
            let (id, record): (String, WorkloadRecord) = pending.remove(0);
            proof {
                assert(record_list(before)[0] == (id@, record@));
                assert(record_list(pending@) =~= record_list(before).skip(1));
                let shown = listed.take(i + 1);
                assert(shown.drop_last() =~= listed.take(i as int));
                assert(shown.last() == (id@, record@));
            }
            self.add_workload(id, record);
            i += 1;
        }
        assert(listed.take(i as int) =~= listed);
        let differs: bool = self.reconcile_reload();
        if changed || differs {
            self.bump();
        }
    }

    fn ensure_kind(&self, id: &str, kind: WorkloadKind) -> (result: Result<(), ManagerError>)
        ensures
            match result {
                Ok(_) => self@.refusal(id@, kind) is None,
                Err(error) => self@.refusal(id@, kind) == Some(error@),
            },
    {
        let expected: &'static str = kind_name(kind);
        match self.workloads.get(id) {
            Some(record) => {
                if same_text(record.kind.as_str(), expected) {
                    Ok(())
                } else {
                    Err(
                        ManagerError::WrongKind {
                            id: id.to_owned(),
                            expected,
                            actual: record.kind.clone(),
                        },
                    )
                }
            },
            None => Err(ManagerError::NotFound(id.to_owned())),
        }
    }

    /// Decides about a request to start a workload.
    pub fn prepare_start(&self, id: &str, kind: WorkloadKind, exclusive: bool) -> (result: Result<
        StartStep,
        ManagerError,
    >)
        ensures
            match result {
                Ok(StartStep::Active(view)) => self@.start_refusal(id@, kind, exclusive) is None
                    && self@.active.contains_key(id@) && view@ == self@.show(id@),
                Ok(StartStep::Launch(definition)) => self@.start_refusal(
                    id@,
                    kind,
                    exclusive,
                ) is None && !self@.active.contains_key(id@) && self@.workloads[id@].definition
                    == Some(definition@),
                Err(error) => self@.start_refusal(id@, kind, exclusive) == Some(error@),
            },
    {
        if self.session_ending {
            return Err(ManagerError::SessionEnding);
        }
        if let Err(error) = self.ensure_kind(id, kind) {
            return Err(error);
        }
        match self.workloads.get(id) {
            Some(record) => {
                assert(self@.workloads[id@] == record@);
                match &record.definition {
                    Some(definition) => {
                        if self.active.contains_key(id) {
                            if exclusive {
                                return Err(ManagerError::AlreadyActive(id.to_owned()));
                            }
                            let active: Option<&ActiveExecution> = self.active.get(id);
                            return Ok(StartStep::Active(workload_view(id, record, active)));
                        }
                        Ok(StartStep::Launch(definition.clone()))
                    },
                    None => Err(ManagerError::DefinitionMissing(id.to_owned())),
                }
            },
            None => Err(ManagerError::NotFound(id.to_owned())),
        }
    }

    /// Enters an execution that is to be launched, and gives the row that it is kept as.
    pub fn enter_start(
        &mut self,
        id: &str,
        configuration: &ExecutionConfiguration,
        snapshot: Vec<u8>,
        started: i64,
    ) -> (row: StoredExecution)
        requires
            old(self)@.workloads.contains_key(id@),
        ensures
            final(self)@ == old(self)@.entered(id@, configuration@),
            row@ == (ExecutionRow {
                id: configuration.execution_id@,
                workload_id: id@,
                state: "starting"@,
                supervisor_process_id: 0,
                workload_process_id: 0,
                attempt: 0,
                started_unix_ms: started,
                ended_unix_ms: 0,
                exit_code: None,
                error: Seq::empty(),
                snapshot: snapshot@,
                committed_sequence: 0,
            }),
    {
        let policy_hash: Vec<u8> = match self.workloads.get(id) {
            Some(record) => copy_bytes(&record.policy_hash),
            None => Vec::new(),
        };
        let active = ActiveExecution {
            execution_id: configuration.execution_id.clone(),
            supervisor_process_id: 0,
            workload_process_id: 0,
            attempt: 0,
            error: String::new(),
            state: ActiveState::Starting,
            locally_owned: true,
            restart_after: false,
            process_definition_hash: copy_bytes(&configuration.process_definition_hash),
            policy_hash,
            restart_required: false,
            policy_sync_pending: false,
            attachment_id: None,
        };
        assert(active.error@ =~= Seq::empty());
        self.set_active(id, active);
        let row = StoredExecution {
            id: configuration.execution_id.clone(),
            workload_id: id.to_owned(),
            state: "starting".to_owned(),
            supervisor_process_id: 0,
            workload_process_id: 0,
            attempt: 0,
            started_unix_ms: started,
            ended_unix_ms: 0,
            exit_code: None,
            error: String::new(),
            snapshot,
            committed_sequence: 0,
        };
        assert(row.error@ =~= Seq::empty());
        row
    }

    /// Takes back an execution that could not be kept or was not to be started.
    pub fn abandon_start(&mut self, id: &str)
        ensures
            final(self)@ == (ManagerView {
                active: old(self)@.active.remove(id@),
                ..old(self)@
            }),
    {
        let _ = self.take_active(id);
    }

    /// Counts an execution that was started, and shows its workload.
    pub fn confirm_start(&mut self, id: &str) -> (result: Result<Workload, ManagerError>)
        ensures
            final(self)@ == old(self)@.bump(),
            match result {
                Ok(view) => old(self)@.workloads.contains_key(id@) && view@ == old(self)@.show(id@),
                Err(error) => !old(self)@.workloads.contains_key(id@) && error@
                    == ManagerRefusal::NotFound(id@),
            },
    {
        self.bump();
        self.workload(id)
    }

    /// Requests that a workload stops, and where asked that it is started again afterwards. The
    /// answer is whether it was active, and how it is shown.
    pub fn cancel(&mut self, id: &str, kind: WorkloadKind, restart_after: bool) -> (result: Result<
        (bool, Workload),
        ManagerError,
    >)
        ensures
            match result {
                Ok((changed, view)) => {
                    &&& old(self)@.refusal(id@, kind) is None
                    &&& changed == old(self)@.active.contains_key(id@)
                    &&& final(self)@ == if changed {
                        old(self)@.stop(id@, restart_after)
                    } else {
                        old(self)@
                    }
                    &&& view@ == final(self)@.show(id@)
                },
                Err(error) => final(self)@ == old(self)@ && old(self)@.refusal(id@, kind) == Some(
                    error@,
                ),
            },
    {
        if let Err(error) = self.ensure_kind(id, kind) {
            return Err(error);
        }
        let changed: bool = match self.take_active(id) {
            Some(mut active) => {
                let ghost facts = active@;
                active.restart_after = active.restart_after || restart_after;
                active.state = ActiveState::Stopping;
                let execution_id: String = active.execution_id.clone();
                self.set_active(id, active);
                assert(self@.active =~= old(self)@.stop(id@, restart_after).active);
                self.push_effect(ManagerEffect::Cancel { execution_id: execution_id.clone() });
                self.push_effect(ManagerEffect::Send { execution_id, command: Command::Stop });
                self.bump();
                true
            },
            None => {
                assert(self@.active =~= old(self)@.active);
                false
            },
        };
        match self.workload(id) {
            Ok(view) => Ok((changed, view)),
            Err(error) => Err(error),
        }
    }

    /// Whether a job is to be run anew or stopped first.
    pub fn is_active(&self, id: &str) -> (active: bool)
        ensures
            active == self@.active.contains_key(id@),
    {
        self.active.contains_key(id)
    }

    /// Takes over whether a workload is enabled, where that was kept. The answer shows the
    /// workload.
    pub fn set_enabled(&mut self, id: &str, enabled: bool, kept: bool) -> (result: Result<
        Workload,
        ManagerError,
    >)
        ensures
            match result {
                Ok(view) => {
                    &&& old(self)@.workloads.contains_key(id@)
                    &&& final(self)@ == if kept {
                        old(self)@.enabled_as(id@, enabled)
                    } else {
                        old(self)@
                    }
                    &&& view@ == final(self)@.show(id@)
                },
                Err(error) => final(self)@ == old(self)@ && !old(self)@.workloads.contains_key(id@)
                    && error@ == ManagerRefusal::NotFound(id@),
            },
    {
        if kept {
            match self.workloads.remove(id) {
                Some(mut record) => {
                    record.enabled = enabled;
                    let ghost facts = record@;
                    let _ = self.workloads.insert(id.to_owned(), record);
                    assert(self@.workloads =~= old(self)@.workloads.insert(id@, facts));
                    self.bump();
                },
                None => {
                    assert(self@.workloads =~= old(self)@.workloads);
                },
            }
        }
        self.workload(id)
    }

    /// The enabled workloads of a kind, in the order of their ids.
    pub fn enabled_workloads(&self, kind: WorkloadKind) -> (ids: Vec<String>)
        ensures
            texts(ids@) == enabled_ids(
                listing(self@.workloads),
                kind_text(kind),
                listing(self@.workloads).len() as int,
            ),
    {
        let mut ids: Vec<String> = Vec::new();
        let count: usize = self.workloads.len();
        let ghost sight = |record: WorkloadRecord| record@;
        let ghost listed = listing(self@.workloads);
        proof {
            lemma_listing_seen(self.workloads@, sight);
            assert(self@.workloads =~= self.workloads.map().map_values(sight));
        }
        let mut i: usize = 0;
        assert(texts(ids@) =~= Seq::empty());
        while i < count
            invariant
                i <= count,
                count == self.workloads@.len(),
                sight == (|record: WorkloadRecord| record@),
                listed == seen(self.workloads@, sight),
                texts(ids@) == enabled_ids(listed, kind_text(kind), i as int),
            decreases count - i,
        {
            let ghost before = ids@;
            let id: &str = self.workloads.key(i);
            let record: &WorkloadRecord = self.workloads.value(i);
            assert(listed[i as int] == (id@, record@));
            if record.enabled && same_text(record.kind.as_str(), kind_name(kind)) {
                ids.push(id.to_owned());
                assert(texts(ids@) =~= texts(before).push(id@));
            }
            i += 1;
        }
        ids
    }

    /// Begins to end the session: everything that is active is stopped, and nothing is started
    /// again.
    pub fn end_session(&mut self)
        ensures
            final(self)@ == old(self)@.end_session(),
    {
        if self.session_ending {
            return;
        }
        let ghost before = self.active;
        let ghost entries = active_entries(before);
        let ghost make = |id: Seq<char>, active: ActiveFacts|
            ActiveFacts { restart_after: false, state: ActiveState::Stopping, ..active };
        let ghost wanted = remade(entries, make);
        let ghost told = self@.effects;
        self.session_ending = true;
        let count: usize = self.active.len();
        let mut i: usize = 0;
        proof {
            lemma_active_entries(before);
            assert(told + ending_effects(entries, 0) =~= told);
        }
        while i < count
            invariant
                i <= count,
                count == entries.len(),
                entries == active_entries(before),
                make == (|id: Seq<char>, active: ActiveFacts|
                    ActiveFacts { restart_after: false, state: ActiveState::Stopping, ..active }),
                wanted == remade(entries, make),
                self.workloads == old(self).workloads,
                self.revision == old(self).revision,
                self.session_ending,
                ascending(self.active@),
                active_entries(self.active) =~= wanted.take(i as int) + entries.skip(i as int),
                self@.effects == told + ending_effects(entries, i as int),
            decreases count - i,
        {
            let ghost now = active_entries(self.active);
            assert(wanted.len() == entries.len());
            assert(now.len() == wanted.take(i as int).len() + entries.skip(i as int).len());
            proof {
                assert(wanted.len() == count);
                let split = wanted.take(i as int) + entries.skip(i as int);
                assert(split.len() == count);
                assert(now == split);
                assert(now.len() == self.active@.len());
            }
            let mut active: ActiveExecution = self.active.value(i).clone();
            proof {
                assert(now[i as int] == entries[i as int]);
                assert(now[i as int].1 == active@);
            }
            active.restart_after = false;
            active.state = ActiveState::Stopping;
            let execution_id: String = active.execution_id.clone();
            let ghost next_facts = active@;
            self.active.set_value(i, active);
            proof {
                assert(active_entries(self.active) =~= now.update(
                    i as int,
                    (now[i as int].0, next_facts),
                ));
                assert(wanted[i as int] == (now[i as int].0, next_facts));
                assert(active_entries(self.active) =~= wanted.take(i + 1) + entries.skip(i + 1));
            }
            let ghost effects_before = self.effects@;
            let cancel = ManagerEffect::Cancel { execution_id: execution_id.clone() };
            let send = ManagerEffect::Send { execution_id, command: Command::SessionEnding };
            self.effects.push(cancel);
            self.effects.push(send);
            proof {
                assert(manager_effects(self.effects@) =~= manager_effects(effects_before).push(
                    cancel@,
                ).push(send@));
                assert(self@.effects =~= told + ending_effects(entries, i + 1));
            }
            i += 1;
        }
        proof {
            assert(wanted.take(i as int) + entries.skip(i as int) =~= wanted);
            lemma_active_entries(self.active);
            lemma_remade_map(entries, make);
            assert(self@.active =~= old(self)@.active.map_values(
                |active: ActiveFacts|
                    ActiveFacts { restart_after: false, state: ActiveState::Stopping, ..active },
            ));
        }
        self.bump();
        assert(self@ =~= old(self)@.end_session());
    }
}

/// Workloads after some records were put in.
pub open spec fn with_records(
    workloads: Map<Seq<char>, WorkloadFacts>,
    records: Seq<(Seq<char>, WorkloadFacts)>,
) -> Map<Seq<char>, WorkloadFacts>
    decreases records.len(),
{
    if records.len() == 0 {
        workloads
    } else {
        with_records(workloads, records.drop_last()).insert(records.last().0, records.last().1)
    }
}

/// Records as mathematical text.
pub open spec fn record_list(records: Seq<(String, WorkloadRecord)>) -> Seq<
    (Seq<char>, WorkloadFacts),
> {
    records.map_values(|entry: (String, WorkloadRecord)| (entry.0@, entry.1@))
}

/// The ids of the enabled workloads of a kind among the first `n`.
pub open spec fn enabled_ids(
    workloads: Seq<(Seq<char>, WorkloadFacts)>,
    kind: Seq<char>,
    n: int,
) -> Seq<Seq<char>>
    decreases n,
{
    if n <= 0 {
        Seq::empty()
    } else {
        let earlier = enabled_ids(workloads, kind, n - 1);
        if workloads[n - 1].1.enabled && workloads[n - 1].1.kind == kind {
            earlier.push(workloads[n - 1].0)
        } else {
            earlier
        }
    }
}

proof fn lemma_conflict_stays(
    state: ManagerView,
    definitions: Seq<ConfigurationView>,
    n: int,
    m: int,
)
    requires
        n <= m,
        kind_conflict(state, definitions, n) is Some,
    ensures
        kind_conflict(state, definitions, m) == kind_conflict(state, definitions, n),
    decreases m,
{
    if n < m {
        lemma_conflict_stays(state, definitions, n, m - 1);
    }
}

} // verus!
