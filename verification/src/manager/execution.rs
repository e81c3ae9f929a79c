//! How an execution changes the manager: its supervisor attaches and reports, is lost and
//! replaced, and the execution ends.

use vstd::prelude::*;
use vstd::string::*;

use crate::config::model::{WorkloadKind, texts};
use crate::manager::error::{ManagerError, ManagerRefusal};
use crate::manager::model::{
    ActiveExecution, ActiveFacts, ActiveState, active_state, ends_execution, is_terminal_kind,
    progress_observation, progress_of, state_named,
};
use crate::manager::state::{
    Command, CommandView, ManagerEffect, ManagerEffectView, ManagerState, ManagerView, find,
};
use crate::messages::{ConfigurationView, ExecutionConfiguration, holds_code};
use crate::ordered::{lemma_listing_seen, listing, seen};
use crate::runner::is_success;
use crate::storage::{
    ExecutionRow, ObservationUpdate, ProgressObservation, StoredExecution, TerminalObservation,
    UpdateView,
};
use crate::text::{hex, hex_text, same_bytes, same_text};

verus! {

/// What a supervisor reports.
#[derive(Debug)]
pub struct SupervisorObservation {
    pub sequence: u64,
    pub kind: String,
    pub exit_code: Option<u32>,
    pub detail: String,
    pub attempt: u32,
    pub workload_process_id: u32,
}

/// Who a supervisor says it is.
#[derive(Debug)]
pub struct SupervisorClaim {
    pub workload_id: String,
    pub manager_session_id: String,
    pub execution_config_hash: Vec<u8>,
    /// The process that called, as Windows tells it.
    pub process_id: u32,
}

/// The first workload among the first `n` whose execution this is.
pub open spec fn first_holder(
    entries: Seq<(Seq<char>, ActiveFacts)>,
    execution_id: Seq<char>,
    n: int,
) -> Option<Seq<char>>
    decreases n,
{
    if n <= 0 {
        None
    } else {
        match first_holder(entries, execution_id, n - 1) {
            Some(id) => Some(id),
            None => if entries[n - 1].1.execution_id == execution_id {
                Some(entries[n - 1].0)
            } else {
                None
            },
        }
    }
}

/// The executions among the first `n` that this manager does not own.
pub open spec fn unowned(entries: Seq<(Seq<char>, ActiveFacts)>, n: int) -> Seq<Seq<char>>
    decreases n,
{
    if n <= 0 {
        Seq::empty()
    } else {
        let earlier = unowned(entries, n - 1);
        if entries[n - 1].1.locally_owned {
            earlier
        } else {
            earlier.push(entries[n - 1].1.execution_id)
        }
    }
}

/// How an execution is called that ended while it was stopped.
pub open spec fn stopped_name(kind: Seq<char>) -> Seq<char> {
    if kind == "job"@ {
        "cancelled"@
    } else {
        "stopped"@
    }
}

/// How an execution ended whose supervisor left a result: as it was asked to, as the result
/// says, or as the exit code tells.
pub open spec fn terminal_name(
    stopping: bool,
    configuration: ConfigurationView,
    outcome: Seq<char>,
    exit_code: Option<u32>,
) -> Seq<char> {
    if stopping {
        stopped_name(configuration.kind)
    } else if ends_execution(outcome) {
        outcome
    } else if is_success(configuration.policy, exit_code) {
        "completed"@
    } else {
        "failed"@
    }
}

impl ManagerView {
    /// The workload whose execution this is.
    pub open spec fn holder(self, execution_id: Seq<char>) -> Option<Seq<char>> {
        let entries = listing(self.active);
        first_holder(entries, execution_id, entries.len() as int)
    }

    /// The active execution of a workload, where it is this one.
    pub open spec fn active_as(self, id: Seq<char>, execution_id: Seq<char>) -> Option<ActiveFacts> {
        match find(self.active, id) {
            Some(active) => if active.execution_id == execution_id {
                Some(active)
            } else {
                None
            },
            None => None,
        }
    }

    pub open spec fn with_active(self, id: Seq<char>, active: ActiveFacts) -> ManagerView {
        ManagerView { active: self.active.insert(id, active), ..self }
    }

    pub open spec fn without_active(self, id: Seq<char>) -> ManagerView {
        ManagerView { active: self.active.remove(id), ..self }
    }

    /// The state after the attachment of a supervisor was lost.
    pub open spec fn disconnect(self, execution_id: Seq<char>, attachment: Seq<char>) -> ManagerView {
        match self.holder(execution_id) {
            None => self,
            Some(id) => {
                let active = self.active[id];
                if active.locally_owned || active.state == ActiveState::Stopping
                    || active.attachment_id != Some(attachment) {
                    self
                } else {
                    self.with_active(
                        id,
                        ActiveFacts {
                            attachment_id: None,
                            state: ActiveState::Recovering,
                            ..active
                        },
                    ).bump()
                }
            },
        }
    }

    /// Why a supervisor cannot attach.
    pub open spec fn attach_refusal(
        self,
        row: ExecutionRow,
        configuration: ConfigurationView,
        claim: SupervisorClaim,
    ) -> Option<ManagerRefusal> {
        if configuration.workload_id != claim.workload_id@ || configuration.manager_session_id
            != claim.manager_session_id@ || configuration.execution_config_hash
            != claim.execution_config_hash@ {
            Some(ManagerRefusal::SupervisorIdentityMismatch)
        } else {
            match self.active_as(row.workload_id, row.id) {
                None => Some(ManagerRefusal::NotFound(row.id)),
                Some(active) => if active.supervisor_process_id != 0
                    && active.supervisor_process_id != claim.process_id || active.locally_owned
                    && active.supervisor_process_id == 0 {
                    Some(ManagerRefusal::SupervisorIdentityMismatch)
                } else {
                    None
                },
            }
        }
    }

    /// The state after a supervisor attached.
    pub open spec fn attach(
        self,
        row: ExecutionRow,
        process_id: u32,
        attachment: Seq<char>,
    ) -> ManagerView {
        let active = self.active[row.workload_id];
        let known = ActiveFacts {
            supervisor_process_id: process_id,
            attachment_id: Some(attachment),
            ..active
        };
        let next = self.with_active(
            row.workload_id,
            if active.locally_owned {
                ActiveFacts { state: ActiveState::Launching, ..known }
            } else {
                ActiveFacts {
                    state: state_named(row.state),
                    workload_process_id: row.workload_process_id,
                    attempt: row.attempt,
                    error: row.error,
                    ..known
                }
            },
        );
        if active.policy_sync_pending && (find(self.workloads, row.workload_id) matches Some(record)
            && record.definition is Some) {
            next.effect(
                ManagerEffectView::Send {
                    execution_id: active.execution_id,
                    command: CommandView::UpdatePolicy { workload_id: row.workload_id },
                },
            ).bump()
        } else {
            next.bump()
        }
    }

    /// Whether an observation ends an execution that this manager does not wait for itself.
    pub open spec fn terminalizes(self, row: ExecutionRow, kind: Seq<char>) -> bool {
        ends_execution(kind) && (self.active_as(row.workload_id, row.id) matches Some(active)
            && !active.locally_owned)
    }

    /// What an observation changes in the row of its execution.
    pub open spec fn planned_update(
        self,
        row: ExecutionRow,
        observation: SupervisorObservation,
        now: i64,
    ) -> UpdateView {
        if self.terminalizes(row, observation.kind@) {
            UpdateView::Terminal {
                state: observation.kind@,
                ended_unix_ms: now,
                exit_code: observation.exit_code,
                error: observation.detail@,
                attempt: observation.attempt,
            }
        } else {
            match progress_of(
                observation.kind@,
                observation.attempt,
                observation.workload_process_id,
                observation.detail@,
            ) {
                Some(progress) => UpdateView::Progress {
                    state: progress.state.text(),
                    workload_process_id: progress.workload_process_id,
                    attempt: progress.attempt,
                    error: progress.error,
                },
                None => UpdateView::Acknowledge,
            }
        }
    }

    /// The state after an execution ended that is to be started again if asked.
    pub open spec fn ended(self, id: Seq<char>, outcome: Seq<char>) -> ManagerView {
        self.without_active(id).with_outcome(id, outcome).bump()
    }

    /// Whether an active workload is to be started again once its execution has ended.
    pub open spec fn restarts(self, id: Seq<char>, execution_id: Seq<char>) -> bool {
        !self.session_ending && (self.active_as(id, execution_id) matches Some(active)
            && active.restart_after)
    }

    /// The state after the supervisor of an execution was launched.
    pub open spec fn launched(
        self,
        id: Seq<char>,
        execution_id: Seq<char>,
        process_id: u32,
    ) -> ManagerView {
        match self.active_as(id, execution_id) {
            Some(active) => self.with_active(
                id,
                ActiveFacts {
                    supervisor_process_id: process_id,
                    state: ActiveState::Launching,
                    ..active
                },
            ).bump(),
            None => self,
        }
    }

    /// The state after an observation was committed that does not end an execution.
    pub open spec fn progressed(
        self,
        row: ExecutionRow,
        observation: SupervisorObservation,
    ) -> ManagerView {
        match self.active_as(row.workload_id, row.id) {
            None => self,
            Some(active) => {
                let confirmed = observation.kind@ == "policy-applied"@ && observation.detail@
                    == hex_text(active.policy_hash) && active.policy_sync_pending;
                let heard = ActiveFacts {
                    policy_sync_pending: active.policy_sync_pending && !confirmed,
                    ..active
                };
                match progress_of(
                    observation.kind@,
                    observation.attempt,
                    observation.workload_process_id,
                    observation.detail@,
                ) {
                    Some(progress) => self.with_active(
                        row.workload_id,
                        ActiveFacts {
                            state: progress.state,
                            workload_process_id: progress.workload_process_id,
                            attempt: progress.attempt,
                            error: match progress.error {
                                Some(error) => error,
                                None => heard.error,
                            },
                            ..heard
                        },
                    ).bump(),
                    None => if confirmed {
                        self.with_active(row.workload_id, heard).bump()
                    } else {
                        self
                    },
                }
            },
        }
    }
}

impl ManagerState {
    /// The workload whose execution this is.
    pub fn find_holder(&self, execution_id: &str) -> (holder: Option<String>)
        ensures
            match holder {
                Some(id) => self@.holder(execution_id@) == Some(id@)
                    && self@.active.contains_key(id@) && self@.active[id@].execution_id
                    == execution_id@,
                None => self@.holder(execution_id@) is None,
            },
    {
        let count: usize = self.active.len();
        let ghost sight = |execution: ActiveExecution| execution@;
        let ghost entries = listing(self@.active);
        proof {
            lemma_listing_seen(self.active@, sight);
            assert(self@.active =~= self.active.map().map_values(sight));
        }
        let mut i: usize = 0;
        while i < count
            invariant
                i <= count,
                count == self.active@.len(),
                crate::ordered::ascending(self.active@),
                sight == (|execution: ActiveExecution| execution@),
                entries == seen(self.active@, sight),
                entries == listing(self@.active),
                first_holder(entries, execution_id@, i as int) is None,
            decreases count - i,
        {
            let active: &ActiveExecution = self.active.value(i);
            let id: &str = self.active.key(i);
            assert(entries[i as int] == (id@, active@));
            if same_text(active.execution_id.as_str(), execution_id) {
                proof {
                    lemma_holder_stays(entries, execution_id@, i + 1, count as int);
                    crate::ordered::lemma_entry_in_map(self.active@, i as int);
                    assert(self@.active[id@] == active@);
                }
                return Some(id.to_owned());
            }
            i += 1;
        }
        None
    }

    /// The executions that this manager does not own, in the order of their workloads.
    pub fn unowned_executions(&self) -> (ids: Vec<String>)
        ensures
            texts(ids@) == unowned(
                listing(self@.active),
                listing(self@.active).len() as int,
            ),
    {
        let mut ids: Vec<String> = Vec::new();
        let count: usize = self.active.len();
        let ghost sight = |execution: ActiveExecution| execution@;
        let ghost entries = listing(self@.active);
        proof {
            lemma_listing_seen(self.active@, sight);
            assert(self@.active =~= self.active.map().map_values(sight));
        }
        let mut i: usize = 0;
        assert(texts(ids@) =~= Seq::empty());
        while i < count
            invariant
                i <= count,
                count == self.active@.len(),
                sight == (|execution: ActiveExecution| execution@),
                entries == seen(self.active@, sight),
                texts(ids@) == unowned(entries, i as int),
            decreases count - i,
        {
            let ghost before = ids@;
            let active: &ActiveExecution = self.active.value(i);
            assert(entries[i as int].1 == active@);
            if !active.locally_owned {
                ids.push(active.execution_id.clone());
                assert(texts(ids@) =~= texts(before).push(active.execution_id@));
            }
            i += 1;
        }
        ids
    }

    /// The attachment of a supervisor was lost.
    pub fn supervisor_disconnected(&mut self, execution_id: &str, attachment_id: &str)
        ensures
            final(self)@ == old(self)@.disconnect(execution_id@, attachment_id@),
    {
        let id: String = match self.find_holder(execution_id) {
            Some(id) => id,
            None => {
                return;
            },
        };
        match self.take_active(id.as_str()) {
            Some(mut active) => {
                let attached: bool = match &active.attachment_id {
                    Some(current) => same_text(current.as_str(), attachment_id),
                    None => false,
                };
                if active.locally_owned || active.state == ActiveState::Stopping || !attached {
                    self.set_active(id.as_str(), active);
                    assert(self@.active =~= old(self)@.active);
                    return;
                }
                active.attachment_id = None;
                active.state = ActiveState::Recovering;
                let ghost facts = active@;
                self.set_active(id.as_str(), active);
                assert(self@.active =~= old(self)@.active.insert(id@, facts));
                self.bump();
            },
            None => {},
        }
    }

    fn check_claim(
        &self,
        row: &StoredExecution,
        configuration: &ExecutionConfiguration,
        claim: &SupervisorClaim,
    ) -> (result: Result<(), ManagerError>)
        ensures
            match result {
                Ok(_) => self@.attach_refusal(row@, configuration@, *claim) is None,
                Err(error) => self@.attach_refusal(row@, configuration@, *claim) == Some(error@),
            },
    {
        if !same_text(configuration.workload_id.as_str(), claim.workload_id.as_str()) || !same_text(
            configuration.manager_session_id.as_str(),
            claim.manager_session_id.as_str(),
        ) || !same_bytes(
            configuration.execution_config_hash.as_slice(),
            claim.execution_config_hash.as_slice(),
        ) {
            return Err(ManagerError::SupervisorIdentityMismatch);
        }
        match self.active.get(row.workload_id.as_str()) {
            Some(active) => {
                assert(find(self@.active, row.workload_id@) == Some(active@));
                if !same_text(active.execution_id.as_str(), row.id.as_str()) {
                    return Err(ManagerError::NotFound(row.id.clone()));
                }
                if active.supervisor_process_id != 0 && active.supervisor_process_id
                    != claim.process_id || active.locally_owned && active.supervisor_process_id == 0 {
                    return Err(ManagerError::SupervisorIdentityMismatch);
                }
                Ok(())
            },
            None => {
                assert(find(self@.active, row.workload_id@) is None);
                Err(ManagerError::NotFound(row.id.clone()))
            },
        }
    }

    /// Attaches a supervisor. The answer is whether its process is still to be kept.
    pub fn attach_supervisor(
        &mut self,
        row: &StoredExecution,
        configuration: &ExecutionConfiguration,
        claim: &SupervisorClaim,
        attachment_id: String,
    ) -> (result: Result<bool, ManagerError>)
        ensures
            match result {
                Ok(keep) => {
                    &&& old(self)@.attach_refusal(row@, configuration@, *claim) is None
                    &&& keep == old(self)@.active[row.workload_id@].locally_owned
                    &&& final(self)@ == old(self)@.attach(
                        row@,
                        claim.process_id,
                        attachment_id@,
                    )
                },
                Err(error) => final(self)@ == old(self)@ && old(self)@.attach_refusal(
                    row@,
                    configuration@,
                    *claim,
                ) == Some(error@),
            },
    {
        if let Err(error) = self.check_claim(row, configuration, claim) {
            return Err(error);
        }
        let id: &str = row.workload_id.as_str();
        let defined: bool = match self.workloads.get(id) {
            Some(record) => {
                assert(find(self@.workloads, id@) == Some(record@));
                record.definition.is_some()
            },
            None => {
                assert(find(self@.workloads, id@) is None);
                false
            },
        };
        let mut keep: bool = false;
        match self.take_active(id) {
            Some(mut active) => {
                keep = active.locally_owned;
                active.supervisor_process_id = claim.process_id;
                if active.locally_owned {
                    active.state = ActiveState::Launching;
                } else {
                    active.state = active_state(row.state.as_str());
                    active.workload_process_id = row.workload_process_id;
                    active.attempt = row.attempt;
                    active.error = row.error.clone();
                }
                active.attachment_id = Some(attachment_id);
                let pending: bool = active.policy_sync_pending;
                let execution_id: String = active.execution_id.clone();
                let ghost facts = active@;
                self.set_active(id, active);
                assert(self@.active =~= old(self)@.active.insert(id@, facts));
                if pending && defined {
                    self.push_effect(
                        ManagerEffect::Send {
                            execution_id,
                            command: Command::UpdatePolicy { workload_id: id.to_owned() },
                        },
                    );
                }
                self.bump();
            },
            None => {},
        }
        Ok(keep)
    }

    /// What an observation changes in the row of its execution. The second answer is whether it
    /// ends the execution.
    pub fn plan_observation(
        &self,
        row: &StoredExecution,
        observation: &SupervisorObservation,
        now: i64,
    ) -> (plan: (ObservationUpdate, bool))
        ensures
            plan.0@ == self@.planned_update(row@, *observation, now),
            plan.1 == self@.terminalizes(row@, observation.kind@),
    {
        let theirs: bool = match self.active.get(row.workload_id.as_str()) {
            Some(active) => {
                assert(find(self@.active, row.workload_id@) == Some(active@));
                same_text(active.execution_id.as_str(), row.id.as_str()) && !active.locally_owned
            },
            None => {
                assert(find(self@.active, row.workload_id@) is None);
                false
            },
        };
        if is_terminal_kind(observation.kind.as_str()) && theirs {
            return (
                ObservationUpdate::Terminal(
                    TerminalObservation {
                        state: observation.kind.clone(),
                        ended_unix_ms: now,
                        exit_code: observation.exit_code,
                        error: observation.detail.clone(),
                        attempt: observation.attempt,
                    },
                ),
                true,
            );
        }
        match progress_observation(
            observation.kind.as_str(),
            observation.attempt,
            observation.workload_process_id,
            observation.detail.as_str(),
        ) {
            Some(progress) => (
                ObservationUpdate::Progress(
                    ProgressObservation {
                        state: progress.state.name().to_owned(),
                        workload_process_id: progress.workload_process_id,
                        attempt: progress.attempt,
                        error: progress.error,
                    },
                ),
                false,
            ),
            None => (ObservationUpdate::Acknowledge, false),
        }
    }

    /// Ends an active execution, where it is this one. The answer is whether its workload is to
    /// be started again.
    fn end_active(&mut self, id: &str, execution_id: &str, outcome: &str) -> (restart: bool)
        ensures
            restart == old(self)@.restarts(id@, execution_id@),
            final(self)@ == if old(self)@.active_as(id@, execution_id@) is Some {
                old(self)@.ended(id@, outcome@)
            } else {
                old(self)@
            },
    {
        match self.take_active(id) {
            Some(active) => {
                if !same_text(active.execution_id.as_str(), execution_id) {
                    self.set_active(id, active);
                    assert(self@.active =~= old(self)@.active);
                    return false;
                }
                let restart: bool = !self.session_ending && active.restart_after;
                self.set_outcome(id, outcome);
                self.bump();
                restart
            },
            None => {
                assert(self@.active =~= old(self)@.active);
                false
            },
        }
    }

    /// Takes over an observation that was committed. The answer is whether the workload is to be
    /// started again.
    pub fn apply_observation(
        &mut self,
        row: &StoredExecution,
        observation: &SupervisorObservation,
        terminalized: bool,
    ) -> (restart: bool)
        ensures
            restart == (terminalized && old(self)@.restarts(row.workload_id@, row.id@)),
            final(self)@ == if terminalized {
                if old(self)@.active_as(row.workload_id@, row.id@) is Some {
                    old(self)@.ended(row.workload_id@, observation.kind@)
                } else {
                    old(self)@
                }
            } else {
                old(self)@.progressed(row@, *observation)
            },
    {
        let id: &str = row.workload_id.as_str();
        if terminalized {
            return self.end_active(id, row.id.as_str(), observation.kind.as_str());
        }
        match self.take_active(id) {
            Some(mut active) => {
                if !same_text(active.execution_id.as_str(), row.id.as_str()) {
                    self.set_active(id, active);
                    assert(self@.active =~= old(self)@.active);
                    return false;
                }
                let mut changed: bool = false;
                if same_text(observation.kind.as_str(), "policy-applied") && same_text(
                    observation.detail.as_str(),
                    hex(active.policy_hash.as_slice()).as_str(),
                ) && active.policy_sync_pending {
                    active.policy_sync_pending = false;
                    changed = true;
                }
                match progress_observation(
                    observation.kind.as_str(),
                    observation.attempt,
                    observation.workload_process_id,
                    observation.detail.as_str(),
                ) {
                    Some(progress) => {
                        active.state = progress.state;
                        active.workload_process_id = progress.workload_process_id;
                        active.attempt = progress.attempt;
                        if let Some(error) = progress.error {
                            active.error = error;
                        }
                        changed = true;
                    },
                    None => {},
                }
                let ghost facts = active@;
                self.set_active(id, active);
                assert(self@.active =~= old(self)@.active.insert(id@, facts));
                if changed {
                    self.bump();
                } else {
                    assert(self@.active =~= old(self)@.active);
                }
                false
            },
            None => {
                assert(self@.active =~= old(self)@.active);
                false
            },
        }
    }

    /// Ends an execution whose supervisor left a result, where this manager does not wait for it
    /// itself. The answer is the row to be kept, and whether the workload is to be started
    /// again.
    pub fn supervisor_terminal(
        &mut self,
        row: StoredExecution,
        configuration: &ExecutionConfiguration,
        outcome: &str,
        exit_code: Option<u32>,
        error: String,
        now: i64,
    ) -> (result: Option<(StoredExecution, bool)>)
        ensures
            match old(self)@.active_as(row.workload_id@, row.id@) {
                Some(active) => if active.locally_owned {
                    result is None && final(self)@ == old(self)@
                } else {
                    let name = terminal_name(
                        active.state == ActiveState::Stopping,
                        configuration@,
                        outcome@,
                        exit_code,
                    );
                    &&& final(self)@ == old(self)@.ended(row.workload_id@, name)
                    &&& result matches Some((kept, restart)) && restart == old(self)@.restarts(
                        row.workload_id@,
                        row.id@,
                    ) && kept@ == (ExecutionRow {
                        state: name,
                        workload_process_id: 0,
                        ended_unix_ms: now,
                        exit_code,
                        error: error@,
                        ..row@
                    })
                },
                None => result is None && final(self)@ == old(self)@,
            },
    {
        let mut stopping: bool = false;
        match self.active.get(row.workload_id.as_str()) {
            Some(active) => {
                assert(find(self@.active, row.workload_id@) == Some(active@));
                if !same_text(active.execution_id.as_str(), row.id.as_str())
                    || active.locally_owned {
                    return None;
                }
                stopping = active.state == ActiveState::Stopping;
            },
            None => {
                assert(find(self@.active, row.workload_id@) is None);
                return None;
            },
        }
        let successful: bool = match exit_code {
            Some(code) => holds_code(&configuration.policy.success_exit_codes, code),
            None => false,
        };
        let name: &str = if stopping {
            if same_text(configuration.kind.as_str(), "job") {
                "cancelled"
            } else {
                "stopped"
            }
        } else if is_terminal_kind(outcome) {
            outcome
        } else if successful {
            "completed"
        } else {
            "failed"
        };
        let restart: bool = self.end_active(row.workload_id.as_str(), row.id.as_str(), name);
        let mut kept: StoredExecution = row;
        kept.state = name.to_owned();
        kept.workload_process_id = 0;
        kept.ended_unix_ms = now;
        kept.exit_code = exit_code;
        kept.error = error;
        Some((kept, restart))
    }

    /// The supervisor of an execution was launched.
    pub fn supervisor_launched(&mut self, id: &str, execution_id: &str, process_id: u32)
        ensures
            final(self)@ == old(self)@.launched(id@, execution_id@, process_id),
    {
        match self.take_active(id) {
            Some(mut active) => {
                if !same_text(active.execution_id.as_str(), execution_id) {
                    self.set_active(id, active);
                    assert(self@.active =~= old(self)@.active);
                    return;
                }
                active.supervisor_process_id = process_id;
                active.state = ActiveState::Launching;
                let ghost facts = active@;
                self.set_active(id, active);
                assert(self@.active =~= old(self)@.active.insert(id@, facts));
                self.bump();
            },
            None => {
                assert(self@.active =~= old(self)@.active);
            },
        }
    }

    /// An execution that this manager waited for has ended. The answer is whether its workload is
    /// to be started again.
    pub fn complete_execution(&mut self, id: &str, execution_id: &str, outcome: &str) -> (restart: bool)
        ensures
            restart == old(self)@.restarts(id@, execution_id@),
            final(self)@ == if old(self)@.active_as(id@, execution_id@) is Some {
                old(self)@.ended(id@, outcome@)
            } else {
                old(self)@.with_outcome(id@, outcome@).bump()
            },
    {
        let ours: bool = match self.active.get(id) {
            Some(active) => {
                assert(find(self@.active, id@) == Some(active@));
                same_text(active.execution_id.as_str(), execution_id)
            },
            None => {
                assert(find(self@.active, id@) is None);
                false
            },
        };
        if ours {
            self.end_active(id, execution_id, outcome)
        } else {
            self.set_outcome(id, outcome);
            self.bump();
            false
        }
    }

    /// As what a workload is started again.
    pub fn replacement_kind(&self, id: &str) -> (kind: Option<WorkloadKind>)
        ensures
            kind == match find(self@.workloads, id@) {
                Some(record) => if record.kind == "service"@ {
                    Some(WorkloadKind::Service)
                } else if record.kind == "job"@ {
                    Some(WorkloadKind::Job)
                } else {
                    None
                },
                None => None,
            },
    {
        match self.workloads.get(id) {
            Some(record) => {
                assert(find(self@.workloads, id@) == Some(record@));
                if same_text(record.kind.as_str(), "service") {
                    Some(WorkloadKind::Service)
                } else if same_text(record.kind.as_str(), "job") {
                    Some(WorkloadKind::Job)
                } else {
                    None
                }
            },
            None => {
                assert(find(self@.workloads, id@) is None);
                None
            },
        }
    }
}

proof fn lemma_holder_stays(
    entries: Seq<(Seq<char>, ActiveFacts)>,
    execution_id: Seq<char>,
    n: int,
    m: int,
)
    requires
        n <= m,
        first_holder(entries, execution_id, n) is Some,
    ensures
        first_holder(entries, execution_id, m) == first_holder(entries, execution_id, n),
    decreases m,
{
    if n < m {
        lemma_holder_stays(entries, execution_id, n, m - 1);
    }
}

/// The row of an execution that the manager waited for, once it has ended.
pub fn finished_row(
    row: StoredExecution,
    state: &str,
    supervisor_process_id: u32,
    exit_code: Option<u32>,
    error: &str,
    now: i64,
) -> (kept: StoredExecution)
    ensures
        kept@ == (ExecutionRow {
            state: state@,
            supervisor_process_id,
            workload_process_id: 0,
            ended_unix_ms: now,
            exit_code,
            error: error@,
            ..row@
        }),
{
    let mut kept: StoredExecution = row;
    kept.state = state.to_owned();
    kept.supervisor_process_id = supervisor_process_id;
    kept.workload_process_id = 0;
    kept.ended_unix_ms = now;
    kept.exit_code = exit_code;
    kept.error = error.to_owned();
    kept
}

/// How long a supervisor may stay away before it is replaced, in milliseconds.
pub const REPLACEMENT_DELAY_MS: u64 = 3_000;

/// How long a monitor waits between two looks, in milliseconds.
pub const MONITOR_INTERVAL_MS: u64 = 100;

/// What watches over an execution that another manager launched.
#[derive(Clone, Copy, Debug, PartialEq, Eq, Structural)]
pub struct RecoveryMonitor {
    pub replacement_at: u64,
    pub was_recovering: bool,
}

/// What a monitor does next.
#[derive(Debug)]
pub enum MonitorStep {
    /// The execution has ended.
    Gone,
    /// Launch another supervisor for the execution of this workload.
    Replace { workload_id: String },
    /// Look again later.
    Wait,
}

/// The time `millis` later, or the last time.
pub open spec fn after_millis(now: u64, millis: u64) -> u64 {
    if now + millis > u64::MAX {
        u64::MAX
    } else {
        (now + millis) as u64
    }
}

impl RecoveryMonitor {
    /// Begins to watch, at a time in milliseconds.
    pub fn new(now: u64) -> (monitor: RecoveryMonitor)
        ensures
            monitor == (RecoveryMonitor {
                replacement_at: after_millis(now, REPLACEMENT_DELAY_MS),
                was_recovering: true,
            }),
    {
        RecoveryMonitor {
            replacement_at: now.saturating_add(REPLACEMENT_DELAY_MS),
            was_recovering: true,
        }
    }

    /// How a monitor stands after a look at an execution in this state.
    pub open spec fn looked(self, state: ActiveState, now: u64) -> RecoveryMonitor {
        let recovering = state == ActiveState::Recovering;
        RecoveryMonitor {
            replacement_at: if recovering && !self.was_recovering {
                after_millis(now, REPLACEMENT_DELAY_MS)
            } else {
                self.replacement_at
            },
            was_recovering: recovering,
        }
    }

    /// Looks at an execution, and claims it where its supervisor has stayed away too long.
    pub fn step(&mut self, state: &mut ManagerState, execution_id: &str, now: u64) -> (step:
        MonitorStep)
        ensures
            match old(state)@.holder(execution_id@) {
                None => step is Gone && final(state)@ == old(state)@ && *final(self) == *old(self),
                Some(id) => {
                    let active = old(state)@.active[id];
                    let next = old(self).looked(active.state, now);
                    &&& *final(self) == next
                    &&& if next.was_recovering && now >= next.replacement_at {
                        step matches MonitorStep::Replace { workload_id } && workload_id@ == id
                            && final(state)@ == old(state)@.with_active(
                            id,
                            ActiveFacts {
                                locally_owned: true,
                                state: ActiveState::Starting,
                                ..active
                            },
                        )
                    } else {
                        step is Wait && final(state)@ == old(state)@
                    }
                },
            },
    {
        let id: String = match state.find_holder(execution_id) {
            Some(id) => id,
            None => {
                return MonitorStep::Gone;
            },
        };
        match state.take_active(id.as_str()) {
            Some(mut active) => {
                let recovering: bool = active.state == ActiveState::Recovering;
                if recovering && !self.was_recovering {
                    self.replacement_at = now.saturating_add(REPLACEMENT_DELAY_MS);
                }
                self.was_recovering = recovering;
                let claim: bool = recovering && now >= self.replacement_at;
                if claim {
                    active.locally_owned = true;
                    active.state = ActiveState::Starting;
                }
                let ghost facts = active@;
                state.set_active(id.as_str(), active);
                assert(state@.active =~= old(state)@.active.insert(id@, facts));
                if claim {
                    MonitorStep::Replace { workload_id: id }
                } else {
                    assert(state@.active =~= old(state)@.active);
                    MonitorStep::Wait
                }
            },
            None => MonitorStep::Gone,
        }
    }
}

} // verus!
