//! What users ask of the manager, each request by its name.

use vstd::prelude::*;
use vstd::string::*;

use crate::config::model::WorkloadKind;
use crate::control::{ReadLogsRequest, chosen_execution, logs_execution};
use crate::manager::error::{ManagerError, ManagerRefusal};
use crate::manager::model::{Execution, Workload, execution_facts, execution_view};
use crate::manager::state::{ManagerState, ManagerView, StartStep};
use crate::storage::StoredExecution;
use crate::text::text_view;

verus! {

/// What comes of a request to run a job again.
#[derive(Debug)]
pub enum RerunStep {
    /// It is active, and runs again after it has stopped; how it is shown now.
    Stopping(bool, Workload),
    /// It is not active, and is started.
    Starting(StartStep),
}

impl ManagerView {
    /// Whether this is what comes of a request to start a workload.
    pub open spec fn starts(
        self,
        id: Seq<char>,
        kind: WorkloadKind,
        exclusive: bool,
        result: Result<StartStep, ManagerError>,
    ) -> bool {
        match result {
            Ok(StartStep::Active(view)) => self.start_refusal(id, kind, exclusive) is None
                && self.active.contains_key(id) && view@ == self.show(id),
            Ok(StartStep::Launch(definition)) => self.start_refusal(id, kind, exclusive) is None
                && !self.active.contains_key(id) && self.workloads[id].definition == Some(
                definition@,
            ),
            Err(error) => self.start_refusal(id, kind, exclusive) == Some(error@),
        }
    }

    /// The execution of a workload that is active.
    pub open spec fn active_execution(self, id: Seq<char>) -> Option<Seq<char>> {
        if self.active.contains_key(id) {
            Some(self.active[id].execution_id)
        } else {
            None
        }
    }

    /// Whether this is what comes of a request to stop a workload, and the state after it.
    pub open spec fn stops(
        self,
        id: Seq<char>,
        kind: WorkloadKind,
        restart_after: bool,
        result: Result<(bool, Workload), ManagerError>,
        after: ManagerView,
    ) -> bool {
        match result {
            Ok((changed, view)) => {
                &&& self.refusal(id, kind) is None
                &&& changed == self.active.contains_key(id)
                &&& after == if changed {
                    self.stop(id, restart_after)
                } else {
                    self
                }
                &&& view@ == after.show(id)
            },
            Err(error) => after == self && self.refusal(id, kind) == Some(error@),
        }
    }
}

impl ManagerState {
    /// Starts a service. One that is active already is shown as it is.
    pub fn start_service(&self, id: &str) -> (result: Result<StartStep, ManagerError>)
        ensures
            self@.starts(id@, WorkloadKind::Service, false, result),
    {
        self.prepare_start(id, WorkloadKind::Service, false)
    }

    /// Runs a job. One that is active already is not run twice.
    pub fn run_job(&self, id: &str) -> (result: Result<StartStep, ManagerError>)
        ensures
            self@.starts(id@, WorkloadKind::Job, true, result),
    {
        self.prepare_start(id, WorkloadKind::Job, true)
    }

    /// Stops a service.
    pub fn stop_service(&mut self, id: &str) -> (result: Result<(bool, Workload), ManagerError>)
        ensures
            old(self)@.stops(id@, WorkloadKind::Service, false, result, final(self)@),
    {
        self.cancel(id, WorkloadKind::Service, false)
    }

    /// Stops a job.
    pub fn cancel_job(&mut self, id: &str) -> (result: Result<(bool, Workload), ManagerError>)
        ensures
            old(self)@.stops(id@, WorkloadKind::Job, false, result, final(self)@),
    {
        self.cancel(id, WorkloadKind::Job, false)
    }

    /// Stops a service that is active, and has it started again after that.
    pub fn restart_service(&mut self, id: &str) -> (result: Result<(bool, Workload), ManagerError>)
        ensures
            old(self)@.stops(id@, WorkloadKind::Service, true, result, final(self)@),
    {
        self.cancel(id, WorkloadKind::Service, true)
    }

    /// Runs a job once more: after it has stopped where it is active, and otherwise at once.
    pub fn rerun_job(&mut self, id: &str) -> (result: Result<RerunStep, ManagerError>)
        ensures
            if old(self)@.active.contains_key(id@) {
                match result {
                    Ok(RerunStep::Stopping(changed, view)) => old(self)@.stops(
                        id@,
                        WorkloadKind::Job,
                        true,
                        Ok((changed, view)),
                        final(self)@,
                    ),
                    Ok(RerunStep::Starting(_)) => false,
                    Err(error) => old(self)@.stops(
                        id@,
                        WorkloadKind::Job,
                        true,
                        Err(error),
                        final(self)@,
                    ),
                }
            } else {
                final(self)@ == old(self)@ && match result {
                    Ok(RerunStep::Stopping(_, _)) => false,
                    Ok(RerunStep::Starting(step)) => old(self)@.starts(
                        id@,
                        WorkloadKind::Job,
                        true,
                        Ok(step),
                    ),
                    Err(error) => old(self)@.starts(id@, WorkloadKind::Job, true, Err(error)),
                }
            },
    {
        if self.is_active(id) {
            match self.cancel(id, WorkloadKind::Job, true) {
                Ok((changed, view)) => Ok(RerunStep::Stopping(changed, view)),
                Err(error) => Err(error),
            }
        } else {
            match self.prepare_start(id, WorkloadKind::Job, true) {
                Ok(step) => Ok(RerunStep::Starting(step)),
                Err(error) => Err(error),
            }
        }
    }

    /// The execution whose log is read, where there is one: `rows` are executions of the workload,
    /// the newest first.
    pub fn read_logs(&self, request: &ReadLogsRequest, rows: &Vec<StoredExecution>) -> (result: Result<
        Option<String>,
        ManagerError,
    >)
        ensures
            match result {
                Ok(chosen) => self@.workloads.contains_key(request.workload_id@) && text_view(chosen)
                    == chosen_execution(
                    request.execution_id@,
                    self@.active_execution(request.workload_id@),
                    if rows.len() > 0 {
                        Some(rows@[0].id@)
                    } else {
                        None
                    },
                ),
                Err(error) => !self@.workloads.contains_key(request.workload_id@) && error@
                    == ManagerRefusal::NotFound(request.workload_id@),
            },
    {
        let id: &str = request.workload_id.as_str();
        if !self.workloads.contains_key(id) {
            return Err(ManagerError::NotFound(id.to_owned()));
        }
        let active: Option<&str> = match self.active.get(id) {
            Some(active) => Some(active.execution_id.as_str()),
            None => None,
        };
        let newest: Option<&str> = if rows.len() > 0 {
            Some(rows[0].id.as_str())
        } else {
            None
        };
        Ok(logs_execution(request, active, newest))
    }

    /// The executions of a workload as they are shown, of the rows that were found.
    pub fn list_executions(&self, id: &str, rows: Vec<StoredExecution>) -> (result: Result<
        Vec<Execution>,
        ManagerError,
    >)
        ensures
            match result {
                Ok(executions) => self@.workloads.contains_key(id@) && executions@.map_values(
                    |execution: Execution| execution@,
                ) == rows@.map_values(|row: StoredExecution| execution_facts(row@)),
                Err(error) => !self@.workloads.contains_key(id@) && error@
                    == ManagerRefusal::NotFound(id@),
            },
    {
        if !self.workloads.contains_key(id) {
            return Err(ManagerError::NotFound(id.to_owned()));
        }
        let ghost wanted = rows@.map_values(|row: StoredExecution| execution_facts(row@));
        let ghost all = rows@;
        let mut left: Vec<StoredExecution> = rows;
        let mut executions: Vec<Execution> = Vec::new();
        while left.len() > 0
            invariant
                wanted == all.map_values(|row: StoredExecution| execution_facts(row@)),
                left@.len() <= all.len(),
                left@ == all.take(left@.len() as int),
                executions@.map_values(|execution: Execution| execution@) =~= wanted.skip(
                    left@.len() as int,
                ),
            decreases left.len(),
        {
            let ghost before = executions@;
            let ghost count = left@.len() as int;
            match left.pop() {
                Some(row) => {
                    assert(row == all[count - 1]);
                    let view: Execution = execution_view(row);
                    executions.insert(0, view);
                    proof {
                        assert(left@ =~= all.take(count - 1));
                        assert(executions@ =~= seq![view] + before);
                        assert(wanted[count - 1] == view@);
                        assert(wanted.skip(count - 1) =~= seq![view@] + wanted.skip(count));
                        assert(executions@.map_values(|execution: Execution| execution@)
                            =~= seq![view@] + before.map_values(|execution: Execution| execution@));
                    }
                },
                None => {},
            }
        }
        assert(wanted.skip(0) =~= wanted);
        Ok(executions)
    }
}

} // verus!
