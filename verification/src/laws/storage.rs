//! What is kept, and what becomes of it.

use vstd::prelude::*;

use crate::storage::{
    EnablementView, ExecutionColumns, ExecutionRow, StorageError, UpdateView, WorkloadRow,
    bad_column, committed, is_current, with_definitions, without_definitions,
};

verus! {

/// The next report changes the row as it says: it moves the execution on, ends it, or is only
/// counted. An end leaves no process, and a report without an error keeps the one that is there.
pub proof fn law_the_next_report_changes_the_row(row: ExecutionRow, update: UpdateView)
    requires
        row.committed_sequence < i64::MAX,
    ensures
        ({
            let sequence = (row.committed_sequence + 1) as u64;
            let result = committed(row, sequence, update);
            let next = result->Ok_0->0;
            &&& result matches Ok(Some(_))
            &&& next.committed_sequence == sequence
            &&& next.supervisor_process_id == row.supervisor_process_id && next.id == row.id
                && next.workload_id == row.workload_id && next.snapshot == row.snapshot
                && next.started_unix_ms == row.started_unix_ms
            &&& update is Acknowledge ==> next.state == row.state && next.attempt == row.attempt
                && next.error == row.error && next.workload_process_id == row.workload_process_id
                && next.exit_code == row.exit_code && next.ended_unix_ms == row.ended_unix_ms
            &&& update matches UpdateView::Progress {
                state,
                workload_process_id,
                attempt,
                error,
            } ==> next.state == state && next.workload_process_id == workload_process_id
                && next.attempt == attempt && next.exit_code == row.exit_code
                && next.ended_unix_ms == row.ended_unix_ms && (error matches Some(text)
                ==> next.error == text) && (error is None ==> next.error == row.error)
            &&& update matches UpdateView::Terminal {
                state,
                ended_unix_ms,
                exit_code,
                error,
                attempt,
            } ==> next.state == state && next.ended_unix_ms == ended_unix_ms && next.exit_code
                == exit_code && next.error == error && next.attempt == attempt
                && next.workload_process_id == 0
        }),
{
}

/// Which reports are committed, passed over and refused: the one that follows the last, those up to
/// the last, and all others; and one that is refused is told the number that was expected.
pub proof fn law_reports_are_taken_in_order(
    row: ExecutionRow,
    sequence: u64,
    update: UpdateView,
)
    requires
        sequence <= i64::MAX,
    ensures
        ({
            let result = committed(row, sequence, update);
            &&& (result matches Ok(Some(_))) <==> sequence == row.committed_sequence + 1
            &&& (result matches Ok(None)) <==> sequence <= row.committed_sequence
            &&& result is Err <==> sequence > row.committed_sequence + 1
            &&& result matches Err(error) ==> (error matches StorageError::ObservationOutOfOrder {
                expected,
                actual,
            } && expected == row.committed_sequence + 1 && actual == sequence)
        }),
{
}

/// The columns of an execution are read exactly where each integer lies in its domain; otherwise the
/// first that does not is named.
pub proof fn law_columns_are_read_within_their_domain(columns: ExecutionColumns)
    ensures
        bad_column(columns) is None <==> {
            &&& 0 <= columns.supervisor_process_id <= u32::MAX
            &&& 0 <= columns.workload_process_id <= u32::MAX
            &&& 0 <= columns.attempt <= u32::MAX
            &&& columns.exit_code matches Some(code) ==> 0 <= code <= u32::MAX
            &&& 0 <= columns.committed_sequence
        },
        bad_column(columns) == Some(3usize) <==> !(0 <= columns.supervisor_process_id <= u32::MAX),
        bad_column(columns) == Some(4usize) ==> !(0 <= columns.workload_process_id <= u32::MAX),
        bad_column(columns) == Some(5usize) ==> !(0 <= columns.attempt <= u32::MAX),
        bad_column(columns) == Some(8usize) ==> (columns.exit_code matches Some(code) && !(0 <= code
            <= u32::MAX)),
        bad_column(columns) == Some(11usize) ==> columns.committed_sequence < 0,
{
}

/// An enabled job that this session has not started yet is started by it; a job that is not enabled
/// is not, and no service is, which enablement starts in another way.
pub proof fn law_enabled_jobs_are_claimed(row: EnablementView, session: Seq<char>)
    ensures
        row.claims(session) <==> row.kind == "job"@ && row.enabled && row.last_triggered_session
            != session,
        row.claims(session) ==> row.claimed(session).last_triggered_session == session,
        !row.claims(session) ==> row.claimed(session) == row,
        row.claimed(session).enabled == row.enabled && row.claimed(session).kind == row.kind,
{
}

/// After a reload a workload is known and defined as the last definition of it says.
pub proof fn law_reloads_bring_the_last_definition(
    rows: Map<Seq<char>, WorkloadRow>,
    definitions: Seq<WorkloadRow>,
    n: int,
    at: int,
)
    requires
        0 <= at < n <= definitions.len(),
        forall|j: int| at < j < n ==> (#[trigger] definitions[j]).id != definitions[at].id,
    ensures
        ({
            let after = with_definitions(without_definitions(rows), definitions, n);
            let id = definitions[at].id;
            &&& after.contains_key(id)
            &&& after[id].definition == definitions[at].definition
            &&& after[id].kind == definitions[at].kind
        }),
    decreases n,
{
    if at < n - 1 {
        law_reloads_bring_the_last_definition(rows, definitions, n - 1, at);
        assert(definitions[n - 1].id != definitions[at].id);
    }
}

/// After a reload a workload without a definition is known exactly where it was, and is defined no
/// longer.
pub proof fn law_reloads_take_old_definitions_away(
    rows: Map<Seq<char>, WorkloadRow>,
    definitions: Seq<WorkloadRow>,
    n: int,
    id: Seq<char>,
)
    requires
        0 <= n <= definitions.len(),
        forall|i: int| 0 <= i < n ==> (#[trigger] definitions[i]).id != id,
    ensures
        ({
            let after = with_definitions(without_definitions(rows), definitions, n);
            &&& after.contains_key(id) <==> rows.contains_key(id)
            &&& rows.contains_key(id) ==> after[id] == (WorkloadRow {
                definition: None,
                ..rows[id]
            })
        }),
    decreases n,
{
    if n > 0 {
        law_reloads_take_old_definitions_away(rows, definitions, n - 1, id);
        assert(definitions[n - 1].id != id);
    }
}

/// A workload that is new with a reload has had no outcome yet.
pub proof fn law_new_workloads_have_no_outcome(
    rows: Map<Seq<char>, WorkloadRow>,
    definitions: Seq<WorkloadRow>,
    n: int,
    id: Seq<char>,
)
    requires
        0 <= n <= definitions.len(),
        !rows.contains_key(id),
        with_definitions(without_definitions(rows), definitions, n).contains_key(id),
    ensures
        with_definitions(without_definitions(rows), definitions, n)[id].last_outcome.len() == 0,
    decreases n,
{
    let start = without_definitions(rows);
    if n > 0 {
        if with_definitions(start, definitions, n - 1).contains_key(id) {
            law_new_workloads_have_no_outcome(rows, definitions, n - 1, id);
        }
    }
}

/// Nothing that a workload keeps is taken from it where its definition is.
pub proof fn law_undefined_workloads_are_kept(rows: Map<Seq<char>, WorkloadRow>, id: Seq<char>)
    ensures
        without_definitions(rows).dom() == rows.dom(),
        rows.contains_key(id) ==> without_definitions(rows)[id].definition is None
            && without_definitions(rows)[id].enabled == rows[id].enabled
            && without_definitions(rows)[id].last_outcome == rows[id].last_outcome
            && without_definitions(rows)[id].kind == rows[id].kind && without_definitions(rows)[id].id
            == rows[id].id,
{
}

/// Definitions are replaced unless the generation that they come from is the one that is kept.
pub proof fn law_generations_are_told_apart(kept: Vec<u8>, generation: Seq<u8>)
    ensures
        !is_current(None, generation),
        is_current(Some(kept), kept@),
        is_current(Some(kept), generation) ==> kept@ == generation,
{
}

} // verus!
