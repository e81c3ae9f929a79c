//! What the controller keeps: workloads and their executions, and how a row changes.

use vstd::prelude::*;
use vstd::string::*;

use crate::messages::copy_bytes;
use crate::ordered::{TextMap, ascending, entries_map, has_key, lemma_entry_in_map};
use crate::text::{decimal, join, push_decimal, same_bytes, same_text, text_view};

verus! {

/// A workload as it is kept.
#[derive(Debug)]
pub struct StoredWorkload {
    pub id: String,
    pub kind: String,
    pub definition: Option<Vec<u8>>,
    pub enabled: bool,
    pub last_outcome: String,
}

#[verifier::ext_equal]
pub struct WorkloadRow {
    pub id: Seq<char>,
    pub kind: Seq<char>,
    pub definition: Option<Seq<u8>>,
    pub enabled: bool,
    pub last_outcome: Seq<char>,
}

/// The bytes that may be there.
pub open spec fn bytes_view(bytes: Option<Vec<u8>>) -> Option<Seq<u8>> {
    match bytes {
        Some(bytes) => Some(bytes@),
        None => None,
    }
}

fn copy_optional_bytes(bytes: &Option<Vec<u8>>) -> (copy: Option<Vec<u8>>)
    ensures
        bytes_view(copy) == bytes_view(*bytes),
{
    match bytes {
        Some(bytes) => Some(copy_bytes(bytes)),
        None => None,
    }
}

impl StoredWorkload {
    pub open spec fn view(&self) -> WorkloadRow {
        WorkloadRow {
            id: self.id@,
            kind: self.kind@,
            definition: bytes_view(self.definition),
            enabled: self.enabled,
            last_outcome: self.last_outcome@,
        }
    }
}

impl Clone for StoredWorkload {
    fn clone(&self) -> (copy: StoredWorkload)
        ensures
            copy@ == self@,
    {
        StoredWorkload {
            id: self.id.clone(),
            kind: self.kind.clone(),
            definition: copy_optional_bytes(&self.definition),
            enabled: self.enabled,
            last_outcome: self.last_outcome.clone(),
        }
    }
}

/// An execution as it is kept.
#[derive(Debug)]
pub struct StoredExecution {
    pub id: String,
    pub workload_id: String,
    pub state: String,
    pub supervisor_process_id: u32,
    pub workload_process_id: u32,
    pub attempt: u32,
    pub started_unix_ms: i64,
    pub ended_unix_ms: i64,
    pub exit_code: Option<u32>,
    pub error: String,
    pub snapshot: Vec<u8>,
    pub committed_sequence: u64,
}

#[verifier::ext_equal]
pub struct ExecutionRow {
    pub id: Seq<char>,
    pub workload_id: Seq<char>,
    pub state: Seq<char>,
    pub supervisor_process_id: u32,
    pub workload_process_id: u32,
    pub attempt: u32,
    pub started_unix_ms: i64,
    pub ended_unix_ms: i64,
    pub exit_code: Option<u32>,
    pub error: Seq<char>,
    pub snapshot: Seq<u8>,
    pub committed_sequence: u64,
}

impl StoredExecution {
    pub open spec fn view(&self) -> ExecutionRow {
        ExecutionRow {
            id: self.id@,
            workload_id: self.workload_id@,
            state: self.state@,
            supervisor_process_id: self.supervisor_process_id,
            workload_process_id: self.workload_process_id,
            attempt: self.attempt,
            started_unix_ms: self.started_unix_ms,
            ended_unix_ms: self.ended_unix_ms,
            exit_code: self.exit_code,
            error: self.error@,
            snapshot: self.snapshot@,
            committed_sequence: self.committed_sequence,
        }
    }
}

impl Clone for StoredExecution {
    fn clone(&self) -> (copy: StoredExecution)
        ensures
            copy@ == self@,
    {
        StoredExecution {
            id: self.id.clone(),
            workload_id: self.workload_id.clone(),
            state: self.state.clone(),
            supervisor_process_id: self.supervisor_process_id,
            workload_process_id: self.workload_process_id,
            attempt: self.attempt,
            started_unix_ms: self.started_unix_ms,
            ended_unix_ms: self.ended_unix_ms,
            exit_code: self.exit_code,
            error: self.error.clone(),
            snapshot: copy_bytes(&self.snapshot),
            committed_sequence: self.committed_sequence,
        }
    }
}

/// Why something could not be kept.
#[derive(Debug)]
pub enum StorageError {
    Unavailable,
    Sqlite(String),
    Migration(String),
    InvalidInteger,
    ObservationOutOfOrder { expected: u64, actual: u64 },
}

impl StorageError {
    pub open spec fn text(self) -> Seq<char> {
        match self {
            StorageError::Unavailable => "controller storage connection is unavailable"@,
            StorageError::Sqlite(reason) => "SQLite operation failed: "@ + reason@,
            StorageError::Migration(reason) => "SQLite schema migration failed: "@ + reason@,
            StorageError::InvalidInteger => "stored integer is outside its domain"@,
            StorageError::ObservationOutOfOrder { expected, actual } => "observation sequence "@
                + decimal(actual as nat) + " is out of order; expected "@ + decimal(
                expected as nat,
            ),
        }
    }

    pub fn message(&self) -> (message: String)
        ensures
            message@ == self.text(),
    {
        match self {
            StorageError::Unavailable => "controller storage connection is unavailable".to_owned(),
            StorageError::Sqlite(reason) => join("SQLite operation failed: ", reason.as_str()),
            StorageError::Migration(reason) => join(
                "SQLite schema migration failed: ",
                reason.as_str(),
            ),
            StorageError::InvalidInteger => "stored integer is outside its domain".to_owned(),
            StorageError::ObservationOutOfOrder { expected, actual } => {
                let mut message: String = "observation sequence ".to_owned();
                push_decimal(&mut message, *actual);
                message.append(" is out of order; expected ");
                push_decimal(&mut message, *expected);
                message
            },
        }
    }
}

/// The columns of an execution as integers of the database.
#[derive(Debug)]
pub struct ExecutionColumns {
    pub id: String,
    pub workload_id: String,
    pub state: String,
    pub supervisor_process_id: i64,
    pub workload_process_id: i64,
    pub attempt: i64,
    pub started_unix_ms: i64,
    pub ended_unix_ms: i64,
    pub exit_code: Option<i64>,
    pub error: String,
    pub snapshot: Vec<u8>,
    pub committed_sequence: i64,
}

/// Whether an integer of the database fits into thirty-two bits.
pub open spec fn fits(value: i64) -> bool {
    0 <= value <= u32::MAX
}

/// The first column whose integer is outside its domain.
pub open spec fn bad_column(columns: ExecutionColumns) -> Option<usize> {
    if !fits(columns.supervisor_process_id) {
        Some(3)
    } else if !fits(columns.workload_process_id) {
        Some(4)
    } else if !fits(columns.attempt) {
        Some(5)
    } else if columns.exit_code matches Some(code) && !fits(code) {
        Some(8)
    } else if columns.committed_sequence < 0 {
        Some(11)
    } else {
        None
    }
}

/// Reads an execution from its columns, or tells which column is outside its domain.
pub fn read_execution(columns: ExecutionColumns) -> (result: Result<StoredExecution, usize>)
    ensures
        match result {
            Ok(execution) => bad_column(columns) is None && execution@ == (ExecutionRow {
                id: columns.id@,
                workload_id: columns.workload_id@,
                state: columns.state@,
                supervisor_process_id: columns.supervisor_process_id as u32,
                workload_process_id: columns.workload_process_id as u32,
                attempt: columns.attempt as u32,
                started_unix_ms: columns.started_unix_ms,
                ended_unix_ms: columns.ended_unix_ms,
                exit_code: match columns.exit_code {
                    Some(code) => Some(code as u32),
                    None => None,
                },
                error: columns.error@,
                snapshot: columns.snapshot@,
                committed_sequence: columns.committed_sequence as u64,
            }),
            Err(column) => bad_column(columns) == Some(column),
        },
{
    let largest: i64 = 0xffff_ffff;
    if columns.supervisor_process_id < 0 || columns.supervisor_process_id > largest {
        return Err(3);
    }
    if columns.workload_process_id < 0 || columns.workload_process_id > largest {
        return Err(4);
    }
    if columns.attempt < 0 || columns.attempt > largest {
        return Err(5);
    }
    let exit_code: Option<u32> = match columns.exit_code {
        Some(code) => {
            if code < 0 || code > largest {
                return Err(8);
            }
            Some(code as u32)
        },
        None => None,
    };
    if columns.committed_sequence < 0 {
        return Err(11);
    }
    Ok(
        StoredExecution {
            id: columns.id,
            workload_id: columns.workload_id,
            state: columns.state,
            supervisor_process_id: columns.supervisor_process_id as u32,
            workload_process_id: columns.workload_process_id as u32,
            attempt: columns.attempt as u32,
            started_unix_ms: columns.started_unix_ms,
            ended_unix_ms: columns.ended_unix_ms,
            exit_code,
            error: columns.error,
            snapshot: columns.snapshot,
            committed_sequence: columns.committed_sequence as u64,
        },
    )
}

/// An execution that an observation ends.
#[derive(Debug)]
pub struct TerminalObservation {
    pub state: String,
    pub ended_unix_ms: i64,
    pub exit_code: Option<u32>,
    pub error: String,
    pub attempt: u32,
}

/// An execution that an observation moves on.
#[derive(Debug)]
pub struct ProgressObservation {
    pub state: String,
    pub workload_process_id: u32,
    pub attempt: u32,
    pub error: Option<String>,
}

/// What an observation changes.
#[derive(Debug)]
pub enum ObservationUpdate {
    Acknowledge,
    Progress(ProgressObservation),
    Terminal(TerminalObservation),
}

/// An [`ObservationUpdate`] as mathematical text.
#[verifier::ext_equal]
pub enum UpdateView {
    Acknowledge,
    Progress {
        state: Seq<char>,
        workload_process_id: u32,
        attempt: u32,
        error: Option<Seq<char>>,
    },
    Terminal {
        state: Seq<char>,
        ended_unix_ms: i64,
        exit_code: Option<u32>,
        error: Seq<char>,
        attempt: u32,
    },
}

impl ObservationUpdate {
    pub open spec fn view(&self) -> UpdateView {
        match *self {
            ObservationUpdate::Acknowledge => UpdateView::Acknowledge,
            ObservationUpdate::Progress(progress) => UpdateView::Progress {
                state: progress.state@,
                workload_process_id: progress.workload_process_id,
                attempt: progress.attempt,
                error: text_view(progress.error),
            },
            ObservationUpdate::Terminal(terminal) => UpdateView::Terminal {
                state: terminal.state@,
                ended_unix_ms: terminal.ended_unix_ms,
                exit_code: terminal.exit_code,
                error: terminal.error@,
                attempt: terminal.attempt,
            },
        }
    }
}

/// A row after an update with this number.
pub open spec fn updated(row: ExecutionRow, sequence: u64, update: UpdateView) -> ExecutionRow {
    match update {
        UpdateView::Acknowledge => ExecutionRow { committed_sequence: sequence, ..row },
        UpdateView::Progress { state, workload_process_id, attempt, error } => ExecutionRow {
            state,
            workload_process_id,
            attempt,
            error: match error {
                Some(error) => error,
                None => row.error,
            },
            committed_sequence: sequence,
            ..row
        },
        UpdateView::Terminal { state, ended_unix_ms, exit_code, error, attempt } => ExecutionRow {
            state,
            workload_process_id: 0,
            attempt,
            ended_unix_ms,
            exit_code,
            error,
            committed_sequence: sequence,
            ..row
        },
    }
}

/// What becomes of an observation: it changes the row only where it is the next one, is passed
/// over where the row has it already, and is refused otherwise.
pub open spec fn committed(
    row: ExecutionRow,
    sequence: u64,
    update: UpdateView,
) -> Result<Option<ExecutionRow>, StorageError> {
    if sequence > i64::MAX {
        Err(StorageError::InvalidInteger)
    } else if sequence <= row.committed_sequence {
        Ok(None)
    } else if sequence != row.committed_sequence + 1 {
        Err(
            StorageError::ObservationOutOfOrder {
                expected: (row.committed_sequence + 1) as u64,
                actual: sequence,
            },
        )
    } else {
        Ok(Some(updated(row, sequence, update)))
    }
}

impl StoredExecution {
    /// Commits an observation to the row. The answer is whether it changed the row.
    pub fn commit_observation(&mut self, sequence: u64, update: ObservationUpdate) -> (result: Result<
        bool,
        StorageError,
    >)
        ensures
            match result {
                Ok(true) => committed(old(self)@, sequence, update@) == Ok::<
                    Option<ExecutionRow>,
                    StorageError,
                >(Some(final(self)@)),
                Ok(false) => final(self)@ == old(self)@ && committed(
                    old(self)@,
                    sequence,
                    update@,
                ) == Ok::<Option<ExecutionRow>, StorageError>(None),
                Err(error) => final(self)@ == old(self)@ && committed(
                    old(self)@,
                    sequence,
                    update@,
                ) == Err::<Option<ExecutionRow>, StorageError>(error),
            },
    {
        if sequence > 0x7fff_ffff_ffff_ffff {
            return Err(StorageError::InvalidInteger);
        }
        if sequence <= self.committed_sequence {
            return Ok(false);
        }
        let expected: u64 = self.committed_sequence + 1;
        if sequence != expected {
            return Err(StorageError::ObservationOutOfOrder { expected, actual: sequence });
        }
        self.committed_sequence = sequence;
        match update {
            ObservationUpdate::Acknowledge => {},
            ObservationUpdate::Progress(progress) => {
                self.state = progress.state;
                self.workload_process_id = progress.workload_process_id;
                self.attempt = progress.attempt;
                if let Some(error) = progress.error {
                    self.error = error;
                }
            },
            ObservationUpdate::Terminal(terminal) => {
                self.state = terminal.state;
                self.workload_process_id = 0;
                self.attempt = terminal.attempt;
                self.ended_unix_ms = terminal.ended_unix_ms;
                self.exit_code = terminal.exit_code;
                self.error = terminal.error;
            },
        }
        Ok(true)
    }
}

/// A supervisor that sends an observation again changes nothing, one that skips a number is
/// refused and told the number that is expected, and the number of a row goes up by one with
/// every change.
pub proof fn law_observations_are_committed_once_and_in_order(
    row: ExecutionRow,
    sequence: u64,
    update: UpdateView,
    again: UpdateView,
)
    ensures
        committed(row, sequence, update) matches Ok(Some(next)) ==> {
            &&& next.committed_sequence == row.committed_sequence + 1
            &&& next.id == row.id && next.workload_id == row.workload_id && next.snapshot
                == row.snapshot && next.started_unix_ms == row.started_unix_ms
            &&& committed(next, sequence, again) == Ok::<Option<ExecutionRow>, StorageError>(None)
        },
        sequence > row.committed_sequence + 1 ==> committed(row, sequence, update) is Err,
{
}

/// What is kept of a workload's enablement: whether it is enabled, and the session in which that
/// started it last.
#[derive(Debug)]
pub struct Enablement {
    pub kind: String,
    pub enabled: bool,
    pub last_triggered_session: String,
}

#[verifier::ext_equal]
pub struct EnablementView {
    pub kind: Seq<char>,
    pub enabled: bool,
    pub last_triggered_session: Seq<char>,
}

impl EnablementView {
    /// Whether the enablement of a job starts it in this session.
    pub open spec fn claims(self, session: Seq<char>) -> bool {
        self.kind == "job"@ && self.enabled && self.last_triggered_session != session
    }

    /// What is kept after a session tried to start the job.
    pub open spec fn claimed(self, session: Seq<char>) -> EnablementView {
        if self.claims(session) {
            EnablementView { last_triggered_session: session, ..self }
        } else {
            self
        }
    }
}

impl Enablement {
    pub open spec fn view(&self) -> EnablementView {
        EnablementView {
            kind: self.kind@,
            enabled: self.enabled,
            last_triggered_session: self.last_triggered_session@,
        }
    }

    /// Claims an enabled job for a session. The answer is whether the session starts it; it then is
    /// the session that is kept.
    pub fn claim_enabled_job(&mut self, session: &str) -> (claim: bool)
        ensures
            claim == old(self)@.claims(session@),
            final(self)@ == old(self)@.claimed(session@),
    {
        let claim: bool = same_text(self.kind.as_str(), "job") && self.enabled && !same_text(
            self.last_triggered_session.as_str(),
            session,
        );
        if claim {
            self.last_triggered_session = session.to_owned();
        }
        claim
    }
}

/// An enabled job starts at most once in a session: after a session has claimed it, or tried to, it
/// cannot claim it any more. Another session still can.
pub proof fn law_enabled_jobs_start_once_in_a_session(
    row: EnablementView,
    session: Seq<char>,
    other: Seq<char>,
)
    ensures
        !row.claimed(session).claims(session),
        row.claims(session) && other != session ==> row.claimed(session).claims(other),
        row.claimed(session).claimed(session) == row.claimed(session),
{
}

/// The rows of some workloads, by their ids.
pub open spec fn row_views(rows: Map<Seq<char>, StoredWorkload>) -> Map<Seq<char>, WorkloadRow> {
    rows.map_values(|row: StoredWorkload| row@)
}

/// Rows without definitions.
pub open spec fn without_definitions(rows: Map<Seq<char>, WorkloadRow>) -> Map<
    Seq<char>,
    WorkloadRow,
> {
    rows.map_values(|row: WorkloadRow| WorkloadRow { definition: None, ..row })
}

/// Rows after the first `n` definitions were put in: a workload that is known keeps what its user
/// set and how it last ended.
pub open spec fn with_definitions(
    rows: Map<Seq<char>, WorkloadRow>,
    definitions: Seq<WorkloadRow>,
    n: int,
) -> Map<Seq<char>, WorkloadRow>
    decreases n,
{
    if n <= 0 {
        rows
    } else {
        let earlier = with_definitions(rows, definitions, n - 1);
        let next = definitions[n - 1];
        earlier.insert(
            next.id,
            if earlier.contains_key(next.id) {
                WorkloadRow {
                    kind: next.kind,
                    definition: next.definition,
                    ..earlier[next.id]
                }
            } else {
                WorkloadRow { last_outcome: Seq::empty(), ..next }
            },
        )
    }
}

/// The rows of some definitions.
pub open spec fn definition_rows(definitions: Seq<StoredWorkload>) -> Seq<WorkloadRow> {
    definitions.map_values(|definition: StoredWorkload| definition@)
}

/// Whether a generation is the one that is kept.
pub open spec fn is_current(current: Option<Vec<u8>>, generation: Seq<u8>) -> bool {
    current matches Some(bytes) && bytes@ == generation
}

fn clear_definitions(rows: &TextMap<StoredWorkload>) -> (cleared: TextMap<StoredWorkload>)
    ensures
        row_views(cleared.map()) == without_definitions(row_views(rows.map())),
{
    let mut cleared: TextMap<StoredWorkload> = TextMap::new();
    let count: usize = rows.len();
    let mut i: usize = 0;
    let ghost entries = rows@;
    while i < count
        invariant
            i <= count,
            entries == rows@,
            count == entries.len(),
            ascending(entries),
            forall|key: Seq<char>| #[trigger]
                row_views(cleared.map()).contains_key(key) <==> has_key(
                    entries.take(i as int),
                    key,
                ),
            forall|k: int|
                0 <= k < i ==> row_views(cleared.map())[(#[trigger] entries[k]).0] == (
                WorkloadRow { definition: None, ..entries[k].1@ }),
        decreases count - i,
    {
        let key: String = rows.key(i).to_owned();
        let mut row: StoredWorkload = rows.value(i).clone();
        row.definition = None;
        let ghost before = cleared.map();
        let ghost now_row = row@;
        let _ = cleared.insert(key, row);
        proof {
            assert(row_views(cleared.map()) =~= row_views(before).insert(key@, now_row));
            assert forall|k: int| 0 <= k < i + 1 implies row_views(cleared.map())[(
            #[trigger] entries[k]).0] == (WorkloadRow { definition: None, ..entries[k].1@ }) by {
                if k < i && entries[k].0 == key@ {
                    crate::ordered::lemma_ascending_keys_differ(entries, k, i as int);
                }
            }
            assert forall|other: Seq<char>| #[trigger]
                row_views(cleared.map()).contains_key(other) <==> has_key(
                entries.take(i + 1),
                other,
            ) by {
                let shown = entries.take(i + 1);
                if has_key(entries.take(i as int), other) {
                    let k = choose|k: int|
                        0 <= k < i && (#[trigger] entries.take(i as int)[k]).0 == other;
                    assert(shown[k].0 == other);
                }
                if other == key@ {
                    assert(shown[i as int].0 == other);
                }
                if has_key(shown, other) {
                    let k = choose|k: int| 0 <= k < shown.len() && (#[trigger] shown[k]).0 == other;
                    if k < i {
                        assert(entries.take(i as int)[k].0 == other);
                    }
                }
            }
        }
        i += 1;
    }
    proof {
        assert(entries.take(i as int) =~= entries);
        let made = row_views(cleared.map());
        let wanted = without_definitions(row_views(rows.map()));
        assert forall|key: Seq<char>| #[trigger] made.contains_key(key) == wanted.contains_key(
            key,
        ) by {
            assert(entries_map(entries).contains_key(key) == has_key(entries, key));
        }
        assert forall|key: Seq<char>| made.contains_key(key) implies #[trigger] made[key]
            == wanted[key] by {
            let k = choose|k: int| 0 <= k < entries.len() && (#[trigger] entries[k]).0 == key;
            lemma_entry_in_map(entries, k);
        }
        assert(made =~= wanted);
    }
    cleared
}

/// Replaces the definitions by those of another generation. The answer is whether they were of
/// another one.
pub fn replace_definitions(
    rows: &mut TextMap<StoredWorkload>,
    current: &Option<Vec<u8>>,
    generation: &[u8],
    definitions: &Vec<StoredWorkload>,
) -> (changed: bool)
    ensures
        changed == !is_current(*current, generation@),
        row_views(final(rows).map()) == if changed {
            with_definitions(
                without_definitions(row_views(old(rows).map())),
                definition_rows(definitions@),
                definitions@.len() as int,
            )
        } else {
            row_views(old(rows).map())
        },
{
    if let Some(bytes) = current {
        if same_bytes(bytes.as_slice(), generation) {
            return false;
        }
    }
    let mut next: TextMap<StoredWorkload> = clear_definitions(rows);
    let ghost cleared = without_definitions(row_views(rows.map()));
    let ghost listed = definition_rows(definitions@);
    let mut i: usize = 0;
    while i < definitions.len()
        invariant
            i <= definitions.len(),
            listed == definition_rows(definitions@),
            row_views(next.map()) == with_definitions(cleared, listed, i as int),
        decreases definitions.len() - i,
    {
        let definition: &StoredWorkload = &definitions[i];
        let ghost before = next.map();
        let mut row: StoredWorkload = definition.clone();
        row.last_outcome = String::new();
        if let Some(known) = next.get(definition.id.as_str()) {
            row.id = known.id.clone();
            row.enabled = known.enabled;
            row.last_outcome = known.last_outcome.clone();
        }
        proof {
            assert(listed[i as int] == definition@);
            assert(row_views(before).contains_key(definition.id@) == before.contains_key(
                definition.id@,
            ));
        }
        let ghost now_row = row@;
        let _ = next.insert(definition.id.clone(), row);
        assert(row_views(next.map()) =~= row_views(before).insert(definition.id@, now_row));
        i += 1;
    }
    std::mem::swap(rows, &mut next);
    true
}

/// A reload takes nothing away from what a user set: a workload that was known stays known, with
/// its enablement and its last outcome, whether it is still defined or not.
pub proof fn law_reloads_keep_what_users_set(
    rows: Map<Seq<char>, WorkloadRow>,
    definitions: Seq<WorkloadRow>,
    n: int,
    id: Seq<char>,
)
    requires
        rows.contains_key(id),
    ensures
        with_definitions(without_definitions(rows), definitions, n).contains_key(id),
        with_definitions(without_definitions(rows), definitions, n)[id].enabled == rows[id].enabled,
        with_definitions(without_definitions(rows), definitions, n)[id].last_outcome
            == rows[id].last_outcome,
    decreases n,
{
    if n > 0 {
        law_reloads_keep_what_users_set(rows, definitions, n - 1, id);
    }
}

} // verus!
