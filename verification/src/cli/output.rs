//! What the client shows to people.

use vstd::prelude::*;
use vstd::string::*;
use vstd::utf8::{
    decode_utf8, encode_utf8, encode_utf8_decode_utf8, encode_utf8_valid_utf8, is_char_boundary,
    is_char_boundary_iff_not_is_continuation_byte, is_char_boundary_start_end_of_seq,
    valid_utf8_split,
};

use crate::bundle::utf8_text;
use crate::bytes::copy_range;
use crate::config::model::texts;
use crate::control::Diagnostic;
use crate::host::state::{HostStatus, StatusView};
use crate::manager::model::{Execution, ExecutionFacts, Workload, WorkloadView};
use crate::numerals::{push_signed_decimal, signed_decimal};
use crate::text::{decimal, push_decimal, same_text, text_view};
use crate::versions::{InstalledVersion, VersionView};

verus! {

/// In which tone a text is shown.
#[derive(Clone, Copy, Debug, PartialEq, Eq, Structural)]
pub enum Tone {
    Plain,
    Green,
    Yellow,
    Red,
    Cyan,
    Grey,
}

/// Whether colors are used.
#[derive(Clone, Copy, Debug, PartialEq, Eq, Structural)]
pub enum ColorMode {
    /// Where the output is a terminal that shows them.
    Auto,
    Always,
    Never,
}

impl ColorMode {
    /// Whether colors are used on an output that shows them, or does not.
    pub fn uses_colors(self, shows_colors: bool) -> (uses: bool)
        ensures
            uses == (self == ColorMode::Always || self == ColorMode::Auto && shows_colors),
    {
        match self {
            ColorMode::Auto => shows_colors,
            ColorMode::Always => true,
            ColorMode::Never => false,
        }
    }
}

/// A text in a table.
#[derive(Debug)]
pub struct Cell {
    pub text: String,
    pub tone: Tone,
}

#[verifier::ext_equal]
pub struct CellView {
    pub text: Seq<char>,
    pub tone: Tone,
}

impl Cell {
    pub open spec fn view(&self) -> CellView {
        CellView { text: self.text@, tone: self.tone }
    }
}

/// A detail: what it is called, and what it is.
#[derive(Debug)]
pub struct Detail {
    pub key: String,
    pub value: Cell,
}

#[verifier::ext_equal]
pub struct DetailView {
    pub key: Seq<char>,
    pub value: CellView,
}

impl Detail {
    pub open spec fn view(&self) -> DetailView {
        DetailView { key: self.key@, value: self.value@ }
    }
}

/// Details by what they hold.
pub open spec fn detail_views(details: Seq<Detail>) -> Seq<DetailView> {
    details.map_values(|detail: Detail| detail@)
}

/// Cells by what they hold.
pub open spec fn cell_views(cells: Seq<Cell>) -> Seq<CellView> {
    cells.map_values(|cell: Cell| cell@)
}

/// Rows by what they hold.
pub open spec fn row_views(rows: Seq<Vec<Cell>>) -> Seq<Seq<CellView>> {
    rows.map_values(|row: Vec<Cell>| cell_views(row@))
}

/// A part of what is shown.
#[derive(Debug)]
pub enum Block {
    /// Something was done.
    Success(String),
    /// Something was not done because nothing had to be.
    Notice(String),
    /// There is nothing to show.
    Empty(String),
    /// A line without anything before it.
    Line(String),
    Details(Vec<Detail>),
    Table { headers: Vec<String>, rows: Vec<Vec<Cell>> },
}

#[verifier::ext_equal]
pub enum BlockView {
    Success(Seq<char>),
    Notice(Seq<char>),
    Empty(Seq<char>),
    Line(Seq<char>),
    Details(Seq<DetailView>),
    Table { headers: Seq<Seq<char>>, rows: Seq<Seq<CellView>> },
}

impl Block {
    pub open spec fn view(&self) -> BlockView {
        match *self {
            Block::Success(text) => BlockView::Success(text@),
            Block::Notice(text) => BlockView::Notice(text@),
            Block::Empty(text) => BlockView::Empty(text@),
            Block::Line(text) => BlockView::Line(text@),
            Block::Details(details) => BlockView::Details(detail_views(details@)),
            Block::Table { headers, rows } => BlockView::Table {
                headers: texts(headers@),
                rows: row_views(rows@),
            },
        }
    }
}

/// What is shown, by what it holds.
pub open spec fn block_views(blocks: Seq<Block>) -> Seq<BlockView> {
    blocks.map_values(|block: Block| block@)
}

/// A cell in a tone.
pub open spec fn toned(text: Seq<char>, tone: Tone) -> CellView {
    CellView { text, tone }
}

/// A detail in a tone.
pub open spec fn detail(key: Seq<char>, text: Seq<char>, tone: Tone) -> DetailView {
    DetailView { key, value: toned(text, tone) }
}

/// A detail that is only shown under a condition.
pub open spec fn shown_if(condition: bool, detail: DetailView) -> Seq<DetailView> {
    if condition {
        seq![detail]
    } else {
        Seq::empty()
    }
}

fn push_detail(details: &mut Vec<Detail>, key: &str, text: String, tone: Tone)
    ensures
        detail_views(final(details)@) == detail_views(old(details)@).push(
            detail(key@, text@, tone),
        ),
{
    let ghost before = details@;
    let item = Detail { key: key.to_owned(), value: Cell { text, tone } };
    details.push(item);
    assert(detail_views(details@) =~= detail_views(before).push(item@));
}

fn push_detail_if(details: &mut Vec<Detail>, condition: bool, key: &str, text: String, tone: Tone)
    ensures
        detail_views(final(details)@) == detail_views(old(details)@) + shown_if(
            condition,
            detail(key@, text@, tone),
        ),
{
    let ghost before = detail_views(details@);
    if condition {
        push_detail(details, key, text, tone);
    }
    assert(detail_views(details@) =~= before + shown_if(condition, detail(key@, text@, tone)));
}

fn push_cell(cells: &mut Vec<Cell>, text: String, tone: Tone)
    ensures
        cell_views(final(cells)@) == cell_views(old(cells)@).push(toned(text@, tone)),
{
    let ghost before = cells@;
    let cell = Cell { text, tone };
    cells.push(cell);
    assert(cell_views(cells@) =~= cell_views(before).push(cell@));
}

/// The tone of a state.
pub open spec fn tone_of(state: Seq<char>) -> Tone {
    if state == "running"@ || state == "completed"@ || state == "current"@ {
        Tone::Green
    } else if state == "starting"@ || state == "launching"@ || state == "recovering"@ || state
        == "restart-backoff"@ || state == "stopping"@ {
        Tone::Yellow
    } else if state == "failed"@ || state == "launch-failed"@ || state == "supervisor-lost"@
        || state == "outcome-unknown"@ || state == "definition-missing"@ || state
        == "not registered"@ {
        Tone::Red
    } else {
        Tone::Grey
    }
}

/// The tone of a state.
pub fn status_tone(state: &str) -> (tone: Tone)
    ensures
        tone == tone_of(state@),
{
    if same_text(state, "running") || same_text(state, "completed") || same_text(state, "current") {
        Tone::Green
    } else if same_text(state, "starting") || same_text(state, "launching") || same_text(
        state,
        "recovering",
    ) || same_text(state, "restart-backoff") || same_text(state, "stopping") {
        Tone::Yellow
    } else if same_text(state, "failed") || same_text(state, "launch-failed") || same_text(
        state,
        "supervisor-lost",
    ) || same_text(state, "outcome-unknown") || same_text(state, "definition-missing") || same_text(
        state,
        "not registered",
    ) {
        Tone::Red
    } else {
        Tone::Grey
    }
}

/// An answer of yes or no.
pub open spec fn answer(value: bool) -> CellView {
    if value {
        toned("yes"@, Tone::Green)
    } else {
        toned("no"@, Tone::Grey)
    }
}

fn answer_text(value: bool) -> (text: String)
    ensures
        text@ == answer(value).text,
{
    if value {
        "yes".to_owned()
    } else {
        "no".to_owned()
    }
}

fn answer_tone(value: bool) -> (tone: Tone)
    ensures
        tone == answer(value).tone,
{
    if value {
        Tone::Green
    } else {
        Tone::Grey
    }
}

/// A number, where zero stands for none.
pub open spec fn number_or_dash(value: u32) -> Seq<char> {
    if value == 0 {
        "-"@
    } else {
        decimal(value as nat)
    }
}

/// A number, where zero stands for none.
pub fn optional_number(value: u32) -> (text: String)
    ensures
        text@ == number_or_dash(value),
{
    if value == 0 {
        "-".to_owned()
    } else {
        number_text(value as u64)
    }
}

fn number_text(value: u64) -> (text: String)
    ensures
        text@ == decimal(value as nat),
{
    let mut text: String = String::new();
    push_decimal(&mut text, value);
    assert(text@ =~= decimal(value as nat));
    text
}

/// The form in which an instant is shown.
pub const TIME_FORMAT: &'static str = "%Y-%m-%dT%H:%M:%S.%3fZ";

/// What an instant looks like in a form, for one that can be written.
pub uninterp spec fn time_text(unix_ms: i64, format: Seq<char>) -> Option<Seq<char>>;

/// Writes an instant by `jiff::Timestamp::from_millisecond` and `Timestamp::strftime`: nothing where
/// it is outside the range of a timestamp. How its parts are written is left to the name.
#[verifier::external_body]
pub(crate) fn write_time(unix_ms: i64, format: &str) -> (text: Option<String>)
    requires
        format@ == TIME_FORMAT@,
    ensures
        match text {
            Some(text) => time_text(unix_ms, format@) == Some(text@),
            None => time_text(unix_ms, format@) is None,
        },
{
    match jiff::Timestamp::from_millisecond(unix_ms) {
        Ok(time) => Some(time.strftime(format).to_string()),
        Err(_) => None,
    }
}

/// How an instant is shown that is written as `written`: zero stands for none, and what cannot be
/// written is shown as a number.
pub open spec fn instant(unix_ms: i64, written: Option<Seq<char>>) -> Seq<char> {
    if unix_ms == 0 {
        "-"@
    } else {
        match written {
            Some(text) => text,
            None => signed_decimal(unix_ms as int),
        }
    }
}

/// How an instant is shown that is written as `written`.
pub fn instant_text(unix_ms: i64, written: Option<String>) -> (text: String)
    ensures
        text@ == instant(unix_ms, text_view(written)),
{
    if unix_ms == 0 {
        return "-".to_owned();
    }
    match written {
        Some(text) => text,
        None => {
            let mut text: String = String::new();
            push_signed_decimal(&mut text, unix_ms);
            assert(text@ =~= signed_decimal(unix_ms as int));
            text
        },
    }
}

/// How an instant is shown.
pub open spec fn shown_time(unix_ms: i64) -> Seq<char> {
    instant(unix_ms, time_text(unix_ms, TIME_FORMAT@))
}

/// How an instant is shown.
pub fn format_timestamp(unix_ms: i64) -> (text: String)
    ensures
        text@ == shown_time(unix_ms),
{
    instant_text(unix_ms, write_time(unix_ms, TIME_FORMAT))
}

/// The first bytes of a text, where they end between two characters; otherwise the text.
pub open spec fn shortened(value: Seq<char>, length: int) -> Seq<char> {
    let bytes = encode_utf8(value);
    if 0 <= length <= bytes.len() && is_char_boundary(bytes, length) {
        decode_utf8(bytes.take(length))
    } else {
        value
    }
}

/// The first bytes of a text, where they end between two characters; otherwise the text.
pub fn shorten(value: &str, length: usize) -> (text: String)
    ensures
        text@ == shortened(value@, length as int),
{
    let bytes: &[u8] = value.as_bytes();
    proof {
        encode_utf8_decode_utf8(value@);
        encode_utf8_valid_utf8(value@);
        is_char_boundary_start_end_of_seq(bytes@);
        if length < bytes@.len() {
            is_char_boundary_iff_not_is_continuation_byte(bytes@, length as int);
        }
    }
    if length > bytes.len() {
        return value.to_owned();
    }
    if length < bytes.len() && 0x80 <= bytes[length] && bytes[length] <= 0xbf {
        return value.to_owned();
    }
    proof {
        valid_utf8_split(bytes@, length as int);
        assert(bytes@.take(length as int) =~= bytes@.subrange(0, length as int));
    }
    match utf8_text(copy_range(bytes, 0, length)) {
        Ok(text) => text,
        Err(_) => value.to_owned(),
    }
}

/// The notes on a workload.
pub open spec fn notes(workload: WorkloadView) -> Seq<Seq<char>> {
    (if workload.definition_missing {
        seq!["definition missing"@]
    } else {
        Seq::empty()
    }) + (if workload.restart_required {
        seq!["restart required"@]
    } else {
        Seq::empty()
    }) + (if workload.policy_sync_pending {
        seq!["policy sync pending"@]
    } else {
        Seq::empty()
    })
}

/// Texts with commas between them.
pub open spec fn listed(list: Seq<Seq<char>>) -> Seq<char>
    decreases list.len(),
{
    if list.len() == 0 {
        Seq::empty()
    } else if list.len() == 1 {
        list[0]
    } else {
        listed(list.drop_last()) + ", "@ + list.last()
    }
}

fn push_note(text: &mut String, note: &str, list: Ghost<Seq<Seq<char>>>)
    requires
        old(text)@ == listed(list@),
        forall|i: int| 0 <= i < list@.len() ==> #[trigger] list@[i].len() > 0,
    ensures
        final(text)@ == listed(list@.push(note@)),
{
    proof {
        let more = list@.push(note@);
        assert(more.drop_last() =~= list@);
        lemma_listed_is_empty(list@);
    }
    if text.as_str().unicode_len() > 0 {
        text.append(", ");
    }
    text.append(note);
    assert(text@ =~= listed(list@.push(note@)));
}

proof fn lemma_listed_is_empty(list: Seq<Seq<char>>)
    requires
        forall|i: int| 0 <= i < list.len() ==> #[trigger] list[i].len() > 0,
    ensures
        listed(list).len() == 0 <==> list.len() == 0,
{
    if list.len() > 0 {
        assert(list[list.len() - 1].len() > 0);
        assert(list[0].len() > 0);
    }
}

/// The notes on a workload, with commas between them.
pub fn workload_notes(workload: &Workload) -> (text: String)
    ensures
        text@ == listed(notes(workload@)),
        (text@.len() == 0) == (notes(workload@).len() == 0),
{
    proof {
        reveal_strlit("definition missing");
        reveal_strlit("restart required");
        reveal_strlit("policy sync pending");
    }
    let mut text: String = String::new();
    let ghost mut list: Seq<Seq<char>> = Seq::empty();
    assert(text@ =~= listed(list));
    if workload.definition_missing {
        push_note(&mut text, "definition missing", Ghost(list));
        proof {
            list = list.push("definition missing"@);
        }
    }
    if workload.restart_required {
        push_note(&mut text, "restart required", Ghost(list));
        proof {
            list = list.push("restart required"@);
        }
    }
    if workload.policy_sync_pending {
        push_note(&mut text, "policy sync pending", Ghost(list));
        proof {
            list = list.push("policy sync pending"@);
        }
    }
    proof {
        assert(list =~= notes(workload@));
        lemma_listed_is_empty(list);
    }
    text
}

/// The details that every workload has.
pub open spec fn workload_head(workload: WorkloadView) -> Seq<DetailView> {
    seq![
        detail("Name"@, workload.workload_id, Tone::Plain),
        detail("Kind"@, workload.kind, Tone::Cyan),
        detail("State"@, workload.state, tone_of(workload.state)),
        DetailView { key: "Enabled"@, value: answer(workload.enabled) },
    ]
}

/// The details of a workload.
pub open spec fn workload_details(workload: WorkloadView) -> Seq<DetailView> {
    workload_head(workload) + shown_if(
        workload.execution_id.len() > 0,
        detail("Execution"@, workload.execution_id, Tone::Plain),
    ) + shown_if(
        workload.workload_process_id != 0,
        detail("Process ID"@, decimal(workload.workload_process_id as nat), Tone::Plain),
    ) + shown_if(
        workload.supervisor_process_id != 0,
        detail("Supervisor PID"@, decimal(workload.supervisor_process_id as nat), Tone::Plain),
    ) + shown_if(
        workload.attempt != 0,
        detail("Attempt"@, decimal(workload.attempt as nat), Tone::Plain),
    ) + shown_if(
        workload.last_outcome.len() > 0,
        detail("Last outcome"@, workload.last_outcome, tone_of(workload.last_outcome)),
    ) + shown_if(
        notes(workload).len() > 0,
        detail("Notes"@, listed(notes(workload)), Tone::Yellow),
    ) + shown_if(
        workload.error.len() > 0,
        detail("Error"@, workload.error, Tone::Red),
    )
}

/// The details that every execution has.
pub open spec fn execution_head(execution: ExecutionFacts) -> Seq<DetailView> {
    seq![
        detail("Execution"@, execution.execution_id, Tone::Plain),
        detail("Workload"@, execution.workload_id, Tone::Plain),
        detail("State"@, execution.state, tone_of(execution.state)),
        detail("Started"@, shown_time(execution.started_unix_ms), Tone::Plain),
    ]
}

/// The details of an execution.
pub open spec fn execution_details(execution: ExecutionFacts) -> Seq<DetailView> {
    execution_head(execution) + shown_if(
        execution.ended_unix_ms != 0,
        detail("Ended"@, shown_time(execution.ended_unix_ms), Tone::Plain),
    ) + shown_if(
        execution.supervisor_process_id != 0,
        detail("Supervisor PID"@, decimal(execution.supervisor_process_id as nat), Tone::Plain),
    ) + shown_if(
        execution.workload_process_id != 0,
        detail("Process ID"@, decimal(execution.workload_process_id as nat), Tone::Plain),
    ) + shown_if(
        execution.attempt != 0,
        detail("Attempt"@, decimal(execution.attempt as nat), Tone::Plain),
    ) + shown_if(
        execution.exit_code is Some,
        detail("Exit code"@, decimal(execution.exit_code->0 as nat), Tone::Plain),
    ) + shown_if(
        execution.error.len() > 0,
        detail("Error"@, execution.error, Tone::Red),
    )
}

/// The state of a controller in one word or two.
pub open spec fn controller_state(status: StatusView) -> Seq<char> {
    if status.controller_running {
        "running"@
    } else if status.registered {
        "recovering"@
    } else {
        "not registered"@
    }
}

/// The details of a controller.
pub open spec fn controller_details(status: StatusView) -> Seq<DetailView> {
    seq![
        detail("State"@, controller_state(status), tone_of(controller_state(status))),
        DetailView { key: "Registered"@, value: answer(status.registered) },
    ] + shown_if(
        status.manager_session_id.len() > 0,
        detail("Manager session"@, status.manager_session_id, Tone::Plain),
    ) + shown_if(
        status.controller_process_id != 0,
        detail("Process ID"@, decimal(status.controller_process_id as nat), Tone::Plain),
    ) + shown_if(
        status.message.len() > 0,
        detail("Message"@, status.message, Tone::Plain),
    )
}

/// What is shown of a workload that was told something.
pub open spec fn mutation_blocks(changed: bool, workload: WorkloadView) -> Seq<BlockView> {
    seq![
        if changed {
            BlockView::Success("Updated "@ + workload.workload_id)
        } else {
            BlockView::Notice(workload.workload_id + " unchanged"@)
        },
        BlockView::Details(
            seq![detail("State"@, workload.state, tone_of(workload.state))] + shown_if(
                workload.workload_process_id != 0,
                detail("Process ID"@, decimal(workload.workload_process_id as nat), Tone::Plain),
            ) + shown_if(
                workload.error.len() > 0,
                detail("Error"@, workload.error, Tone::Red),
            ),
        ),
    ]
}

/// One detail under a heading.
fn with_details(heading: Block, details: Vec<Detail>) -> (blocks: Vec<Block>)
    ensures
        block_views(blocks@) == seq![heading@, BlockView::Details(detail_views(details@))],
{
    let mut blocks: Vec<Block> = Vec::new();
    blocks.push(heading);
    blocks.push(Block::Details(details));
    assert(block_views(blocks@) =~= seq![heading@, BlockView::Details(detail_views(details@))]);
    blocks
}

/// The row of a version.
pub open spec fn version_row(version: VersionView) -> Seq<CellView> {
    let state = if version.current {
        "current"@
    } else {
        "installed"@
    };
    seq![
        toned(version.version, Tone::Plain),
        toned(shortened(version.identity, 12), Tone::Plain),
        toned(state, tone_of(state)),
        toned(decimal(version.pin_count as nat), Tone::Plain),
        toned(version.path, Tone::Plain),
    ]
}

/// The row of a workload.
pub open spec fn workload_row(workload: WorkloadView) -> Seq<CellView> {
    seq![
        toned(workload.workload_id, Tone::Plain),
        toned(workload.kind, Tone::Cyan),
        toned(workload.state, tone_of(workload.state)),
        answer(workload.enabled),
        toned(number_or_dash(workload.workload_process_id), Tone::Plain),
        toned(number_or_dash(workload.attempt), Tone::Plain),
        toned(listed(notes(workload)), Tone::Yellow),
    ]
}

/// The row of an execution.
pub open spec fn execution_row(execution: ExecutionFacts) -> Seq<CellView> {
    seq![
        toned(execution.execution_id, Tone::Plain),
        toned(execution.state, tone_of(execution.state)),
        toned(shown_time(execution.started_unix_ms), Tone::Plain),
        toned(number_or_dash(execution.workload_process_id), Tone::Plain),
        toned(number_or_dash(execution.attempt), Tone::Plain),
        toned(
            match execution.exit_code {
                Some(code) => decimal(code as nat),
                None => "-"@,
            },
            Tone::Plain,
        ),
        toned(execution.error, Tone::Red),
    ]
}

/// The headers of a table of versions.
pub open spec fn version_headers() -> Seq<Seq<char>> {
    seq!["VERSION"@, "IDENTITY"@, "STATUS"@, "PINS"@, "PATH"@]
}

/// The headers of a table of workloads.
pub open spec fn workload_headers() -> Seq<Seq<char>> {
    seq!["NAME"@, "KIND"@, "STATE"@, "ENABLED"@, "PID"@, "ATTEMPT"@, "NOTES"@]
}

/// The headers of a table of executions.
pub open spec fn execution_headers() -> Seq<Seq<char>> {
    seq!["EXECUTION"@, "STATE"@, "STARTED"@, "PID"@, "ATTEMPT"@, "EXIT"@, "ERROR"@]
}

/// A table of some things.
pub open spec fn table(headers: Seq<Seq<char>>, rows: Seq<Seq<CellView>>, nothing: Seq<char>) -> BlockView {
    if rows.len() == 0 {
        BlockView::Empty(nothing)
    } else {
        BlockView::Table { headers, rows }
    }
}

fn push_row(rows: &mut Vec<Vec<Cell>>, row: Vec<Cell>)
    ensures
        row_views(final(rows)@) == row_views(old(rows)@).push(cell_views(row@)),
{
    let ghost before = rows@;
    rows.push(row);
    assert(row_views(rows@) =~= row_views(before).push(cell_views(row@)));
}

fn make_version_row(version: &InstalledVersion) -> (row: Vec<Cell>)
    ensures
        cell_views(row@) == version_row(version@),
{
    let state: &str = if version.current {
        "current"
    } else {
        "installed"
    };
    let mut row: Vec<Cell> = Vec::new();
    push_cell(&mut row, version.version.clone(), Tone::Plain);
    push_cell(&mut row, shorten(version.identity.as_str(), 12), Tone::Plain);
    push_cell(&mut row, state.to_owned(), status_tone(state));
    push_cell(&mut row, number_text(version.pin_count as u64), Tone::Plain);
    push_cell(&mut row, version.path.clone(), Tone::Plain);
    assert(cell_views(row@) =~= version_row(version@));
    row
}

fn make_workload_row(workload: &Workload) -> (row: Vec<Cell>)
    ensures
        cell_views(row@) == workload_row(workload@),
{
    let mut row: Vec<Cell> = Vec::new();
    push_cell(&mut row, workload.workload_id.clone(), Tone::Plain);
    push_cell(&mut row, workload.kind.clone(), Tone::Cyan);
    push_cell(&mut row, workload.state.clone(), status_tone(workload.state.as_str()));
    push_cell(&mut row, answer_text(workload.enabled), answer_tone(workload.enabled));
    push_cell(&mut row, optional_number(workload.workload_process_id), Tone::Plain);
    push_cell(&mut row, optional_number(workload.attempt), Tone::Plain);
    push_cell(&mut row, workload_notes(workload), Tone::Yellow);
    assert(cell_views(row@) =~= workload_row(workload@));
    row
}

fn make_execution_row(execution: &Execution) -> (row: Vec<Cell>)
    ensures
        cell_views(row@) == execution_row(execution@),
{
    let mut row: Vec<Cell> = Vec::new();
    push_cell(&mut row, execution.execution_id.clone(), Tone::Plain);
    push_cell(&mut row, execution.state.clone(), status_tone(execution.state.as_str()));
    push_cell(&mut row, format_timestamp(execution.started_unix_ms), Tone::Plain);
    push_cell(&mut row, optional_number(execution.workload_process_id), Tone::Plain);
    push_cell(&mut row, optional_number(execution.attempt), Tone::Plain);
    let code: String = match execution.exit_code {
        Some(code) => number_text(code as u64),
        None => "-".to_owned(),
    };
    push_cell(&mut row, code, Tone::Plain);
    push_cell(&mut row, execution.error.clone(), Tone::Red);
    assert(cell_views(row@) =~= execution_row(execution@));
    row
}

fn push_header(headers: &mut Vec<String>, header: &str)
    ensures
        texts(final(headers)@) == texts(old(headers)@).push(header@),
{
    let ghost before = headers@;
    let text: String = header.to_owned();
    headers.push(text);
    assert(texts(headers@) =~= texts(before).push(text@));
}

/// The row of something that is wrong with a configuration.
pub open spec fn diagnostic_row(diagnostic: Diagnostic) -> Seq<CellView> {
    seq![toned(diagnostic.path@, Tone::Plain), toned(diagnostic.message@, Tone::Red)]
}

/// What is shown to people, and where the two streams stand on which that happens.
#[derive(Clone, Copy, Debug, PartialEq, Eq, Structural)]
pub struct HumanOutput {
    /// Whether the next byte on the standard output begins a line.
    pub stdout_line_start: bool,
    /// Whether the next byte on the standard error output begins a line.
    pub stderr_line_start: bool,
}

impl HumanOutput {
    pub fn new() -> (output: HumanOutput)
        ensures
            output.stdout_line_start && output.stderr_line_start,
    {
        HumanOutput { stdout_line_start: true, stderr_line_start: true }
    }

    /// What is shown of a workload.
    pub fn workload(&self, workload: &Workload) -> (block: Block)
        ensures
            block@ == BlockView::Details(workload_details(workload@)),
    {
        let mut details: Vec<Detail> = Vec::new();
        push_detail(&mut details, "Name", workload.workload_id.clone(), Tone::Plain);
        push_detail(&mut details, "Kind", workload.kind.clone(), Tone::Cyan);
        push_detail(
            &mut details,
            "State",
            workload.state.clone(),
            status_tone(workload.state.as_str()),
        );
        push_detail(
            &mut details,
            "Enabled",
            answer_text(workload.enabled),
            answer_tone(workload.enabled),
        );
        assert(detail_views(details@) =~= workload_head(workload@));
        push_detail_if(
            &mut details,
            workload.execution_id.as_str().unicode_len() > 0,
            "Execution",
            workload.execution_id.clone(),
            Tone::Plain,
        );
        push_detail_if(
            &mut details,
            workload.workload_process_id != 0,
            "Process ID",
            number_text(workload.workload_process_id as u64),
            Tone::Plain,
        );
        push_detail_if(
            &mut details,
            workload.supervisor_process_id != 0,
            "Supervisor PID",
            number_text(workload.supervisor_process_id as u64),
            Tone::Plain,
        );
        push_detail_if(
            &mut details,
            workload.attempt != 0,
            "Attempt",
            number_text(workload.attempt as u64),
            Tone::Plain,
        );
        push_detail_if(
            &mut details,
            workload.last_outcome.as_str().unicode_len() > 0,
            "Last outcome",
            workload.last_outcome.clone(),
            status_tone(workload.last_outcome.as_str()),
        );
        let notes: String = workload_notes(workload);
        push_detail_if(
            &mut details,
            notes.as_str().unicode_len() > 0,
            "Notes",
            notes,
            Tone::Yellow,
        );
        push_detail_if(
            &mut details,
            workload.error.as_str().unicode_len() > 0,
            "Error",
            workload.error.clone(),
            Tone::Red,
        );
        Block::Details(details)
    }

    /// What is shown of an execution.
    pub fn execution(&self, execution: &Execution) -> (block: Block)
        ensures
            block@ == BlockView::Details(execution_details(execution@)),
    {
        let mut details: Vec<Detail> = Vec::new();
        push_detail(&mut details, "Execution", execution.execution_id.clone(), Tone::Plain);
        push_detail(&mut details, "Workload", execution.workload_id.clone(), Tone::Plain);
        push_detail(
            &mut details,
            "State",
            execution.state.clone(),
            status_tone(execution.state.as_str()),
        );
        push_detail(
            &mut details,
            "Started",
            format_timestamp(execution.started_unix_ms),
            Tone::Plain,
        );
        assert(detail_views(details@) =~= execution_head(execution@));
        push_detail_if(
            &mut details,
            execution.ended_unix_ms != 0,
            "Ended",
            format_timestamp(execution.ended_unix_ms),
            Tone::Plain,
        );
        push_detail_if(
            &mut details,
            execution.supervisor_process_id != 0,
            "Supervisor PID",
            number_text(execution.supervisor_process_id as u64),
            Tone::Plain,
        );
        push_detail_if(
            &mut details,
            execution.workload_process_id != 0,
            "Process ID",
            number_text(execution.workload_process_id as u64),
            Tone::Plain,
        );
        push_detail_if(
            &mut details,
            execution.attempt != 0,
            "Attempt",
            number_text(execution.attempt as u64),
            Tone::Plain,
        );
        let code: u32 = match execution.exit_code {
            Some(code) => code,
            None => 0,
        };
        push_detail_if(
            &mut details,
            execution.exit_code.is_some(),
            "Exit code",
            number_text(code as u64),
            Tone::Plain,
        );
        push_detail_if(
            &mut details,
            execution.error.as_str().unicode_len() > 0,
            "Error",
            execution.error.clone(),
            Tone::Red,
        );
        Block::Details(details)
    }

    /// What is shown of a controller.
    pub fn controller_status(&self, status: &HostStatus) -> (block: Block)
        ensures
            block@ == BlockView::Details(controller_details(status@)),
    {
        let state: &str = if status.controller_running {
            "running"
        } else if status.registered {
            "recovering"
        } else {
            "not registered"
        };
        let mut details: Vec<Detail> = Vec::new();
        push_detail(&mut details, "State", state.to_owned(), status_tone(state));
        push_detail(
            &mut details,
            "Registered",
            answer_text(status.registered),
            answer_tone(status.registered),
        );
        push_detail_if(
            &mut details,
            status.manager_session_id.as_str().unicode_len() > 0,
            "Manager session",
            status.manager_session_id.clone(),
            Tone::Plain,
        );
        push_detail_if(
            &mut details,
            status.controller_process_id != 0,
            "Process ID",
            number_text(status.controller_process_id as u64),
            Tone::Plain,
        );
        push_detail_if(
            &mut details,
            status.message.as_str().unicode_len() > 0,
            "Message",
            status.message.clone(),
            Tone::Plain,
        );
        assert(detail_views(details@) =~= controller_details(status@));
        Block::Details(details)
    }

    /// What is shown of a workload that was told something.
    pub fn mutation(&self, changed: bool, workload: &Workload) -> (blocks: Vec<Block>)
        ensures
            block_views(blocks@) == mutation_blocks(changed, workload@),
    {
        let mut blocks: Vec<Block> = Vec::new();
        if changed {
            let mut text: String = "Updated ".to_owned();
            text.append(workload.workload_id.as_str());
            blocks.push(Block::Success(text));
        } else {
            let mut text: String = workload.workload_id.clone();
            text.append(" unchanged");
            blocks.push(Block::Notice(text));
        }
        let mut details: Vec<Detail> = Vec::new();
        push_detail(
            &mut details,
            "State",
            workload.state.clone(),
            status_tone(workload.state.as_str()),
        );
        push_detail_if(
            &mut details,
            workload.workload_process_id != 0,
            "Process ID",
            number_text(workload.workload_process_id as u64),
            Tone::Plain,
        );
        push_detail_if(
            &mut details,
            workload.error.as_str().unicode_len() > 0,
            "Error",
            workload.error.clone(),
            Tone::Red,
        );
        let ghost wanted = mutation_blocks(changed, workload@);
        assert(detail_views(details@) =~= wanted[1]->Details_0);
        blocks.push(Block::Details(details));
        assert(block_views(blocks@) =~= wanted);
        blocks
    }

    /// What is shown of a path.
    pub fn path(&self, path: &str) -> (block: Block)
        ensures
            block@ == BlockView::Line(path@),
    {
        Block::Line(path.to_owned())
    }

    /// What is shown of an installation.
    pub fn installed(&self, version: &InstalledVersion, controller_process_id: u32) -> (blocks: Vec<Block>)
        ensures
            block_views(blocks@) == seq![
                BlockView::Success("Installed SUSM "@ + version@.version),
                BlockView::Details(
                    seq![
                        detail("Identity"@, version@.identity, Tone::Plain),
                        detail("Path"@, version@.path, Tone::Plain),
                        detail("Controller PID"@, decimal(controller_process_id as nat), Tone::Plain),
                    ],
                ),
            ],
    {
        let mut text: String = "Installed SUSM ".to_owned();
        text.append(version.version.as_str());
        let mut details: Vec<Detail> = Vec::new();
        push_detail(&mut details, "Identity", version.identity.clone(), Tone::Plain);
        push_detail(&mut details, "Path", version.path.clone(), Tone::Plain);
        push_detail(
            &mut details,
            "Controller PID",
            number_text(controller_process_id as u64),
            Tone::Plain,
        );
        assert(detail_views(details@) =~= seq![
            detail("Identity"@, version@.identity, Tone::Plain),
            detail("Path"@, version@.path, Tone::Plain),
            detail("Controller PID"@, decimal(controller_process_id as nat), Tone::Plain),
        ]);
        with_details(Block::Success(text), details)
    }

    /// What is shown of a version that was selected.
    pub fn selected(&self, version: &InstalledVersion) -> (blocks: Vec<Block>)
        ensures
            block_views(blocks@) == seq![
                BlockView::Success("Selected SUSM "@ + version@.version),
                BlockView::Details(
                    seq![
                        detail("Identity"@, version@.identity, Tone::Plain),
                        detail("Path"@, version@.path, Tone::Plain),
                    ],
                ),
            ],
    {
        let mut text: String = "Selected SUSM ".to_owned();
        text.append(version.version.as_str());
        let mut details: Vec<Detail> = Vec::new();
        push_detail(&mut details, "Identity", version.identity.clone(), Tone::Plain);
        push_detail(&mut details, "Path", version.path.clone(), Tone::Plain);
        assert(detail_views(details@) =~= seq![
            detail("Identity"@, version@.identity, Tone::Plain),
            detail("Path"@, version@.path, Tone::Plain),
        ]);
        with_details(Block::Success(text), details)
    }

    /// What is shown after an uninstallation.
    pub fn uninstalled(&self) -> (block: Block)
        ensures
            block@ == BlockView::Success("Removed the per-user SUSM installation"@),
    {
        Block::Success("Removed the per-user SUSM installation".to_owned())
    }

    /// What is shown after unused versions were removed.
    pub fn garbage_collected(&self, removed: usize) -> (block: Block)
        ensures
            block@ == BlockView::Success(
                "Removed "@ + decimal(removed as nat) + " unused version or staging entries"@,
            ),
    {
        let mut text: String = "Removed ".to_owned();
        push_decimal(&mut text, removed as u64);
        text.append(" unused version or staging entries");
        Block::Success(text)
    }

    /// What is shown of a restart that was requested.
    pub fn controller_restart(&self, manager_session_id: &str) -> (blocks: Vec<Block>)
        ensures
            block_views(blocks@) == seq![
                BlockView::Success("Controller restart requested"@),
                BlockView::Details(
                    seq![detail("Manager session"@, manager_session_id@, Tone::Plain)],
                ),
            ],
    {
        let mut details: Vec<Detail> = Vec::new();
        push_detail(&mut details, "Manager session", manager_session_id.to_owned(), Tone::Plain);
        assert(detail_views(details@) =~= seq![
            detail("Manager session"@, manager_session_id@, Tone::Plain),
        ]);
        with_details(Block::Success("Controller restart requested".to_owned()), details)
    }

    /// What is shown of a reload.
    pub fn reload(&self, changed: bool, generation: &str) -> (blocks: Vec<Block>)
        ensures
            block_views(blocks@) == seq![
                if changed {
                    BlockView::Success("Configuration reloaded"@)
                } else {
                    BlockView::Notice("Configuration unchanged"@)
                },
                BlockView::Details(seq![detail("Generation"@, generation@, Tone::Plain)]),
            ],
    {
        let mut details: Vec<Detail> = Vec::new();
        push_detail(&mut details, "Generation", generation.to_owned(), Tone::Plain);
        assert(detail_views(details@) =~= seq![detail("Generation"@, generation@, Tone::Plain)]);
        let heading: Block = if changed {
            Block::Success("Configuration reloaded".to_owned())
        } else {
            Block::Notice("Configuration unchanged".to_owned())
        };
        with_details(heading, details)
    }

    /// What is shown of a configuration that was refused.
    pub fn reload_diagnostics(&self, diagnostics: &Vec<Diagnostic>) -> (block: Block)
        ensures
            block@ == (BlockView::Table {
                headers: seq!["FILE"@, "ERROR"@],
                rows: diagnostics@.map_values(|diagnostic: Diagnostic| diagnostic_row(diagnostic)),
            }),
    {
        let ghost wanted = diagnostics@.map_values(|diagnostic: Diagnostic| diagnostic_row(diagnostic));
        let mut headers: Vec<String> = Vec::new();
        push_header(&mut headers, "FILE");
        push_header(&mut headers, "ERROR");
        assert(texts(headers@) =~= seq!["FILE"@, "ERROR"@]);
        let mut rows: Vec<Vec<Cell>> = Vec::new();
        let mut i: usize = 0;
        assert(row_views(rows@) =~= wanted.take(0));
        while i < diagnostics.len()
            invariant
                i <= diagnostics.len(),
                wanted == diagnostics@.map_values(
                    |diagnostic: Diagnostic| diagnostic_row(diagnostic),
                ),
                row_views(rows@) == wanted.take(i as int),
            decreases diagnostics.len() - i,
        {
            let mut row: Vec<Cell> = Vec::new();
            push_cell(&mut row, diagnostics[i].path.clone(), Tone::Plain);
            push_cell(&mut row, diagnostics[i].message.clone(), Tone::Red);
            assert(cell_views(row@) =~= diagnostic_row(diagnostics@[i as int]));
            push_row(&mut rows, row);
            i += 1;
            assert(wanted.take(i as int) =~= wanted.take(i - 1).push(wanted[i - 1]));
        }
        assert(wanted.take(i as int) =~= wanted);
        Block::Table { headers, rows }
    }

    /// What is shown of the installed versions.
    pub fn versions(&self, versions: &Vec<InstalledVersion>) -> (block: Block)
        ensures
            block@ == table(
                version_headers(),
                versions@.map_values(|version: InstalledVersion| version_row(version@)),
                "No installed versions"@,
            ),
    {
        let ghost wanted = versions@.map_values(|version: InstalledVersion| version_row(version@));
        if versions.len() == 0 {
            return Block::Empty("No installed versions".to_owned());
        }
        let mut headers: Vec<String> = Vec::new();
        push_header(&mut headers, "VERSION");
        push_header(&mut headers, "IDENTITY");
        push_header(&mut headers, "STATUS");
        push_header(&mut headers, "PINS");
        push_header(&mut headers, "PATH");
        assert(texts(headers@) =~= version_headers());
        let mut rows: Vec<Vec<Cell>> = Vec::new();
        let mut i: usize = 0;
        assert(row_views(rows@) =~= wanted.take(0));
        while i < versions.len()
            invariant
                i <= versions.len(),
                wanted == versions@.map_values(|version: InstalledVersion| version_row(version@)),
                row_views(rows@) == wanted.take(i as int),
            decreases versions.len() - i,
        {
            push_row(&mut rows, make_version_row(&versions[i]));
            i += 1;
            assert(wanted.take(i as int) =~= wanted.take(i - 1).push(wanted[i - 1]));
        }
        assert(wanted.take(i as int) =~= wanted);
        Block::Table { headers, rows }
    }

    /// What is shown of the workloads.
    pub fn workloads(&self, workloads: &Vec<Workload>) -> (block: Block)
        ensures
            block@ == table(
                workload_headers(),
                workloads@.map_values(|workload: Workload| workload_row(workload@)),
                "No workloads"@,
            ),
    {
        let ghost wanted = workloads@.map_values(|workload: Workload| workload_row(workload@));
        if workloads.len() == 0 {
            return Block::Empty("No workloads".to_owned());
        }
        let mut headers: Vec<String> = Vec::new();
        push_header(&mut headers, "NAME");
        push_header(&mut headers, "KIND");
        push_header(&mut headers, "STATE");
        push_header(&mut headers, "ENABLED");
        push_header(&mut headers, "PID");
        push_header(&mut headers, "ATTEMPT");
        push_header(&mut headers, "NOTES");
        assert(texts(headers@) =~= workload_headers());
        let mut rows: Vec<Vec<Cell>> = Vec::new();
        let mut i: usize = 0;
        assert(row_views(rows@) =~= wanted.take(0));
        while i < workloads.len()
            invariant
                i <= workloads.len(),
                wanted == workloads@.map_values(|workload: Workload| workload_row(workload@)),
                row_views(rows@) == wanted.take(i as int),
            decreases workloads.len() - i,
        {
            push_row(&mut rows, make_workload_row(&workloads[i]));
            i += 1;
            assert(wanted.take(i as int) =~= wanted.take(i - 1).push(wanted[i - 1]));
        }
        assert(wanted.take(i as int) =~= wanted);
        Block::Table { headers, rows }
    }

    /// What is shown of some executions.
    pub fn executions(&self, executions: &Vec<Execution>) -> (block: Block)
        ensures
            block@ == table(
                execution_headers(),
                executions@.map_values(|execution: Execution| execution_row(execution@)),
                "No executions"@,
            ),
    {
        let ghost wanted = executions@.map_values(|execution: Execution| execution_row(execution@));
        if executions.len() == 0 {
            return Block::Empty("No executions".to_owned());
        }
        let mut headers: Vec<String> = Vec::new();
        push_header(&mut headers, "EXECUTION");
        push_header(&mut headers, "STATE");
        push_header(&mut headers, "STARTED");
        push_header(&mut headers, "PID");
        push_header(&mut headers, "ATTEMPT");
        push_header(&mut headers, "EXIT");
        push_header(&mut headers, "ERROR");
        assert(texts(headers@) =~= execution_headers());
        let mut rows: Vec<Vec<Cell>> = Vec::new();
        let mut i: usize = 0;
        assert(row_views(rows@) =~= wanted.take(0));
        while i < executions.len()
            invariant
                i <= executions.len(),
                wanted == executions@.map_values(|execution: Execution| execution_row(execution@)),
                row_views(rows@) == wanted.take(i as int),
            decreases executions.len() - i,
        {
            push_row(&mut rows, make_execution_row(&executions[i]));
            i += 1;
            assert(wanted.take(i as int) =~= wanted.take(i - 1).push(wanted[i - 1]));
        }
        assert(wanted.take(i as int) =~= wanted);
        Block::Table { headers, rows }
    }
}

} // verus!
