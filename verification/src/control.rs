//! How requests to the controller are read and answered: ids, pages, cursors and logs.

use vstd::prelude::*;
use vstd::string::*;

use crate::ids::{InvalidWorkloadId, WorkloadId, is_workload_id};
use crate::log_journal::{
    LogView, OutputChunk, ReadLogsResponse, chunk_record, law_segments_are_read_back, log_views,
    records, segment,
};
use crate::manager::error::StatusCode;
use crate::manager::model::{
    Execution, Workload, WorkloadView, ends_execution, progress_of,
};
use crate::numerals::{
    is_digit, is_numeral, lemma_decimal_is_numeral, number, parse_i64, parse_u64,
    push_signed_decimal, signed, signed_decimal, unsigned,
};
use crate::ordered::{Placement, TextMap, lemma_order_is_total, place_text, text_precedes};
use crate::paths::{extension, path_extension};
use crate::text::{
    borrowed_view, chars_of, decimal, eq_ignore_ascii_case, push_char, push_decimal,
    same_ignoring_ascii_case, same_text, text_view,
};
use vstd::utf8::encode_utf8;

verus! {

/// A refusal as it goes over the wire.
#[derive(Debug)]
pub struct Status {
    pub code: StatusCode,
    pub message: String,
}

impl Status {
    /// Whether this is a refusal of this kind with this message.
    pub open spec fn is(&self, code: StatusCode, message: Seq<char>) -> bool {
        self.code == code && self.message@ == message
    }
}

/// The number that a text names as a universally unique identifier, or why it names none.
pub uninterp spec fn uuid_of(text: Seq<char>) -> Result<u128, Seq<char>>;

/// Reads a universally unique identifier by `uuid::Uuid::parse_str`, or gives what the error says.
/// Which forms are read is left to the name.
#[verifier::external_body]
pub(crate) fn parse_uuid(text: &str) -> (id: Result<u128, String>)
    ensures
        match id {
            Ok(number) => uuid_of(text@) == Ok::<u128, Seq<char>>(number),
            Err(reason) => uuid_of(text@) == Err::<u128, Seq<char>>(reason@),
        },
{
    match uuid::Uuid::parse_str(text) {
        Ok(id) => Ok(id.as_u128()),
        Err(error) => Err(error.to_string()),
    }
}

/// Refuses an execution id that is none.
pub fn check_execution_id(id: &str) -> (result: Result<(), Status>)
    ensures
        match result {
            Ok(_) => uuid_of(id@) is Ok,
            Err(status) => uuid_of(id@) is Err && status.is(
                StatusCode::InvalidArgument,
                "execution_id must be a UUID"@,
            ),
        },
{
    execution_id_result(parse_uuid(id).ok())
}

/// What is made of an execution id that was read, or was not.
pub fn execution_id_result(id: Option<u128>) -> (result: Result<(), Status>)
    ensures
        match result {
            Ok(_) => id is Some,
            Err(status) => id is None && status.is(
                StatusCode::InvalidArgument,
                "execution_id must be a UUID"@,
            ),
        },
{
    if id.is_some() {
        Ok(())
    } else {
        Err(
            Status {
                code: StatusCode::InvalidArgument,
                message: "execution_id must be a UUID".to_owned(),
            },
        )
    }
}

/// Refuses a call whose caller is not known.
pub fn authenticate(known: bool) -> (result: Result<(), Status>)
    ensures
        match result {
            Ok(_) => known,
            Err(status) => !known && status.is(
                StatusCode::Unauthenticated,
                "named-pipe caller identity is missing"@,
            ),
        },
{
    if known {
        Ok(())
    } else {
        Err(
            Status {
                code: StatusCode::Unauthenticated,
                message: "named-pipe caller identity is missing".to_owned(),
            },
        )
    }
}

/// Refuses a workload id that is none.
pub fn workload_id(value: String) -> (result: Result<String, Status>)
    ensures
        match result {
            Ok(id) => is_workload_id(encode_utf8(value@)) && id@ == value@,
            Err(status) => status.code == StatusCode::InvalidArgument && exists|
                reason: InvalidWorkloadId,
            |
                #[trigger] reason.explains(encode_utf8(value@)) && status.message@
                    == reason.text(),
        },
{
    match WorkloadId::parse(value.clone()) {
        Ok(_) => Ok(value),
        Err(reason) => {
            let message: String = reason.message();
            assert(reason.explains(encode_utf8(value@)));
            Err(Status { code: StatusCode::InvalidArgument, message })
        },
    }
}

/// The size of a page: a hundred where none is asked for, and a thousand at most.
pub fn page_size(value: u32) -> (result: Result<u32, Status>)
    ensures
        match result {
            Ok(size) => value <= 1000 && size == if value == 0 {
                100
            } else {
                value as int
            },
            Err(status) => value > 1000 && status.is(
                StatusCode::InvalidArgument,
                "page_size must not exceed 1000"@,
            ),
        },
{
    if value == 0 {
        Ok(100)
    } else if value <= 1000 {
        Ok(value)
    } else {
        Err(
            Status {
                code: StatusCode::InvalidArgument,
                message: "page_size must not exceed 1000".to_owned(),
            },
        )
    }
}

/// The views of some workloads.
pub open spec fn workload_views(workloads: Seq<Workload>) -> Seq<WorkloadView> {
    workloads.map_values(|workload: Workload| workload@)
}

/// How many workloads come first whose ids do not come after the cursor.
pub open spec fn passed(workloads: Seq<WorkloadView>, cursor: Seq<char>) -> int
    decreases workloads.len(),
{
    if workloads.len() == 0 || text_precedes(cursor, workloads[0].workload_id) {
        0
    } else {
        1 + passed(workloads.drop_first(), cursor)
    }
}

/// Where a page begins.
pub open spec fn page_start(workloads: Seq<WorkloadView>, cursor: Seq<char>) -> int {
    if cursor.len() == 0 {
        0
    } else {
        passed(workloads, cursor)
    }
}

/// Where a page ends.
pub open spec fn page_end(workloads: Seq<WorkloadView>, cursor: Seq<char>, size: u32) -> int {
    if page_start(workloads, cursor) + size < workloads.len() {
        page_start(workloads, cursor) + size
    } else {
        workloads.len() as int
    }
}

/// The cursor of the next page, where there is one.
pub open spec fn next_cursor(workloads: Seq<WorkloadView>, cursor: Seq<char>, size: u32) -> Seq<
    char,
> {
    let end = page_end(workloads, cursor, size);
    if end < workloads.len() {
        workloads[end - 1].workload_id
    } else {
        Seq::empty()
    }
}

pub proof fn lemma_passed_bound(workloads: Seq<WorkloadView>, cursor: Seq<char>)
    ensures
        0 <= passed(workloads, cursor) <= workloads.len(),
    decreases workloads.len(),
{
    if workloads.len() > 0 {
        lemma_passed_bound(workloads.drop_first(), cursor);
    }
}

/// One page of workloads, and the cursor of the next.
pub fn workload_page(workloads: &Vec<Workload>, cursor: &str, size: u32) -> (page: (
    Vec<Workload>,
    String,
))
    requires
        1 <= size <= 1000,
    ensures
        ({
            let all = workload_views(workloads@);
            &&& workload_views(page.0@) == all.subrange(
                page_start(all, cursor@),
                page_end(all, cursor@, size),
            )
            &&& page.1@ == next_cursor(all, cursor@, size)
        }),
{
    let ghost all = workload_views(workloads@);
    let mut start: usize = 0;
    if !cursor.is_empty() {
        assert(all.skip(0) =~= all);
        while start < workloads.len()
            invariant_except_break
                start <= workloads.len(),
                all == workload_views(workloads@),
                passed(all, cursor@) == start + passed(all.skip(start as int), cursor@),
            ensures
                start <= workloads.len(),
                passed(all, cursor@) == start,
            decreases workloads.len() - start,
        {
            let ghost rest = all.skip(start as int);
            assert(rest[0] == workloads@[start as int]@);
            assert(rest.drop_first() =~= all.skip(start + 1));
            proof {
                lemma_order_is_total(
                    encode_utf8(cursor@),
                    encode_utf8(workloads@[start as int].workload_id@),
                );
            }
            match place_text(cursor, workloads[start].workload_id.as_str()) {
                Placement::Before => {
                    break ;
                },
                _ => {},
            }
            start += 1;
        }
    }
    let end: usize = if workloads.len() - start > size as usize {
        start + size as usize
    } else {
        workloads.len()
    };
    let mut page: Vec<Workload> = Vec::new();
    let mut i: usize = start;
    assert(workload_views(page@) =~= all.subrange(start as int, start as int));
    while i < end
        invariant
            start <= i <= end <= workloads.len(),
            all == workload_views(workloads@),
            workload_views(page@) == all.subrange(start as int, i as int),
        decreases end - i,
    {
        let ghost before = page@;
        let shown: Workload = workloads[i].clone();
        page.push(shown);
        i += 1;
        assert(workload_views(page@) =~= workload_views(before).push(shown@));
        assert(workload_views(page@) =~= all.subrange(start as int, i as int));
    }
    let next: String = if end < workloads.len() {
        assert(all[end - 1].workload_id == workloads@[end - 1].workload_id@);
        workloads[end - 1].workload_id.clone()
    } else {
        String::new()
    };
    assert(end == workloads.len() ==> next@ =~= Seq::empty());
    (page, next)
}

/// Workloads in the order of their ids.
pub open spec fn ids_ascend(workloads: Seq<WorkloadView>) -> bool {
    forall|i: int, j: int|
        0 <= i < j < workloads.len() ==> text_precedes(
            (#[trigger] workloads[i]).workload_id,
            (#[trigger] workloads[j]).workload_id,
        )
}

proof fn lemma_passed_at(workloads: Seq<WorkloadView>, at: int)
    requires
        ids_ascend(workloads),
        0 <= at < workloads.len(),
    ensures
        passed(workloads, workloads[at].workload_id) == at + 1,
    decreases at,
{
    let cursor = workloads[at].workload_id;
    let rest = workloads.drop_first();
    assert(ids_ascend(rest)) by {
        assert forall|i: int, j: int| 0 <= i < j < rest.len() implies text_precedes(
            (#[trigger] rest[i]).workload_id,
            (#[trigger] rest[j]).workload_id,
        ) by {
            assert(text_precedes(workloads[i + 1].workload_id, workloads[j + 1].workload_id));
        }
    }
    lemma_order_is_total(encode_utf8(cursor), encode_utf8(workloads[0].workload_id));
    if at > 0 {
        assert(text_precedes(workloads[0].workload_id, workloads[at].workload_id));
        lemma_passed_at(rest, at - 1);
        assert(rest[at - 1] == workloads[at]);
    } else if rest.len() > 0 {
        assert(text_precedes(workloads[0].workload_id, workloads[1].workload_id));
        assert(rest[0] == workloads[1]);
        assert(passed(rest, cursor) == 0);
    } else {
        assert(passed(rest, cursor) == 0);
    }
}

/// Whoever follows the cursor misses no workload and sees none twice: the next page begins where
/// the last one ended, and a page without a cursor is the last.
pub proof fn law_pages_follow_each_other(
    workloads: Seq<WorkloadView>,
    cursor: Seq<char>,
    size: u32,
)
    requires
        ids_ascend(workloads),
        size >= 1,
        forall|i: int| 0 <= i < workloads.len() ==> (#[trigger] workloads[i]).workload_id.len() > 0,
    ensures
        ({
            let next = next_cursor(workloads, cursor, size);
            let end = page_end(workloads, cursor, size);
            &&& next.len() > 0 ==> page_start(workloads, next) == end
            &&& next.len() == 0 ==> end == workloads.len()
        }),
{
    lemma_passed_bound(workloads, cursor);
    let end = page_end(workloads, cursor, size);
    if end < workloads.len() {
        lemma_passed_at(workloads, end - 1);
    }
}

/// Reads the cursor of a list of executions: the time before which they were started.
pub fn execution_cursor(cursor: &str) -> (result: Result<Option<i64>, Status>)
    ensures
        match result {
            Ok(None) => cursor@.len() == 0,
            Ok(Some(before)) => cursor@.len() > 0 && signed(cursor@) == Some(before),
            Err(status) => cursor@.len() > 0 && signed(cursor@) is None && status.is(
                StatusCode::InvalidArgument,
                "execution cursor is invalid"@,
            ),
        },
{
    if cursor.is_empty() {
        return Ok(None);
    }
    match parse_i64(cursor) {
        Some(before) => Ok(Some(before)),
        None => Err(
            Status {
                code: StatusCode::InvalidArgument,
                message: "execution cursor is invalid".to_owned(),
            },
        ),
    }
}

/// The cursor after a list of executions: a full page may be followed by another one.
pub fn execution_next_cursor(executions: &Vec<Execution>, size: u32) -> (cursor: String)
    ensures
        cursor@ == if executions@.len() > 0 && executions@.len() == size {
            signed_decimal(executions@.last().started_unix_ms as int)
        } else {
            Seq::empty()
        },
{
    let mut cursor: String = String::new();
    assert(cursor@ =~= Seq::empty());
    if executions.len() > 0 && executions.len() == size as usize {
        push_signed_decimal(&mut cursor, executions[executions.len() - 1].started_unix_ms);
        assert(cursor@ =~= signed_decimal(executions@.last().started_unix_ms as int));
    }
    cursor
}

/// One thing that is wrong with a configuration.
#[derive(Debug)]
pub struct Diagnostic {
    pub path: String,
    pub message: String,
}

/// The answer to a reload.
#[derive(Debug)]
pub struct ReloadResponse {
    pub changed: bool,
    pub generation: String,
    pub diagnostics: Vec<Diagnostic>,
}

/// The answer to a reload that was accepted, or whose configuration was refused.
pub fn reload_response(result: Result<(bool, String), String>, config_directory: &str) -> (response:
    ReloadResponse)
    ensures
        match result {
            Ok((changed, generation)) => response.changed == changed && response.generation@
                == generation@ && response.diagnostics@.len() == 0,
            Err(reason) => !response.changed && response.generation@ == Seq::<char>::empty()
                && response.diagnostics@.len() == 1 && response.diagnostics@[0].path@
                == config_directory@ && response.diagnostics@[0].message@ == reason@,
        },
{
    match result {
        Ok((changed, generation)) => ReloadResponse {
            changed,
            generation,
            diagnostics: Vec::new(),
        },
        Err(reason) => {
            let mut diagnostics: Vec<Diagnostic> = Vec::new();
            diagnostics.push(Diagnostic { path: config_directory.to_owned(), message: reason });
            ReloadResponse { changed: false, generation: String::new(), diagnostics }
        },
    }
}

/// What of a log is asked for. No execution id asks for the active execution, or else the newest,
/// and the number zero for all attempts.
#[derive(Debug)]
pub struct ReadLogsRequest {
    pub workload_id: String,
    pub execution_id: String,
    pub attempt: u32,
    pub stream: String,
    pub follow: bool,
}

/// How long a reader that follows a log waits between two looks, in milliseconds.
pub const FOLLOW_INTERVAL_MS: u64 = 250;

/// The number of the attempt whose directory has this name; zero where it has none.
pub open spec fn attempt_of(name: Seq<char>) -> u32 {
    let prefix = "attempt-"@;
    if name.len() >= prefix.len() && name.take(prefix.len() as int) == prefix {
        match unsigned(name.skip(prefix.len() as int)) {
            Some(n) => if n <= u32::MAX {
                n as u32
            } else {
                0
            },
            None => 0,
        }
    } else {
        0
    }
}

/// Reads the number of an attempt from the name of its directory.
pub fn attempt_number(name: &str) -> (attempt: u32)
    ensures
        attempt == attempt_of(name@),
{
    let chars: Vec<char> = chars_of(name);
    let prefix: Vec<char> = chars_of("attempt-");
    let mut i: usize = 0;
    while i < prefix.len() && i < chars.len() && chars[i] == prefix[i]
        invariant
            i <= prefix.len(),
            i <= chars.len(),
            forall|j: int| 0 <= j < i ==> chars@[j] == prefix@[j],
        decreases prefix.len() - i,
    {
        i += 1;
    }
    if i < prefix.len() {
        proof {
            if name@.len() >= prefix@.len() {
                assert(name@.take(prefix@.len() as int)[i as int] != prefix@[i as int]);
            }
        }
        return 0;
    }
    assert(name@.take(prefix@.len() as int) =~= prefix@);
    let mut rest: String = String::new();
    let mut k: usize = prefix.len();
    while k < chars.len()
        invariant
            prefix.len() <= k <= chars.len(),
            rest@ == chars@.subrange(prefix@.len() as int, k as int),
        decreases chars.len() - k,
    {
        push_char(&mut rest, chars[k]);
        k += 1;
        assert(rest@ =~= chars@.subrange(prefix@.len() as int, k as int));
    }
    assert(rest@ =~= name@.skip(prefix@.len() as int));
    match parse_u64(rest.as_str()) {
        Some(n) => {
            if n <= 0xffff_ffff {
                n as u32
            } else {
                0
            }
        },
        None => 0,
    }
}

/// The execution whose log is read: the one that is named, and otherwise the active one, or the
/// newest where none is active.
pub open spec fn chosen_execution(
    named: Seq<char>,
    active: Option<Seq<char>>,
    newest: Option<Seq<char>>,
) -> Option<Seq<char>> {
    if named.len() > 0 {
        Some(named)
    } else if active is Some {
        active
    } else {
        newest
    }
}

/// The execution whose log a request asks for, where there is one: `active` is the execution of the
/// workload that is active, and `newest` the one that was started last.
pub fn logs_execution(request: &ReadLogsRequest, active: Option<&str>, newest: Option<&str>) -> (chosen:
    Option<String>)
    ensures
        text_view(chosen) == chosen_execution(
            request.execution_id@,
            borrowed_view(active),
            borrowed_view(newest),
        ),
{
    if !request.execution_id.as_str().is_empty() {
        return Some(request.execution_id.clone());
    }
    match (active, newest) {
        (Some(id), _) => Some(id.to_owned()),
        (None, Some(id)) => Some(id.to_owned()),
        (None, None) => None,
    }
}

/// Whether an execution is read: only the one that was chosen.
pub fn wants_execution(chosen: &Option<String>, execution_id: &str) -> (wanted: bool)
    ensures
        wanted == (text_view(*chosen) == Some(execution_id@)),
{
    match chosen {
        Some(id) => same_text(id.as_str(), execution_id),
        None => false,
    }
}

impl ReadLogsRequest {
    /// Whether an attempt is asked for: any, or the one that is named.
    pub open spec fn asks_for_attempt(&self, attempt: u32) -> bool {
        self.attempt == 0 || self.attempt == attempt
    }

    /// Whether an attempt is asked for.
    pub fn wants_attempt(&self, attempt: u32) -> (wanted: bool)
        ensures
            wanted == self.asks_for_attempt(attempt),
    {
        self.attempt == 0 || self.attempt == attempt
    }

    /// Whether a stream is asked for: all, or the one that is named.
    pub open spec fn asks_for(&self, stream: Seq<char>) -> bool {
        self.stream@ == "all"@ || self.stream@ == stream
    }

    /// Whether a record is asked for, where this execution was chosen.
    pub open spec fn is_about(&self, chosen: Option<Seq<char>>, record: LogView) -> bool {
        chosen == Some(record.execution_id) && self.asks_for_attempt(record.attempt)
            && self.asks_for(record.stream)
    }

    /// Whether a record is asked for.
    pub fn wants(&self, chosen: &Option<String>, record: &ReadLogsResponse) -> (wanted: bool)
        ensures
            wanted == self.is_about(text_view(*chosen), record@),
    {
        wants_execution(chosen, record.execution_id.as_str()) && self.wants_attempt(record.attempt)
            && (same_text(self.stream.as_str(), "all") || same_text(
            self.stream.as_str(),
            record.stream.as_str(),
        ))
    }
}

/// What compressed bytes hold.
pub uninterp spec fn zstd_decoded(bytes: Seq<u8>) -> Result<Seq<u8>, Seq<char>>;

/// Decompresses bytes, by `zstd::stream::decode_all`. The format is left to the name, and memory that
/// runs out is left aside.
#[verifier::external_body]
pub(crate) fn decompress(bytes: &[u8]) -> (result: Result<Vec<u8>, String>)
    ensures
        match result {
            Ok(plain) => zstd_decoded(bytes@) == Ok::<Seq<u8>, Seq<char>>(plain@),
            Err(reason) => zstd_decoded(bytes@) == Err::<Seq<u8>, Seq<char>>(reason@),
        },
{
    zstd::stream::decode_all(bytes).map_err(|error| error.to_string())
}

/// The level at which segments are compressed.
pub const SEGMENT_COMPRESSION_LEVEL: i32 = 3;

/// Compresses bytes, by `zstd::stream::copy_encode`: it succeeds, and what it writes holds the bytes.
/// At this level, without a dictionary and into a vector, nothing but memory that runs out makes the
/// encoder fail, and that is left aside. Which bytes it writes is not stated: for long inputs they
/// depend on the width of the machine's words.
#[verifier::external_body]
pub(crate) fn compress(bytes: &[u8], level: i32) -> (result: Result<Vec<u8>, String>)
    requires
        level == SEGMENT_COMPRESSION_LEVEL,
    ensures
        match result {
            Ok(packed) => zstd_decoded(packed@) == Ok::<Seq<u8>, Seq<char>>(bytes@),
            Err(_) => false,
        },
{
    let mut packed: Vec<u8> = Vec::new();
    match zstd::stream::copy_encode(bytes, &mut packed, level) {
        Ok(()) => Ok(packed),
        Err(error) => Err(error.to_string()),
    }
}

/// Compresses a complete segment. What is written can be read back.
pub fn compress_segment(bytes: &[u8]) -> (result: Result<Vec<u8>, String>)
    ensures
        result is Ok,
        zstd_decoded(result->Ok_0@) == Ok::<Seq<u8>, Seq<char>>(bytes@),
{
    compress(bytes, SEGMENT_COMPRESSION_LEVEL)
}

/// Whether a segment is compressed, by its name.
pub open spec fn is_compressed(name: Seq<char>) -> bool {
    extension(name) matches Some(found) && same_ignoring_ascii_case(found, "zst"@)
}

/// What a segment holds.
pub open spec fn segment_contents(name: Seq<char>, bytes: Seq<u8>) -> Result<Seq<u8>, Seq<char>> {
    if is_compressed(name) {
        zstd_decoded(bytes)
    } else {
        Ok(bytes)
    }
}

/// Reads a segment, compressed or not.
pub fn read_segment(name: &str, bytes: Vec<u8>) -> (result: Result<Vec<u8>, String>)
    ensures
        match result {
            Ok(plain) => segment_contents(name@, bytes@) == Ok::<Seq<u8>, Seq<char>>(plain@),
            Err(reason) => segment_contents(name@, bytes@) == Err::<Seq<u8>, Seq<char>>(reason@),
        },
{
    let compressed: bool = match path_extension(name) {
        Some(found) => {
            let wanted: Vec<char> = chars_of("zst");
            eq_ignore_ascii_case(found.as_slice(), wanted.as_slice())
        },
        None => false,
    };
    if compressed {
        decompress(bytes.as_slice())
    } else {
        Ok(bytes)
    }
}

/// By what a record is known to a reader that has seen it.
pub open spec fn identity(record: LogView) -> Seq<char> {
    decimal(record.attempt as nat) + (seq![':'] + (decimal(record.sequence as nat) + (seq![':']
        + (decimal(record.stream.len()) + (seq![':'] + (record.stream + record.execution_id))))))
}

fn identity_key(record: &ReadLogsResponse) -> (key: String)
    ensures
        key@ == identity(record@),
{
    let mut key: String = String::new();
    push_decimal(&mut key, record.attempt as u64);
    push_char(&mut key, ':');
    push_decimal(&mut key, record.sequence);
    push_char(&mut key, ':');
    let count: usize = chars_of(record.stream.as_str()).len();
    push_decimal(&mut key, count as u64);
    push_char(&mut key, ':');
    key.append(record.stream.as_str());
    key.append(record.execution_id.as_str());
    assert(key@ =~= identity(record@));
    key
}

proof fn lemma_numeral_ends(a: Seq<char>, b: Seq<char>, x: Seq<char>, y: Seq<char>)
    requires
        is_numeral(a),
        is_numeral(b),
        a + (seq![':'] + x) == b + (seq![':'] + y),
    ensures
        a == b,
        x == y,
{
    let left = a + (seq![':'] + x);
    let right = b + (seq![':'] + y);
    if a.len() < b.len() {
        assert(left[a.len() as int] == ':');
        assert(right[a.len() as int] == b[a.len() as int]);
        assert(is_digit(b[a.len() as int]));
    } else if b.len() < a.len() {
        assert(right[b.len() as int] == ':');
        assert(left[b.len() as int] == a[b.len() as int]);
        assert(is_digit(a[b.len() as int]));
    }
    assert(a =~= left.take(a.len() as int));
    assert(b =~= right.take(b.len() as int));
    assert(x =~= left.skip(a.len() as int + 1));
    assert(y =~= right.skip(b.len() as int + 1));
}

/// Two records are known by the same text exactly when they agree in their execution, attempt,
/// sequence and stream.
pub proof fn law_records_are_told_apart(a: LogView, b: LogView)
    ensures
        identity(a) == identity(b) <==> a.execution_id == b.execution_id && a.attempt == b.attempt
            && a.sequence == b.sequence && a.stream == b.stream,
{
    if identity(a) == identity(b) {
        lemma_decimal_is_numeral(a.attempt as nat);
        lemma_decimal_is_numeral(b.attempt as nat);
        lemma_decimal_is_numeral(a.sequence as nat);
        lemma_decimal_is_numeral(b.sequence as nat);
        lemma_decimal_is_numeral(a.stream.len());
        lemma_decimal_is_numeral(b.stream.len());
        let a3 = a.stream + a.execution_id;
        let b3 = b.stream + b.execution_id;
        let a2 = decimal(a.stream.len()) + (seq![':'] + a3);
        let b2 = decimal(b.stream.len()) + (seq![':'] + b3);
        let a1 = decimal(a.sequence as nat) + (seq![':'] + a2);
        let b1 = decimal(b.sequence as nat) + (seq![':'] + b2);
        lemma_numeral_ends(decimal(a.attempt as nat), decimal(b.attempt as nat), a1, b1);
        lemma_numeral_ends(decimal(a.sequence as nat), decimal(b.sequence as nat), a2, b2);
        lemma_numeral_ends(decimal(a.stream.len()), decimal(b.stream.len()), a3, b3);
        assert(a.stream.len() == b.stream.len());
        assert(a.stream =~= a3.take(a.stream.len() as int));
        assert(b.stream =~= b3.take(b.stream.len() as int));
        assert(a.execution_id =~= a3.skip(a.stream.len() as int));
        assert(b.execution_id =~= b3.skip(b.stream.len() as int));
    }
}

/// What a reader of a log has been handed.
#[derive(Debug)]
pub struct LogReader {
    seen: TextMap<()>,
}

impl LogReader {
    /// The identities of the records that were handed out.
    pub closed spec fn view(&self) -> Set<Seq<char>> {
        self.seen.map().dom()
    }

    pub fn new() -> (reader: LogReader)
        ensures
            reader@ == Set::<Seq<char>>::empty(),
    {
        let reader = LogReader { seen: TextMap::new() };
        assert(reader@ =~= Set::<Seq<char>>::empty());
        reader
    }

    /// Whether a record is handed out: one that is asked for, and only once.
    pub fn hand_out(
        &mut self,
        request: &ReadLogsRequest,
        chosen: &Option<String>,
        record: &ReadLogsResponse,
    ) -> (handed: bool)
        ensures
            handed == (request.is_about(text_view(*chosen), record@) && !old(self)@.contains(
                identity(record@),
            )),
            final(self)@ == if request.is_about(text_view(*chosen), record@) {
                old(self)@.insert(identity(record@))
            } else {
                old(self)@
            },
    {
        if !request.wants(chosen, record) {
            return false;
        }
        let key: String = identity_key(record);
        let fresh: bool = self.seen.insert(key, ()).is_none();
        assert(self@ =~= old(self)@.insert(identity(record@)));
        fresh
    }

    /// The records of a segment that are handed out, in their order.
    pub fn hand_out_all(
        &mut self,
        request: &ReadLogsRequest,
        chosen: &Option<String>,
        found: Vec<ReadLogsResponse>,
    ) -> (handed: Vec<ReadLogsResponse>)
        ensures
            log_views(handed@) == handed_out(
                old(self)@,
                *request,
                text_view(*chosen),
                log_views(found@),
            ),
            final(self)@ == seen_after(
                old(self)@,
                *request,
                text_view(*chosen),
                log_views(found@),
            ),
    {
        let ghost all = log_views(found@);
        let ghost before = self@;
        let mut rest: Vec<ReadLogsResponse> = found;
        let mut handed: Vec<ReadLogsResponse> = Vec::new();
        let mut turned: Vec<ReadLogsResponse> = Vec::new();
        while rest.len() > 0
            invariant
                rest.len() + turned.len() == all.len(),
                log_views(rest@) =~= all.take(rest.len() as int),
                forall|i: int|
                    0 <= i < turned.len() ==> (#[trigger] turned@[i])@ == all[all.len() - 1 - i],
            decreases rest.len(),
        {
            let ghost count = rest@.len();
            let ghost held = rest@;
            match rest.pop() {
                Some(record) => {
                    proof {
                        assert(log_views(held)[count - 1] == record@);
                        assert(log_views(rest@) =~= log_views(held).drop_last());
                    }
                    turned.push(record);
                },
                None => {},
            }
        }
        assert(all.take(0) =~= Seq::empty());
        assert(log_views(handed@) =~= Seq::empty());
        while turned.len() > 0
            invariant
                turned.len() <= all.len(),
                forall|i: int|
                    0 <= i < turned.len() ==> (#[trigger] turned@[i])@ == all[all.len() - 1 - i],
                log_views(handed@) == handed_out(
                    before,
                    *request,
                    text_view(*chosen),
                    all.take(all.len() - turned.len()),
                ),
                self@ == seen_after(
                    before,
                    *request,
                    text_view(*chosen),
                    all.take(all.len() - turned.len()),
                ),
            decreases turned.len(),
        {
            let ghost done = all.len() - turned.len();
            let ghost next = all.take(done + 1);
            assert(next.drop_last() =~= all.take(done));
            match turned.pop() {
                Some(record) => {
                    assert(record@ == all[done]);
                    assert(next.last() == record@);
                    let ghost earlier = handed@;
                    if self.hand_out(request, chosen, &record) {
                        let ghost shown = record@;
                        handed.push(record);
                        assert(log_views(handed@) =~= log_views(earlier).push(shown));
                    }
                },
                None => {},
            }
        }
        assert(all.take(all.len() as int) =~= all);
        handed
    }
}

/// The identities that a reader has been handed after it has seen some more records.
pub open spec fn seen_after(
    seen: Set<Seq<char>>,
    request: ReadLogsRequest,
    chosen: Option<Seq<char>>,
    found: Seq<LogView>,
) -> Set<Seq<char>>
    decreases found.len(),
{
    if found.len() == 0 {
        seen
    } else {
        let before = seen_after(seen, request, chosen, found.drop_last());
        if request.is_about(chosen, found.last()) {
            before.insert(identity(found.last()))
        } else {
            before
        }
    }
}

/// The records that are handed out, of those that were found.
pub open spec fn handed_out(
    seen: Set<Seq<char>>,
    request: ReadLogsRequest,
    chosen: Option<Seq<char>>,
    found: Seq<LogView>,
) -> Seq<LogView>
    decreases found.len(),
{
    if found.len() == 0 {
        Seq::empty()
    } else {
        let before = handed_out(seen, request, chosen, found.drop_last());
        if request.is_about(chosen, found.last()) && !seen_after(
            seen,
            request,
            chosen,
            found.drop_last(),
        ).contains(identity(found.last())) {
            before.push(found.last())
        } else {
            before
        }
    }
}

/// A reader is handed exactly what it asked for, and everything once: what is handed out was found,
/// is asked for and was not handed out before; no two of it are the same record; and whatever was
/// found and is asked for has been handed out, now or before.
pub proof fn law_readers_get_what_they_ask_for(
    seen: Set<Seq<char>>,
    request: ReadLogsRequest,
    chosen: Option<Seq<char>>,
    found: Seq<LogView>,
)
    ensures
        ({
            let handed = handed_out(seen, request, chosen, found);
            let after = seen_after(seen, request, chosen, found);
            &&& forall|k: int|
                0 <= k < handed.len() ==> found.contains(#[trigger] handed[k]) && request.is_about(
                    chosen,
                    handed[k],
                ) && !seen.contains(identity(handed[k]))
            &&& forall|i: int, k: int|
                0 <= i < k < handed.len() ==> identity(#[trigger] handed[i]) != identity(
                    #[trigger] handed[k],
                )
            &&& forall|i: int|
                0 <= i < found.len() && request.is_about(chosen, #[trigger] found[i])
                    ==> seen.contains(identity(found[i])) || exists|k: int|
                    0 <= k < handed.len() && identity(#[trigger] handed[k]) == identity(found[i])
            &&& forall|key: Seq<char>| #[trigger]
                after.contains(key) <==> seen.contains(key) || exists|k: int|
                    0 <= k < handed.len() && identity(#[trigger] handed[k]) == key
        }),
    decreases found.len(),
{
    if found.len() > 0 {
        let rest = found.drop_last();
        let last = found.last();
        law_readers_get_what_they_ask_for(seen, request, chosen, rest);
        let before = handed_out(seen, request, chosen, rest);
        let handed = handed_out(seen, request, chosen, found);
        let known = seen_after(seen, request, chosen, rest);
        let after = seen_after(seen, request, chosen, found);
        let fresh = request.is_about(chosen, last) && !known.contains(identity(last));
        assert forall|k: int| 0 <= k < handed.len() implies found.contains(#[trigger] handed[k])
            && request.is_about(chosen, handed[k]) && !seen.contains(identity(handed[k])) by {
            if k < before.len() {
                assert(handed[k] == before[k]);
                assert(rest.contains(before[k]));
                let at = choose|at: int| 0 <= at < rest.len() && rest[at] == before[k];
                assert(found[at] == before[k]);
            } else {
                assert(handed[k] == found[found.len() - 1]);
            }
        }
        assert forall|i: int, k: int| 0 <= i < k < handed.len() implies identity(
            #[trigger] handed[i],
        ) != identity(#[trigger] handed[k]) by {
            assert(handed[i] == before[i]);
            if k < before.len() {
                assert(handed[k] == before[k]);
            } else {
                assert(known.contains(identity(before[i])));
            }
        }
        assert forall|key: Seq<char>| #[trigger] after.contains(key) implies seen.contains(key)
            || exists|k: int| 0 <= k < handed.len() && identity(#[trigger] handed[k]) == key by {
            if known.contains(key) {
                if !seen.contains(key) {
                    let k = choose|k: int|
                        0 <= k < before.len() && identity(#[trigger] before[k]) == key;
                    assert(handed[k] == before[k]);
                }
            } else {
                assert(fresh);
                assert(handed[before.len() as int] == last);
            }
        }
        assert forall|key: Seq<char>|
            seen.contains(key) || (exists|k: int|
                0 <= k < handed.len() && identity(#[trigger] handed[k]) == key) implies #[trigger] after.contains(
        key) by {
            if !seen.contains(key) {
                let k = choose|k: int|
                    0 <= k < handed.len() && identity(#[trigger] handed[k]) == key;
                if k < before.len() {
                    assert(handed[k] == before[k]);
                    assert(known.contains(key));
                } else {
                    assert(handed[k] == last);
                }
            } else {
                assert(known.contains(key));
            }
        }
        assert forall|i: int|
            0 <= i < found.len() && request.is_about(
                chosen,
                #[trigger] found[i],
            ) implies seen.contains(identity(found[i])) || exists|k: int|
            0 <= k < handed.len() && identity(#[trigger] handed[k]) == identity(found[i]) by {
            if i < rest.len() {
                assert(rest[i] == found[i]);
                if !seen.contains(identity(found[i])) {
                    let k = choose|k: int|
                        0 <= k < before.len() && identity(#[trigger] before[k]) == identity(rest[i]);
                    assert(handed[k] == before[k]);
                }
            } else {
                assert(after.contains(identity(last)));
            }
        }
    }
}

/// Whoever names an execution is handed records of that one alone. Whoever names none is handed
/// records of the active execution alone, or of the newest where none is active, and nothing where
/// there is neither.
pub proof fn law_logs_are_of_one_execution(
    seen: Set<Seq<char>>,
    request: ReadLogsRequest,
    active: Option<Seq<char>>,
    newest: Option<Seq<char>>,
    found: Seq<LogView>,
)
    ensures
        ({
            let named = request.execution_id@;
            let handed = handed_out(seen, request, chosen_execution(named, active, newest), found);
            &&& named.len() > 0 ==> forall|k: int|
                0 <= k < handed.len() ==> (#[trigger] handed[k]).execution_id == named
            &&& named.len() == 0 && active is Some ==> forall|k: int|
                0 <= k < handed.len() ==> (#[trigger] handed[k]).execution_id == active->0
            &&& named.len() == 0 && active is None && newest is Some ==> forall|k: int|
                0 <= k < handed.len() ==> (#[trigger] handed[k]).execution_id == newest->0
            &&& named.len() == 0 && active is None && newest is None ==> handed.len() == 0
        }),
{
    let chosen = chosen_execution(request.execution_id@, active, newest);
    let handed = handed_out(seen, request, chosen, found);
    law_readers_get_what_they_ask_for(seen, request, chosen, found);
    if chosen is None && handed.len() > 0 {
        assert(request.is_about(chosen, handed[0]));
    }
}

/// A reader that looks at the same records once more is handed nothing.
pub proof fn law_nothing_is_handed_out_twice(
    seen: Set<Seq<char>>,
    request: ReadLogsRequest,
    chosen: Option<Seq<char>>,
    found: Seq<LogView>,
)
    ensures
        handed_out(seen_after(seen, request, chosen, found), request, chosen, found)
            == Seq::<LogView>::empty(),
{
    let after = seen_after(seen, request, chosen, found);
    let again = handed_out(after, request, chosen, found);
    law_readers_get_what_they_ask_for(seen, request, chosen, found);
    law_readers_get_what_they_ask_for(after, request, chosen, found);
    if again.len() > 0 {
        let record = again[0];
        assert(found.contains(record));
        let i = choose|i: int| 0 <= i < found.len() && found[i] == record;
        assert(request.is_about(chosen, found[i]));
        assert(after.contains(identity(found[i])));
    }
    assert(again =~= Seq::<LogView>::empty());
}

/// What was captured is what a reader is handed, in order, also once its segment was compressed.
pub proof fn law_compressed_segments_are_read_back(
    name: Seq<char>,
    packed: Seq<u8>,
    workload_id: Seq<char>,
    execution_id: Seq<char>,
    attempt: u32,
    chunks: Seq<OutputChunk>,
)
    requires
        is_compressed(name),
        zstd_decoded(packed) == Ok::<Seq<u8>, Seq<char>>(
            segment(workload_id, execution_id, attempt, chunks),
        ),
        !workload_id.contains('\n'),
        !execution_id.contains('\n'),
    ensures
        segment_contents(name, packed) matches Ok(plain) && records(plain, execution_id, attempt)
            == chunks.map_values(|chunk: OutputChunk| chunk_record(execution_id, attempt, chunk)),
{
    let plain = segment(workload_id, execution_id, attempt, chunks);
    let none = Seq::<u8>::empty();
    law_segments_are_read_back(workload_id, execution_id, attempt, chunks, none);
    assert(plain + none =~= plain);
    let kept = chunks.map_values(|chunk: OutputChunk| chunk_record(execution_id, attempt, chunk));
    assert(kept + records(none, execution_id, attempt) =~= kept);
}

/// What a supervisor sends first.
#[derive(Clone, Copy, Debug, PartialEq, Eq, Structural)]
pub enum FirstMessage {
    Missing,
    Hello,
    Other,
}

/// Refuses a supervisor that does not introduce itself.
pub fn check_first_message(first: FirstMessage) -> (result: Result<(), Status>)
    ensures
        match result {
            Ok(_) => first == FirstMessage::Hello,
            Err(status) => match first {
                FirstMessage::Missing => status.is(
                    StatusCode::InvalidArgument,
                    "supervisor stream is empty"@,
                ),
                FirstMessage::Other => status.is(
                    StatusCode::InvalidArgument,
                    "first supervisor message must be Hello"@,
                ),
                FirstMessage::Hello => false,
            },
        },
{
    match first {
        FirstMessage::Hello => Ok(()),
        FirstMessage::Missing => Err(
            Status {
                code: StatusCode::InvalidArgument,
                message: "supervisor stream is empty".to_owned(),
            },
        ),
        FirstMessage::Other => Err(
            Status {
                code: StatusCode::InvalidArgument,
                message: "first supervisor message must be Hello".to_owned(),
            },
        ),
    }
}

/// Whether a supervisor may report something of this kind.
pub open spec fn is_report(kind: Seq<char>) -> bool {
    kind == "attempt-exited"@ || kind == "attempt-started"@ || kind == "launch-failed"@ || kind
        == "supervisor-lost"@ || kind == "restart-backoff"@ || kind == "completed"@ || kind
        == "failed"@ || kind == "stopped"@ || kind == "cancelled"@ || kind == "outcome-unknown"@
        || kind == "policy-applied"@
}

/// Refuses a report of a kind that no supervisor makes.
pub fn check_report(kind: &str) -> (result: Result<(), Status>)
    ensures
        match result {
            Ok(_) => is_report(kind@),
            Err(status) => !is_report(kind@) && status.is(
                StatusCode::InvalidArgument,
                "unknown supervisor observation kind"@,
            ),
        },
{
    if same_text(kind, "attempt-exited") || same_text(kind, "attempt-started") || same_text(
        kind,
        "launch-failed",
    ) || same_text(kind, "supervisor-lost") || same_text(kind, "restart-backoff") || same_text(
        kind,
        "completed",
    ) || same_text(kind, "failed") || same_text(kind, "stopped") || same_text(kind, "cancelled")
        || same_text(kind, "outcome-unknown") || same_text(kind, "policy-applied") {
        Ok(())
    } else {
        Err(
            Status {
                code: StatusCode::InvalidArgument,
                message: "unknown supervisor observation kind".to_owned(),
            },
        )
    }
}

/// What came of a message from an attached supervisor.
#[derive(Debug)]
pub enum Inbound {
    /// The supervisor is gone.
    Closed,
    /// It said something that is no report.
    Ignored,
    /// It reported something of this kind.
    Report { kind: String },
}

/// What is done about a message from an attached supervisor.
#[derive(Debug)]
pub enum InboundStep {
    /// End the attachment.
    End,
    /// Go on.
    Continue,
    /// Record the report, and acknowledge it once it is committed.
    Record,
    /// Refuse the report and end the attachment.
    Refuse(Status),
}

/// Decides about a message from an attached supervisor.
pub fn inbound_step(message: &Inbound) -> (step: InboundStep)
    ensures
        match *message {
            Inbound::Closed => step is End,
            Inbound::Ignored => step is Continue,
            Inbound::Report { kind } => if is_report(kind@) {
                step is Record
            } else {
                step matches InboundStep::Refuse(status) && status.is(
                    StatusCode::InvalidArgument,
                    "unknown supervisor observation kind"@,
                )
            },
        },
{
    match message {
        Inbound::Closed => InboundStep::End,
        Inbound::Ignored => InboundStep::Continue,
        Inbound::Report { kind } => {
            match check_report(kind.as_str()) {
                Ok(_) => InboundStep::Record,
                Err(status) => InboundStep::Refuse(status),
            }
        },
    }
}

/// A supervisor may report everything that the manager makes something of: what ends an execution,
/// what moves it on, and that a policy was taken over.
pub proof fn law_meaningful_reports_are_accepted(
    kind: Seq<char>,
    attempt: u32,
    process_id: u32,
    detail: Seq<char>,
)
    ensures
        is_report(kind) == (ends_execution(kind) || progress_of(
            kind,
            attempt,
            process_id,
            detail,
        ) is Some || kind == "policy-applied"@),
{
}

/// Refuses to watch under no number, or more or less often than is served.
pub fn check_watch(watch_id: u64, interval_milliseconds: u32) -> (result: Result<(), Status>)
    ensures
        match result {
            Ok(_) => watch_id != 0 && 1 <= interval_milliseconds <= 1000,
            Err(status) => if watch_id == 0 {
                status.is(StatusCode::InvalidArgument, "watch_id must be non-zero"@)
            } else {
                !(1 <= interval_milliseconds <= 1000) && status.is(
                    StatusCode::InvalidArgument,
                    "interval_milliseconds must be between 1 and 1000"@,
                )
            },
        },
{
    if watch_id == 0 {
        return Err(
            Status {
                code: StatusCode::InvalidArgument,
                message: "watch_id must be non-zero".to_owned(),
            },
        );
    }
    if interval_milliseconds < 1 || interval_milliseconds > 1000 {
        return Err(
            Status {
                code: StatusCode::InvalidArgument,
                message: "interval_milliseconds must be between 1 and 1000".to_owned(),
            },
        );
    }
    Ok(())
}

} // verus!
