//! What is captured, kept and handed to readers.

use vstd::prelude::*;

use crate::control::{
    ReadLogsRequest, attempt_of, chosen_execution, is_compressed, is_report, next_cursor, page_end,
    page_start, passed, segment_contents, zstd_decoded,
};
use crate::log_journal::{LogView, OutputChunk, OutputStream, chunk_record};
use crate::log_segments::{
    FinalizedFile, WriterAction, WriterEvent, WriterState, age_order, current, excess,
    is_journal_name, is_outdated, outdated, removals, rotates, saturating_sum, segment_name,
    total_bytes,
};
use crate::manager::model::WorkloadView;
use crate::messages::LoggingSettings;
use crate::numerals::{number, padded};
use crate::ordered::text_precedes;
use crate::paths::extension;
use crate::runner::attempt_name;
use crate::text::{ascii_lower, decimal};
use crate::time::Duration;

verus! {

/// A segment is closed before the next entry where it holds something and would grow past its size
/// with it, or has been open for its time; otherwise the entry goes into it.
pub proof fn law_segments_are_closed_in_time(
    bytes: u64,
    next: u64,
    elapsed: Duration,
    settings: LoggingSettings,
)
    requires
        bytes + next <= u64::MAX,
    ensures
        rotates(bytes, next, elapsed, settings) <==> bytes > 0 && (bytes + next
            > settings.segment_size || elapsed@ >= settings.segment_age_ms * 1_000_000),
        saturating_sum(bytes, next) == bytes + next,
{
}

/// An entry goes into the open segment, or into the next one where the open one is full or old; and
/// a segment that is closed is followed by the removal of what is kept no longer.
pub proof fn law_entries_go_into_segments(state: WriterState, entry: u64, elapsed: Duration)
    requires
        state.open is Some,
        state.open->0 + entry <= u64::MAX,
        state.next_segment < u32::MAX,
    ensures
        ({
            let (after, actions) = state.step(WriterEvent::Chunk { entry, elapsed });
            let full = rotates(state.open->0, entry, elapsed, state.settings);
            &&& after.settings == state.settings
            &&& !full ==> after.open == Some((state.open->0 + entry) as u64) && after.next_segment
                == state.next_segment && actions == seq![WriterAction::Write]
            &&& full ==> after.open == Some(entry) && after.next_segment == state.next_segment + 1
                && actions == seq![
                WriterAction::Finish,
                WriterAction::ApplyRetention,
                WriterAction::Open { segment: state.next_segment },
                WriterAction::Write,
            ]
        }),
{
}

/// Output is flushed as time passes, and an old segment closed; a writer that captures nothing does
/// nothing.
pub proof fn law_output_is_flushed(state: WriterState, elapsed: Duration)
    requires
        state.next_segment < u32::MAX,
    ensures
        ({
            let (after, actions) = state.step(WriterEvent::Tick { elapsed });
            &&& state.open is None ==> actions.len() == 0 && after == state
            &&& state.open matches Some(bytes) ==> actions.len() > 0 && actions[0]
                == WriterAction::Flush
            &&& state.open matches Some(bytes) ==> if rotates(bytes, 0, elapsed, state.settings) {
                after.open == Some(0u64) && after.next_segment == state.next_segment + 1
                    && actions.contains(WriterAction::Finish) && actions.contains(
                    WriterAction::ApplyRetention,
                ) && actions.contains(WriterAction::Open { segment: state.next_segment })
            } else {
                after == state && actions.len() == 1
            }
        }),
{
    let actions = state.step(WriterEvent::Tick { elapsed }).1;
    if let Some(bytes) = state.open {
        if rotates(bytes, 0, elapsed, state.settings) {
            assert(actions[1] == WriterAction::Finish && actions[2]
                == WriterAction::ApplyRetention && actions[3] == (WriterAction::Open {
                segment: state.next_segment,
            }));
        }
    }
}

/// New settings hold from then on: capturing begins with a new segment and ends by closing the open
/// one, and what is kept follows them at once.
pub proof fn law_settings_hold_at_once(
    state: WriterState,
    settings: LoggingSettings,
    elapsed: Duration,
)
    requires
        state.next_segment < u32::MAX,
    ensures
        ({
            let (after, actions) = state.step(WriterEvent::Settings { settings, elapsed });
            &&& after.settings == settings
            &&& after.open is Some <==> settings.capture_logs
            &&& actions.contains(WriterAction::ApplyRetention) <==> settings.capture_logs
            &&& actions.contains(WriterAction::Finish) <==> (state.open matches Some(bytes) && (
            !settings.capture_logs || rotates(bytes, 0, elapsed, settings)))
            &&& actions.contains(WriterAction::Open { segment: state.next_segment })
                <==> settings.capture_logs && (state.open matches Some(bytes) ==> rotates(
                bytes,
                0,
                elapsed,
                settings,
            ))
            &&& actions.contains(WriterAction::CreateDirectory) <==> settings.capture_logs
                && state.open is None
        }),
{
    let actions = state.step(WriterEvent::Settings { settings, elapsed }).1;
    if actions.len() > 0 {
        assert(actions[0] == actions[0]);
        assert(actions.contains(actions[0]));
    }
    if actions.len() > 1 {
        assert(actions.contains(actions[1]) && actions.contains(actions[2]));
    }
}

/// A writer begins with the first segment where output is captured and with none otherwise, and ends
/// by closing the one that is open.
pub proof fn law_writers_begin_and_end(state: WriterState, settings: LoggingSettings)
    ensures
        WriterState::begins(settings).0.open is Some <==> settings.capture_logs,
        settings.capture_logs ==> WriterState::begins(settings).1 == seq![
            WriterAction::CreateDirectory,
            WriterAction::Open { segment: 0 },
        ] && WriterState::begins(settings).0.next_segment == 1,
        !settings.capture_logs ==> WriterState::begins(settings).1.len() == 0,
        WriterState::begins(settings).0.settings == settings,
        state.step(WriterEvent::Closed).0.open is None,
        state.open is Some ==> state.step(WriterEvent::Closed).1 == seq![
            WriterAction::Finish,
            WriterAction::ApplyRetention,
        ],
        state.open is None ==> state.step(WriterEvent::Closed).1.len() == 0,
{
}

/// A segment is kept up to the age that is set, to the nanosecond, and for ever where none is.
pub proof fn law_segments_age(file: FinalizedFile, now: i128, settings: LoggingSettings)
    ensures
        settings.retention_age_unlimited ==> !is_outdated(file, now, settings),
        !settings.retention_age_unlimited ==> (is_outdated(file, now, settings) <==> now
            - file.modified > settings.retention_age_ms * 1_000_000),
{
}

proof fn lemma_age_order_holds(files: Seq<FinalizedFile>, n: int, i: int)
    requires
        0 <= n <= files.len(),
    ensures
        age_order(files, n).contains(i) <==> 0 <= i < n,
{
    crate::log_segments::law_files_stand_by_age(files, n);
    let order = age_order(files, n);
    let all = crate::log_segments::indices(n);
    broadcast use vstd::seq_lib::group_to_multiset_ensures;

    assert(order.contains(i) <==> order.to_multiset().count(i) > 0);
    assert(all.contains(i) <==> all.to_multiset().count(i) > 0);
    if 0 <= i < n {
        assert(all[i] == i);
    }
}

/// Every segment that is too old goes, and of the others the oldest go until what is left fits into
/// the size that is set; where none is set no other goes.
pub proof fn law_old_segments_go(
    files: Seq<FinalizedFile>,
    now: i128,
    settings: LoggingSettings,
    i: int,
)
    requires
        0 <= i < files.len(),
    ensures
        is_outdated(files[i], now, settings) ==> removals(files, now, settings).contains(i),
        settings.retention_size_unlimited ==> (removals(files, now, settings).contains(i)
            <==> is_outdated(files[i], now, settings)),
        current(files, now, settings).contains(i) <==> !is_outdated(files[i], now, settings),
        !settings.retention_size_unlimited && !is_outdated(files[i], now, settings) ==> (removals(
            files,
            now,
            settings,
        ).contains(i) <==> current(files, now, settings).take(
            excess(files, current(files, now, settings), settings.retention_size as nat),
        ).contains(i)),
{
    let n = files.len() as int;
    let order = age_order(files, n);
    lemma_age_order_holds(files, n, i);
    let old = |file: int| is_outdated(files[file], now, settings);
    let new = |file: int| !is_outdated(files[file], now, settings);
    order.filter_lemma(old);
    order.filter_lemma(new);
    let gone = outdated(files, now, settings);
    let rest = current(files, now, settings);
    let at = choose|at: int| 0 <= at < order.len() && order[at] == i;
    assert(order[at] == i);
    assert(old(order[at]) == is_outdated(files[i], now, settings));
    assert(new(order[at]) == !is_outdated(files[i], now, settings));
    assert(gone.contains(i) <==> is_outdated(files[i], now, settings)) by {
        if gone.contains(i) {
            let k = choose|k: int| 0 <= k < gone.len() && gone[k] == i;
            assert(old(gone[k]));
        }
    }
    assert(rest.contains(i) <==> !is_outdated(files[i], now, settings)) by {
        if rest.contains(i) {
            let k = choose|k: int| 0 <= k < rest.len() && rest[k] == i;
            assert(new(rest[k]));
        }
    }
    if !settings.retention_size_unlimited {
        let more = rest.take(excess(files, rest, settings.retention_size as nat));
        let all = gone + more;
        assert(removals(files, now, settings) == all);
        if gone.contains(i) {
            let k = choose|k: int| 0 <= k < gone.len() && gone[k] == i;
            assert(all[k] == i);
        }
        if more.contains(i) {
            let k = choose|k: int| 0 <= k < more.len() && more[k] == i;
            assert(all[gone.len() + k] == i);
        }
        if all.contains(i) {
            let k = choose|k: int| 0 <= k < all.len() && all[k] == i;
            if k < gone.len() {
                assert(gone[k] == i);
            } else {
                assert(more[k - gone.len()] == i);
            }
        }
    }
}

/// The bytes of some segments are those of each of them together.
pub proof fn law_bytes_are_counted(files: Seq<FinalizedFile>, order: Seq<int>, file: int)
    ensures
        total_bytes(files, Seq::empty()) == 0,
        total_bytes(files, order.push(file)) == total_bytes(files, order) + files[file].bytes,
{
    assert(order.push(file).drop_last() =~= order);
}

/// A segment is named after its time and its number, and the names of its stages begin with it.
pub proof fn law_segments_are_named(stamp: Seq<char>, segment: u32)
    ensures
        ({
            let name = segment_name(stamp, segment);
            let tail = seq!['-'] + padded(segment as nat, 6) + ".susm-journal"@;
            &&& name.len() >= tail.len() && name.skip(name.len() - tail.len()) == tail
            &&& stamp.len() <= name.len() && name.take(stamp.len() as int) == stamp
            &&& stamp.len() >= 20 ==> name == stamp + tail
            &&& stamp.len() < 20 ==> name.len() == 20 + tail.len()
        }),
{
    let name = segment_name(stamp, segment);
    let tail = seq!['-'] + padded(segment as nat, 6) + ".susm-journal"@;
    assert(name.skip(name.len() - tail.len()) =~= tail);
    assert(name.take(stamp.len() as int) =~= stamp);
    if stamp.len() >= 20 {
        assert(name =~= stamp + tail);
    }
}

/// A name belongs to a journal exactly where the extension of journals stands in it; those of all
/// stages of a segment do.
pub proof fn law_journals_are_known_by_name(stamp: Seq<char>, segment: u32, rest: Seq<char>)
    ensures
        is_journal_name(segment_name(stamp, segment) + rest),
{
    let part = ".susm-journal"@;
    let name = segment_name(stamp, segment);
    let at = name.len() - part.len();
    assert((name + rest).subrange(at as int, name.len() as int) =~= part);
    assert(crate::log_segments::holds_at(name + rest, part, at as int));
}

/// A page begins after its cursor: whatever stands before it does not come after the cursor, and
/// what begins it does.
pub proof fn law_pages_begin_after_their_cursor(
    workloads: Seq<WorkloadView>,
    cursor: Seq<char>,
    i: int,
)
    ensures
        0 <= passed(workloads, cursor) <= workloads.len(),
        0 <= i < passed(workloads, cursor) ==> !text_precedes(cursor, workloads[i].workload_id),
        passed(workloads, cursor) < workloads.len() ==> text_precedes(
            cursor,
            workloads[passed(workloads, cursor)].workload_id,
        ),
        cursor.len() == 0 ==> page_start(workloads, cursor) == 0,
        cursor.len() > 0 ==> page_start(workloads, cursor) == passed(workloads, cursor),
    decreases workloads.len(),
{
    if workloads.len() > 0 && !text_precedes(cursor, workloads[0].workload_id) {
        let rest = workloads.drop_first();
        law_pages_begin_after_their_cursor(rest, cursor, i - 1);
        if passed(rest, cursor) < rest.len() {
            assert(rest[passed(rest, cursor)] == workloads[passed(workloads, cursor)]);
        }
        if 0 < i < passed(workloads, cursor) {
            assert(rest[i - 1] == workloads[i]);
        }
    }
}

/// A page holds as many workloads as were asked for, or all that are left; and where some are left
/// the cursor is the last of the page.
pub proof fn law_pages_are_full(workloads: Seq<WorkloadView>, cursor: Seq<char>, size: u32)
    requires
        size > 0,
        forall|i: int| 0 <= i < workloads.len() ==> (#[trigger] workloads[i]).workload_id.len() > 0,
    ensures
        ({
            let start = page_start(workloads, cursor);
            let end = page_end(workloads, cursor, size);
            let next = next_cursor(workloads, cursor, size);
            &&& 0 <= start <= end <= workloads.len()
            &&& end - start == size || end == workloads.len()
            &&& end - start <= size
            &&& next.len() == 0 <==> end == workloads.len()
            &&& end < workloads.len() ==> next == workloads[end - 1].workload_id
        }),
{
    law_pages_begin_after_their_cursor(workloads, cursor, 0);
}

/// A record is asked for exactly where it is of the execution that was chosen, of the attempt that is
/// named or of any where none is, and of the stream that is named or of any where all are.
pub proof fn law_records_are_asked_for(
    request: ReadLogsRequest,
    chosen: Option<Seq<char>>,
    record: LogView,
)
    ensures
        request.is_about(chosen, record) <==> chosen == Some(record.execution_id) && (request.attempt
            == 0 || request.attempt == record.attempt) && (request.stream@ == "all"@
            || request.stream@ == record.stream),
{
}

/// The execution whose log is read: the one that is named, otherwise the active one, otherwise the
/// newest.
pub proof fn law_executions_are_chosen(
    named: Seq<char>,
    active: Option<Seq<char>>,
    newest: Option<Seq<char>>,
)
    ensures
        named.len() > 0 ==> chosen_execution(named, active, newest) == Some(named),
        named.len() == 0 && active is Some ==> chosen_execution(named, active, newest) == active,
        named.len() == 0 && active is None ==> chosen_execution(named, active, newest) == newest,
{
}

proof fn lemma_zeros_before(zeros: nat, digits: Seq<char>)
    ensures
        number(Seq::new(zeros, |i: int| '0') + digits) == number(digits),
    decreases digits.len(),
{
    let blank = Seq::new(zeros, |i: int| '0');
    if digits.len() == 0 {
        lemma_zeros(zeros);
        assert(blank + digits =~= blank);
    } else {
        lemma_zeros_before(zeros, digits.drop_last());
        assert((blank + digits).drop_last() =~= blank + digits.drop_last());
        assert((blank + digits).last() == digits.last());
    }
}

proof fn lemma_zeros(zeros: nat)
    ensures
        number(Seq::new(zeros, |i: int| '0')) == 0,
    decreases zeros,
{
    let blank = Seq::new(zeros, |i: int| '0');
    if zeros > 0 {
        lemma_zeros((zeros - 1) as nat);
        assert(blank.drop_last() =~= Seq::new((zeros - 1) as nat, |i: int| '0'));
        assert(blank.last() == '0');
    }
}

/// The directory of an attempt is read back as that attempt.
pub proof fn law_attempt_directories_are_read_back(attempt: u32)
    ensures
        attempt_of(attempt_name(attempt)) == attempt,
{
    let prefix = "attempt-"@;
    let name = attempt_name(attempt);
    let digits = padded(attempt as nat, 6);
    assert(name.take(prefix.len() as int) =~= prefix);
    assert(name.skip(prefix.len() as int) =~= digits);
    crate::numerals::law_decimal_round_trip(attempt as u64);
    let text = decimal(attempt as nat);
    crate::numerals::lemma_decimal_is_numeral(attempt as nat);
    assert(text.len() > 0 && crate::numerals::is_digit(text[0]));
    if text.len() < 6 {
        let zeros = (6 - text.len()) as nat;
        lemma_zeros_before(zeros, text);
        assert forall|i: int| 0 <= i < digits.len() implies crate::numerals::is_digit(
            #[trigger] digits[i],
        ) by {
            if i >= zeros {
                assert(digits[i] == text[i - zeros]);
            }
        }
        assert(digits[0] == '0');
    }
}

/// A segment is compressed exactly where its name says so, in whatever case; otherwise it holds what
/// it holds.
pub proof fn law_compressed_segments_are_known_by_name(name: Seq<char>, bytes: Seq<u8>)
    ensures
        is_compressed(name) <==> (extension(name) matches Some(found) && found.map_values(
            |c: char| ascii_lower(c),
        ) == "zst"@),
        is_compressed(name) ==> segment_contents(name, bytes) == zstd_decoded(bytes),
        !is_compressed(name) ==> segment_contents(name, bytes) == Ok::<Seq<u8>, Seq<char>>(bytes),
{
    reveal_strlit("zst");
    assert("zst"@.map_values(|c: char| ascii_lower(c)) =~= "zst"@);
}

/// What a reader is handed of what was captured: all of it, without a gap.
pub proof fn law_chunks_are_handed_over_whole(
    execution_id: Seq<char>,
    attempt: u32,
    chunk: OutputChunk,
)
    ensures
        ({
            let record = chunk_record(execution_id, attempt, chunk);
            &&& record.execution_id == execution_id && record.attempt == attempt
            &&& record.sequence == chunk.sequence && record.timestamp_unix_ms
                == chunk.timestamp_unix_ms && record.message == chunk.bytes@ && record.gap.len()
                == 0
            &&& record.stream == "stdout"@ <==> chunk.stream == OutputStream::Stdout
            &&& record.stream == "stderr"@ <==> chunk.stream == OutputStream::Stderr
        }),
{
    reveal_strlit("stdout");
    reveal_strlit("stderr");
    assert("stdout"@[3] == 'o' && "stderr"@[3] == 'e');
}

/// What a supervisor may report.
pub proof fn law_reports_have_their_names(kind: Seq<char>)
    ensures
        is_report(kind) <==> kind == "attempt-started"@ || kind == "attempt-exited"@ || kind
            == "launch-failed"@ || kind == "supervisor-lost"@ || kind == "restart-backoff"@ || kind
            == "completed"@ || kind == "failed"@ || kind == "stopped"@ || kind == "cancelled"@
            || kind == "outcome-unknown"@ || kind == "policy-applied"@,
{
}

} // verus!
