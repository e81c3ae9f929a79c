//! What the manager records of itself.

use vstd::prelude::*;

use crate::diagnostics::{
    Component, QueueState, arrival, completed, departure, diagnostic_limits, dropped_line,
    dropped_members, event_name, finished_name, is_record_file, next_count, normalized, object_line,
    pending_lines, present,
};
use crate::json_object::{Json, object_at, object_in, text_at};
use crate::numerals::padded;
use crate::paths::extension;
use crate::text::decimal;

verus! {

/// A completed record names its part, its process and its event; the event is the name among its
/// fields, and `event` where there is none.
pub proof fn law_records_say_where_they_are_from(
    component: Component,
    process_id: u32,
    record: Map<Seq<char>, Json>,
)
    ensures
        ({
            let after = completed(component, process_id, record);
            &&& after["component"@] == Json::Text(
                match component {
                    Component::Host => "host"@,
                    Component::Controller => "controller"@,
                    Component::Supervisor => "supervisor"@,
                },
            )
            &&& after["pid"@] == Json::Number(decimal(process_id as nat))
            &&& after["name"@] == Json::Text(event_name(record))
            &&& after.contains_key("component"@) && after.contains_key("pid"@)
                && after.contains_key("name"@)
            &&& object_at(record, "fields"@) matches Some(fields) ==> (text_at(fields, "name"@)
                matches Some(name) ==> event_name(record) == name)
            &&& object_at(record, "fields"@) matches Some(fields) ==> (text_at(fields, "name"@)
                is None ==> event_name(record) == "event"@)
            &&& object_at(record, "fields"@) is None ==> event_name(record) == "event"@
        }),
{
    reveal_strlit("component");
    reveal_strlit("pid");
    reveal_strlit("name");
    assert("component"@.len() == 9 && "pid"@.len() == 3 && "name"@.len() == 4);
}

/// What is no object is left out, and what is one is written as one line.
pub proof fn law_only_objects_are_records(component: Component, process_id: u32, bytes: Seq<u8>)
    ensures
        normalized(component, process_id, bytes) is Some <==> object_in(bytes) is Some,
        object_in(bytes) matches Some(record) ==> normalized(component, process_id, bytes) == Some(
            object_line(completed(component, process_id, record)),
        ),
        normalized(component, process_id, bytes) matches Some(line) ==> line.len() > 0
            && line.last() == 10,
{
}

/// A loss is told before the record that follows it, with the number of what was lost, and only where
/// something was.
pub proof fn law_losses_are_told(
    component: Component,
    process_id: u32,
    timestamp: Seq<char>,
    dropped: u64,
    bytes: Seq<u8>,
)
    ensures
        ({
            let lines = arrival(component, process_id, timestamp, dropped, bytes);
            let record = normalized(component, process_id, bytes);
            let loss = dropped_line(component, process_id, timestamp, dropped);
            &&& dropped == 0 ==> (record matches Some(line) ==> lines == seq![line])
            &&& dropped == 0 && record is None ==> lines.len() == 0
            &&& dropped > 0 ==> lines.len() > 0 && lines[0] == loss
            &&& dropped > 0 ==> (record matches Some(line) ==> lines == seq![loss, line])
            &&& dropped > 0 && record is None ==> lines == seq![loss]
        }),
{
    let loss = if dropped == 0 {
        None
    } else {
        Some(dropped_line(component, process_id, timestamp, dropped))
    };
    let record = normalized(component, process_id, bytes);
    let both = seq![loss, record];
    assert(both.drop_last() =~= seq![loss]);
    assert(seq![loss].drop_last() =~= Seq::<Option<Seq<u8>>>::empty());
    reveal_with_fuel(present, 3);
}

/// What was lost is told with its number, as a warning.
pub proof fn law_losses_are_counted(
    component: Component,
    process_id: u32,
    timestamp: Seq<char>,
    dropped: u64,
)
    ensures
        ({
            let members = dropped_members(component, process_id, timestamp, dropped);
            &&& members["level"@] == Json::Text("WARN"@)
            &&& members["timestamp"@] == Json::Text(timestamp)
            &&& members["name"@] == Json::Text("diagnostics_dropped"@)
            &&& members["fields"@] == Json::Object(
                map!["count"@ => Json::Number(decimal(dropped as nat))],
            )
            &&& members["pid"@] == Json::Number(decimal(process_id as nat))
            &&& members["component"@] == Json::Text(component.text())
        }),
{
    reveal_strlit("timestamp");
    reveal_strlit("level");
    reveal_strlit("component");
    reveal_strlit("pid");
    reveal_strlit("target");
    reveal_strlit("name");
    reveal_strlit("fields");
    assert("timestamp"@.len() == 9 && "level"@.len() == 5 && "component"@.len() == 9 && "pid"@.len()
        == 3 && "target"@.len() == 6 && "name"@.len() == 4 && "fields"@.len() == 6);
    assert("timestamp"@[0] == 't' && "component"@[0] == 'c' && "target"@[0] == 't' && "fields"@[0]
        == 'f');
}

/// At the end what still waits is written first, and a loss last.
pub proof fn law_losses_are_told_last_at_the_end(
    component: Component,
    process_id: u32,
    timestamp: Seq<char>,
    dropped: u64,
    pending: Seq<Seq<u8>>,
)
    ensures
        ({
            let lines = departure(component, process_id, timestamp, dropped, pending);
            let waiting = present(pending_lines(component, process_id, pending));
            &&& dropped == 0 ==> lines == waiting
            &&& dropped > 0 ==> lines == waiting.push(
                dropped_line(component, process_id, timestamp, dropped),
            )
        }),
{
    let loss = if dropped == 0 {
        None
    } else {
        Some(dropped_line(component, process_id, timestamp, dropped))
    };
    let waiting = pending_lines(component, process_id, pending);
    assert(waiting.push(loss).drop_last() =~= waiting);
}

/// A record that is dropped is counted, and nothing else changes.
pub proof fn law_drops_are_counted(queue: QueueState)
    ensures
        queue.dropped < u64::MAX ==> queue.dropping().dropped == queue.dropped + 1,
        queue.dropping().queued_bytes == queue.queued_bytes,
        queue.dropping().shutdown == queue.shutdown,
        next_count(u64::MAX) == 0,
{
}

/// Records are kept in files of sixteen mebibytes or a day, up to a quarter of a gibibyte and a week.
pub proof fn law_records_are_kept_within_limits()
    ensures
        ({
            let limits = diagnostic_limits();
            &&& limits.capture_logs && !limits.retention_size_unlimited
                && !limits.retention_age_unlimited
            &&& limits.segment_size == 16_777_216 && limits.segment_age_ms == 86_400_000
            &&& limits.retention_size == 268_435_456 && limits.retention_age_ms == 604_800_000
        }),
{
}

/// A file of records is named after its time, its process and its number, and is known by its
/// extension.
pub proof fn law_record_files_are_named(stamp: Seq<char>, process_id: u32, sequence: u32, path: Seq<char>)
    ensures
        finished_name(stamp, process_id, sequence) == stamp + "-"@ + padded(process_id as nat, 10)
            + "-"@ + padded(sequence as nat, 3) + ".jsonl"@,
        is_record_file(path) <==> (extension(path) matches Some(found) && found == "jsonl"@),
{
}

} // verus!
