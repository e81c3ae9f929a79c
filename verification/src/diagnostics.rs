//! The manager's own diagnostics: what is queued and dropped, how records are completed, and how
//! their files are named, closed and kept.

use vstd::prelude::*;
use vstd::string::*;

use crate::json_object::{
    Json, insert_number, insert_object, insert_text, members, new_object, object_at, object_bytes,
    object_in, object_member, read_object, text_at, text_member, write_object,
};
use crate::log_segments::{
    FinalizedFile, STAMP_FORMAT, current, files_to_remove, removals, rotates, saturating_sum,
    should_rotate, stamp_text, total_bytes, write_stamp,
};
use crate::messages::LoggingSettings;
use crate::numerals::{padded, push_padded};
use crate::paths::{extension, path_extension};
use crate::text::{decimal, same_text, text_of};
use crate::time::Duration;

verus! {

/// How many bytes wait to be written at most.
pub const QUEUE_BYTES: usize = 1024 * 1024;

/// How many records wait to be written at most.
pub const QUEUE_MESSAGES: usize = 4096;

/// The largest file of records, in bytes.
pub const SEGMENT_BYTES: u64 = 16 * 1024 * 1024;

/// How long a file of records is written, in milliseconds.
pub const SEGMENT_AGE_MS: u64 = 24 * 60 * 60 * 1000;

/// How many bytes of finished files are kept.
pub const RETENTION_BYTES: u64 = 256 * 1024 * 1024;

/// How long finished files are kept, in milliseconds.
pub const RETENTION_AGE_MS: u64 = 7 * 24 * 60 * 60 * 1000;

/// How long the writer waits for a record before it writes out what it has, in milliseconds.
pub const FLUSH_INTERVAL_MS: u64 = 1000;

/// How many files can be opened at one instant.
pub const SEGMENT_SEQUENCES: u32 = 1000;

/// The security descriptor of the host's records: for the system and administrators only.
pub const HOST_DESCRIPTOR: &'static str = "D:P(A;OICI;FA;;;SY)(A;OICI;FA;;;BA)";

/// A part of the manager that writes diagnostics.
#[derive(Clone, Copy, Debug, PartialEq, Eq, Structural)]
pub enum Component {
    Host,
    Controller,
    Supervisor,
}

impl Component {
    pub open spec fn text(self) -> Seq<char> {
        match self {
            Component::Host => "host"@,
            Component::Controller => "controller"@,
            Component::Supervisor => "supervisor"@,
        }
    }

    /// The name of the part in its records.
    pub fn name(self) -> (name: &'static str)
        ensures
            name@ == self.text(),
    {
        match self {
            Component::Host => "host",
            Component::Controller => "controller",
            Component::Supervisor => "supervisor",
        }
    }

    /// The name of the thread that writes the records.
    pub fn writer_name(self) -> (name: String)
        ensures
            name@ == "susm-"@ + self.text() + "-diagnostics"@,
    {
        let mut name: String = "susm-".to_owned();
        name.append(self.name());
        name.append("-diagnostics");
        name
    }

    /// Whether the files of the part are closed to ordinary users.
    pub fn is_private(self) -> (private: bool)
        ensures
            private == (self == Component::Host),
    {
        matches!(self, Component::Host)
    }
}

/// Why diagnostics cannot be written.
#[derive(Debug)]
pub enum DiagnosticsError {
    Io(String),
    Windows(String),
    SubscriberAlreadyConfigured,
}

impl DiagnosticsError {
    pub open spec fn text(&self) -> Seq<char> {
        match *self {
            DiagnosticsError::Io(reason) => "diagnostic storage failed: "@ + reason@,
            DiagnosticsError::Windows(reason) => "diagnostic storage security failed: "@ + reason@,
            DiagnosticsError::SubscriberAlreadyConfigured =>
                "the process diagnostic subscriber is already configured"@,
        }
    }

    pub fn message(&self) -> (message: String)
        ensures
            message@ == self.text(),
    {
        match self {
            DiagnosticsError::Io(reason) => {
                let mut message: String = "diagnostic storage failed: ".to_owned();
                message.append(reason.as_str());
                message
            },
            DiagnosticsError::Windows(reason) => {
                let mut message: String = "diagnostic storage security failed: ".to_owned();
                message.append(reason.as_str());
                message
            },
            DiagnosticsError::SubscriberAlreadyConfigured => {
                "the process diagnostic subscriber is already configured".to_owned()
            },
        }
    }
}

/// What becomes of a record that is handed in.
#[derive(Clone, Copy, Debug, PartialEq, Eq, Structural)]
pub enum Submission {
    /// It is passed over without a trace.
    Ignored,
    /// It is counted as dropped.
    Dropped,
    /// Room was made for it, and it is sent to the writer.
    Sent,
}

/// What waits to be written, by its size, and how many records were dropped since the last time
/// that was written down.
#[derive(Clone, Copy, Debug, PartialEq, Eq, Structural)]
pub struct QueueState {
    pub queued_bytes: usize,
    pub dropped: u64,
    pub shutdown: bool,
}

/// One more than `n`, or zero after the largest count.
pub open spec fn next_count(n: u64) -> u64 {
    if n == u64::MAX {
        0
    } else {
        (n + 1) as u64
    }
}

impl QueueState {
    pub open spec fn well_formed(self) -> bool {
        self.queued_bytes <= QUEUE_BYTES
    }

    /// The queue after one more drop.
    pub open spec fn dropping(self) -> QueueState {
        QueueState { dropped: next_count(self.dropped), ..self }
    }

    pub fn new() -> (queue: QueueState)
        ensures
            queue.well_formed(),
            queue == (QueueState { queued_bytes: 0, dropped: 0, shutdown: false }),
    {
        QueueState { queued_bytes: 0, dropped: 0, shutdown: false }
    }

    fn drop_one(&mut self)
        ensures
            *final(self) == old(self).dropping(),
    {
        self.dropped = if self.dropped == u64::MAX {
            0
        } else {
            self.dropped + 1
        };
    }

    /// Makes room for a record.
    pub fn reserve(&mut self, length: usize) -> (reserved: bool)
        requires
            old(self).well_formed(),
        ensures
            final(self).well_formed(),
            reserved == (old(self).queued_bytes + length <= QUEUE_BYTES),
            *final(self) == (if reserved {
                QueueState {
                    queued_bytes: (old(self).queued_bytes + length) as usize,
                    ..*old(self)
                }
            } else {
                *old(self)
            }),
    {
        match self.queued_bytes.checked_add(length) {
            Some(next) => {
                if next > QUEUE_BYTES {
                    return false;
                }
                self.queued_bytes = next;
                true
            },
            None => false,
        }
    }

    /// Takes in a record of this length.
    pub fn submit(&mut self, length: usize) -> (submission: Submission)
        requires
            old(self).well_formed(),
        ensures
            final(self).well_formed(),
            submission == (if length == 0 || old(self).shutdown {
                Submission::Ignored
            } else if old(self).queued_bytes + length > QUEUE_BYTES {
                Submission::Dropped
            } else {
                Submission::Sent
            }),
            *final(self) == (match submission {
                Submission::Ignored => *old(self),
                Submission::Dropped => old(self).dropping(),
                Submission::Sent => QueueState {
                    queued_bytes: (old(self).queued_bytes + length) as usize,
                    ..*old(self)
                },
            }),
    {
        if length == 0 || self.shutdown {
            return Submission::Ignored;
        }
        if length > QUEUE_BYTES || !self.reserve(length) {
            self.drop_one();
            return Submission::Dropped;
        }
        Submission::Sent
    }

    /// Takes back the room of a record that the writer could not be sent.
    pub fn not_sent(&mut self, length: usize)
        requires
            old(self).well_formed(),
            length <= old(self).queued_bytes,
        ensures
            final(self).well_formed(),
            *final(self) == (QueueState {
                queued_bytes: (old(self).queued_bytes - length) as usize,
                ..old(self).dropping()
            }),
    {
        self.queued_bytes = self.queued_bytes - length;
        self.drop_one();
    }

    /// Gives back the room of a record that the writer took.
    pub fn received(&mut self, length: usize)
        requires
            old(self).well_formed(),
            length <= old(self).queued_bytes,
        ensures
            final(self).well_formed(),
            *final(self) == (QueueState {
                queued_bytes: (old(self).queued_bytes - length) as usize,
                ..*old(self)
            }),
    {
        self.queued_bytes = self.queued_bytes - length;
    }

    /// The number of dropped records, which starts again from zero.
    pub fn take_dropped(&mut self) -> (dropped: u64)
        ensures
            dropped == old(self).dropped,
            *final(self) == (QueueState { dropped: 0, ..*old(self) }),
    {
        let dropped: u64 = self.dropped;
        self.dropped = 0;
        dropped
    }
}

/// The name of an event: the text `name` among its fields, or else `event`.
pub open spec fn event_name(record: Map<Seq<char>, Json>) -> Seq<char> {
    let name = match object_at(record, "fields"@) {
        Some(fields) => text_at(fields, "name"@),
        None => None,
    };
    match name {
        Some(text) => text,
        None => "event"@,
    }
}

/// A record with the part, the process and the name of the event in it.
pub open spec fn completed(
    component: Component,
    process_id: u32,
    record: Map<Seq<char>, Json>,
) -> Map<Seq<char>, Json> {
    record.insert("component"@, Json::Text(component.text())).insert(
        "pid"@,
        Json::Number(decimal(process_id as nat)),
    ).insert("name"@, Json::Text(event_name(record)))
}

/// Completes a record.
pub fn complete_record(
    component: Component,
    process_id: u32,
    record: &mut serde_json::Map<String, serde_json::Value>,
)
    ensures
        members(*final(record)) == completed(component, process_id, members(*old(record))),
{
    let name: Option<String> = match object_member(record, "fields") {
        Some(fields) => text_member(fields, "name"),
        None => None,
    };
    let name: String = match name {
        Some(text) => text,
        None => "event".to_owned(),
    };
    insert_text(record, "component", component.name());
    insert_number(record, "pid", process_id as u64);
    insert_text(record, "name", name.as_str());
}

/// A completed record keeps all that it said, apart from the part, the process and the name.
pub proof fn law_records_keep_what_they_said(
    component: Component,
    process_id: u32,
    record: Map<Seq<char>, Json>,
    name: Seq<char>,
)
    requires
        record.contains_key(name),
        name != "component"@,
        name != "pid"@,
        name != "name"@,
    ensures
        completed(component, process_id, record).contains_key(name),
        completed(component, process_id, record)[name] == record[name],
{
}

/// A record that was completed stays as it is when it is completed again.
pub proof fn law_records_are_completed_once(
    component: Component,
    process_id: u32,
    record: Map<Seq<char>, Json>,
)
    ensures
        completed(component, process_id, completed(component, process_id, record)) == completed(
            component,
            process_id,
            record,
        ),
{
    reveal_strlit("fields");
    reveal_strlit("component");
    reveal_strlit("pid");
    reveal_strlit("name");
    assert("fields"@[0] == 'f' && "component"@[0] == 'c' && "pid"@[0] == 'p' && "name"@[0] == 'n');
    let once = completed(component, process_id, record);
    assert(object_at(once, "fields"@) == object_at(record, "fields"@));
    assert(completed(component, process_id, once) =~= once);
}

/// An object as a line.
pub open spec fn object_line(record: Map<Seq<char>, Json>) -> Seq<u8> {
    object_bytes(record).push(10)
}

fn write_line(record: &serde_json::Map<String, serde_json::Value>) -> (line: Vec<u8>)
    ensures
        line@ == object_line(members(*record)),
{
    let mut line: Vec<u8> = write_object(record).unwrap();
    line.push(10);
    line
}

/// Bytes that may be there, by what they hold.
pub open spec fn bytes_of(bytes: Option<Vec<u8>>) -> Option<Seq<u8>> {
    match bytes {
        Some(vec) => Some(vec@),
        None => None,
    }
}

/// The completed record of some bytes, as a line. What is no JSON object is left out.
pub open spec fn normalized(component: Component, process_id: u32, bytes: Seq<u8>) -> Option<
    Seq<u8>,
> {
    match object_in(bytes) {
        Some(record) => Some(object_line(completed(component, process_id, record))),
        None => None,
    }
}

/// Completes the record that some bytes are.
pub fn normalize_record(component: Component, process_id: u32, bytes: &[u8]) -> (record: Option<
    Vec<u8>,
>)
    ensures
        bytes_of(record) == normalized(component, process_id, bytes@),
{
    match read_object(bytes) {
        Some(mut record) => {
            complete_record(component, process_id, &mut record);
            Some(write_line(&record))
        },
        None => None,
    }
}

/// What the record of dropped records says.
pub open spec fn dropped_members(
    component: Component,
    process_id: u32,
    timestamp: Seq<char>,
    dropped: u64,
) -> Map<Seq<char>, Json> {
    map![
        "timestamp"@ => Json::Text(timestamp),
        "level"@ => Json::Text("WARN"@),
        "component"@ => Json::Text(component.text()),
        "pid"@ => Json::Number(decimal(process_id as nat)),
        "target"@ => Json::Text("susm_diagnostics"@),
        "name"@ => Json::Text("diagnostics_dropped"@),
        "fields"@ => Json::Object(map!["count"@ => Json::Number(decimal(dropped as nat))]),
    ]
}

/// The record that tells how many records were dropped.
pub fn dropped_object(component: Component, process_id: u32, timestamp: &str, dropped: u64) -> (
record: serde_json::Map<String, serde_json::Value>)
    ensures
        members(record) == dropped_members(component, process_id, timestamp@, dropped),
{
    let mut fields: serde_json::Map<String, serde_json::Value> = new_object();
    insert_number(&mut fields, "count", dropped);
    let mut record: serde_json::Map<String, serde_json::Value> = new_object();
    insert_text(&mut record, "timestamp", timestamp);
    insert_text(&mut record, "level", "WARN");
    insert_text(&mut record, "component", component.name());
    insert_number(&mut record, "pid", process_id as u64);
    insert_text(&mut record, "target", "susm_diagnostics");
    insert_text(&mut record, "name", "diagnostics_dropped");
    insert_object(&mut record, "fields", fields);
    record
}

/// The record that tells how many records were dropped, as a line.
pub open spec fn dropped_line(
    component: Component,
    process_id: u32,
    timestamp: Seq<char>,
    dropped: u64,
) -> Seq<u8> {
    object_line(dropped_members(component, process_id, timestamp, dropped))
}

/// The record that tells how many records were dropped, as a line.
pub fn dropped_record(component: Component, process_id: u32, timestamp: &str, dropped: u64) -> (
record: Vec<u8>)
    ensures
        record@ == dropped_line(component, process_id, timestamp@, dropped),
{
    write_line(&dropped_object(component, process_id, timestamp, dropped))
}

/// What is there of two lines, one after the other.
pub open spec fn present(lines: Seq<Option<Seq<u8>>>) -> Seq<Seq<u8>>
    decreases lines.len(),
{
    if lines.len() == 0 {
        Seq::empty()
    } else {
        let before = present(lines.drop_last());
        match lines.last() {
            Some(bytes) => before.push(bytes),
            None => before,
        }
    }
}

/// The lines by what they hold.
pub open spec fn line_views(lines: Seq<Vec<u8>>) -> Seq<Seq<u8>> {
    lines.map_values(|bytes: Vec<u8>| bytes@)
}

fn push_line(lines: &mut Vec<Vec<u8>>, record: Option<Vec<u8>>)
    ensures
        line_views(final(lines)@) == match record {
            Some(bytes) => line_views(old(lines)@).push(bytes@),
            None => line_views(old(lines)@),
        },
{
    match record {
        Some(bytes) => {
            lines.push(bytes);
            assert(line_views(lines@) =~= line_views(old(lines)@).push(bytes@));
        },
        None => {},
    }
}

/// What is written when a record arrives: how many were dropped before it, if any were, and the
/// record.
pub open spec fn arrival(
    component: Component,
    process_id: u32,
    timestamp: Seq<char>,
    dropped: u64,
    bytes: Seq<u8>,
) -> Seq<Seq<u8>> {
    let loss = if dropped == 0 {
        None
    } else {
        Some(dropped_line(component, process_id, timestamp, dropped))
    };
    present(seq![loss, normalized(component, process_id, bytes)])
}

/// What is written when a record arrives.
pub fn lines_on_arrival(
    component: Component,
    process_id: u32,
    timestamp: &str,
    dropped: u64,
    bytes: &[u8],
) -> (lines: Vec<Vec<u8>>)
    ensures
        line_views(lines@) == arrival(component, process_id, timestamp@, dropped, bytes@),
{
    let mut lines: Vec<Vec<u8>> = Vec::new();
    proof {
        reveal_with_fuel(present, 3);
        assert(line_views(lines@) =~= Seq::empty());
    }
    if dropped != 0 {
        push_line(&mut lines, Some(dropped_record(component, process_id, timestamp, dropped)));
    }
    push_line(&mut lines, normalize_record(component, process_id, bytes));
    proof {
        let loss = if dropped == 0 {
            None
        } else {
            Some(dropped_line(component, process_id, timestamp@, dropped))
        };
        let both = seq![loss, normalized(component, process_id, bytes@)];
        assert(both.drop_last() =~= seq![loss]);
        assert(seq![loss].drop_last() =~= Seq::<Option<Seq<u8>>>::empty());
    }
    lines
}

/// The completed records of what still waits.
pub open spec fn pending_lines(component: Component, process_id: u32, pending: Seq<Seq<u8>>) -> Seq<
    Option<Seq<u8>>,
> {
    pending.map_values(|bytes: Seq<u8>| normalized(component, process_id, bytes))
}

/// What is written at the end: what still waits, and then how many records were dropped, if any
/// were.
pub open spec fn departure(
    component: Component,
    process_id: u32,
    timestamp: Seq<char>,
    dropped: u64,
    pending: Seq<Seq<u8>>,
) -> Seq<Seq<u8>> {
    let loss = if dropped == 0 {
        None
    } else {
        Some(dropped_line(component, process_id, timestamp, dropped))
    };
    present(pending_lines(component, process_id, pending).push(loss))
}

/// What is written at the end.
pub fn lines_on_shutdown(
    component: Component,
    process_id: u32,
    timestamp: &str,
    dropped: u64,
    pending: &Vec<Vec<u8>>,
) -> (lines: Vec<Vec<u8>>)
    ensures
        line_views(lines@) == departure(
            component,
            process_id,
            timestamp@,
            dropped,
            line_views(pending@),
        ),
{
    let mut lines: Vec<Vec<u8>> = Vec::new();
    let ghost all = pending_lines(component, process_id, line_views(pending@));
    let mut i: usize = 0;
    assert(line_views(lines@) =~= present(all.take(0)));
    while i < pending.len()
        invariant
            i <= pending.len(),
            all == pending_lines(component, process_id, line_views(pending@)),
            line_views(lines@) == present(all.take(i as int)),
        decreases pending.len() - i,
    {
        proof {
            assert(all[i as int] == normalized(component, process_id, pending@[i as int]@));
            assert(all.take(i + 1).drop_last() =~= all.take(i as int));
            assert(all.take(i + 1).last() == all[i as int]);
        }
        push_line(&mut lines, normalize_record(component, process_id, pending[i].as_slice()));
        i += 1;
    }
    assert(all.take(i as int) =~= all);
    let ghost loss = if dropped == 0 {
        None
    } else {
        Some(dropped_line(component, process_id, timestamp@, dropped))
    };
    proof {
        assert(all.push(loss).drop_last() =~= all);
    }
    if dropped != 0 {
        push_line(&mut lines, Some(dropped_record(component, process_id, timestamp, dropped)));
    }
    lines
}

/// The limits of files of records.
pub open spec fn diagnostic_limits() -> LoggingSettings {
    LoggingSettings {
        capture_logs: true,
        segment_size: SEGMENT_BYTES,
        segment_age_ms: SEGMENT_AGE_MS,
        retention_size: RETENTION_BYTES,
        retention_size_unlimited: false,
        retention_age_ms: RETENTION_AGE_MS,
        retention_age_unlimited: false,
    }
}

fn limits() -> (settings: LoggingSettings)
    ensures
        settings == diagnostic_limits(),
{
    LoggingSettings {
        capture_logs: true,
        segment_size: SEGMENT_BYTES,
        segment_age_ms: SEGMENT_AGE_MS,
        retention_size: RETENTION_BYTES,
        retention_size_unlimited: false,
        retention_age_ms: RETENTION_AGE_MS,
        retention_age_unlimited: false,
    }
}

/// What becomes of a file that is closed.
#[derive(Clone, Copy, Debug, PartialEq, Eq, Structural)]
pub enum Closing {
    /// It is empty and goes away.
    Remove,
    /// It loses the mark of a file that is being written.
    Finish,
}

/// The file that is being written, by its bytes.
#[derive(Clone, Copy, Debug, PartialEq, Eq, Structural)]
pub struct Segment {
    pub bytes: u64,
}

impl Segment {
    pub fn open() -> (segment: Segment)
        ensures
            segment.bytes == 0,
    {
        Segment { bytes: 0 }
    }

    /// Whether the file is closed before `next` more bytes, after it has been open for `elapsed`.
    pub fn should_rotate(&self, next: u64, elapsed: Duration) -> (rotate: bool)
        ensures
            rotate == rotates(self.bytes, next, elapsed, diagnostic_limits()),
    {
        should_rotate(self.bytes, next, elapsed, limits())
    }

    /// Takes in a record of this length: where it belongs into a new file, the old one is closed
    /// first.
    pub fn write_record(&mut self, length: u64, elapsed: Duration) -> (rotated: Option<Closing>)
        ensures
            rotated == (if rotates(old(self).bytes, length, elapsed, diagnostic_limits()) {
                Some(Closing::Finish)
            } else {
                None
            }),
            final(self).bytes == saturating_sum(
                if rotated is Some {
                    0
                } else {
                    old(self).bytes
                },
                length,
            ),
    {
        let mut rotated: Option<Closing> = None;
        if self.should_rotate(length, elapsed) {
            rotated = Some(self.finish());
            self.bytes = 0;
        }
        self.bytes = self.bytes.saturating_add(length);
        rotated
    }

    /// What becomes of the file when it is closed.
    pub fn finish(&self) -> (closing: Closing)
        ensures
            closing == (if self.bytes == 0 {
                Closing::Remove
            } else {
                Closing::Finish
            }),
    {
        if self.bytes == 0 {
            Closing::Remove
        } else {
            Closing::Finish
        }
    }
}

/// The name of a file that was opened at an instant by a process, as the `sequence`-th there.
pub open spec fn finished_name(stamp: Seq<char>, process_id: u32, sequence: u32) -> Seq<char> {
    stamp + "-"@ + padded(process_id as nat, 10) + "-"@ + padded(sequence as nat, 3) + ".jsonl"@
}

/// The names of a file of records: while it is written, and afterwards.
pub fn segment_names(stamp: &str, process_id: u32, sequence: u32) -> (names: (String, String))
    ensures
        names.0@ == finished_name(stamp@, process_id, sequence) + ".open"@,
        names.1@ == finished_name(stamp@, process_id, sequence),
{
    let mut finished: String = stamp.to_owned();
    finished.append("-");
    push_padded(&mut finished, process_id as u64, 10);
    finished.append("-");
    push_padded(&mut finished, sequence as u64, 3);
    finished.append(".jsonl");
    assert(finished@ =~= finished_name(stamp@, process_id, sequence));
    let mut open: String = finished.clone();
    open.append(".open");
    (open, finished)
}

/// The names of a file of records that is opened at an instant, for an instant that can be
/// written.
pub fn segment_names_at(unix_nanos: i128, process_id: u32, sequence: u32) -> (names: Option<
    (String, String),
>)
    ensures
        match names {
            Some(names) => stamp_text(unix_nanos, STAMP_FORMAT@) matches Some(stamp) && names.0@
                == finished_name(stamp, process_id, sequence) + ".open"@ && names.1@
                == finished_name(stamp, process_id, sequence),
            None => stamp_text(unix_nanos, STAMP_FORMAT@) is None,
        },
{
    match write_stamp(unix_nanos, STAMP_FORMAT) {
        Some(stamp) => Some(segment_names(stamp.as_str(), process_id, sequence)),
        None => None,
    }
}

/// What follows a file name that is taken.
pub fn next_sequence(sequence: u32) -> (result: Result<u32, DiagnosticsError>)
    requires
        sequence < SEGMENT_SEQUENCES,
    ensures
        match result {
            Ok(next) => next == sequence + 1 && next < SEGMENT_SEQUENCES,
            Err(error) => sequence + 1 == SEGMENT_SEQUENCES && error.text()
                == "diagnostic storage failed: "@ + "diagnostic segment namespace exhausted"@,
        },
{
    if sequence + 1 < SEGMENT_SEQUENCES {
        Ok(sequence + 1)
    } else {
        Err(DiagnosticsError::Io("diagnostic segment namespace exhausted".to_owned()))
    }
}

/// Whether a file holds finished records, by its name.
pub open spec fn is_record_file(path: Seq<char>) -> bool {
    extension(path) == Some("jsonl"@)
}

/// Whether a file holds finished records.
pub fn is_finished(path: &str) -> (finished: bool)
    ensures
        finished == is_record_file(path@),
{
    match path_extension(path) {
        Some(found) => same_text(text_of(found.as_slice()).as_str(), "jsonl"),
        None => false,
    }
}

/// The finished files that are removed, in order: those that are too old, and then the oldest of
/// the others until the rest fit.
pub fn apply_retention(files: &Vec<FinalizedFile>, now: i128) -> (gone: Vec<usize>)
    requires
        total_bytes(files@, current(files@, now, diagnostic_limits())) <= u64::MAX,
    ensures
        gone@.map_values(|i: usize| i as int) == removals(files@, now, diagnostic_limits()),
{
    files_to_remove(files, now, limits())
}

} // verus!
