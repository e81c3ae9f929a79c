//! The log journal: how captured output is framed in a segment and read back.

use vstd::prelude::*;
use vstd::string::*;
use vstd::utf8::{
    char_u32_cast, decode_utf8, encode_scalar, encode_utf8, encode_utf8_decode_utf8,
    encode_utf8_valid_utf8, has_width_1_encoding, is_ascii_chars, is_ascii_chars_encode_utf8,
    last_continuation_byte, leading_byte_width_1, leading_byte_width_2, leading_byte_width_3,
    leading_byte_width_4, second_last_continuation_byte, third_last_continuation_byte, valid_utf8,
};

use crate::bytes::{
    append, copy_range, from_le_bytes, law_le_bytes_round_trip, le_bytes, lemma_byte_ranges,
    lemma_le_bytes_len, push_u64, read_u64,
};
use crate::messages::ExecutionConfiguration;
use crate::numerals::{
    is_digit, law_decimal_round_trip, law_signed_decimal_round_trip, lemma_decimal_is_numeral,
    parse_i64, parse_u64, push_signed_decimal, signed, signed_decimal, unsigned,
};
use crate::text::{decimal, push_decimal, same_bytes};

verus! {

/// The byte that ends a line.
pub const NEWLINE: u8 = 10;

/// The byte between the name and the value of a field.
pub const EQUALS: u8 = 61;

#[derive(Clone, Copy, Debug, PartialEq, Eq, Structural)]
pub enum OutputStream {
    Stdout,
    Stderr,
}

impl OutputStream {
    pub open spec fn text(self) -> Seq<char> {
        match self {
            OutputStream::Stdout => "stdout"@,
            OutputStream::Stderr => "stderr"@,
        }
    }

    pub fn name(self) -> (name: &'static str)
        ensures
            name@ == self.text(),
    {
        match self {
            OutputStream::Stdout => "stdout",
            OutputStream::Stderr => "stderr",
        }
    }
}

/// Bytes that a process wrote to one of its streams.
#[derive(Debug)]
pub struct OutputChunk {
    pub stream: OutputStream,
    pub sequence: u64,
    pub timestamp_unix_ms: i64,
    pub bytes: Vec<u8>,
}

/// One record of a journal, as it is handed to a reader.
#[derive(Debug, PartialEq, Eq)]
pub struct ReadLogsResponse {
    pub execution_id: String,
    pub attempt: u32,
    pub stream: String,
    pub sequence: u64,
    pub timestamp_unix_ms: i64,
    pub message: Vec<u8>,
    pub gap: String,
}

#[verifier::ext_equal]
pub struct LogView {
    pub execution_id: Seq<char>,
    pub attempt: u32,
    pub stream: Seq<char>,
    pub sequence: u64,
    pub timestamp_unix_ms: i64,
    pub message: Seq<u8>,
    pub gap: Seq<char>,
}

impl ReadLogsResponse {
    pub open spec fn view(&self) -> LogView {
        LogView {
            execution_id: self.execution_id@,
            attempt: self.attempt,
            stream: self.stream@,
            sequence: self.sequence,
            timestamp_unix_ms: self.timestamp_unix_ms,
            message: self.message@,
            gap: self.gap@,
        }
    }
}

/// The views of some records.
pub open spec fn log_views(records: Seq<ReadLogsResponse>) -> Seq<LogView> {
    records.map_values(|record: ReadLogsResponse| record@)
}

/// A field on a line of its own.
pub open spec fn field_line(name: Seq<char>, value: Seq<char>) -> Seq<u8> {
    encode_utf8(name) + seq![EQUALS] + encode_utf8(value) + seq![NEWLINE]
}

/// The lines that stand before the message of an entry.
pub open spec fn entry_header(
    workload_id: Seq<char>,
    execution_id: Seq<char>,
    attempt: u32,
    chunk: OutputChunk,
) -> Seq<u8> {
    field_line("SUSM_FORMAT"@, "1"@) + (field_line("SUSM_RECORD"@, "output"@) + (field_line(
        "SUSM_TIMESTAMP_UNIX_MS"@,
        signed_decimal(chunk.timestamp_unix_ms as int),
    ) + (field_line("SUSM_WORKLOAD"@, workload_id) + (field_line("SUSM_EXECUTION"@, execution_id)
        + (field_line("SUSM_ATTEMPT"@, decimal(attempt as nat)) + (field_line(
        "SUSM_SEQUENCE"@,
        decimal(chunk.sequence as nat),
    ) + field_line("SUSM_STREAM"@, chunk.stream.text())))))))
}

/// The message of an entry: a line that announces it, its length, its bytes, the end of its
/// line and the empty line that ends the entry.
pub open spec fn entry_message(bytes: Seq<u8>) -> Seq<u8> {
    encode_utf8("MESSAGE"@) + seq![NEWLINE] + le_bytes(bytes.len(), 8) + bytes + seq![
        NEWLINE,
        NEWLINE,
    ]
}

/// One entry of a segment.
pub open spec fn entry(
    workload_id: Seq<char>,
    execution_id: Seq<char>,
    attempt: u32,
    chunk: OutputChunk,
) -> Seq<u8> {
    entry_header(workload_id, execution_id, attempt, chunk) + entry_message(chunk.bytes@)
}

fn scalar(output: &mut Vec<u8>, name: &str, value: &str)
    ensures
        final(output)@ == old(output)@ + field_line(name@, value@),
{
    append(output, name.as_bytes());
    output.push(EQUALS);
    append(output, value.as_bytes());
    output.push(NEWLINE);
    assert(output@ =~= old(output)@ + field_line(name@, value@));
}

proof fn lemma_append_eight(
    a: Seq<u8>,
    b: Seq<u8>,
    c: Seq<u8>,
    d: Seq<u8>,
    e: Seq<u8>,
    f: Seq<u8>,
    g: Seq<u8>,
    h: Seq<u8>,
)
    ensures
        a + b + c + d + e + f + g + h == a + (b + (c + (d + (e + (f + (g + h)))))),
{
    assert(a + b + c + d + e + f + g + h =~= a + (b + (c + (d + (e + (f + (g + h)))))));
}

/// Frames one chunk as an entry of a segment.
pub fn encode_entry(configuration: &ExecutionConfiguration, chunk: &OutputChunk) -> (output: Vec<
    u8,
>)
    ensures
        output@ == entry(
            configuration.workload_id@,
            configuration.execution_id@,
            configuration.attempt,
            *chunk,
        ),
{
    let mut output: Vec<u8> = Vec::new();
    let mut timestamp: String = String::new();
    push_signed_decimal(&mut timestamp, chunk.timestamp_unix_ms);
    let mut attempt: String = String::new();
    push_decimal(&mut attempt, configuration.attempt as u64);
    let mut sequence: String = String::new();
    push_decimal(&mut sequence, chunk.sequence);
    assert(timestamp@ =~= signed_decimal(chunk.timestamp_unix_ms as int));
    assert(attempt@ =~= decimal(configuration.attempt as nat));
    assert(sequence@ =~= decimal(chunk.sequence as nat));
    scalar(&mut output, "SUSM_FORMAT", "1");
    scalar(&mut output, "SUSM_RECORD", "output");
    scalar(&mut output, "SUSM_TIMESTAMP_UNIX_MS", timestamp.as_str());
    scalar(&mut output, "SUSM_WORKLOAD", configuration.workload_id.as_str());
    scalar(&mut output, "SUSM_EXECUTION", configuration.execution_id.as_str());
    scalar(&mut output, "SUSM_ATTEMPT", attempt.as_str());
    scalar(&mut output, "SUSM_SEQUENCE", sequence.as_str());
    scalar(&mut output, "SUSM_STREAM", chunk.stream.name());
    let ghost header = output@;
    proof {
        assert(Seq::<u8>::empty() + field_line("SUSM_FORMAT"@, "1"@) =~= field_line(
            "SUSM_FORMAT"@,
            "1"@,
        ));
        lemma_append_eight(
            field_line("SUSM_FORMAT"@, "1"@),
            field_line("SUSM_RECORD"@, "output"@),
            field_line("SUSM_TIMESTAMP_UNIX_MS"@, signed_decimal(chunk.timestamp_unix_ms as int)),
            field_line("SUSM_WORKLOAD"@, configuration.workload_id@),
            field_line("SUSM_EXECUTION"@, configuration.execution_id@),
            field_line("SUSM_ATTEMPT"@, decimal(configuration.attempt as nat)),
            field_line("SUSM_SEQUENCE"@, decimal(chunk.sequence as nat)),
            field_line("SUSM_STREAM"@, chunk.stream.text()),
        );
        assert(header == entry_header(
            configuration.workload_id@,
            configuration.execution_id@,
            configuration.attempt,
            *chunk,
        ));
    }
    append(&mut output, "MESSAGE".as_bytes());
    output.push(NEWLINE);
    push_u64(&mut output, chunk.bytes.len() as u64);
    append(&mut output, chunk.bytes.as_slice());
    output.push(NEWLINE);
    output.push(NEWLINE);
    assert(output@ =~= header + entry_message(chunk.bytes@));
    output
}

/// Where a byte first stands, or the end.
pub open spec fn position(bytes: Seq<u8>, byte: u8) -> int
    decreases bytes.len(),
{
    if bytes.len() == 0 || bytes[0] == byte {
        0
    } else {
        1 + position(bytes.drop_first(), byte)
    }
}

pub proof fn lemma_position(bytes: Seq<u8>, byte: u8, at: int)
    requires
        0 <= at <= bytes.len(),
        forall|i: int| 0 <= i < at ==> bytes[i] != byte,
        at < bytes.len() ==> bytes[at] == byte,
    ensures
        position(bytes, byte) == at,
    decreases bytes.len(),
{
    if at > 0 {
        assert(bytes[0] != byte);
        lemma_position(bytes.drop_first(), byte, at - 1);
    }
}

pub proof fn lemma_position_bound(bytes: Seq<u8>, byte: u8)
    ensures
        0 <= position(bytes, byte) <= bytes.len(),
    decreases bytes.len(),
{
    if bytes.len() > 0 && bytes[0] != byte {
        lemma_position_bound(bytes.drop_first(), byte);
    }
}

/// What has been read of a record.
#[verifier::ext_equal]
pub struct Fields {
    pub stream: Seq<char>,
    pub sequence: u64,
    pub timestamp_unix_ms: i64,
    pub message: Option<Seq<u8>>,
}

/// Nothing has been read of a record.
pub open spec fn no_fields() -> Fields {
    Fields { stream: Seq::empty(), sequence: 0, timestamp_unix_ms: 0, message: None }
}

/// What the text of bytes that are not UTF-8 is.
pub uninterp spec fn repaired_text(bytes: Seq<u8>) -> Seq<char>;

/// The text of some bytes, repaired where they are not UTF-8.
pub open spec fn lossy_text(bytes: Seq<u8>) -> Seq<char> {
    if valid_utf8(bytes) {
        decode_utf8(bytes)
    } else {
        repaired_text(bytes)
    }
}

/// Reads bytes as text, by `String::from_utf8_lossy`: bytes that are UTF-8 give their text, and
/// what others give is left to the name.
#[verifier::external_body]
pub(crate) fn read_lossy(bytes: &[u8]) -> (text: String)
    ensures
        valid_utf8(bytes@) ==> text@ == decode_utf8(bytes@),
        !valid_utf8(bytes@) ==> text@ == repaired_text(bytes@),
{
    String::from_utf8_lossy(bytes).into_owned()
}

/// What a record knows after a field with this name and value.
pub open spec fn with_field(name: Seq<u8>, value: Seq<char>, fields: Fields) -> Fields {
    if name == encode_utf8("SUSM_STREAM"@) {
        Fields { stream: value, ..fields }
    } else if name == encode_utf8("SUSM_SEQUENCE"@) {
        Fields {
            sequence: match unsigned(value) {
                Some(n) => n,
                None => 0,
            },
            ..fields
        }
    } else if name == encode_utf8("SUSM_TIMESTAMP_UNIX_MS"@) {
        Fields {
            timestamp_unix_ms: match signed(value) {
                Some(n) => n,
                None => 0,
            },
            ..fields
        }
    } else {
        fields
    }
}

/// What a record knows after a line that is not its message.
pub open spec fn after_line(line: Seq<u8>, fields: Fields) -> Fields {
    let at = position(line, EQUALS);
    if at < line.len() {
        with_field(line.take(at), lossy_text(line.skip(at + 1)), fields)
    } else {
        fields
    }
}

/// Reads one record: what it holds, and the bytes after it. A record ends at an empty line, and
/// whatever cannot be read to its end takes all the rest with it.
pub open spec fn read_record(rest: Seq<u8>, fields: Fields) -> (Fields, Seq<u8>)
    decreases rest.len(),
{
    let end = position(rest, NEWLINE);
    let line = rest.take(end);
    let after = rest.skip(end + 1);
    proof {
        lemma_position_bound(rest, NEWLINE);
    }
    if end >= rest.len() {
        (fields, Seq::empty())
    } else if end == 0 {
        (fields, after)
    } else if line == encode_utf8("MESSAGE"@) {
        if after.len() < 8 {
            (fields, Seq::empty())
        } else {
            let length = from_le_bytes(after.take(8)) as int;
            let body = after.skip(8);
            if body.len() <= length {
                (fields, Seq::empty())
            } else {
                let with_message = Fields { message: Some(body.take(length)), ..fields };
                if body[length] != NEWLINE {
                    (with_message, Seq::empty())
                } else {
                    read_record(body.skip(length + 1), with_message)
                }
            }
        }
    } else {
        read_record(after, after_line(line, fields))
    }
}

pub proof fn lemma_reading_advances(rest: Seq<u8>, fields: Fields)
    ensures
        rest.len() > 0 ==> read_record(rest, fields).1.len() < rest.len(),
        rest.len() == 0 ==> read_record(rest, fields).1.len() == 0,
    decreases rest.len(),
{
    let end = position(rest, NEWLINE);
    let line = rest.take(end);
    let after = rest.skip(end + 1);
    lemma_position_bound(rest, NEWLINE);
    if 0 < end < rest.len() {
        if line == encode_utf8("MESSAGE"@) {
            if after.len() >= 8 {
                let length = from_le_bytes(after.take(8)) as int;
                let body = after.skip(8);
                if body.len() > length && body[length] == NEWLINE {
                    lemma_reading_advances(
                        body.skip(length + 1),
                        Fields { message: Some(body.take(length)), ..fields },
                    );
                }
            }
        } else {
            lemma_reading_advances(after, after_line(line, fields));
        }
    }
}

/// The record that a reader is handed, where a message was read.
pub open spec fn record_of(execution_id: Seq<char>, attempt: u32, fields: Fields) -> Seq<LogView> {
    match fields.message {
        Some(message) => seq![
            LogView {
                execution_id,
                attempt,
                stream: fields.stream,
                sequence: fields.sequence,
                timestamp_unix_ms: fields.timestamp_unix_ms,
                message,
                gap: Seq::empty(),
            },
        ],
        None => Seq::empty(),
    }
}

/// The records of a segment.
pub open spec fn records(rest: Seq<u8>, execution_id: Seq<char>, attempt: u32) -> Seq<LogView>
    decreases rest.len(),
{
    if rest.len() == 0 {
        Seq::empty()
    } else {
        let (fields, tail) = read_record(rest, no_fields());
        proof {
            lemma_reading_advances(rest, no_fields());
        }
        record_of(execution_id, attempt, fields) + records(tail, execution_id, attempt)
    }
}

/// Finds a byte from `start` on: its place, or the end.
fn find_byte(bytes: &[u8], start: usize, byte: u8) -> (at: usize)
    requires
        start <= bytes.len(),
    ensures
        start <= at <= bytes.len(),
        at - start == position(bytes@.skip(start as int), byte),
{
    let mut at: usize = start;
    while at < bytes.len() && bytes[at] != byte
        invariant
            start <= at <= bytes.len(),
            forall|i: int| start <= i < at ==> bytes@[i] != byte,
        decreases bytes.len() - at,
    {
        at += 1;
    }
    proof {
        lemma_position(bytes@.skip(start as int), byte, at - start);
    }
    at
}

/// The fields of a record while it is being read.
struct Reading {
    stream: String,
    sequence: u64,
    timestamp_unix_ms: i64,
    message: Option<Vec<u8>>,
}

impl Reading {
    spec fn view(&self) -> Fields {
        Fields {
            stream: self.stream@,
            sequence: self.sequence,
            timestamp_unix_ms: self.timestamp_unix_ms,
            message: match self.message {
                Some(message) => Some(message@),
                None => None,
            },
        }
    }

    fn read_line(&mut self, line: &[u8])
        ensures
            final(self)@ == after_line(line@, old(self)@),
    {
        let at: usize = find_byte(line, 0, EQUALS);
        assert(line@.skip(0) =~= line@);
        if at < line.len() {
            let name: Vec<u8> = copy_range(line, 0, at);
            let rest: Vec<u8> = copy_range(line, at + 1, line.len());
            assert(name@ =~= line@.take(at as int));
            assert(rest@ =~= line@.skip(at + 1));
            let value: String = read_lossy(rest.as_slice());
            if same_bytes(name.as_slice(), "SUSM_STREAM".as_bytes()) {
                self.stream = value;
            } else if same_bytes(name.as_slice(), "SUSM_SEQUENCE".as_bytes()) {
                self.sequence =
                match parse_u64(value.as_str()) {
                    Some(n) => n,
                    None => 0,
                };
            } else if same_bytes(name.as_slice(), "SUSM_TIMESTAMP_UNIX_MS".as_bytes()) {
                self.timestamp_unix_ms =
                match parse_i64(value.as_str()) {
                    Some(n) => n,
                    None => 0,
                };
            }
        }
    }
}

/// Reads one record from `start` on: its fields and where it ends.
fn decode_record(bytes: &[u8], start: usize) -> (result: (Reading, usize))
    requires
        start < bytes.len(),
    ensures
        start < result.1 <= bytes.len(),
        read_record(bytes@.skip(start as int), no_fields()) == (
            result.0@,
            bytes@.skip(result.1 as int),
        ),
{
    let mut reading: Reading = Reading {
        stream: String::new(),
        sequence: 0,
        timestamp_unix_ms: 0,
        message: None,
    };
    let mut cursor: usize = start;
    let ghost goal = read_record(bytes@.skip(start as int), no_fields());
    assert(reading@ =~= no_fields());
    loop
        invariant
            start <= cursor <= bytes.len(),
            start < bytes.len(),
            goal == read_record(bytes@.skip(start as int), no_fields()),
            goal == read_record(bytes@.skip(cursor as int), reading@),
        decreases bytes.len() - cursor,
    {
        let ghost rest = bytes@.skip(cursor as int);
        let end: usize = find_byte(bytes, cursor, NEWLINE);
        proof {
            assert(bytes@.skip(bytes@.len() as int) =~= Seq::empty());
        }
        if end == bytes.len() {
            return (reading, bytes.len());
        }
        assert(rest.take(end - cursor) =~= bytes@.subrange(cursor as int, end as int));
        assert(rest.skip(end - cursor + 1) =~= bytes@.skip(end + 1));
        if end == cursor {
            return (reading, end + 1);
        }
        let line: Vec<u8> = copy_range(bytes, cursor, end);
        cursor = end + 1;
        let ghost after = bytes@.skip(cursor as int);
        if same_bytes(line.as_slice(), "MESSAGE".as_bytes()) {
            if bytes.len() - cursor < 8 {
                return (reading, bytes.len());
            }
            assert(after.take(8) =~= bytes@.subrange(cursor as int, cursor + 8));
            let length: u64 = read_u64(bytes, cursor);
            cursor += 8;
            assert(after.skip(8) =~= bytes@.skip(cursor as int));
            if length >= (bytes.len() - cursor) as u64 {
                return (reading, bytes.len());
            }
            let last: usize = cursor + length as usize;
            assert(bytes@.skip(cursor as int).take(length as int) =~= bytes@.subrange(
                cursor as int,
                last as int,
            ));
            assert(bytes@.skip(cursor as int).skip(length + 1) =~= bytes@.skip(last + 1));
            reading.message = Some(copy_range(bytes, cursor, last));
            if bytes[last] != NEWLINE {
                return (reading, bytes.len());
            }
            cursor = last + 1;
        } else {
            reading.read_line(line.as_slice());
        }
    }
}

/// Reads the records of a segment.
pub fn decode_journal(bytes: &[u8], execution_id: &str, attempt: u32) -> (found: Vec<
    ReadLogsResponse,
>)
    ensures
        log_views(found@) == records(bytes@, execution_id@, attempt),
{
    let mut found: Vec<ReadLogsResponse> = Vec::new();
    let mut cursor: usize = 0;
    assert(bytes@.skip(0) =~= bytes@);
    assert(log_views(found@) =~= Seq::empty());
    while cursor < bytes.len()
        invariant
            cursor <= bytes.len(),
            log_views(found@) + records(bytes@.skip(cursor as int), execution_id@, attempt)
                == records(bytes@, execution_id@, attempt),
        decreases bytes.len() - cursor,
    {
        let ghost before = found@;
        let (reading, next): (Reading, usize) = decode_record(bytes, cursor);
        let ghost fields = reading@;
        let ghost tail = records(bytes@.skip(next as int), execution_id@, attempt);
        match reading.message {
            Some(message) => {
                found.push(
                    ReadLogsResponse {
                        execution_id: execution_id.to_owned(),
                        attempt,
                        stream: reading.stream,
                        sequence: reading.sequence,
                        timestamp_unix_ms: reading.timestamp_unix_ms,
                        message,
                        gap: String::new(),
                    },
                );
                assert(log_views(found@) =~= log_views(before) + record_of(
                    execution_id@,
                    attempt,
                    fields,
                ));
            },
            None => {
                assert(log_views(found@) =~= log_views(before) + record_of(
                    execution_id@,
                    attempt,
                    fields,
                ));
            },
        }
        assert(log_views(before) + (record_of(execution_id@, attempt, fields) + tail) =~= log_views(
            before,
        ) + record_of(execution_id@, attempt, fields) + tail);
        cursor = next;
    }
    assert(bytes@.skip(cursor as int).len() == 0);
    assert(log_views(found@) + Seq::empty() =~= log_views(found@));
    found
}

proof fn lemma_scalar_bytes(scalar: u32, i: int)
    requires
        0 <= i < encode_scalar(scalar).len(),
    ensures
        encode_scalar(scalar)[i] == scalar || encode_scalar(scalar)[i] >= 0x80,
{
    assert(has_width_1_encoding(scalar) ==> leading_byte_width_1(scalar) == scalar) by (bit_vector);
    assert(leading_byte_width_2(scalar) >= 0x80) by (bit_vector);
    assert(leading_byte_width_3(scalar) >= 0x80) by (bit_vector);
    assert(leading_byte_width_4(scalar) >= 0x80) by (bit_vector);
    assert(last_continuation_byte(scalar) >= 0x80) by (bit_vector);
    assert(second_last_continuation_byte(scalar) >= 0x80) by (bit_vector);
    assert(third_last_continuation_byte(scalar) >= 0x80) by (bit_vector);
}

proof fn lemma_characters_differ(text: Seq<char>, c: char, byte: u8)
    requires
        !text.contains(c),
        byte as char == c,
    ensures
        forall|i: int| 0 <= i < text.len() ==> #[trigger] text[i] as u32 != byte,
{
    assert forall|i: int| 0 <= i < text.len() implies #[trigger] text[i] as u32 != byte by {
        assert(text.contains(text[i]));
        if text[i] as u32 == byte {
            char_u32_cast(text[i], byte as u32);
        }
    }
}

/// A text without an ASCII character has no byte of it in its encoding.
proof fn lemma_absent_byte(text: Seq<char>, byte: u8)
    requires
        forall|i: int| 0 <= i < text.len() ==> #[trigger] text[i] as u32 != byte,
        byte <= 0x7f,
    ensures
        forall|i: int| 0 <= i < encode_utf8(text).len() ==> encode_utf8(text)[i] != byte,
    decreases text.len(),
{
    if text.len() > 0 {
        let first = encode_scalar(text[0] as u32);
        let rest = text.drop_first();
        lemma_absent_byte(rest, byte);
        assert forall|i: int| 0 <= i < encode_utf8(text).len() implies encode_utf8(text)[i]
            != byte by {
            if i < first.len() {
                lemma_scalar_bytes(text[0] as u32, i);
                assert(encode_utf8(text)[i] == first[i]);
            } else {
                assert(encode_utf8(text)[i] == encode_utf8(rest)[i - first.len()]);
            }
        }
    }
}

proof fn lemma_encoding_is_injective(a: Seq<char>, b: Seq<char>)
    ensures
        encode_utf8(a) == encode_utf8(b) ==> a == b,
{
    encode_utf8_decode_utf8(a);
    encode_utf8_decode_utf8(b);
}

/// A name that a field can have.
spec fn is_field_name(name: Seq<char>) -> bool {
    name.len() > 0 && !name.contains('\n') && !name.contains('=')
}

/// Reading a line that was written.
proof fn lemma_line_is_read(line: Seq<u8>, rest: Seq<u8>, fields: Fields)
    requires
        line.len() > 0,
        forall|i: int| 0 <= i < line.len() ==> line[i] != NEWLINE,
        line != encode_utf8("MESSAGE"@),
    ensures
        read_record(line + seq![NEWLINE] + rest, fields) == read_record(
            rest,
            after_line(line, fields),
        ),
{
    let all = line + seq![NEWLINE] + rest;
    assert forall|i: int| 0 <= i < line.len() implies all[i] != NEWLINE by {
        assert(all[i] == line[i]);
    }
    lemma_position(all, NEWLINE, line.len() as int);
    assert(all.take(line.len() as int) =~= line);
    assert(all.skip(line.len() as int + 1) =~= rest);
}

proof fn lemma_field_of_line(name: Seq<char>, value: Seq<char>, fields: Fields)
    requires
        is_field_name(name),
    ensures
        after_line(encode_utf8(name) + seq![EQUALS] + encode_utf8(value), fields) == with_field(
            encode_utf8(name),
            value,
            fields,
        ),
{
    let key = encode_utf8(name);
    let text = encode_utf8(value);
    let line = key + seq![EQUALS] + text;
    lemma_characters_differ(name, '=', EQUALS);
    lemma_absent_byte(name, EQUALS);
    assert forall|i: int| 0 <= i < key.len() implies line[i] != EQUALS by {
        assert(line[i] == key[i]);
    }
    lemma_position(line, EQUALS, key.len() as int);
    assert(line.take(key.len() as int) =~= key);
    assert(line.skip(key.len() as int + 1) =~= text);
    encode_utf8_valid_utf8(value);
    encode_utf8_decode_utf8(value);
}

/// Reading a field that was written.
proof fn lemma_field_is_read(name: Seq<char>, value: Seq<char>, rest: Seq<u8>, fields: Fields)
    requires
        is_field_name(name),
        !value.contains('\n'),
    ensures
        read_record(field_line(name, value) + rest, fields) == read_record(
            rest,
            with_field(encode_utf8(name), value, fields),
        ),
{
    let key = encode_utf8(name);
    let text = encode_utf8(value);
    let line = key + seq![EQUALS] + text;
    lemma_characters_differ(name, '\n', NEWLINE);
    lemma_characters_differ(value, '\n', NEWLINE);
    lemma_absent_byte(name, NEWLINE);
    lemma_absent_byte(value, NEWLINE);
    assert forall|i: int| 0 <= i < line.len() implies line[i] != NEWLINE by {
        if i < key.len() {
            assert(line[i] == key[i]);
        } else if i > key.len() {
            assert(line[i] == text[i - key.len() - 1]);
        }
    }
    assert(line[key.len() as int] == EQUALS);
    assert(line != encode_utf8("MESSAGE"@)) by {
        reveal_strlit("MESSAGE");
        lemma_absent_byte("MESSAGE"@, EQUALS);
    }
    lemma_line_is_read(line, rest, fields);
    lemma_field_of_line(name, value, fields);
}

/// Reading the message of an entry that was written.
proof fn lemma_message_is_read(bytes: Seq<u8>, rest: Seq<u8>, fields: Fields)
    requires
        bytes.len() <= u64::MAX,
    ensures
        read_record(entry_message(bytes) + rest, fields) == (
            (Fields { message: Some(bytes), ..fields }),
            rest,
        ),
{
    let name = encode_utf8("MESSAGE"@);
    let all = entry_message(bytes) + rest;
    reveal_strlit("MESSAGE");
    assert(is_ascii_chars("MESSAGE"@));
    is_ascii_chars_encode_utf8("MESSAGE"@);
    lemma_absent_byte("MESSAGE"@, NEWLINE);
    lemma_le_bytes_len(bytes.len(), 8);
    assert forall|i: int| 0 <= i < name.len() implies all[i] == name[i] by {}
    lemma_position(all, NEWLINE, name.len() as int);
    assert(all.take(name.len() as int) =~= name);
    let after = all.skip(name.len() as int + 1);
    assert(after.take(8) =~= le_bytes(bytes.len(), 8));
    lemma_byte_ranges();
    law_le_bytes_round_trip(bytes.len(), 8);
    let body = after.skip(8);
    assert(body.take(bytes.len() as int) =~= bytes);
    assert(body[bytes.len() as int] == NEWLINE);
    let tail = body.skip(bytes.len() as int + 1);
    assert(tail[0] == NEWLINE);
    lemma_position(tail, NEWLINE, 0);
    assert(tail.skip(1) =~= rest);
    let with_message = Fields { message: Some(bytes), ..fields };
    assert(read_record(tail, with_message) == (with_message, rest));
    assert(name.len() == 7);
}

proof fn lemma_numerals_stay_on_a_line(n: int)
    ensures
        !signed_decimal(n).contains('\n'),
        n >= 0 ==> !decimal(n as nat).contains('\n'),
{
    let magnitude = if n < 0 {
        (-n) as nat
    } else {
        n as nat
    };
    lemma_decimal_is_numeral(magnitude);
    let text = signed_decimal(n);
    assert forall|i: int| 0 <= i < text.len() implies text[i] != '\n' by {
        if n < 0 && i > 0 {
            assert(is_digit(decimal(magnitude)[i - 1]));
        } else if n >= 0 {
            assert(is_digit(decimal(magnitude)[i]));
        }
    }
}

proof fn lemma_field_names()
    ensures
        is_field_name("SUSM_FORMAT"@),
        is_field_name("SUSM_RECORD"@),
        is_field_name("SUSM_TIMESTAMP_UNIX_MS"@),
        is_field_name("SUSM_WORKLOAD"@),
        is_field_name("SUSM_EXECUTION"@),
        is_field_name("SUSM_ATTEMPT"@),
        is_field_name("SUSM_SEQUENCE"@),
        is_field_name("SUSM_STREAM"@),
        !"1"@.contains('\n'),
        !"output"@.contains('\n'),
        !"stdout"@.contains('\n'),
        !"stderr"@.contains('\n'),
{
    reveal_strlit("SUSM_FORMAT");
    reveal_strlit("SUSM_RECORD");
    reveal_strlit("SUSM_TIMESTAMP_UNIX_MS");
    reveal_strlit("SUSM_WORKLOAD");
    reveal_strlit("SUSM_EXECUTION");
    reveal_strlit("SUSM_ATTEMPT");
    reveal_strlit("SUSM_SEQUENCE");
    reveal_strlit("SUSM_STREAM");
    reveal_strlit("1");
    reveal_strlit("output");
    reveal_strlit("stdout");
    reveal_strlit("stderr");
}

/// Which of the fields of an entry a reader looks at.
proof fn lemma_known_names(value: Seq<char>, fields: Fields)
    ensures
        with_field(encode_utf8("SUSM_FORMAT"@), value, fields) == fields,
        with_field(encode_utf8("SUSM_RECORD"@), value, fields) == fields,
        with_field(encode_utf8("SUSM_WORKLOAD"@), value, fields) == fields,
        with_field(encode_utf8("SUSM_EXECUTION"@), value, fields) == fields,
        with_field(encode_utf8("SUSM_ATTEMPT"@), value, fields) == fields,
        with_field(encode_utf8("SUSM_STREAM"@), value, fields) == (Fields {
            stream: value,
            ..fields
        }),
        unsigned(value) matches Some(n) ==> with_field(
            encode_utf8("SUSM_SEQUENCE"@),
            value,
            fields,
        ) == (Fields { sequence: n, ..fields }),
        signed(value) matches Some(n) ==> with_field(
            encode_utf8("SUSM_TIMESTAMP_UNIX_MS"@),
            value,
            fields,
        ) == (Fields { timestamp_unix_ms: n, ..fields }),
{
    reveal_strlit("SUSM_FORMAT");
    reveal_strlit("SUSM_RECORD");
    reveal_strlit("SUSM_TIMESTAMP_UNIX_MS");
    reveal_strlit("SUSM_WORKLOAD");
    reveal_strlit("SUSM_EXECUTION");
    reveal_strlit("SUSM_ATTEMPT");
    reveal_strlit("SUSM_SEQUENCE");
    reveal_strlit("SUSM_STREAM");
    assert("SUSM_FORMAT"@[5] == 'F');
    assert("SUSM_RECORD"@[5] == 'R');
    assert("SUSM_STREAM"@[5] == 'S' && "SUSM_STREAM"@.len() == 11);
    assert("SUSM_SEQUENCE"@.len() == 13);
    assert("SUSM_WORKLOAD"@[5] == 'W' && "SUSM_SEQUENCE"@[5] == 'S');
    lemma_encoding_is_injective("SUSM_FORMAT"@, "SUSM_STREAM"@);
    lemma_encoding_is_injective("SUSM_FORMAT"@, "SUSM_SEQUENCE"@);
    lemma_encoding_is_injective("SUSM_FORMAT"@, "SUSM_TIMESTAMP_UNIX_MS"@);
    lemma_encoding_is_injective("SUSM_RECORD"@, "SUSM_STREAM"@);
    lemma_encoding_is_injective("SUSM_RECORD"@, "SUSM_SEQUENCE"@);
    lemma_encoding_is_injective("SUSM_RECORD"@, "SUSM_TIMESTAMP_UNIX_MS"@);
    lemma_encoding_is_injective("SUSM_WORKLOAD"@, "SUSM_STREAM"@);
    lemma_encoding_is_injective("SUSM_WORKLOAD"@, "SUSM_SEQUENCE"@);
    lemma_encoding_is_injective("SUSM_WORKLOAD"@, "SUSM_TIMESTAMP_UNIX_MS"@);
    lemma_encoding_is_injective("SUSM_EXECUTION"@, "SUSM_STREAM"@);
    lemma_encoding_is_injective("SUSM_EXECUTION"@, "SUSM_SEQUENCE"@);
    lemma_encoding_is_injective("SUSM_EXECUTION"@, "SUSM_TIMESTAMP_UNIX_MS"@);
    lemma_encoding_is_injective("SUSM_ATTEMPT"@, "SUSM_STREAM"@);
    lemma_encoding_is_injective("SUSM_ATTEMPT"@, "SUSM_SEQUENCE"@);
    lemma_encoding_is_injective("SUSM_ATTEMPT"@, "SUSM_TIMESTAMP_UNIX_MS"@);
    lemma_encoding_is_injective("SUSM_SEQUENCE"@, "SUSM_STREAM"@);
    lemma_encoding_is_injective("SUSM_TIMESTAMP_UNIX_MS"@, "SUSM_STREAM"@);
    lemma_encoding_is_injective("SUSM_TIMESTAMP_UNIX_MS"@, "SUSM_SEQUENCE"@);
}

/// What a reader is handed of a chunk.
pub open spec fn chunk_record(execution_id: Seq<char>, attempt: u32, chunk: OutputChunk) -> LogView {
    LogView {
        execution_id,
        attempt,
        stream: chunk.stream.text(),
        sequence: chunk.sequence,
        timestamp_unix_ms: chunk.timestamp_unix_ms,
        message: chunk.bytes@,
        gap: Seq::empty(),
    }
}

proof fn lemma_entry_is_read(
    workload_id: Seq<char>,
    execution_id: Seq<char>,
    attempt: u32,
    chunk: OutputChunk,
    rest: Seq<u8>,
)
    requires
        !workload_id.contains('\n'),
        !execution_id.contains('\n'),
    ensures
        read_record(entry(workload_id, execution_id, attempt, chunk) + rest, no_fields()) == (
            (Fields {
                stream: chunk.stream.text(),
                sequence: chunk.sequence,
                timestamp_unix_ms: chunk.timestamp_unix_ms,
                message: Some(chunk.bytes@),
            }),
            rest,
        ),
{
    let timestamp = signed_decimal(chunk.timestamp_unix_ms as int);
    let sequence = decimal(chunk.sequence as nat);
    let f1 = field_line("SUSM_FORMAT"@, "1"@);
    let f2 = field_line("SUSM_RECORD"@, "output"@);
    let f3 = field_line("SUSM_TIMESTAMP_UNIX_MS"@, timestamp);
    let f4 = field_line("SUSM_WORKLOAD"@, workload_id);
    let f5 = field_line("SUSM_EXECUTION"@, execution_id);
    let f6 = field_line("SUSM_ATTEMPT"@, decimal(attempt as nat));
    let f7 = field_line("SUSM_SEQUENCE"@, sequence);
    let f8 = field_line("SUSM_STREAM"@, chunk.stream.text());
    let m = entry_message(chunk.bytes@) + rest;
    let none = no_fields();
    let timed = Fields { timestamp_unix_ms: chunk.timestamp_unix_ms, ..none };
    let numbered = Fields { sequence: chunk.sequence, ..timed };
    let named = Fields { stream: chunk.stream.text(), ..numbered };
    lemma_field_names();
    lemma_numerals_stay_on_a_line(chunk.timestamp_unix_ms as int);
    lemma_numerals_stay_on_a_line(chunk.sequence as int);
    lemma_numerals_stay_on_a_line(attempt as int);
    law_signed_decimal_round_trip(chunk.timestamp_unix_ms);
    law_decimal_round_trip(chunk.sequence);
    lemma_known_names("1"@, none);
    lemma_known_names("output"@, none);
    lemma_known_names(timestamp, none);
    lemma_known_names(workload_id, timed);
    lemma_known_names(execution_id, timed);
    lemma_known_names(decimal(attempt as nat), timed);
    lemma_known_names(sequence, timed);
    lemma_known_names(chunk.stream.text(), numbered);
    lemma_field_is_read("SUSM_STREAM"@, chunk.stream.text(), m, numbered);
    lemma_field_is_read("SUSM_SEQUENCE"@, sequence, f8 + m, timed);
    lemma_field_is_read("SUSM_ATTEMPT"@, decimal(attempt as nat), f7 + (f8 + m), timed);
    lemma_field_is_read("SUSM_EXECUTION"@, execution_id, f6 + (f7 + (f8 + m)), timed);
    lemma_field_is_read("SUSM_WORKLOAD"@, workload_id, f5 + (f6 + (f7 + (f8 + m))), timed);
    lemma_field_is_read(
        "SUSM_TIMESTAMP_UNIX_MS"@,
        timestamp,
        f4 + (f5 + (f6 + (f7 + (f8 + m)))),
        none,
    );
    lemma_field_is_read(
        "SUSM_RECORD"@,
        "output"@,
        f3 + (f4 + (f5 + (f6 + (f7 + (f8 + m))))),
        none,
    );
    lemma_field_is_read(
        "SUSM_FORMAT"@,
        "1"@,
        f2 + (f3 + (f4 + (f5 + (f6 + (f7 + (f8 + m)))))),
        none,
    );
    assert(chunk.bytes@.len() == chunk.bytes.len());
    lemma_message_is_read(chunk.bytes@, rest, named);
    assert(entry(workload_id, execution_id, attempt, chunk) + rest =~= f1 + (f2 + (f3 + (f4 + (f5 + (
    f6 + (f7 + (f8 + m)))))))) by {
        lemma_regroup(f1, f2, f3, f4, f5, f6, f7, f8, entry_message(chunk.bytes@), rest);
    }
}

proof fn lemma_regroup(
    a: Seq<u8>,
    b: Seq<u8>,
    c: Seq<u8>,
    d: Seq<u8>,
    e: Seq<u8>,
    f: Seq<u8>,
    g: Seq<u8>,
    h: Seq<u8>,
    m: Seq<u8>,
    rest: Seq<u8>,
)
    ensures
        (a + (b + (c + (d + (e + (f + (g + h))))))) + m + rest == a + (b + (c + (d + (e + (f + (g
            + (h + (m + rest)))))))),
{
    assert((a + (b + (c + (d + (e + (f + (g + h))))))) + m + rest =~= a + (b + (c + (d + (e + (f
        + (g + (h + (m + rest)))))))));
}

/// An entry that was written is read back with its stream, sequence, time and bytes, whatever
/// follows it, and what follows it is read as if it stood alone.
pub proof fn law_entries_are_read_back(
    workload_id: Seq<char>,
    execution_id: Seq<char>,
    attempt: u32,
    chunk: OutputChunk,
    rest: Seq<u8>,
)
    requires
        !workload_id.contains('\n'),
        !execution_id.contains('\n'),
    ensures
        records(
            entry(workload_id, execution_id, attempt, chunk) + rest,
            execution_id,
            attempt,
        ) == seq![chunk_record(execution_id, attempt, chunk)] + records(
            rest,
            execution_id,
            attempt,
        ),
{
    lemma_entry_is_read(workload_id, execution_id, attempt, chunk, rest);
    assert(entry_message(chunk.bytes@).len() > 0);
}

/// The entries of some chunks, one after the other.
pub open spec fn segment(
    workload_id: Seq<char>,
    execution_id: Seq<char>,
    attempt: u32,
    chunks: Seq<OutputChunk>,
) -> Seq<u8>
    decreases chunks.len(),
{
    if chunks.len() == 0 {
        Seq::empty()
    } else {
        entry(workload_id, execution_id, attempt, chunks[0]) + segment(
            workload_id,
            execution_id,
            attempt,
            chunks.drop_first(),
        )
    }
}

/// Every chunk of a segment is read back, in order. What was torn off after it, or never
/// finished, takes no complete entry with it.
pub proof fn law_segments_are_read_back(
    workload_id: Seq<char>,
    execution_id: Seq<char>,
    attempt: u32,
    chunks: Seq<OutputChunk>,
    torn: Seq<u8>,
)
    requires
        !workload_id.contains('\n'),
        !execution_id.contains('\n'),
    ensures
        records(
            segment(workload_id, execution_id, attempt, chunks) + torn,
            execution_id,
            attempt,
        ) == chunks.map_values(|chunk: OutputChunk| chunk_record(execution_id, attempt, chunk))
            + records(torn, execution_id, attempt),
    decreases chunks.len(),
{
    let kept = chunks.map_values(|chunk: OutputChunk| chunk_record(execution_id, attempt, chunk));
    if chunks.len() == 0 {
        assert(segment(workload_id, execution_id, attempt, chunks) + torn =~= torn);
        assert(kept + records(torn, execution_id, attempt) =~= records(
            torn,
            execution_id,
            attempt,
        ));
    } else {
        let first = entry(workload_id, execution_id, attempt, chunks[0]);
        let others = segment(workload_id, execution_id, attempt, chunks.drop_first());
        law_segments_are_read_back(
            workload_id,
            execution_id,
            attempt,
            chunks.drop_first(),
            torn,
        );
        law_entries_are_read_back(
            workload_id,
            execution_id,
            attempt,
            chunks[0],
            others + torn,
        );
        assert(first + others + torn =~= first + (others + torn));
        let rest = chunks.drop_first().map_values(
            |chunk: OutputChunk| chunk_record(execution_id, attempt, chunk),
        );
        assert(kept =~= seq![chunk_record(execution_id, attempt, chunks[0])] + rest);
        let tail = records(torn, execution_id, attempt);
        assert(seq![chunk_record(execution_id, attempt, chunks[0])] + (rest + tail) =~= kept
            + tail);
    }
}

} // verus!
