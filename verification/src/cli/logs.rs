//! How records of captured output are printed.

use vstd::prelude::*;
use vstd::string::*;

use crate::bytes::copy_range;
use crate::cli::json::{Document, DocumentView, log_json, log_members};
use crate::cli::output::{HumanOutput, format_timestamp, shown_time};
use crate::log_journal::{LogView, ReadLogsResponse};
use crate::text::{decimal, push_decimal, same_text};

verus! {

/// Which marks the lines get.
#[derive(Clone, Copy, Debug, PartialEq, Eq, Structural)]
pub struct LogOptions {
    pub timestamps: bool,
    pub prefix: bool,
}

/// In which style a mark is printed.
#[derive(Clone, Copy, Debug, PartialEq, Eq, Structural)]
pub enum LabelStyle {
    Dimmed,
    Magenta,
    Cyan,
    Warning,
}

/// A piece of what is printed.
#[derive(Debug)]
pub enum Piece {
    /// Bytes of the workload, as they are.
    Bytes(Vec<u8>),
    /// A mark in a style.
    Label { style: LabelStyle, text: String },
    /// A text without a style.
    Text(String),
}

#[verifier::ext_equal]
pub enum PieceView {
    Bytes(Seq<u8>),
    Label { style: LabelStyle, text: Seq<char> },
    Text(Seq<char>),
}

impl Piece {
    pub open spec fn view(&self) -> PieceView {
        match *self {
            Piece::Bytes(bytes) => PieceView::Bytes(bytes@),
            Piece::Label { style, text } => PieceView::Label { style, text: text@ },
            Piece::Text(text) => PieceView::Text(text@),
        }
    }
}

/// Pieces by what they hold.
pub open spec fn piece_views(pieces: Seq<Piece>) -> Seq<PieceView> {
    pieces.map_values(|piece: Piece| piece@)
}

/// On which stream something is printed, and what.
#[derive(Debug)]
pub struct Printed {
    pub to_stderr: bool,
    pub pieces: Vec<Piece>,
}

/// The marks at the beginning of a line of a record.
pub open spec fn prefix_pieces(record: LogView, options: LogOptions) -> Seq<PieceView> {
    (if options.timestamps {
        seq![
            PieceView::Label {
                style: LabelStyle::Dimmed,
                text: shown_time(record.timestamp_unix_ms),
            },
            PieceView::Text(" "@),
        ]
    } else {
        Seq::empty()
    }) + (if options.prefix {
        seq![
            PieceView::Label {
                style: if record.stream == "stderr"@ {
                    LabelStyle::Magenta
                } else {
                    LabelStyle::Cyan
                },
                text: record.stream + "#"@ + decimal(record.attempt as nat),
            },
            PieceView::Label { style: LabelStyle::Dimmed, text: " | "@ },
        ]
    } else {
        Seq::empty()
    })
}

/// Where the first line of some bytes ends, its end of line included.
pub open spec fn line_end(bytes: Seq<u8>) -> int
    decreases bytes.len(),
{
    if bytes.len() == 0 {
        0
    } else if bytes[0] == 10 {
        1
    } else {
        1 + line_end(bytes.drop_first())
    }
}

/// Bytes with the marks before each line that begins in them.
pub open spec fn marked(bytes: Seq<u8>, line_start: bool, prefix: Seq<PieceView>) -> Seq<PieceView>
    decreases bytes.len(),
{
    proof {
        lemma_line_end(bytes);
    }
    if bytes.len() == 0 {
        Seq::empty()
    } else {
        let end = line_end(bytes);
        (if line_start {
            prefix
        } else {
            Seq::empty()
        }) + seq![PieceView::Bytes(bytes.take(end))] + marked(
            bytes.skip(end),
            bytes[end - 1] == 10,
            prefix,
        )
    }
}

pub proof fn lemma_line_end(bytes: Seq<u8>)
    ensures
        0 <= line_end(bytes) <= bytes.len(),
        bytes.len() > 0 ==> line_end(bytes) > 0,
        forall|i: int| 0 <= i < line_end(bytes) - 1 ==> bytes[i] != 10,
        line_end(bytes) < bytes.len() ==> bytes[line_end(bytes) - 1] == 10,
    decreases bytes.len(),
{
    if bytes.len() > 0 && bytes[0] != 10 {
        lemma_line_end(bytes.drop_first());
        let rest = bytes.drop_first();
        assert forall|i: int| 0 <= i < line_end(bytes) - 1 implies bytes[i] != 10 by {
            if i > 0 {
                assert(rest[i - 1] == bytes[i]);
            }
        }
    }
}

/// What is printed of a record on a stream that stands at the beginning of a line, or not.
pub open spec fn record_pieces(record: LogView, options: LogOptions, line_start: bool) -> Seq<
    PieceView,
> {
    if !options.timestamps && !options.prefix {
        seq![PieceView::Bytes(record.message)]
    } else {
        marked(record.message, line_start, prefix_pieces(record, options))
    }
}

/// Whether a stream stands at the beginning of a line after some bytes.
pub open spec fn line_start_after(bytes: Seq<u8>, line_start: bool) -> bool {
    if bytes.len() == 0 {
        line_start
    } else {
        bytes.last() == 10
    }
}

/// The bytes of the workload among some pieces.
pub open spec fn bytes_printed(pieces: Seq<PieceView>) -> Seq<u8>
    decreases pieces.len(),
{
    if pieces.len() == 0 {
        Seq::empty()
    } else {
        bytes_printed(pieces.drop_last()) + (match pieces.last() {
            PieceView::Bytes(bytes) => bytes,
            _ => Seq::empty(),
        })
    }
}

proof fn lemma_bytes_printed_concat(a: Seq<PieceView>, b: Seq<PieceView>)
    ensures
        bytes_printed(a + b) == bytes_printed(a) + bytes_printed(b),
    decreases b.len(),
{
    if b.len() == 0 {
        assert(a + b =~= a);
        assert(bytes_printed(a) + bytes_printed(b) =~= bytes_printed(a));
    } else {
        lemma_bytes_printed_concat(a, b.drop_last());
        assert((a + b).drop_last() =~= a + b.drop_last());
        let last = match b.last() {
            PieceView::Bytes(bytes) => bytes,
            _ => Seq::empty(),
        };
        assert((a + b).last() == b.last());
        assert(bytes_printed(a) + (bytes_printed(b.drop_last()) + last) =~= (bytes_printed(a)
            + bytes_printed(b.drop_last())) + last);
    }
}

proof fn lemma_one_piece(bytes: Seq<u8>)
    ensures
        bytes_printed(seq![PieceView::Bytes(bytes)]) == bytes,
{
    reveal_with_fuel(bytes_printed, 2);
    let pieces = seq![PieceView::Bytes(bytes)];
    assert(pieces.drop_last() =~= Seq::<PieceView>::empty());
    assert(bytes_printed(pieces) =~= Seq::<u8>::empty() + bytes);
    assert(Seq::<u8>::empty() + bytes =~= bytes);
}

proof fn lemma_marks_hold_no_bytes(record: LogView, options: LogOptions)
    ensures
        bytes_printed(prefix_pieces(record, options)) == Seq::<u8>::empty(),
{
    let prefix = prefix_pieces(record, options);
    lemma_no_bytes(prefix);
}

proof fn lemma_no_bytes(pieces: Seq<PieceView>)
    requires
        forall|i: int| 0 <= i < pieces.len() ==> !(#[trigger] pieces[i] is Bytes),
    ensures
        bytes_printed(pieces) == Seq::<u8>::empty(),
    decreases pieces.len(),
{
    if pieces.len() > 0 {
        lemma_no_bytes(pieces.drop_last());
        assert(!(pieces[pieces.len() - 1] is Bytes));
        assert(bytes_printed(pieces) =~= Seq::<u8>::empty());
    }
}

proof fn lemma_marked_bytes(bytes: Seq<u8>, line_start: bool, prefix: Seq<PieceView>)
    requires
        bytes_printed(prefix) == Seq::<u8>::empty(),
    ensures
        bytes_printed(marked(bytes, line_start, prefix)) == bytes,
    decreases bytes.len(),
{
    lemma_line_end(bytes);
    if bytes.len() == 0 {
        assert(bytes_printed(marked(bytes, line_start, prefix)) =~= bytes);
    } else {
        let end = line_end(bytes);
        let marks = if line_start {
            prefix
        } else {
            Seq::empty()
        };
        let line = seq![PieceView::Bytes(bytes.take(end))];
        let rest = marked(bytes.skip(end), bytes[end - 1] == 10, prefix);
        lemma_marked_bytes(bytes.skip(end), bytes[end - 1] == 10, prefix);
        lemma_bytes_printed_concat(marks, line);
        lemma_bytes_printed_concat(marks + line, rest);
        lemma_one_piece(bytes.take(end));
        assert(bytes_printed(marks) =~= Seq::<u8>::empty());
        assert(bytes_printed(marks + line + rest) =~= bytes.take(end) + bytes.skip(end));
        assert(bytes.take(end) + bytes.skip(end) =~= bytes);
    }
}

/// The bytes of a workload are never changed: whatever marks the lines get, what is printed between
/// them is the message.
pub proof fn law_log_bytes_are_never_changed(record: LogView, options: LogOptions, line_start: bool)
    ensures
        bytes_printed(record_pieces(record, options, line_start)) == record.message,
{
    if !options.timestamps && !options.prefix {
        lemma_one_piece(record.message);
    } else {
        lemma_marks_hold_no_bytes(record, options);
        lemma_marked_bytes(record.message, line_start, prefix_pieces(record, options));
    }
}

fn push_piece(pieces: &mut Vec<Piece>, piece: Piece)
    ensures
        piece_views(final(pieces)@) == piece_views(old(pieces)@).push(piece@),
{
    let ghost before = pieces@;
    pieces.push(piece);
    assert(piece_views(pieces@) =~= piece_views(before).push(piece@));
}

fn push_prefix(pieces: &mut Vec<Piece>, record: &ReadLogsResponse, options: LogOptions)
    ensures
        piece_views(final(pieces)@) == piece_views(old(pieces)@) + prefix_pieces(record@, options),
{
    let ghost before = piece_views(pieces@);
    if options.timestamps {
        push_piece(
            pieces,
            Piece::Label {
                style: LabelStyle::Dimmed,
                text: format_timestamp(record.timestamp_unix_ms),
            },
        );
        push_piece(pieces, Piece::Text(" ".to_owned()));
    }
    if options.prefix {
        let style: LabelStyle = if same_text(record.stream.as_str(), "stderr") {
            LabelStyle::Magenta
        } else {
            LabelStyle::Cyan
        };
        let mut text: String = record.stream.clone();
        text.append("#");
        push_decimal(&mut text, record.attempt as u64);
        push_piece(pieces, Piece::Label { style, text });
        push_piece(pieces, Piece::Label { style: LabelStyle::Dimmed, text: " | ".to_owned() });
    }
    assert(piece_views(pieces@) =~= before + prefix_pieces(record@, options));
}

fn push_marked(pieces: &mut Vec<Piece>, record: &ReadLogsResponse, options: LogOptions, line_start: bool) -> (
after: bool)
    ensures
        piece_views(final(pieces)@) == piece_views(old(pieces)@) + marked(
            record@.message,
            line_start,
            prefix_pieces(record@, options),
        ),
        after == line_start_after(record@.message, line_start),
{
    let ghost before = piece_views(pieces@);
    let ghost prefix = prefix_pieces(record@, options);
    let ghost message = record@.message;
    let mut at_start: bool = line_start;
    let mut cursor: usize = 0;
    proof {
        assert(message.skip(0) =~= message);
    }
    while cursor < record.message.len()
        invariant
            cursor <= record.message.len(),
            message == record@.message,
            prefix == prefix_pieces(record@, options),
            before + marked(message, line_start, prefix) == piece_views(pieces@) + marked(
                message.skip(cursor as int),
                at_start,
                prefix,
            ),
            at_start == line_start_after(message.take(cursor as int), line_start),
        decreases record.message.len() - cursor,
    {
        let ghost rest = message.skip(cursor as int);
        let ghost printed = piece_views(pieces@);
        let mut end: usize = cursor;
        while end < record.message.len() && record.message[end] != 10
            invariant
                cursor <= end <= record.message.len(),
                message == record@.message,
                forall|i: int| cursor <= i < end ==> message[i] != 10,
            decreases record.message.len() - end,
        {
            end += 1;
        }
        let newline: bool = end < record.message.len();
        if newline {
            end += 1;
        }
        proof {
            lemma_line_end(rest);
            lemma_line_ends_at(rest, end - cursor);
        }
        if at_start {
            push_prefix(pieces, record, options);
        }
        let line: Vec<u8> = copy_range(record.message.as_slice(), cursor, end);
        proof {
            assert(line@ =~= rest.take(end - cursor));
            assert(rest.skip(end - cursor) =~= message.skip(end as int));
            assert(rest[end - cursor - 1] == message[end - 1]);
            assert(message.take(end as int).last() == message[end - 1]);
        }
        let ghost marks = if at_start {
            prefix
        } else {
            Seq::empty()
        };
        assert(piece_views(pieces@) =~= printed + marks);
        push_piece(pieces, Piece::Bytes(line));
        at_start = newline;
        proof {
            let tail = marked(message.skip(end as int), at_start, prefix);
            let one = seq![PieceView::Bytes(rest.take(end - cursor))];
            assert(printed + (marks + one + tail) =~= piece_views(pieces@) + tail);
        }
        cursor = end;
    }
    proof {
        assert(message.skip(cursor as int).len() == 0);
        assert(piece_views(pieces@) + Seq::empty() =~= piece_views(pieces@));
        assert(message.take(cursor as int) =~= message);
    }
    at_start
}

proof fn lemma_line_ends_at(bytes: Seq<u8>, end: int)
    requires
        0 < end <= bytes.len(),
        forall|i: int| 0 <= i < end - 1 ==> bytes[i] != 10,
        end < bytes.len() ==> bytes[end - 1] == 10,
    ensures
        line_end(bytes) == end,
    decreases bytes.len(),
{
    lemma_line_end(bytes);
    if bytes[0] == 10 {
        if end > 1 {
            assert(bytes[0] != 10);
        }
    } else if end == 1 {
        assert(bytes.len() == 1);
        assert(bytes.drop_first().len() == 0);
    } else {
        let rest = bytes.drop_first();
        assert forall|i: int| 0 <= i < end - 2 implies rest[i] != 10 by {
            assert(rest[i] == bytes[i + 1]);
        }
        lemma_line_ends_at(rest, end - 1);
    }
}

/// Whether this is printed of a record, and where the two streams stand afterwards.
pub open spec fn prints(
    before: HumanOutput,
    record: LogView,
    options: LogOptions,
    printed: Printed,
    after: HumanOutput,
) -> bool {
    let stderr = record.stream == "stderr"@;
    let line_start = if stderr {
        before.stderr_line_start
    } else {
        before.stdout_line_start
    };
    let starts_line = line_start_after(record.message, line_start);
    if record.gap.len() > 0 {
        &&& printed.to_stderr
        &&& piece_views(printed.pieces@) == gap_pieces(record.gap, before.stderr_line_start)
        &&& after == (HumanOutput { stderr_line_start: true, ..before })
    } else {
        &&& printed.to_stderr == stderr
        &&& piece_views(printed.pieces@) == record_pieces(record, options, line_start)
        &&& after == if stderr {
            HumanOutput { stderr_line_start: starts_line, ..before }
        } else {
            HumanOutput { stdout_line_start: starts_line, ..before }
        }
    }
}

/// What is shown of a record: a document for programs, or else what is printed for people.
#[derive(Debug)]
pub enum ShownRecord {
    Json(Document),
    Printed(Printed),
}

impl HumanOutput {
    /// What is shown of a record.
    pub fn show_record(&mut self, record: &ReadLogsResponse, options: LogOptions, json: bool) -> (shown:
        ShownRecord)
        ensures
            match shown {
                ShownRecord::Json(document) => json && document@ == DocumentView::Object(
                    log_members(record@),
                ) && *final(self) == *old(self),
                ShownRecord::Printed(printed) => !json && prints(
                    *old(self),
                    record@,
                    options,
                    printed,
                    *final(self),
                ),
            },
    {
        if json {
            ShownRecord::Json(Document::Object(log_json(record)))
        } else {
            ShownRecord::Printed(self.log_record(record, options))
        }
    }

    /// What is printed of a record.
    pub fn log_record(&mut self, record: &ReadLogsResponse, options: LogOptions) -> (printed: Printed)
        ensures
            prints(*old(self), record@, options, printed, *final(self)),
    {
        if record.gap.as_str().unicode_len() > 0 {
            return self.log_gap(record.gap.as_str());
        }
        let stderr: bool = same_text(record.stream.as_str(), "stderr");
        let line_start: bool = if stderr {
            self.stderr_line_start
        } else {
            self.stdout_line_start
        };
        let mut pieces: Vec<Piece> = Vec::new();
        let after: bool;
        if !options.timestamps && !options.prefix {
            let bytes: Vec<u8> = copy_range(record.message.as_slice(), 0, record.message.len());
            assert(bytes@ =~= record@.message);
            push_piece(&mut pieces, Piece::Bytes(bytes));
            assert(piece_views(pieces@) =~= record_pieces(record@, options, line_start));
            after =
            if record.message.len() == 0 {
                line_start
            } else {
                record.message[record.message.len() - 1] == 10
            };
        } else {
            after = push_marked(&mut pieces, record, options, line_start);
            assert(piece_views(pieces@) =~= record_pieces(record@, options, line_start));
        }
        if stderr {
            self.stderr_line_start = after;
        } else {
            self.stdout_line_start = after;
        }
        Printed { to_stderr: stderr, pieces }
    }

    fn log_gap(&mut self, gap: &str) -> (printed: Printed)
        ensures
            printed.to_stderr,
            piece_views(printed.pieces@) == gap_pieces(gap@, old(self).stderr_line_start),
            *final(self) == (HumanOutput { stderr_line_start: true, ..*old(self) }),
    {
        let mut pieces: Vec<Piece> = Vec::new();
        if !self.stderr_line_start {
            push_piece(&mut pieces, Piece::Text("\n".to_owned()));
            self.stderr_line_start = true;
        }
        push_piece(
            &mut pieces,
            Piece::Label { style: LabelStyle::Warning, text: "warning:".to_owned() },
        );
        let mut text: String = " log gap: ".to_owned();
        text.append(gap);
        text.append("\n");
        push_piece(&mut pieces, Piece::Text(text));
        assert(piece_views(pieces@) =~= gap_pieces(gap@, old(self).stderr_line_start));
        Printed { to_stderr: true, pieces }
    }
}

/// What is printed where captured output is missing.
pub open spec fn gap_pieces(gap: Seq<char>, line_start: bool) -> Seq<PieceView> {
    (if line_start {
        Seq::empty()
    } else {
        seq![PieceView::Text("\n"@)]
    }) + seq![
        PieceView::Label { style: LabelStyle::Warning, text: "warning:"@ },
        PieceView::Text(" log gap: "@ + gap + "\n"@),
    ]
}

} // verus!
