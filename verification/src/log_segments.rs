//! Segments of captured output: when one is closed and the next one opened, how they are named
//! and which of them are kept.

use vstd::prelude::*;
use vstd::string::*;

use crate::messages::LoggingSettings;
use crate::numerals::{padded, push_padded};
use crate::text::{chars_of, decimal, push_char, push_decimal};
use crate::time::Duration;

verus! {

/// The sum of two counts, or the largest count.
pub open spec fn saturating_sum(a: u64, b: u64) -> u64 {
    if a + b > u64::MAX {
        u64::MAX
    } else {
        (a + b) as u64
    }
}

/// Whether a segment with `bytes` in it, open for `elapsed`, is closed before `next` more bytes
/// are written: an empty segment never is.
pub open spec fn rotates(bytes: u64, next: u64, elapsed: Duration, settings: LoggingSettings) -> bool {
    bytes != 0 && (saturating_sum(bytes, next) > settings.segment_size || elapsed@
        >= settings.segment_age_ms * 1_000_000)
}

/// Whether a segment is closed before `next` more bytes are written.
pub fn should_rotate(bytes: u64, next: u64, elapsed: Duration, settings: LoggingSettings) -> (rotate:
    bool)
    ensures
        rotate == rotates(bytes, next, elapsed, settings),
{
    bytes != 0 && (bytes.saturating_add(next) > settings.segment_size || elapsed.as_nanos()
        >= settings.segment_age_ms as u128 * 1_000_000)
}

/// How a segment writer stands.
#[derive(Clone, Copy, Debug, PartialEq, Eq, Structural)]
pub struct WriterState {
    pub settings: LoggingSettings,
    pub next_segment: u32,
    /// The bytes in the open segment, while one is open.
    pub open: Option<u64>,
}

/// What a segment writer is told.
#[derive(Clone, Copy, Debug, PartialEq, Eq, Structural)]
pub enum WriterEvent {
    /// Output arrived whose entry takes this many bytes; the open segment has been open for
    /// `elapsed`.
    Chunk { entry: u64, elapsed: Duration },
    /// It is time to flush.
    Tick { elapsed: Duration },
    /// The logging settings changed.
    Settings { settings: LoggingSettings, elapsed: Duration },
    /// No more output will come.
    Closed,
}

/// What a segment writer does.
#[derive(Clone, Copy, Debug, PartialEq, Eq, Structural)]
pub enum WriterAction {
    CreateDirectory,
    Open { segment: u32 },
    Write,
    Flush,
    Finish,
    ApplyRetention,
}

impl WriterState {
    /// A segment is open exactly while output is captured.
    pub open spec fn well_formed(self) -> bool {
        self.open is Some <==> self.settings.capture_logs
    }

    /// The state after the next segment was opened.
    pub open spec fn opened(self) -> WriterState {
        WriterState { next_segment: (self.next_segment + 1) as u32, open: Some(0), ..self }
    }

    /// How a writer begins.
    pub open spec fn begins(settings: LoggingSettings) -> (WriterState, Seq<WriterAction>) {
        let fresh = WriterState { settings, next_segment: 0, open: None };
        if settings.capture_logs {
            (
                fresh.opened(),
                seq![WriterAction::CreateDirectory, WriterAction::Open { segment: 0 }],
            )
        } else {
            (fresh, Seq::empty())
        }
    }

    /// What a writer does next.
    pub open spec fn step(self, event: WriterEvent) -> (WriterState, Seq<WriterAction>) {
        let replace = seq![
            WriterAction::Finish,
            WriterAction::ApplyRetention,
            WriterAction::Open { segment: self.next_segment },
        ];
        match event {
            WriterEvent::Chunk { entry, elapsed } => match self.open {
                None => (self, Seq::empty()),
                Some(bytes) => if rotates(bytes, entry, elapsed, self.settings) {
                    (
                        WriterState { open: Some(entry), ..self.opened() },
                        replace.push(WriterAction::Write),
                    )
                } else {
                    (
                        WriterState { open: Some(saturating_sum(bytes, entry)), ..self },
                        seq![WriterAction::Write],
                    )
                },
            },
            WriterEvent::Tick { elapsed } => match self.open {
                None => (self, Seq::empty()),
                Some(bytes) => if rotates(bytes, 0, elapsed, self.settings) {
                    (self.opened(), seq![WriterAction::Flush] + replace)
                } else {
                    (self, seq![WriterAction::Flush])
                },
            },
            WriterEvent::Settings { settings, elapsed } => {
                let changed = WriterState { settings, ..self };
                match self.open {
                    Some(bytes) => if !settings.capture_logs {
                        (WriterState { open: None, ..changed }, seq![WriterAction::Finish])
                    } else if rotates(bytes, 0, elapsed, settings) {
                        (
                            changed.opened(),
                            seq![
                                WriterAction::Finish,
                                WriterAction::Open { segment: self.next_segment },
                                WriterAction::ApplyRetention,
                            ],
                        )
                    } else {
                        (changed, seq![WriterAction::ApplyRetention])
                    },
                    None => if settings.capture_logs {
                        (
                            changed.opened(),
                            seq![
                                WriterAction::CreateDirectory,
                                WriterAction::Open { segment: self.next_segment },
                                WriterAction::ApplyRetention,
                            ],
                        )
                    } else {
                        (changed, Seq::empty())
                    },
                }
            },
            WriterEvent::Closed => match self.open {
                Some(bytes) => (
                    WriterState { open: None, ..self },
                    seq![WriterAction::Finish, WriterAction::ApplyRetention],
                ),
                None => (self, Seq::empty()),
            },
        }
    }

    /// Begins to write.
    pub fn start(settings: LoggingSettings) -> (result: (WriterState, Vec<WriterAction>))
        ensures
            (result.0, result.1@) == WriterState::begins(settings),
            result.0.well_formed(),
    {
        let mut actions: Vec<WriterAction> = Vec::new();
        if settings.capture_logs {
            actions.push(WriterAction::CreateDirectory);
            actions.push(WriterAction::Open { segment: 0 });
            assert(actions@ =~= WriterState::begins(settings).1);
            (WriterState { settings, next_segment: 1, open: Some(0) }, actions)
        } else {
            assert(actions@ =~= WriterState::begins(settings).1);
            (WriterState { settings, next_segment: 0, open: None }, actions)
        }
    }

    /// Whether an event opens the next segment.
    pub open spec fn opens(self, event: WriterEvent) -> bool {
        match event {
            WriterEvent::Chunk { entry, elapsed } => self.open matches Some(bytes) && rotates(
                bytes,
                entry,
                elapsed,
                self.settings,
            ),
            WriterEvent::Tick { elapsed } => self.open matches Some(bytes) && rotates(
                bytes,
                0,
                elapsed,
                self.settings,
            ),
            WriterEvent::Settings { settings, elapsed } => settings.capture_logs && (
            self.open matches Some(bytes) ==> rotates(bytes, 0, elapsed, settings)),
            WriterEvent::Closed => false,
        }
    }

    /// Takes one event and says what is to be done. The number of a segment that is opened has to
    /// fit.
    pub fn handle(self, event: WriterEvent) -> (result: (WriterState, Vec<WriterAction>))
        requires
            self.opens(event) ==> self.next_segment < u32::MAX,
        ensures
            (result.0, result.1@) == self.step(event),
    {
        let mut actions: Vec<WriterAction> = Vec::new();
        let mut next: WriterState = self;
        let segment: u32 = self.next_segment;
        match event {
            WriterEvent::Chunk { entry, elapsed } => {
                if let Some(bytes) = self.open {
                    if should_rotate(bytes, entry, elapsed, self.settings) {
                        actions.push(WriterAction::Finish);
                        actions.push(WriterAction::ApplyRetention);
                        actions.push(WriterAction::Open { segment });
                        next.next_segment = segment + 1;
                        next.open = Some(entry);
                    } else {
                        next.open = Some(bytes.saturating_add(entry));
                    }
                    actions.push(WriterAction::Write);
                }
            },
            WriterEvent::Tick { elapsed } => {
                if let Some(bytes) = self.open {
                    actions.push(WriterAction::Flush);
                    if should_rotate(bytes, 0, elapsed, self.settings) {
                        actions.push(WriterAction::Finish);
                        actions.push(WriterAction::ApplyRetention);
                        actions.push(WriterAction::Open { segment });
                        next.next_segment = segment + 1;
                        next.open = Some(0);
                    }
                }
            },
            WriterEvent::Settings { settings, elapsed } => {
                next.settings = settings;
                match self.open {
                    Some(bytes) => {
                        if !settings.capture_logs {
                            actions.push(WriterAction::Finish);
                            next.open = None;
                        } else if should_rotate(bytes, 0, elapsed, settings) {
                            actions.push(WriterAction::Finish);
                            actions.push(WriterAction::Open { segment });
                            next.next_segment = segment + 1;
                            next.open = Some(0);
                        }
                    },
                    None => {
                        if settings.capture_logs {
                            actions.push(WriterAction::CreateDirectory);
                            actions.push(WriterAction::Open { segment });
                            next.next_segment = segment + 1;
                            next.open = Some(0);
                        }
                    },
                }
                if settings.capture_logs {
                    actions.push(WriterAction::ApplyRetention);
                }
            },
            WriterEvent::Closed => {
                if let Some(_) = self.open {
                    actions.push(WriterAction::Finish);
                    actions.push(WriterAction::ApplyRetention);
                    next.open = None;
                }
            },
        }
        assert(actions@ =~= self.step(event).1);
        (next, actions)
    }
}

/// Which segment is open after some actions, if `open` was before them; `None` where an action
/// opens a second segment, or writes to or closes none.
pub open spec fn segments_after(open: Option<u32>, actions: Seq<WriterAction>) -> Option<
    Option<u32>,
>
    decreases actions.len(),
{
    if actions.len() == 0 {
        Some(open)
    } else {
        let rest = actions.drop_first();
        match actions[0] {
            WriterAction::Open { segment } => if open is None {
                segments_after(Some(segment), rest)
            } else {
                None
            },
            WriterAction::Finish => if open is Some {
                segments_after(None, rest)
            } else {
                None
            },
            WriterAction::Write | WriterAction::Flush => if open is Some {
                segments_after(open, rest)
            } else {
                None
            },
            WriterAction::CreateDirectory | WriterAction::ApplyRetention => segments_after(
                open,
                rest,
            ),
        }
    }
}

/// The segment that a writer has open: the last one that it numbered.
pub open spec fn open_segment(state: WriterState) -> Option<u32> {
    if state.open is Some {
        Some((state.next_segment - 1) as u32)
    } else {
        None
    }
}

/// At most one segment is open at a time, writing only ever goes to an open one, segments are
/// numbered in a row, and a segment is open exactly while output is captured.
pub proof fn law_segments_follow_each_other(state: WriterState, event: WriterEvent)
    requires
        state.opens(event) ==> state.next_segment < u32::MAX,
        state.open is Some ==> state.next_segment > 0,
    ensures
        segments_after(open_segment(state), state.step(event).1) == Some(
            open_segment(state.step(event).0),
        ),
        state.next_segment <= state.step(event).0.next_segment <= state.next_segment + 1,
        state.step(event).0.open is Some ==> state.step(event).0.next_segment > 0,
        state.well_formed() && event !is Closed ==> state.step(event).0.well_formed(),
{
    reveal_with_fuel(segments_after, 6);
    let actions = state.step(event).1;
    assert(actions.len() > 0 ==> actions.drop_first().len() == actions.len() - 1);
    let rest = actions.drop_first();
    let rest2 = rest.drop_first();
    let rest3 = rest2.drop_first();
    let rest4 = rest3.drop_first();
    assert(actions.len() > 1 ==> rest[0] == actions[1]);
    assert(actions.len() > 2 ==> rest2[0] == actions[2]);
    assert(actions.len() > 3 ==> rest3[0] == actions[3]);
}

/// A chunk is written exactly while output is captured, and to one segment.
pub proof fn law_chunks_are_written_once(state: WriterState, entry: u64, elapsed: Duration)
    requires
        state.well_formed(),
    ensures
        ({
            let actions = state.step(WriterEvent::Chunk { entry, elapsed }).1;
            if state.settings.capture_logs {
                actions.len() > 0 && actions.last() == WriterAction::Write && forall|i: int|
                    0 <= i < actions.len() - 1 ==> actions[i] != WriterAction::Write
            } else {
                actions.len() == 0
            }
        }),
{
}

/// The form of the time in the name of a segment.
pub const STAMP_FORMAT: &'static str = "%Y%m%dT%H%M%S.%9fZ";

/// What a time in the name of a segment looks like, for a time that can be written.
pub uninterp spec fn stamp_text(unix_nanos: i128, format: Seq<char>) -> Option<Seq<char>>;

/// Writes a time by `jiff::Timestamp::from_nanosecond` and `Timestamp::strftime`: nothing where
/// the time is outside the range of a timestamp. How the parts of the time are written is left to
/// the name.
#[verifier::external_body]
pub(crate) fn write_stamp(unix_nanos: i128, format: &str) -> (stamp: Option<String>)
    requires
        format@ == STAMP_FORMAT@,
    ensures
        match stamp {
            Some(text) => stamp_text(unix_nanos, format@) == Some(text@),
            None => stamp_text(unix_nanos, format@) is None,
        },
{
    match jiff::Timestamp::from_nanosecond(unix_nanos) {
        Ok(time) => Some(time.strftime(format).to_string()),
        Err(_) => None,
    }
}

/// The names of one segment through its life.
#[derive(Debug)]
pub struct SegmentNames {
    /// While it is written.
    pub open: String,
    /// Once it is complete.
    pub finalized: String,
    /// While it is compressed.
    pub temporary: String,
    /// Once it is compressed.
    pub compressed: String,
}

/// The name of a complete segment: its time, with spaces after it up to twenty characters, and
/// its number.
pub open spec fn segment_name(stamp: Seq<char>, segment: u32) -> Seq<char> {
    let blank = if stamp.len() < 20 {
        (20 - stamp.len()) as nat
    } else {
        0
    };
    stamp + Seq::new(blank, |i: int| ' ') + seq!['-'] + padded(segment as nat, 6)
        + ".susm-journal"@
}

impl SegmentNames {
    /// The names of a segment that was begun at this time.
    pub open spec fn named(self, stamp: Seq<char>, segment: u32, process_id: u32) -> bool {
        let name = segment_name(stamp, segment);
        &&& self.finalized@ == name
        &&& self.open@ == name + ".open"@
        &&& self.compressed@ == name + ".zst"@
        &&& self.temporary@ == name + (".zst."@ + decimal(process_id as nat) + ".tmp"@)
    }

    /// Names a segment whose time is already written.
    pub fn from_stamp(stamp: &str, segment: u32, process_id: u32) -> (names: SegmentNames)
        ensures
            names.named(stamp@, segment, process_id),
    {
        let mut name: String = stamp.to_owned();
        let count: usize = chars_of(stamp).len();
        let blank: usize = if count < 20 {
            20 - count
        } else {
            0
        };
        let mut i: usize = 0;
        while i < blank
            invariant
                i <= blank,
                name@ == stamp@ + Seq::new(i as nat, |k: int| ' '),
            decreases blank - i,
        {
            push_char(&mut name, ' ');
            i += 1;
            assert(name@ =~= stamp@ + Seq::new(i as nat, |k: int| ' '));
        }
        push_char(&mut name, '-');
        push_padded(&mut name, segment as u64, 6);
        name.append(".susm-journal");
        assert(name@ =~= segment_name(stamp@, segment));
        let mut open: String = name.clone();
        open.append(".open");
        let mut compressed: String = name.clone();
        compressed.append(".zst");
        let mut temporary: String = name.clone();
        temporary.append(".zst.");
        push_decimal(&mut temporary, process_id as u64);
        temporary.append(".tmp");
        assert(temporary@ =~= name@ + (".zst."@ + decimal(process_id as nat) + ".tmp"@));
        SegmentNames { open, finalized: name, temporary, compressed }
    }

    /// Names a segment that is begun at this time.
    pub fn at(unix_nanos: i128, segment: u32, process_id: u32) -> (names: Option<SegmentNames>)
        ensures
            match names {
                Some(names) => stamp_text(unix_nanos, STAMP_FORMAT@) matches Some(stamp)
                    && names.named(stamp, segment, process_id),
                None => stamp_text(unix_nanos, STAMP_FORMAT@) is None,
            },
    {
        match write_stamp(unix_nanos, STAMP_FORMAT) {
            Some(stamp) => Some(SegmentNames::from_stamp(stamp.as_str(), segment, process_id)),
            None => None,
        }
    }
}

/// A segment that lies in the directory of a workload.
#[derive(Clone, Copy, Debug, PartialEq, Eq, Structural)]
pub struct FinalizedFile {
    /// When it was last written, in nanoseconds after the Unix epoch.
    pub modified: i128,
    pub bytes: u64,
}

/// Whether a file belongs to a journal, by its name.
pub open spec fn is_journal_name(name: Seq<char>) -> bool {
    exists|i: int| #[trigger] holds_at(name, ".susm-journal"@, i)
}

/// Whether one text stands in another at a place.
pub open spec fn holds_at(text: Seq<char>, part: Seq<char>, at: int) -> bool {
    0 <= at && at + part.len() <= text.len() && text.subrange(at, at + part.len()) == part
}

/// Whether a file belongs to a journal.
pub fn is_journal_file(name: &str) -> (is_journal: bool)
    ensures
        is_journal == is_journal_name(name@),
{
    let chars: Vec<char> = chars_of(name);
    let part: Vec<char> = chars_of(".susm-journal");
    proof {
        reveal_strlit(".susm-journal");
    }
    let mut at: usize = 0;
    while at < chars.len() && part.len() <= chars.len() - at
        invariant
            at <= chars.len(),
            chars@ == name@,
            part@ == ".susm-journal"@,
            part.len() == 13,
            forall|i: int| 0 <= i < at ==> !#[trigger] holds_at(name@, ".susm-journal"@, i),
        decreases chars.len() - at,
    {
        let mut k: usize = 0;
        while k < part.len() && chars[at + k] == part[k]
            invariant
                k <= part.len(),
                at + part.len() <= chars.len(),
                forall|j: int| 0 <= j < k ==> chars@[at + j] == part@[j],
            decreases part.len() - k,
        {
            k += 1;
        }
        if k == part.len() {
            assert(name@.subrange(at as int, at + part@.len()) =~= part@);
            assert(holds_at(name@, ".susm-journal"@, at as int));
            return true;
        }
        assert(name@.subrange(at as int, at + part@.len())[k as int] != part@[k as int]);
        at += 1;
    }
    assert forall|i: int| !#[trigger] holds_at(name@, ".susm-journal"@, i) by {}
    false
}

/// Puts a file into its place among files that stand in the order of their age: after all that
/// are not younger.
pub open spec fn place_by_age(files: Seq<FinalizedFile>, order: Seq<int>, file: int) -> Seq<int>
    decreases order.len(),
{
    if order.len() == 0 || files[order.last()].modified <= files[file].modified {
        order.push(file)
    } else {
        place_by_age(files, order.drop_last(), file).push(order.last())
    }
}

/// The first `n` files in the order of their age, the oldest first. Files of one age keep their
/// order.
pub open spec fn age_order(files: Seq<FinalizedFile>, n: int) -> Seq<int>
    decreases n,
{
    if n <= 0 {
        Seq::empty()
    } else {
        place_by_age(files, age_order(files, n - 1), n - 1)
    }
}

/// Whether a file is older than the settings allow.
pub open spec fn is_outdated(file: FinalizedFile, now: i128, settings: LoggingSettings) -> bool {
    !settings.retention_age_unlimited && now - file.modified > settings.retention_age_ms * 1_000_000
}

/// The bytes of some files.
pub open spec fn total_bytes(files: Seq<FinalizedFile>, order: Seq<int>) -> nat
    decreases order.len(),
{
    if order.len() == 0 {
        0
    } else {
        total_bytes(files, order.drop_last()) + files[order.last()].bytes as nat
    }
}

/// How many of the oldest files go so that the rest fit into `limit` bytes.
pub open spec fn excess(files: Seq<FinalizedFile>, order: Seq<int>, limit: nat) -> int
    decreases order.len(),
{
    if order.len() == 0 || total_bytes(files, order) <= limit {
        0
    } else {
        1 + excess(files, order.drop_first(), limit)
    }
}

/// The files that have aged out, in order.
pub open spec fn outdated(files: Seq<FinalizedFile>, now: i128, settings: LoggingSettings) -> Seq<
    int,
> {
    age_order(files, files.len() as int).filter(
        |file: int| is_outdated(files[file], now, settings),
    )
}

/// The files that have not aged out, in order.
pub open spec fn current(files: Seq<FinalizedFile>, now: i128, settings: LoggingSettings) -> Seq<
    int,
> {
    age_order(files, files.len() as int).filter(
        |file: int| !is_outdated(files[file], now, settings),
    )
}

/// The files that are removed, in order: first those that have aged out, then the oldest of the
/// others until the rest fit.
pub open spec fn removals(files: Seq<FinalizedFile>, now: i128, settings: LoggingSettings) -> Seq<
    int,
> {
    let rest = current(files, now, settings);
    if settings.retention_size_unlimited {
        outdated(files, now, settings)
    } else {
        outdated(files, now, settings) + rest.take(
            excess(files, rest, settings.retention_size as nat),
        )
    }
}

proof fn lemma_place_by_age(files: Seq<FinalizedFile>, order: Seq<int>, file: int)
    ensures
        place_by_age(files, order, file).len() == order.len() + 1,
        place_by_age(files, order, file).to_multiset() == order.to_multiset().insert(file),
    decreases order.len(),
{
    broadcast use vstd::seq_lib::group_to_multiset_ensures;

    if order.len() > 0 && files[order.last()].modified > files[file].modified {
        lemma_place_by_age(files, order.drop_last(), file);
        assert(order =~= order.drop_last().push(order.last()));
        assert(order.to_multiset() =~= order.drop_last().to_multiset().insert(order.last()));
        assert(place_by_age(files, order, file).to_multiset() =~= order.to_multiset().insert(file));
    }
}

/// The indices below `n`.
pub open spec fn indices(n: int) -> Seq<int> {
    Seq::new(n as nat, |i: int| i)
}

/// The order of age leaves no file out and names none twice.
proof fn lemma_age_order_is_complete(files: Seq<FinalizedFile>, n: int)
    requires
        0 <= n,
    ensures
        age_order(files, n).len() == n,
        age_order(files, n).to_multiset() == indices(n).to_multiset(),
    decreases n,
{
    broadcast use vstd::seq_lib::group_to_multiset_ensures;

    if n > 0 {
        lemma_age_order_is_complete(files, n - 1);
        lemma_place_by_age(files, age_order(files, n - 1), n - 1);
        assert(indices(n) =~= indices(n - 1).push(n - 1));
    } else {
        assert(indices(0) =~= Seq::empty());
    }
}

proof fn lemma_age_order_in_range(files: Seq<FinalizedFile>, n: int)
    requires
        0 <= n,
    ensures
        age_order(files, n).len() == n,
        forall|i: int| 0 <= i < n ==> 0 <= #[trigger] age_order(files, n)[i] < n,
{
    broadcast use vstd::seq_lib::group_to_multiset_ensures;

    lemma_age_order_is_complete(files, n);
    let order = age_order(files, n);
    assert forall|i: int| 0 <= i < n implies 0 <= #[trigger] order[i] < n by {
        assert(order.contains(order[i]));
        assert(order.to_multiset().count(order[i]) > 0);
        assert(indices(n).to_multiset().count(order[i]) > 0);
        assert(indices(n).contains(order[i]));
    }
}

proof fn lemma_placed_in_order(files: Seq<FinalizedFile>, order: Seq<int>, file: int)
    requires
        forall|i: int, j: int|
            0 <= i <= j < order.len() ==> files[#[trigger] order[i]].modified <= files[#[trigger] order[j]].modified,
    ensures
        ({
            let placed = place_by_age(files, order, file);
            &&& forall|i: int, j: int|
                0 <= i <= j < placed.len() ==> files[#[trigger] placed[i]].modified
                    <= files[#[trigger] placed[j]].modified
            &&& placed.last() == file || order.len() > 0 && placed.last() == order.last()
        }),
    decreases order.len(),
{
    let placed = place_by_age(files, order, file);
    if order.len() > 0 && files[order.last()].modified > files[file].modified {
        let shorter = order.drop_last();
        lemma_placed_in_order(files, shorter, file);
        let inner = place_by_age(files, shorter, file);
        lemma_place_by_age(files, shorter, file);
        assert forall|i: int, j: int| 0 <= i <= j < placed.len() implies files[#[trigger] placed[i]].modified
            <= files[#[trigger] placed[j]].modified by {
            if j < placed.len() - 1 {
                assert(placed[i] == inner[i] && placed[j] == inner[j]);
            } else if i < placed.len() - 1 {
                assert(placed[i] == inner[i]);
                assert(files[inner[i]].modified <= files[inner.last()].modified);
                if shorter.len() > 0 && inner.last() == shorter.last() {
                    assert(shorter.last() == order[order.len() - 2]);
                    assert(files[order[order.len() - 2]].modified <= files[order[order.len()
                        - 1]].modified);
                }
            }
        }
    }
}

/// The files stand in the order of their age, the oldest first, and each of them once.
pub proof fn law_files_stand_by_age(files: Seq<FinalizedFile>, n: int)
    requires
        0 <= n,
    ensures
        age_order(files, n).to_multiset() == indices(n).to_multiset(),
        forall|i: int, j: int|
            0 <= i <= j < n ==> files[#[trigger] age_order(files, n)[i]].modified
                <= files[#[trigger] age_order(files, n)[j]].modified,
    decreases n,
{
    lemma_age_order_is_complete(files, n);
    if n > 0 {
        law_files_stand_by_age(files, n - 1);
        lemma_age_order_is_complete(files, n - 1);
        lemma_placed_in_order(files, age_order(files, n - 1), n - 1);
    }
}

/// What is kept fits into the limit, and no file goes for its size while the rest would have
/// fitted with it.
pub proof fn law_retention_keeps_within_the_limit(
    files: Seq<FinalizedFile>,
    order: Seq<int>,
    limit: nat,
)
    ensures
        0 <= excess(files, order, limit) <= order.len(),
        total_bytes(files, order.skip(excess(files, order, limit))) <= limit,
        forall|gone: int|
            0 <= gone < excess(files, order, limit) ==> total_bytes(
                files,
                #[trigger] order.skip(gone),
            ) > limit,
    decreases order.len(),
{
    if order.len() == 0 || total_bytes(files, order) <= limit {
        assert(order.skip(0) =~= order);
    } else {
        let rest = order.drop_first();
        law_retention_keeps_within_the_limit(files, rest, limit);
        let more = excess(files, rest, limit);
        assert(order.skip(more + 1) =~= rest.skip(more));
        assert forall|gone: int| 0 <= gone < more + 1 implies total_bytes(
            files,
            #[trigger] order.skip(gone),
        ) > limit by {
            if gone == 0 {
                assert(order.skip(0) =~= order);
            } else {
                assert(order.skip(gone) =~= rest.skip(gone - 1));
            }
        }
    }
}

/// Nothing is removed where neither age nor size is limited.
pub proof fn law_unlimited_retention_keeps_everything(
    files: Seq<FinalizedFile>,
    now: i128,
    settings: LoggingSettings,
)
    requires
        settings.retention_age_unlimited,
        settings.retention_size_unlimited,
    ensures
        removals(files, now, settings).len() == 0,
{
    let order = age_order(files, files.len() as int);
    lemma_filter_none(order, |file: int| is_outdated(files[file], now, settings));
}

proof fn lemma_filter_none(s: Seq<int>, keep: spec_fn(int) -> bool)
    requires
        forall|i: int| !#[trigger] keep(i),
    ensures
        s.filter(keep).len() == 0,
    decreases s.len(),
{
    reveal(Seq::filter);
    if s.len() > 0 {
        lemma_filter_none(s.drop_last(), keep);
    }
}

/// The files in the order of their age.
fn sort_by_age(files: &Vec<FinalizedFile>) -> (order: Vec<usize>)
    ensures
        order@.map_values(|i: usize| i as int) == age_order(files@, files@.len() as int),
{
    let mut order: Vec<usize> = Vec::new();
    let mut n: usize = 0;
    assert(order@.map_values(|i: usize| i as int) =~= age_order(files@, 0));
    while n < files.len()
        invariant
            n <= files.len(),
            order@.map_values(|i: usize| i as int) == age_order(files@, n as int),
        decreases files.len() - n,
    {
        let ghost before = order@.map_values(|i: usize| i as int);
        proof {
            lemma_age_order_in_range(files@, n as int);
        }
        let mut at: usize = order.len();
        assert(before.take(at as int) =~= before);
        assert(place_by_age(files@, before, n as int) + before.skip(at as int) =~= place_by_age(
            files@,
            before,
            n as int,
        ));
        while at > 0 && files[order[at - 1]].modified > files[n].modified
            invariant
                at <= order.len(),
                n < files.len(),
                before == order@.map_values(|i: usize| i as int),
                forall|i: int| 0 <= i < order.len() ==> 0 <= #[trigger] before[i] < n,
                place_by_age(files@, before, n as int) == place_by_age(
                    files@,
                    before.take(at as int),
                    n as int,
                ) + before.skip(at as int),
            decreases at,
        {
            proof {
                let shorter = before.take(at as int);
                assert(before[at - 1] == order@[at - 1]);
                assert(shorter.last() == before[at - 1]);
                assert(shorter.drop_last() =~= before.take(at - 1));
                assert(place_by_age(files@, shorter, n as int) + before.skip(at as int)
                    =~= place_by_age(files@, before.take(at - 1), n as int) + before.skip(at - 1));
            }
            at -= 1;
        }
        proof {
            let shorter = before.take(at as int);
            assert(at > 0 ==> shorter.last() == order@[at - 1]);
            assert(place_by_age(files@, shorter, n as int) =~= shorter.push(n as int));
        }
        order.insert(at, n);
        assert(order@.map_values(|i: usize| i as int) =~= before.take(at as int).push(n as int)
            + before.skip(at as int));
        n += 1;
    }
    order
}

/// Whether a file has aged out.
fn aged_out(file: FinalizedFile, now: i128, settings: LoggingSettings) -> (aged: bool)
    ensures
        aged == is_outdated(file, now, settings),
{
    if settings.retention_age_unlimited {
        return false;
    }
    let age: i128 = settings.retention_age_ms as i128 * 1_000_000;
    match now.checked_sub(file.modified) {
        Some(elapsed) => elapsed > age,
        None => now > file.modified,
    }
}

proof fn lemma_total_grows(files: Seq<FinalizedFile>, order: Seq<int>, from: int)
    requires
        0 <= from <= order.len(),
    ensures
        total_bytes(files, order.take(from)) <= total_bytes(files, order),
    decreases order.len() - from,
{
    if from == order.len() {
        assert(order.take(from) =~= order);
    } else {
        lemma_total_grows(files, order, from + 1);
        assert(order.take(from + 1).drop_last() =~= order.take(from));
    }
}

proof fn lemma_total_without_first(files: Seq<FinalizedFile>, order: Seq<int>)
    requires
        order.len() > 0,
    ensures
        total_bytes(files, order) == files[order[0]].bytes + total_bytes(files, order.drop_first()),
    decreases order.len(),
{
    if order.len() == 1 {
        assert(total_bytes(files, order.drop_last()) == 0);
        assert(total_bytes(files, order.drop_first()) == 0);
    } else {
        lemma_total_without_first(files, order.drop_last());
        assert(order.drop_last().drop_first() =~= order.drop_first().drop_last());
        assert(order.drop_first().last() == order.last());
    }
}

/// The files that are to be removed, in order. The bytes of the files that have not aged out
/// have to fit into a count.
pub fn files_to_remove(files: &Vec<FinalizedFile>, now: i128, settings: LoggingSettings) -> (gone:
    Vec<usize>)
    requires
        total_bytes(files@, current(files@, now, settings)) <= u64::MAX,
    ensures
        gone@.map_values(|i: usize| i as int) == removals(files@, now, settings),
{
    let order: Vec<usize> = sort_by_age(files);
    let ghost ordered = age_order(files@, files@.len() as int);
    let ghost is_aged = |file: int| is_outdated(files@[file], now, settings);
    let ghost is_current = |file: int| !is_outdated(files@[file], now, settings);
    proof {
        lemma_age_order_in_range(files@, files@.len() as int);
        reveal(Seq::filter);
    }
    let mut gone: Vec<usize> = Vec::new();
    let mut rest: Vec<usize> = Vec::new();
    let mut i: usize = 0;
    assert(ordered.take(0).filter(is_aged) =~= Seq::empty());
    assert(ordered.take(0).filter(is_current) =~= Seq::empty());
    assert(gone@.map_values(|i: usize| i as int) =~= Seq::empty());
    assert(rest@.map_values(|i: usize| i as int) =~= Seq::empty());
    while i < order.len()
        invariant
            i <= order.len(),
            ordered == order@.map_values(|i: usize| i as int),
            ordered.len() == files.len(),
            forall|k: int| 0 <= k < ordered.len() ==> 0 <= #[trigger] ordered[k] < files.len(),
            is_aged == (|file: int| is_outdated(files@[file], now, settings)),
            is_current == (|file: int| !is_outdated(files@[file], now, settings)),
            gone@.map_values(|i: usize| i as int) == ordered.take(i as int).filter(is_aged),
            rest@.map_values(|i: usize| i as int) == ordered.take(i as int).filter(is_current),
        decreases order.len() - i,
    {
        let file: usize = order[i];
        let ghost gone_before = gone@;
        let ghost rest_before = rest@;
        proof {
            reveal(Seq::filter);
            assert(ordered[i as int] == file);
            assert(ordered.take(i + 1).drop_last() =~= ordered.take(i as int));
            assert(ordered.take(i + 1).last() == file);
        }
        if aged_out(files[file], now, settings) {
            gone.push(file);
            assert(gone@.map_values(|i: usize| i as int) =~= gone_before.map_values(
                |i: usize| i as int,
            ).push(file as int));
        } else {
            rest.push(file);
            assert(rest@.map_values(|i: usize| i as int) =~= rest_before.map_values(
                |i: usize| i as int,
            ).push(file as int));
        }
        i += 1;
    }
    assert(ordered.take(i as int) =~= ordered);
    let ghost aged = outdated(files@, now, settings);
    let ghost left = current(files@, now, settings);
    if settings.retention_size_unlimited {
        return gone;
    }
    let mut total: u64 = 0;
    let mut j: usize = 0;
    assert(left.take(0).len() == 0);
    proof {
        lemma_filter_in_range(ordered, is_current, files@.len() as int);
    }
    while j < rest.len()
        invariant
            j <= rest.len(),
            left == rest@.map_values(|i: usize| i as int),
            forall|k: int| 0 <= k < left.len() ==> 0 <= #[trigger] left[k] < files.len(),
            total == total_bytes(files@, left.take(j as int)),
            total_bytes(files@, left) <= u64::MAX,
        decreases rest.len() - j,
    {
        proof {
            assert(left[j as int] == rest@[j as int]);
            assert(left.take(j + 1).drop_last() =~= left.take(j as int));
            lemma_total_grows(files@, left, j + 1);
        }
        total += files[rest[j]].bytes;
        j += 1;
    }
    assert(left.take(j as int) =~= left);
    let mut k: usize = 0;
    let ghost limit = settings.retention_size as nat;
    assert(left.skip(0) =~= left);
    assert(aged + left.take(0) =~= aged);
    while k < rest.len() && total > settings.retention_size
        invariant
            k <= rest.len(),
            left == rest@.map_values(|i: usize| i as int),
            forall|k: int| 0 <= k < left.len() ==> 0 <= #[trigger] left[k] < files.len(),
            limit == settings.retention_size,
            total == total_bytes(files@, left.skip(k as int)),
            excess(files@, left, limit) == k + excess(files@, left.skip(k as int), limit),
            gone@.map_values(|i: usize| i as int) == aged + left.take(k as int),
        decreases rest.len() - k,
    {
        let file: usize = rest[k];
        let ghost gone_before = gone@;
        proof {
            let tail = left.skip(k as int);
            assert(tail[0] == file);
            lemma_total_without_first(files@, tail);
            assert(tail.drop_first() =~= left.skip(k + 1));
        }
        gone.push(file);
        proof {
            assert(gone@.map_values(|i: usize| i as int) =~= gone_before.map_values(
                |i: usize| i as int,
            ).push(file as int));
            assert(left.take(k + 1) =~= left.take(k as int).push(file as int));
            assert(aged + left.take(k as int).push(file as int) =~= (aged + left.take(
                k as int,
            )).push(file as int));
        }
        total = total - files[file].bytes;
        k += 1;
    }
    assert(excess(files@, left.skip(k as int), limit) == 0);
    gone
}

proof fn lemma_filter_in_range(s: Seq<int>, keep: spec_fn(int) -> bool, n: int)
    requires
        forall|i: int| 0 <= i < s.len() ==> 0 <= #[trigger] s[i] < n,
    ensures
        forall|i: int| 0 <= i < s.filter(keep).len() ==> 0 <= #[trigger] s.filter(keep)[i] < n,
    decreases s.len(),
{
    reveal(Seq::filter);
    if s.len() > 0 {
        lemma_filter_in_range(s.drop_last(), keep, n);
        let inner = s.drop_last().filter(keep);
        let whole = s.filter(keep);
        assert(whole == if keep(s.last()) {
            inner.push(s.last())
        } else {
            inner
        });
        assert(0 <= s[s.len() - 1] < n);
        assert forall|i: int| 0 <= i < whole.len() implies 0 <= #[trigger] whole[i] < n by {
            assert(i < inner.len() ==> whole[i] == inner[i]);
        }
    }
}

} // verus!
