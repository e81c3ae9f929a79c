//! The runtime journal of a supervisor: checksummed frames that survive a torn tail, and what
//! is recovered from them.

use vstd::prelude::*;

use crate::bytes::{
    append, copy_range, from_le_bytes, law_le_bytes_round_trip, le_bytes, lemma_byte_ranges,
    lemma_le_bytes_len, push_u32, read_u32,
};
use crate::messages::{
    Checkpoint, CheckpointView, ObservationView, RuntimeObservation,
};

verus! {

/// The largest payload of a frame.
pub const MAX_RUNTIME_FRAME_BYTES: usize = 4 * 1024 * 1024;

/// What the Castagnoli checksum of some bytes is.
pub uninterp spec fn crc32c_of(bytes: Seq<u8>) -> u32;

/// The Castagnoli checksum of some bytes, by `crc32c::crc32c`. The polynomial arithmetic is left
/// to the name.
#[verifier::external_body]
pub(crate) fn checksum(bytes: &[u8]) -> (sum: u32)
    ensures
        sum == crc32c_of(bytes@),
{
    crc32c::crc32c(bytes)
}

/// Why a journal cannot be read or written.
#[derive(Debug)]
pub enum JournalError {
    TooLarge,
    ChecksumMismatch,
    Unsupported,
    Finalized,
    /// A payload that is no frame, and why.
    Decode(String),
}

/// A [`JournalError`] as mathematical text.
pub enum JournalRefusal {
    TooLarge,
    ChecksumMismatch,
    Unsupported,
    Finalized,
    Decode(Seq<char>),
}

impl JournalRefusal {
    pub open spec fn text(self) -> Seq<char> {
        match self {
            JournalRefusal::TooLarge => "runtime journal frame exceeds 4 MiB"@,
            JournalRefusal::ChecksumMismatch => "runtime journal checksum mismatch"@,
            JournalRefusal::Unsupported => "unsupported runtime journal frame"@,
            JournalRefusal::Finalized => "runtime journal is finalized"@,
            JournalRefusal::Decode(reason) => reason,
        }
    }
}

impl JournalError {
    pub open spec fn view(&self) -> JournalRefusal {
        match *self {
            JournalError::TooLarge => JournalRefusal::TooLarge,
            JournalError::ChecksumMismatch => JournalRefusal::ChecksumMismatch,
            JournalError::Unsupported => JournalRefusal::Unsupported,
            JournalError::Finalized => JournalRefusal::Finalized,
            JournalError::Decode(reason) => JournalRefusal::Decode(reason@),
        }
    }

    pub fn message(&self) -> (message: String)
        ensures
            message@ == self@.text(),
    {
        match self {
            JournalError::TooLarge => "runtime journal frame exceeds 4 MiB".to_owned(),
            JournalError::ChecksumMismatch => "runtime journal checksum mismatch".to_owned(),
            JournalError::Unsupported => "unsupported runtime journal frame".to_owned(),
            JournalError::Finalized => "runtime journal is finalized".to_owned(),
            JournalError::Decode(reason) => reason.clone(),
        }
    }
}

/// A payload between its length and its checksum.
pub open spec fn framed(payload: Seq<u8>) -> Seq<u8> {
    le_bytes(payload.len(), 4) + payload + le_bytes(crc32c_of(payload) as nat, 4)
}

/// The payloads of a journal up to its end, to a torn tail or to the first frame that is
/// refused, and why that one is.
pub open spec fn scan(bytes: Seq<u8>) -> (Seq<Seq<u8>>, Option<JournalRefusal>)
    decreases bytes.len(),
{
    let length = from_le_bytes(bytes.take(4)) as int;
    let payload = bytes.subrange(4, 4 + length);
    let end = 8 + length;
    if bytes.len() < 4 {
        (Seq::empty(), None)
    } else if length > MAX_RUNTIME_FRAME_BYTES {
        (Seq::empty(), Some(JournalRefusal::TooLarge))
    } else if end > bytes.len() {
        (Seq::empty(), None)
    } else if crc32c_of(payload) != from_le_bytes(bytes.subrange(4 + length, end)) {
        (Seq::empty(), Some(JournalRefusal::ChecksumMismatch))
    } else {
        let (rest, refusal) = scan(bytes.skip(end));
        (seq![payload] + rest, refusal)
    }
}

/// The contents of some byte strings.
pub open spec fn contents(payloads: Seq<Vec<u8>>) -> Seq<Seq<u8>> {
    payloads.map_values(|payload: Vec<u8>| payload@)
}

/// What the bytes of a journal hold.
#[derive(Debug)]
pub struct JournalScan {
    pub payloads: Vec<Vec<u8>>,
    pub refusal: Option<JournalError>,
}

impl JournalScan {
    pub open spec fn view(&self) -> (Seq<Seq<u8>>, Option<JournalRefusal>) {
        (
            contents(self.payloads@),
            match self.refusal {
                Some(error) => Some(error@),
                None => None,
            },
        )
    }
}

/// Takes the payloads out of a journal.
pub fn scan_frames(bytes: &[u8]) -> (result: JournalScan)
    ensures
        result@ == scan(bytes@),
{
    let mut payloads: Vec<Vec<u8>> = Vec::new();
    let mut offset: usize = 0;
    assert(bytes@.skip(0) =~= bytes@);
    assert(contents(payloads@) =~= Seq::empty());
    assert(Seq::empty() + scan(bytes@).0 =~= scan(bytes@).0);
    while bytes.len() - offset >= 4
        invariant
            offset <= bytes.len(),
            scan(bytes@) == (
                contents(payloads@) + scan(bytes@.skip(offset as int)).0,
                scan(bytes@.skip(offset as int)).1,
            ),
        decreases bytes.len() - offset,
    {
        let ghost rest = bytes@.skip(offset as int);
        let ghost before = payloads@;
        proof {
            lemma_byte_ranges();
            assert(rest.take(4) =~= bytes@.subrange(offset as int, offset + 4));
            assert(contents(payloads@) + Seq::empty() =~= contents(payloads@));
        }
        let length: usize = read_u32(bytes, offset) as usize;
        if length > MAX_RUNTIME_FRAME_BYTES {
            return JournalScan { payloads, refusal: Some(JournalError::TooLarge) };
        }
        if bytes.len() - offset < 8 + length {
            return JournalScan { payloads, refusal: None };
        }
        let start: usize = offset + 4;
        let end: usize = start + length;
        let payload: Vec<u8> = copy_range(bytes, start, end);
        assert(rest.subrange(4, 4 + length) =~= payload@);
        assert(rest.subrange(4 + length, 8 + length) =~= bytes@.subrange(end as int, end + 4));
        let expected: u32 = read_u32(bytes, end);
        if checksum(payload.as_slice()) != expected {
            return JournalScan { payloads, refusal: Some(JournalError::ChecksumMismatch) };
        }
        payloads.push(payload);
        offset = end + 4;
        proof {
            assert(rest.skip(8 + length) =~= bytes@.skip(offset as int));
            assert(contents(payloads@) =~= contents(before).push(payload@));
            let tail = scan(bytes@.skip(offset as int)).0;
            assert(contents(before) + (seq![payload@] + tail) =~= contents(payloads@) + tail);
        }
    }
    assert(contents(payloads@) + Seq::empty() =~= contents(payloads@));
    JournalScan { payloads, refusal: None }
}

/// Frames a payload for the journal, where it is not too large.
pub fn frame_payload(payload: &[u8]) -> (result: Result<Vec<u8>, JournalError>)
    ensures
        match result {
            Ok(bytes) => payload@.len() <= MAX_RUNTIME_FRAME_BYTES && bytes@ == framed(payload@),
            Err(error) => payload@.len() > MAX_RUNTIME_FRAME_BYTES && error@
                == JournalRefusal::TooLarge,
        },
{
    if payload.len() > MAX_RUNTIME_FRAME_BYTES {
        return Err(JournalError::TooLarge);
    }
    let mut bytes: Vec<u8> = Vec::new();
    push_u32(&mut bytes, payload.len() as u32);
    append(&mut bytes, payload);
    push_u32(&mut bytes, checksum(payload));
    assert(bytes@ =~= framed(payload@));
    Ok(bytes)
}

/// A payload that was framed is read back, and what follows it is read as if it stood alone.
pub proof fn law_frames_are_read_back(payload: Seq<u8>, rest: Seq<u8>)
    requires
        payload.len() <= MAX_RUNTIME_FRAME_BYTES,
    ensures
        scan(framed(payload) + rest) == (seq![payload] + scan(rest).0, scan(rest).1),
{
    let all = framed(payload) + rest;
    let length = payload.len() as int;
    lemma_byte_ranges();
    law_le_bytes_round_trip(payload.len(), 4);
    law_le_bytes_round_trip(crc32c_of(payload) as nat, 4);
    assert(all.take(4) =~= le_bytes(payload.len(), 4));
    assert(all.subrange(4, 4 + length) =~= payload);
    assert(all.subrange(4 + length, 8 + length) =~= le_bytes(crc32c_of(payload) as nat, 4));
    assert(all.skip(8 + length) =~= rest);
}

/// A frame that was cut off anywhere is passed over in silence.
pub proof fn law_torn_frames_are_ignored(payload: Seq<u8>, kept: int)
    requires
        payload.len() <= MAX_RUNTIME_FRAME_BYTES,
        0 <= kept < framed(payload).len(),
    ensures
        scan(framed(payload).take(kept)) == (Seq::<Seq<u8>>::empty(), None::<JournalRefusal>),
{
    let all = framed(payload).take(kept);
    lemma_byte_ranges();
    law_le_bytes_round_trip(payload.len(), 4);
    lemma_le_bytes_len(crc32c_of(payload) as nat, 4);
    if kept >= 4 {
        assert(all.take(4) =~= le_bytes(payload.len(), 4));
    }
}

/// The frames of some payloads, one after the other.
pub open spec fn journal_bytes(payloads: Seq<Seq<u8>>) -> Seq<u8>
    decreases payloads.len(),
{
    if payloads.len() == 0 {
        Seq::empty()
    } else {
        framed(payloads[0]) + journal_bytes(payloads.drop_first())
    }
}

/// A journal whose last write was cut off anywhere gives back every payload before it.
pub proof fn law_journals_survive_a_torn_tail(
    payloads: Seq<Seq<u8>>,
    last: Seq<u8>,
    kept: int,
)
    requires
        forall|i: int| 0 <= i < payloads.len() ==> (#[trigger] payloads[i]).len()
            <= MAX_RUNTIME_FRAME_BYTES,
        last.len() <= MAX_RUNTIME_FRAME_BYTES,
        0 <= kept < framed(last).len(),
    ensures
        scan(journal_bytes(payloads) + framed(last).take(kept)) == (
            payloads,
            None::<JournalRefusal>,
        ),
        scan(journal_bytes(payloads)) == (payloads, None::<JournalRefusal>),
    decreases payloads.len(),
{
    let torn = framed(last).take(kept);
    if payloads.len() == 0 {
        law_torn_frames_are_ignored(last, kept);
        assert(journal_bytes(payloads) + torn =~= torn);
        assert(payloads =~= Seq::empty());
    } else {
        let rest = payloads.drop_first();
        law_journals_survive_a_torn_tail(rest, last, kept);
        law_frames_are_read_back(payloads[0], journal_bytes(rest) + torn);
        law_frames_are_read_back(payloads[0], journal_bytes(rest));
        assert(framed(payloads[0]) + journal_bytes(rest) + torn =~= framed(payloads[0]) + (
        journal_bytes(rest) + torn));
        assert(seq![payloads[0]] + rest =~= payloads);
    }
}

/// What a frame records.
#[derive(Debug)]
pub enum RuntimeRecord {
    Checkpoint(Checkpoint),
    Observation(RuntimeObservation),
    Acknowledgement { committed_sequence: u64 },
}

/// A [`RuntimeRecord`] as mathematical text.
#[verifier::ext_equal]
pub enum RecordView {
    Checkpoint(CheckpointView),
    Observation(ObservationView),
    Acknowledgement { committed_sequence: u64 },
}

impl RuntimeRecord {
    pub open spec fn view(&self) -> RecordView {
        match *self {
            RuntimeRecord::Checkpoint(checkpoint) => RecordView::Checkpoint(checkpoint@),
            RuntimeRecord::Observation(observation) => RecordView::Observation(observation@),
            RuntimeRecord::Acknowledgement { committed_sequence } => RecordView::Acknowledgement {
                committed_sequence,
            },
        }
    }
}

/// One frame, as its payload tells it.
#[derive(Debug)]
pub struct RuntimeFrame {
    pub format: u32,
    pub record: Option<RuntimeRecord>,
}

/// The records of some frames that all have one.
pub open spec fn record_views(records: Seq<RuntimeRecord>) -> Seq<RecordView> {
    records.map_values(|record: RuntimeRecord| record@)
}

/// Why a payload is no frame of this journal.
pub open spec fn frame_refusal(decoded: Result<RuntimeFrame, String>) -> Option<JournalRefusal> {
    match decoded {
        Err(reason) => Some(JournalRefusal::Decode(reason@)),
        Ok(frame) => if frame.format != 1 || frame.record is None {
            Some(JournalRefusal::Unsupported)
        } else {
            None
        },
    }
}

/// Why the first `n` payloads cannot be used: the first refusal among them.
pub open spec fn first_refusal(decoded: Seq<Result<RuntimeFrame, String>>, n: int) -> Option<
    JournalRefusal,
>
    decreases n,
{
    if n <= 0 {
        None
    } else {
        match first_refusal(decoded, n - 1) {
            Some(refusal) => Some(refusal),
            None => frame_refusal(decoded[n - 1]),
        }
    }
}

/// The records of payloads that are all accepted.
pub open spec fn accepted_records(decoded: Seq<Result<RuntimeFrame, String>>) -> Seq<RecordView> {
    decoded.map_values(|frame: Result<RuntimeFrame, String>| frame->Ok_0.record->0@)
}

proof fn lemma_refusal_stays(decoded: Seq<Result<RuntimeFrame, String>>, n: int, m: int)
    requires
        n <= m,
        first_refusal(decoded, n) is Some,
    ensures
        first_refusal(decoded, m) == first_refusal(decoded, n),
    decreases m,
{
    if n < m {
        lemma_refusal_stays(decoded, n, m - 1);
    }
}

/// The journal of one execution, in memory.
#[derive(Debug)]
pub struct RuntimeJournal {
    pub records: Vec<RuntimeRecord>,
    pub finalized: bool,
}

/// What a supervisor starts from.
#[derive(Debug)]
pub struct RuntimeRecovery {
    pub checkpoint: Option<Checkpoint>,
    pub last_sequence: u64,
    pub committed_sequence: u64,
}

/// The last checkpoint among some records.
pub open spec fn last_checkpoint(records: Seq<RecordView>) -> Option<CheckpointView>
    decreases records.len(),
{
    if records.len() == 0 {
        None
    } else {
        match records.last() {
            RecordView::Checkpoint(checkpoint) => Some(checkpoint),
            _ => last_checkpoint(records.drop_last()),
        }
    }
}

pub open spec fn larger(a: u64, b: u64) -> u64 {
    if a < b {
        b
    } else {
        a
    }
}

/// The highest number of an observation.
pub open spec fn last_sequence(records: Seq<RecordView>) -> u64
    decreases records.len(),
{
    if records.len() == 0 {
        0
    } else {
        let before = last_sequence(records.drop_last());
        match records.last() {
            RecordView::Observation(observation) => larger(before, observation.sequence),
            _ => before,
        }
    }
}

/// The highest number that the controller is known to have.
pub open spec fn committed_sequence(records: Seq<RecordView>) -> u64
    decreases records.len(),
{
    if records.len() == 0 {
        0
    } else {
        let before = committed_sequence(records.drop_last());
        match records.last() {
            RecordView::Acknowledgement { committed_sequence } => larger(
                before,
                committed_sequence,
            ),
            RecordView::Checkpoint(checkpoint) => larger(before, checkpoint.committed_sequence),
            RecordView::Observation(_) => before,
        }
    }
}

/// The observations with a number above this one, in order.
pub open spec fn observations_above(records: Seq<RecordView>, sequence: u64) -> Seq<
    ObservationView,
>
    decreases records.len(),
{
    if records.len() == 0 {
        Seq::empty()
    } else {
        let before = observations_above(records.drop_last(), sequence);
        match records.last() {
            RecordView::Observation(observation) => if observation.sequence > sequence {
                before.push(observation)
            } else {
                before
            },
            _ => before,
        }
    }
}

/// The views of some observations.
pub open spec fn observation_views(observations: Seq<RuntimeObservation>) -> Seq<ObservationView> {
    observations.map_values(|observation: RuntimeObservation| observation@)
}

impl RuntimeRecovery {
    pub open spec fn checkpoint_view(&self) -> Option<CheckpointView> {
        match self.checkpoint {
            Some(checkpoint) => Some(checkpoint@),
            None => None,
        }
    }
}

impl RuntimeJournal {
    /// The records, in the order in which they were written.
    pub open spec fn view(&self) -> Seq<RecordView> {
        record_views(self.records@)
    }

    /// A journal that holds nothing yet.
    pub fn new() -> (journal: RuntimeJournal)
        ensures
            journal@ == Seq::<RecordView>::empty(),
            !journal.finalized,
    {
        let journal = RuntimeJournal { records: Vec::new(), finalized: false };
        assert(journal@ =~= Seq::<RecordView>::empty());
        journal
    }

    /// Opens a journal from its payloads, each decoded or not, and from the refusal that ended
    /// the scan of its bytes, if one did. The first thing wrong is reported.
    pub fn open(decoded: Vec<Result<RuntimeFrame, String>>, refusal: Option<JournalError>) -> (result:
        Result<RuntimeJournal, JournalError>)
        ensures
            ({
                let first = first_refusal(decoded@, decoded@.len() as int);
                match result {
                    Ok(journal) => first is None && refusal is None && journal@ == accepted_records(
                        decoded@,
                    ) && !journal.finalized,
                    Err(error) => match first {
                        Some(cause) => error@ == cause,
                        None => refusal matches Some(cause) && error@ == cause@,
                    },
                }
            }),
    {
        let ghost all = decoded@;
        let mut pending: Vec<Result<RuntimeFrame, String>> = decoded;
        let mut records: Vec<RuntimeRecord> = Vec::new();
        let mut i: usize = 0;
        let count: usize = pending.len();
        assert(record_views(records@) =~= accepted_records(all.take(0)));
        while i < count
            invariant
                i <= count,
                all == decoded@,
                count == all.len(),
                pending@ =~= all.skip(i as int),
                first_refusal(all, i as int) is None,
                record_views(records@) == accepted_records(all.take(i as int)),
            decreases count - i,
        {
            let ghost before = records@;
            let next: Result<RuntimeFrame, String> = pending.remove(0);
            assert(next == all[i as int]);
            match next {
                Err(reason) => {
                    proof {
                        assert(first_refusal(all, i + 1) == Some(JournalRefusal::Decode(reason@)));
                        lemma_refusal_stays(all, i + 1, count as int);
                    }
                    return Err(JournalError::Decode(reason));
                },
                Ok(frame) => {
                    let format: u32 = frame.format;
                    match frame.record {
                        Some(record) if format == 1 => {
                            records.push(record);
                            proof {
                                assert(record_views(records@) =~= record_views(before).push(
                                    record@,
                                ));
                                assert(all.take(i + 1) =~= all.take(i as int).push(next));
                                assert(accepted_records(all.take(i + 1)) =~= accepted_records(
                                    all.take(i as int),
                                ).push(record@));
                            }
                        },
                        _ => {
                            proof {
                                assert(first_refusal(all, i + 1) == Some(
                                    JournalRefusal::Unsupported,
                                ));
                                lemma_refusal_stays(all, i + 1, count as int);
                            }
                            return Err(JournalError::Unsupported);
                        },
                    }
                },
            }
            i += 1;
        }
        assert(all.take(i as int) =~= all);
        match refusal {
            Some(error) => Err(error),
            None => Ok(RuntimeJournal { records, finalized: false }),
        }
    }

    /// The bytes to be written for a payload, before its record is kept.
    pub fn encode(&self, payload: &[u8]) -> (result: Result<Vec<u8>, JournalError>)
        ensures
            match result {
                Ok(bytes) => payload@.len() <= MAX_RUNTIME_FRAME_BYTES && !self.finalized && bytes@
                    == framed(payload@),
                Err(error) => if payload@.len() > MAX_RUNTIME_FRAME_BYTES {
                    error@ == JournalRefusal::TooLarge
                } else {
                    self.finalized && error@ == JournalRefusal::Finalized
                },
            },
    {
        let bytes: Vec<u8> = match frame_payload(payload) {
            Ok(bytes) => bytes,
            Err(error) => {
                return Err(error);
            },
        };
        if self.finalized {
            return Err(JournalError::Finalized);
        }
        Ok(bytes)
    }

    fn append(&mut self, record: RuntimeRecord)
        ensures
            final(self)@ == old(self)@.push(record@),
            final(self).finalized == old(self).finalized,
    {
        self.records.push(record);
        assert(self@ =~= old(self)@.push(record@));
    }

    pub fn append_checkpoint(&mut self, checkpoint: Checkpoint)
        ensures
            final(self)@ == old(self)@.push(RecordView::Checkpoint(checkpoint@)),
            final(self).finalized == old(self).finalized,
    {
        self.append(RuntimeRecord::Checkpoint(checkpoint));
    }

    pub fn append_observation(&mut self, observation: RuntimeObservation)
        ensures
            final(self)@ == old(self)@.push(RecordView::Observation(observation@)),
            final(self).finalized == old(self).finalized,
    {
        self.append(RuntimeRecord::Observation(observation));
    }

    pub fn acknowledge(&mut self, committed_sequence: u64)
        ensures
            final(self)@ == old(self)@.push(RecordView::Acknowledgement { committed_sequence }),
            final(self).finalized == old(self).finalized,
    {
        self.append(RuntimeRecord::Acknowledgement { committed_sequence });
    }

    /// Closes the journal. The answer is whether it was open.
    pub fn finalize(&mut self) -> (was_open: bool)
        ensures
            final(self)@ == old(self)@,
            final(self).finalized,
            was_open == !old(self).finalized,
    {
        let was_open: bool = !self.finalized;
        self.finalized = true;
        was_open
    }

    /// What a supervisor that takes over starts from.
    pub fn recovery(&self) -> (recovery: RuntimeRecovery)
        ensures
            recovery.checkpoint_view() == last_checkpoint(self@),
            recovery.last_sequence == last_sequence(self@),
            recovery.committed_sequence == committed_sequence(self@),
    {
        let mut checkpoint: Option<Checkpoint> = None;
        let mut last: u64 = 0;
        let mut committed: u64 = 0;
        let mut i: usize = 0;
        while i < self.records.len()
            invariant
                i <= self.records.len(),
                (match checkpoint {
                    Some(checkpoint) => Some(checkpoint@),
                    None => None,
                }) == last_checkpoint(self@.take(i as int)),
                last == last_sequence(self@.take(i as int)),
                committed == committed_sequence(self@.take(i as int)),
            decreases self.records.len() - i,
        {
            proof {
                let next = self@.take(i + 1);
                assert(next.drop_last() =~= self@.take(i as int));
                assert(next.last() == self.records@[i as int]@);
            }
            match &self.records[i] {
                RuntimeRecord::Checkpoint(found) => {
                    checkpoint = Some(found.clone());
                    if committed < found.committed_sequence {
                        committed = found.committed_sequence;
                    }
                },
                RuntimeRecord::Observation(observation) => {
                    if last < observation.sequence {
                        last = observation.sequence;
                    }
                },
                RuntimeRecord::Acknowledgement { committed_sequence } => {
                    if committed < *committed_sequence {
                        committed = *committed_sequence;
                    }
                },
            }
            i += 1;
        }
        assert(self@.take(i as int) =~= self@);
        RuntimeRecovery { checkpoint, last_sequence: last, committed_sequence: committed }
    }

    /// The observations that come after this number.
    pub fn observations_after(&self, sequence: u64) -> (found: Vec<RuntimeObservation>)
        ensures
            observation_views(found@) == observations_above(self@, sequence),
    {
        let mut found: Vec<RuntimeObservation> = Vec::new();
        let mut i: usize = 0;
        assert(observation_views(found@) =~= Seq::empty());
        while i < self.records.len()
            invariant
                i <= self.records.len(),
                observation_views(found@) == observations_above(self@.take(i as int), sequence),
            decreases self.records.len() - i,
        {
            let ghost before = found@;
            proof {
                let next = self@.take(i + 1);
                assert(next.drop_last() =~= self@.take(i as int));
                assert(next.last() == self.records@[i as int]@);
            }
            if let RuntimeRecord::Observation(observation) = &self.records[i] {
                if observation.sequence > sequence {
                    found.push(observation.clone());
                    assert(observation_views(found@) =~= observation_views(before).push(
                        observation@,
                    ));
                }
            }
            i += 1;
        }
        assert(self@.take(i as int) =~= self@);
        found
    }
}

/// A supervisor that takes over finds the checkpoint that was written last, and neither count
/// ever goes back as records are added.
pub proof fn law_recovery_follows_the_journal(records: Seq<RecordView>, record: RecordView)
    ensures
        record matches RecordView::Checkpoint(checkpoint) ==> last_checkpoint(records.push(record))
            == Some(checkpoint),
        record !is Checkpoint ==> last_checkpoint(records.push(record)) == last_checkpoint(records),
        last_sequence(records) <= last_sequence(records.push(record)),
        committed_sequence(records) <= committed_sequence(records.push(record)),
        record matches RecordView::Observation(observation) ==> observation.sequence
            <= last_sequence(records.push(record)),
        record matches RecordView::Acknowledgement { committed_sequence: committed }
            ==> committed <= committed_sequence(records.push(record)),
{
    assert(records.push(record).drop_last() =~= records);
}

/// No observation at or below the given number is sent again, none above it is left out, and
/// an observation that is added comes last.
pub proof fn law_observations_are_sent_from_the_commit_on(
    records: Seq<RecordView>,
    sequence: u64,
)
    ensures
        forall|i: int|
            0 <= i < observations_above(records, sequence).len() ==> (
            #[trigger] observations_above(records, sequence)[i]).sequence > sequence,
        forall|i: int|
            0 <= i < records.len() ==> (#[trigger] records[i] matches RecordView::Observation(
                observation,
            ) ==> observation.sequence > sequence ==> observations_above(
                records,
                sequence,
            ).contains(observation)),
    decreases records.len(),
{
    if records.len() > 0 {
        let before = records.drop_last();
        law_observations_are_sent_from_the_commit_on(before, sequence);
        let sent = observations_above(before, sequence);
        let all = observations_above(records, sequence);
        assert forall|i: int| 0 <= i < all.len() implies (#[trigger] all[i]).sequence
            > sequence by {
            if i < sent.len() {
                assert(all[i] == sent[i]);
            }
        }
        assert forall|i: int| 0 <= i < records.len() implies (
        #[trigger] records[i] matches RecordView::Observation(observation) ==> observation.sequence
            > sequence ==> all.contains(observation)) by {
            if let RecordView::Observation(observation) = records[i] {
                if observation.sequence > sequence {
                    if i < records.len() - 1 {
                        assert(before[i] == records[i]);
                        let at = choose|k: int| 0 <= k < sent.len() && sent[k] == observation;
                        assert(all[at] == observation);
                    } else {
                        assert(all[all.len() - 1] == observation);
                    }
                }
            }
        }
    }
}

} // verus!
