//! Names and numbers that identify workloads, executions and supervisors.

use vstd::prelude::*;
use vstd::string::*;

use crate::num::{NonZeroU32, NonZeroU64};
use crate::text::push_decimal;

verus! {

/// The longest workload ID, in bytes.
pub const MAX_WORKLOAD_ID_BYTES: usize = 128;

/// A lower-case ASCII letter or an ASCII digit.
pub open spec fn is_id_edge(byte: u8) -> bool {
    97 <= byte <= 122 || 48 <= byte <= 57
}

/// A byte that may stand inside a workload ID: a letter, a digit, `-`, `_` or `.`.
pub open spec fn is_id_byte(byte: u8) -> bool {
    is_id_edge(byte) || byte == 45 || byte == 95 || byte == 46
}

/// What a workload ID is: one to `MAX_WORKLOAD_ID_BYTES` bytes of the alphabet, with a letter
/// or a digit at both ends.
pub open spec fn is_workload_id(bytes: Seq<u8>) -> bool {
    &&& 0 < bytes.len() <= MAX_WORKLOAD_ID_BYTES
    &&& is_id_edge(bytes.first())
    &&& is_id_edge(bytes.last())
    &&& forall|i: int| 0 <= i < bytes.len() ==> is_id_byte(#[trigger] bytes[i])
}

#[derive(Clone, Copy, Debug, PartialEq, Eq, Structural)]
pub enum InvalidWorkloadId {
    Empty,
    TooLong,
    InvalidBoundary,
    InvalidCharacter { index: usize },
}

impl InvalidWorkloadId {
    /// When a text of these bytes is refused with this error.
    pub open spec fn explains(self, bytes: Seq<u8>) -> bool {
        let edges_fit = is_id_edge(bytes.first()) && is_id_edge(bytes.last());
        match self {
            InvalidWorkloadId::Empty => bytes.len() == 0,
            InvalidWorkloadId::TooLong => bytes.len() > MAX_WORKLOAD_ID_BYTES,
            InvalidWorkloadId::InvalidBoundary => 0 < bytes.len() <= MAX_WORKLOAD_ID_BYTES
                && !edges_fit,
            InvalidWorkloadId::InvalidCharacter { index } => {
                &&& bytes.len() <= MAX_WORKLOAD_ID_BYTES
                &&& edges_fit
                &&& index < bytes.len()
                &&& !is_id_byte(bytes[index as int])
                &&& forall|i: int| 0 <= i < index ==> is_id_byte(#[trigger] bytes[i])
            },
        }
    }

    pub open spec fn text(self) -> Seq<char> {
        match self {
            InvalidWorkloadId::Empty => "workload ID is empty"@,
            InvalidWorkloadId::TooLong => "workload ID exceeds 128 ASCII bytes"@,
            InvalidWorkloadId::InvalidBoundary =>
                "workload ID must start and end with [a-z0-9]"@,
            InvalidWorkloadId::InvalidCharacter { index } =>
                "workload ID contains an invalid character at byte "@ + crate::text::decimal(
                    index as nat,
                ),
        }
    }

    pub fn message(&self) -> (message: String)
        ensures
            message@ == self.text(),
    {
        match self {
            InvalidWorkloadId::Empty => "workload ID is empty".to_owned(),
            InvalidWorkloadId::TooLong => "workload ID exceeds 128 ASCII bytes".to_owned(),
            InvalidWorkloadId::InvalidBoundary =>
                "workload ID must start and end with [a-z0-9]".to_owned(),
            InvalidWorkloadId::InvalidCharacter { index } => {
                let mut message: String =
                    "workload ID contains an invalid character at byte ".to_owned();
                push_decimal(&mut message, *index as u64);
                message
            },
        }
    }
}

/// The name of a workload. The view is its text.
#[derive(Debug, PartialEq, Eq, Hash, PartialOrd, Ord)]
pub struct WorkloadId {
    text: String,
}

impl WorkloadId {
    #[verifier::type_invariant]
    spec fn well_formed(self) -> bool {
        is_workload_id(vstd::utf8::encode_utf8(self.text@))
    }

    pub closed spec fn view(&self) -> Seq<char> {
        self.text@
    }

    pub fn parse(value: String) -> (result: Result<WorkloadId, InvalidWorkloadId>)
        ensures
            result is Ok <==> is_workload_id(vstd::utf8::encode_utf8(value@)),
            result matches Ok(id) ==> id@ == value@,
            result matches Err(error) ==> error.explains(vstd::utf8::encode_utf8(value@)),
    {
        let bytes: &[u8] = value.as_str().as_bytes();
        if bytes.len() == 0 {
            return Err(InvalidWorkloadId::Empty);
        }
        if bytes.len() > MAX_WORKLOAD_ID_BYTES {
            return Err(InvalidWorkloadId::TooLong);
        }
        if !id_edge(bytes[0]) || !id_edge(bytes[bytes.len() - 1]) {
            return Err(InvalidWorkloadId::InvalidBoundary);
        }
        let mut index: usize = 0;
        while index < bytes.len()
            invariant
                index <= bytes.len() <= MAX_WORKLOAD_ID_BYTES,
                bytes@ == vstd::utf8::encode_utf8(value@),
                bytes@.len() > 0,
                is_id_edge(bytes@.first()),
                is_id_edge(bytes@.last()),
                forall|i: int| 0 <= i < index ==> is_id_byte(#[trigger] bytes@[i]),
            decreases bytes.len() - index,
        {
            let byte: u8 = bytes[index];
            if !(id_edge(byte) || byte == 45 || byte == 95 || byte == 46) {
                return Err(InvalidWorkloadId::InvalidCharacter { index });
            }
            index += 1;
        }
        Ok(WorkloadId { text: value })
    }

    pub fn as_str(&self) -> (text: &str)
        ensures
            text@ == self@,
            is_workload_id(vstd::utf8::encode_utf8(text@)),
    {
        proof {
            use_type_invariant(self);
        }
        self.text.as_str()
    }
}

impl Clone for WorkloadId {
    fn clone(&self) -> (copy: WorkloadId)
        ensures
            copy == *self,
            copy@ == self@,
    {
        proof {
            use_type_invariant(self);
        }
        WorkloadId { text: self.text.clone() }
    }
}

fn id_edge(byte: u8) -> (edge: bool)
    ensures
        edge == is_id_edge(byte),
{
    97 <= byte && byte <= 122 || 48 <= byte && byte <= 57
}

/// The manager session that an execution belongs to, by the value of its UUID.
#[derive(Clone, Copy, Debug, PartialEq, Eq, Structural, Hash, PartialOrd, Ord)]
pub struct ManagerSessionId(pub u128);

impl ManagerSessionId {
    pub fn from_uuid(value: u128) -> (id: ManagerSessionId)
        ensures
            id == ManagerSessionId(value),
    {
        ManagerSessionId(value)
    }

    pub fn as_uuid(self) -> (value: u128)
        ensures
            self == ManagerSessionId(value),
    {
        self.0
    }
}

/// One execution of a workload, by the value of its UUID.
#[derive(Clone, Copy, Debug, PartialEq, Eq, Structural, Hash, PartialOrd, Ord)]
pub struct ExecutionId(pub u128);

impl ExecutionId {
    pub fn from_uuid(value: u128) -> (id: ExecutionId)
        ensures
            id == ExecutionId(value),
    {
        ExecutionId(value)
    }

    pub fn as_uuid(self) -> (value: u128)
        ensures
            self == ExecutionId(value),
    {
        self.0
    }
}

/// A supervisor across its incarnations, by the value of its UUID.
#[derive(Clone, Copy, Debug, PartialEq, Eq, Structural, Hash, PartialOrd, Ord)]
pub struct SupervisorId(pub u128);

impl SupervisorId {
    pub fn from_uuid(value: u128) -> (id: SupervisorId)
        ensures
            id == SupervisorId(value),
    {
        SupervisorId(value)
    }

    pub fn as_uuid(self) -> (value: u128)
        ensures
            self == SupervisorId(value),
    {
        self.0
    }
}

/// Which process of a supervisor it is, counted from one.
#[derive(Clone, Copy, Debug, PartialEq, Eq, Structural, Hash, PartialOrd, Ord)]
pub struct SupervisorIncarnation(pub NonZeroU32);

impl SupervisorIncarnation {
    pub open spec fn view(&self) -> nat {
        self.0@
    }

    pub open spec fn of(n: nat) -> SupervisorIncarnation {
        SupervisorIncarnation(NonZeroU32::of(n))
    }

    pub fn first() -> (incarnation: SupervisorIncarnation)
        ensures
            incarnation == SupervisorIncarnation::of(1),
            incarnation@ == 1,
    {
        SupervisorIncarnation(NonZeroU32::new(1).unwrap())
    }

    pub fn new(value: u32) -> (result: Option<SupervisorIncarnation>)
        ensures
            result == if value == 0 {
                None
            } else {
                Some(SupervisorIncarnation::of(value as nat))
            },
            result matches Some(made) ==> made@ == value,
    {
        match NonZeroU32::new(value) {
            Some(value) => Some(SupervisorIncarnation(value)),
            None => None,
        }
    }

    pub fn get(self) -> (value: u32)
        ensures
            value == self@,
            value != 0,
    {
        self.0.get()
    }

    pub fn next(self) -> (result: Option<SupervisorIncarnation>)
        ensures
            result == if self@ < u32::MAX {
                Some(SupervisorIncarnation::of(self@ + 1))
            } else {
                None
            },
    {
        match self.0.next() {
            Some(value) => Some(SupervisorIncarnation(value)),
            None => None,
        }
    }
}

/// The number of a change of what a service is meant to do, counted from one.
#[derive(Clone, Copy, Debug, PartialEq, Eq, Structural, Hash, PartialOrd, Ord)]
pub struct IntentRevision(pub NonZeroU64);

impl IntentRevision {
    pub open spec fn view(&self) -> nat {
        self.0@
    }

    pub open spec fn of(n: nat) -> IntentRevision {
        IntentRevision(NonZeroU64::of(n))
    }

    pub fn new(value: u64) -> (result: Option<IntentRevision>)
        ensures
            result == if value == 0 {
                None
            } else {
                Some(IntentRevision::of(value as nat))
            },
            result matches Some(made) ==> made@ == value,
    {
        match NonZeroU64::new(value) {
            Some(value) => Some(IntentRevision(value)),
            None => None,
        }
    }

    pub fn get(self) -> (value: u64)
        ensures
            value == self@,
            value != 0,
    {
        self.0.get()
    }

    pub fn next(self) -> (result: Option<IntentRevision>)
        ensures
            result == if self@ < u64::MAX {
                Some(IntentRevision::of(self@ + 1))
            } else {
                None
            },
    {
        match self.0.next() {
            Some(value) => Some(IntentRevision(value)),
            None => None,
        }
    }
}

/// The number of a process attempt within an execution, counted from one.
#[derive(Clone, Copy, Debug, PartialEq, Eq, Structural, Hash, PartialOrd, Ord)]
pub struct AttemptNumber(pub NonZeroU32);

impl AttemptNumber {
    pub open spec fn view(&self) -> nat {
        self.0@
    }

    pub open spec fn of(n: nat) -> AttemptNumber {
        AttemptNumber(NonZeroU32::of(n))
    }

    pub fn first() -> (attempt: AttemptNumber)
        ensures
            attempt == AttemptNumber::of(1),
            attempt@ == 1,
    {
        AttemptNumber(NonZeroU32::new(1).unwrap())
    }

    pub fn new(value: u32) -> (result: Option<AttemptNumber>)
        ensures
            result == if value == 0 {
                None
            } else {
                Some(AttemptNumber::of(value as nat))
            },
            result matches Some(made) ==> made@ == value,
    {
        match NonZeroU32::new(value) {
            Some(value) => Some(AttemptNumber(value)),
            None => None,
        }
    }

    pub fn get(self) -> (value: u32)
        ensures
            value == self@,
            value != 0,
    {
        self.0.get()
    }

    pub fn next(self) -> (result: Option<AttemptNumber>)
        ensures
            result == if self@ < u32::MAX {
                Some(AttemptNumber::of(self@ + 1))
            } else {
                None
            },
    {
        match self.0.next() {
            Some(value) => Some(AttemptNumber(value)),
            None => None,
        }
    }
}

/// The number of an observation that a supervisor reports, counted from zero for none.
#[derive(Clone, Copy, Debug, PartialEq, Eq, Structural, Hash, PartialOrd, Ord)]
pub struct ObservationSequence(pub u64);

impl ObservationSequence {
    pub open spec fn view(&self) -> nat {
        self.0 as nat
    }

    /// The sequence before any observation.
    pub fn initial() -> (sequence: ObservationSequence)
        ensures
            sequence == ObservationSequence(0),
    {
        ObservationSequence(0)
    }

    pub fn new(value: u64) -> (sequence: ObservationSequence)
        ensures
            sequence == ObservationSequence(value),
    {
        ObservationSequence(value)
    }

    pub fn get(self) -> (value: u64)
        ensures
            value == self@,
    {
        self.0
    }

    pub fn next(self) -> (result: Option<ObservationSequence>)
        ensures
            result == if self@ < u64::MAX {
                Some(ObservationSequence((self@ + 1) as u64))
            } else {
                None
            },
    {
        match self.0.checked_add(1) {
            Some(value) => Some(ObservationSequence(value)),
            None => None,
        }
    }
}

/// The SHA-256 digest of a whole configuration.
#[derive(Clone, Copy, Debug, PartialEq, Eq, Hash)]
pub struct ConfigGeneration(pub [u8; 32]);

impl ConfigGeneration {
    pub fn from_sha256(value: [u8; 32]) -> (generation: ConfigGeneration)
        ensures
            generation == ConfigGeneration(value),
    {
        ConfigGeneration(value)
    }

    pub fn as_bytes(&self) -> (bytes: &[u8; 32])
        ensures
            *self == ConfigGeneration(*bytes),
    {
        &self.0
    }
}

/// The SHA-256 digest of the parts of a definition that a process is started from.
#[derive(Clone, Copy, Debug, PartialEq, Eq, Hash)]
pub struct ProcessDefinitionHash(pub [u8; 32]);

impl ProcessDefinitionHash {
    pub fn from_sha256(value: [u8; 32]) -> (hash: ProcessDefinitionHash)
        ensures
            hash == ProcessDefinitionHash(value),
    {
        ProcessDefinitionHash(value)
    }

    pub fn as_bytes(&self) -> (bytes: &[u8; 32])
        ensures
            *self == ProcessDefinitionHash(*bytes),
    {
        &self.0
    }
}

/// The SHA-256 digest of the configuration that an execution runs with.
#[derive(Clone, Copy, Debug, PartialEq, Eq, Hash)]
pub struct ExecutionConfigHash(pub [u8; 32]);

impl ExecutionConfigHash {
    pub fn from_sha256(value: [u8; 32]) -> (hash: ExecutionConfigHash)
        ensures
            hash == ExecutionConfigHash(value),
    {
        ExecutionConfigHash(value)
    }

    pub fn as_bytes(&self) -> (bytes: &[u8; 32])
        ensures
            *self == ExecutionConfigHash(*bytes),
    {
        &self.0
    }
}

} // verus!
