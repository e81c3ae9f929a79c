//! Why the manager refuses something, and how that is reported to a caller.

use vstd::prelude::*;
use vstd::string::*;

use crate::text::join;

verus! {

/// Why the manager refuses something.
#[derive(Debug)]
pub enum ManagerError {
    Config(String),
    Storage(String),
    NotFound(String),
    DefinitionMissing(String),
    WrongKind { id: String, expected: &'static str, actual: String },
    AlreadyActive(String),
    SupervisorIdentityMismatch,
    SessionEnding,
    KindChangeActive(String),
    Encode(String),
    Decode(String),
    Io { path: String, source: String },
    InvalidSystemTime,
}

/// A [`ManagerError`] as mathematical text.
#[verifier::ext_equal]
pub enum ManagerRefusal {
    Config(Seq<char>),
    Storage(Seq<char>),
    NotFound(Seq<char>),
    DefinitionMissing(Seq<char>),
    WrongKind { id: Seq<char>, expected: Seq<char>, actual: Seq<char> },
    AlreadyActive(Seq<char>),
    SupervisorIdentityMismatch,
    SessionEnding,
    KindChangeActive(Seq<char>),
    Encode(Seq<char>),
    Decode(Seq<char>),
    Io { path: Seq<char>, source: Seq<char> },
    InvalidSystemTime,
}

impl ManagerRefusal {
    pub open spec fn text(self) -> Seq<char> {
        match self {
            ManagerRefusal::Config(reason) => "configuration reload failed: "@ + reason,
            ManagerRefusal::Storage(reason) => reason,
            ManagerRefusal::NotFound(id) => "workload '"@ + id + "' does not exist"@,
            ManagerRefusal::DefinitionMissing(id) => "workload '"@ + id
                + "' has no accepted definition"@,
            ManagerRefusal::WrongKind { id, expected, actual } => "workload '"@ + id + "' is a "@
                + actual + ", not a "@ + expected,
            ManagerRefusal::AlreadyActive(id) => "workload '"@ + id + "' is already active"@,
            ManagerRefusal::SupervisorIdentityMismatch =>
                "supervisor execution identity does not match durable state"@,
            ManagerRefusal::SessionEnding => "the manager session is ending"@,
            ManagerRefusal::KindChangeActive(id) => "cannot change active workload '"@ + id
                + "' between service and job"@,
            ManagerRefusal::Encode(reason) => "cannot encode execution snapshot: "@ + reason,
            ManagerRefusal::Decode(reason) => "cannot decode stored execution snapshot: "@
                + reason,
            ManagerRefusal::Io { path, source } => "cannot access "@ + path + ": "@ + source,
            ManagerRefusal::InvalidSystemTime => "system time is before the Unix epoch"@,
        }
    }
}

fn framed(before: &str, text: &str, after: &str) -> (whole: String)
    ensures
        whole@ == before@ + text@ + after@,
{
    let mut whole: String = before.to_owned();
    whole.append(text);
    whole.append(after);
    whole
}

impl ManagerError {
    pub open spec fn view(&self) -> ManagerRefusal {
        match *self {
            ManagerError::Config(reason) => ManagerRefusal::Config(reason@),
            ManagerError::Storage(reason) => ManagerRefusal::Storage(reason@),
            ManagerError::NotFound(id) => ManagerRefusal::NotFound(id@),
            ManagerError::DefinitionMissing(id) => ManagerRefusal::DefinitionMissing(id@),
            ManagerError::WrongKind { id, expected, actual } => ManagerRefusal::WrongKind {
                id: id@,
                expected: expected@,
                actual: actual@,
            },
            ManagerError::AlreadyActive(id) => ManagerRefusal::AlreadyActive(id@),
            ManagerError::SupervisorIdentityMismatch => ManagerRefusal::SupervisorIdentityMismatch,
            ManagerError::SessionEnding => ManagerRefusal::SessionEnding,
            ManagerError::KindChangeActive(id) => ManagerRefusal::KindChangeActive(id@),
            ManagerError::Encode(reason) => ManagerRefusal::Encode(reason@),
            ManagerError::Decode(reason) => ManagerRefusal::Decode(reason@),
            ManagerError::Io { path, source } => ManagerRefusal::Io {
                path: path@,
                source: source@,
            },
            ManagerError::InvalidSystemTime => ManagerRefusal::InvalidSystemTime,
        }
    }

    pub fn message(&self) -> (message: String)
        ensures
            message@ == self@.text(),
    {
        match self {
            ManagerError::Config(reason) => join("configuration reload failed: ", reason.as_str()),
            ManagerError::Storage(reason) => reason.clone(),
            ManagerError::NotFound(id) => framed("workload '", id.as_str(), "' does not exist"),
            ManagerError::DefinitionMissing(id) => framed(
                "workload '",
                id.as_str(),
                "' has no accepted definition",
            ),
            ManagerError::WrongKind { id, expected, actual } => {
                let mut message: String = framed("workload '", id.as_str(), "' is a ");
                message.append(actual.as_str());
                message.append(", not a ");
                message.append(expected);
                message
            },
            ManagerError::AlreadyActive(id) => framed(
                "workload '",
                id.as_str(),
                "' is already active",
            ),
            ManagerError::SupervisorIdentityMismatch =>
                "supervisor execution identity does not match durable state".to_owned(),
            ManagerError::SessionEnding => "the manager session is ending".to_owned(),
            ManagerError::KindChangeActive(id) => framed(
                "cannot change active workload '",
                id.as_str(),
                "' between service and job",
            ),
            ManagerError::Encode(reason) => join(
                "cannot encode execution snapshot: ",
                reason.as_str(),
            ),
            ManagerError::Decode(reason) => join(
                "cannot decode stored execution snapshot: ",
                reason.as_str(),
            ),
            ManagerError::Io { path, source } => {
                let mut message: String = framed("cannot access ", path.as_str(), ": ");
                message.append(source.as_str());
                message
            },
            ManagerError::InvalidSystemTime => "system time is before the Unix epoch".to_owned(),
        }
    }
}

/// How an error is reported over the wire.
#[derive(Clone, Copy, Debug, PartialEq, Eq, Structural)]
pub enum StatusCode {
    InvalidArgument,
    NotFound,
    AlreadyExists,
    FailedPrecondition,
    ResourceExhausted,
    Unauthenticated,
    Unavailable,
    Internal,
}

/// Who is told of an error.
#[derive(Clone, Copy, Debug, PartialEq, Eq, Structural)]
pub enum Audience {
    User,
    Supervisor,
}

/// The status that an error is reported as. A configuration is the fault of the user who asked
/// for it, but not of a supervisor.
pub open spec fn status_of(error: ManagerRefusal, audience: Audience) -> StatusCode {
    match error {
        ManagerRefusal::NotFound(_) => StatusCode::NotFound,
        ManagerRefusal::AlreadyActive(_) => StatusCode::AlreadyExists,
        ManagerRefusal::DefinitionMissing(_)
        | ManagerRefusal::WrongKind { .. }
        | ManagerRefusal::KindChangeActive(_)
        | ManagerRefusal::SupervisorIdentityMismatch
        | ManagerRefusal::SessionEnding => StatusCode::FailedPrecondition,
        ManagerRefusal::Config(_) => if audience == Audience::User {
            StatusCode::InvalidArgument
        } else {
            StatusCode::Internal
        },
        ManagerRefusal::Storage(_)
        | ManagerRefusal::Encode(_)
        | ManagerRefusal::Decode(_)
        | ManagerRefusal::Io { .. }
        | ManagerRefusal::InvalidSystemTime => StatusCode::Internal,
    }
}

pub fn map_error(error: &ManagerError, audience: Audience) -> (status: StatusCode)
    ensures
        status == status_of(error@, audience),
{
    match error {
        ManagerError::NotFound(_) => StatusCode::NotFound,
        ManagerError::AlreadyActive(_) => StatusCode::AlreadyExists,
        ManagerError::DefinitionMissing(_)
        | ManagerError::WrongKind { .. }
        | ManagerError::KindChangeActive(_)
        | ManagerError::SupervisorIdentityMismatch
        | ManagerError::SessionEnding => StatusCode::FailedPrecondition,
        ManagerError::Config(_) => {
            if audience == Audience::User {
                StatusCode::InvalidArgument
            } else {
                StatusCode::Internal
            }
        },
        ManagerError::Storage(_)
        | ManagerError::Encode(_)
        | ManagerError::Decode(_)
        | ManagerError::Io { .. }
        | ManagerError::InvalidSystemTime => StatusCode::Internal,
    }
}

} // verus!
