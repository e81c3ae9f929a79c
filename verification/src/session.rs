//! The event that tells the parts of a session that it is ending.

use vstd::prelude::*;
use vstd::string::*;

use crate::pipe::UserSid;
use crate::text::{chars_of, decimal, push_decimal};

verus! {

/// Why an event cannot be named or used.
#[derive(Debug)]
pub enum SessionEventError {
    InvalidManagerSessionId,
    /// The system refused, for this reason.
    Windows(String),
}

impl SessionEventError {
    pub open spec fn text(&self) -> Seq<char> {
        match *self {
            SessionEventError::InvalidManagerSessionId => "invalid manager-session id"@,
            SessionEventError::Windows(reason) => "manager-session ending event failed: "@
                + reason@,
        }
    }

    pub fn message(&self) -> (message: String)
        ensures
            message@ == self.text(),
    {
        match self {
            SessionEventError::InvalidManagerSessionId => "invalid manager-session id".to_owned(),
            SessionEventError::Windows(reason) => {
                let mut message: String = "manager-session ending event failed: ".to_owned();
                message.append(reason.as_str());
                message
            },
        }
    }
}

/// The longest id of a session.
pub const MAX_SESSION_ID: usize = 64;

/// Whether a character may stand in the id of a session.
pub open spec fn is_session_char(c: char) -> bool {
    'a' <= c <= 'z' || 'A' <= c <= 'Z' || '0' <= c <= '9' || c == '-'
}

/// Whether a text is the id of a session.
pub open spec fn is_session_id(text: Seq<char>) -> bool {
    &&& 0 < text.len() <= MAX_SESSION_ID
    &&& forall|i: int| 0 <= i < text.len() ==> is_session_char(#[trigger] text[i])
}

/// The name of the event that marks the end of a session.
pub open spec fn ending_event(manager_session_id: Seq<char>) -> Seq<char> {
    "Global\\SUSM-manager-session-"@ + manager_session_id + "-ending"@
}

/// The name of the event that marks the end of a session.
pub fn ending_event_name(manager_session_id: &str) -> (result: Result<String, SessionEventError>)
    ensures
        match result {
            Ok(name) => is_session_id(manager_session_id@) && name@ == ending_event(
                manager_session_id@,
            ),
            Err(error) => !is_session_id(manager_session_id@) && error
                == SessionEventError::InvalidManagerSessionId,
        },
{
    let chars: Vec<char> = chars_of(manager_session_id);
    if chars.len() == 0 || chars.len() > MAX_SESSION_ID {
        return Err(SessionEventError::InvalidManagerSessionId);
    }
    let mut i: usize = 0;
    while i < chars.len()
        invariant
            i <= chars.len(),
            chars@ == manager_session_id@,
            forall|j: int| 0 <= j < i ==> is_session_char(#[trigger] chars@[j]),
        decreases chars.len() - i,
    {
        let c: char = chars[i];
        let allowed: bool = 'a' <= c && c <= 'z' || 'A' <= c && c <= 'Z' || '0' <= c && c <= '9'
            || c == '-';
        if !allowed {
            assert(!is_session_char(manager_session_id@[i as int]));
            return Err(SessionEventError::InvalidManagerSessionId);
        }
        i += 1;
    }
    let mut name: String = "Global\\SUSM-manager-session-".to_owned();
    name.append(manager_session_id);
    name.append("-ending");
    Ok(name)
}

/// The security descriptor of the event: the system signals it, and the user can wait for it.
pub fn ending_event_descriptor(sid: &UserSid) -> (text: String)
    ensures
        text@ == "D:P(A;;GA;;;SY)(A;;0x00100000;;;"@ + sid@ + ")"@,
{
    let mut text: String = "D:P(A;;GA;;;SY)(A;;0x00100000;;;".to_owned();
    text.append(sid.as_str());
    text.append(")");
    text
}

/// How often a waiting part looks at the event, in milliseconds.
pub const POLL_INTERVAL_MS: u64 = 50;

/// What the system says of an event that was looked at.
#[derive(Debug)]
pub enum EventWait {
    /// It is signaled.
    Object,
    /// It is not signaled yet.
    Timeout,
    /// Looking failed, for this reason.
    Failed(String),
    /// Any other result.
    Other(u32),
}

/// Whether the event is signaled, as the system says.
pub fn is_signaled(wait: EventWait) -> (result: Result<bool, SessionEventError>)
    ensures
        match wait {
            EventWait::Object => result == Ok::<bool, SessionEventError>(true),
            EventWait::Timeout => result == Ok::<bool, SessionEventError>(false),
            EventWait::Failed(reason) => result matches Err(error) && error
                == SessionEventError::Windows(reason),
            EventWait::Other(code) => result matches Err(SessionEventError::Windows(reason))
                && reason@ == "unexpected event wait result "@ + decimal(code as nat),
        },
{
    match wait {
        EventWait::Object => Ok(true),
        EventWait::Timeout => Ok(false),
        EventWait::Failed(reason) => Err(SessionEventError::Windows(reason)),
        EventWait::Other(code) => {
            let mut reason: String = "unexpected event wait result ".to_owned();
            push_decimal(&mut reason, code as u64);
            Err(SessionEventError::Windows(reason))
        },
    }
}

/// Different sessions have different events.
pub proof fn law_sessions_have_their_own_events(a: Seq<char>, b: Seq<char>)
    requires
        a != b,
    ensures
        ending_event(a) != ending_event(b),
{
    let head = "Global\\SUSM-manager-session-"@;
    let tail = "-ending"@;
    if ending_event(a) == ending_event(b) {
        let whole = ending_event(a);
        assert(whole.subrange(head.len() as int, whole.len() - tail.len()) =~= a);
        assert(whole.subrange(head.len() as int, whole.len() - tail.len()) =~= b);
    }
}

} // verus!
