//! The named pipes over which the parts of the manager talk, and who may open them.

use vstd::prelude::*;
use vstd::string::*;

use crate::text::{chars_of, holds_char, same_text};

verus! {

/// The largest message that goes over a pipe, in bytes.
pub const MAX_MESSAGE_SIZE: usize = 4 * 1024 * 1024;

/// How many instances of a pipe a server keeps.
pub const MAX_INSTANCES: usize = 32;

/// Whether a text is taken as the security identifier of a Windows user: it begins with `S-` and
/// can stand as one part of a path.
pub open spec fn is_user_sid(text: Seq<char>) -> bool {
    &&& text.len() >= 2 && text[0] == 'S' && text[1] == '-'
    &&& !text.contains('\\')
    &&& !text.contains('/')
    &&& !text.contains('\0')
}

/// The security identifier of a Windows user.
#[derive(Debug, PartialEq, Eq, Hash)]
pub struct UserSid {
    text: String,
}

/// What is refused as a security identifier.
#[derive(Clone, Copy, Debug, PartialEq, Eq, Structural)]
pub struct InvalidSid;

impl InvalidSid {
    pub fn message(self) -> (message: &'static str)
        ensures
            message@ == "invalid Windows SID"@,
    {
        "invalid Windows SID"
    }
}

impl UserSid {
    pub closed spec fn view(&self) -> Seq<char> {
        self.text@
    }

    #[verifier::type_invariant]
    spec fn valid(self) -> bool {
        is_user_sid(self.text@)
    }

    /// Reads an identifier in the form in which Windows writes it.
    pub fn parse_windows(value: String) -> (result: Result<UserSid, InvalidSid>)
        ensures
            match result {
                Ok(sid) => is_user_sid(value@) && sid@ == value@,
                Err(_) => !is_user_sid(value@),
            },
    {
        let chars: Vec<char> = chars_of(value.as_str());
        if chars.len() < 2 || chars[0] != 'S' || chars[1] != '-' || holds_char(
            value.as_str(),
            '\\',
        ) || holds_char(value.as_str(), '/') || holds_char(value.as_str(), '\0') {
            return Err(InvalidSid);
        }
        Ok(UserSid { text: value })
    }

    /// The text of the identifier.
    pub fn as_str(&self) -> (text: &str)
        ensures
            text@ == self@,
            is_user_sid(text@),
    {
        proof {
            use_type_invariant(self);
        }
        self.text.as_str()
    }

    /// Whether two identifiers name the same user.
    pub fn same_user(&self, other: &UserSid) -> (same: bool)
        ensures
            same == (self@ == other@),
    {
        same_text(self.text.as_str(), other.text.as_str())
    }
}

impl Clone for UserSid {
    fn clone(&self) -> (copy: UserSid)
        ensures
            copy@ == self@,
    {
        proof {
            use_type_invariant(self);
        }
        UserSid { text: self.text.clone() }
    }
}

/// Who opened a pipe.
#[derive(Debug)]
pub struct CallerIdentity {
    pub sid: UserSid,
    pub process_id: u32,
}

impl Clone for CallerIdentity {
    fn clone(&self) -> (copy: CallerIdentity)
        ensures
            copy.sid@ == self.sid@,
            copy.process_id == self.process_id,
    {
        CallerIdentity { sid: self.sid.clone(), process_id: self.process_id }
    }
}

/// The name under which a session stands in a pipe's path.
pub open spec fn session_part(manager_session_id: Seq<char>) -> Seq<char> {
    if manager_session_id.len() == 0 {
        "standalone"@
    } else {
        manager_session_id
    }
}

/// The path of a pipe of one user's session, for one service.
pub open spec fn user_pipe(sid: Seq<char>, manager_session_id: Seq<char>, service: Seq<char>) -> Seq<
    char,
> {
    "\\\\.\\pipe\\susm\\users\\"@ + sid + "\\sessions\\"@ + session_part(manager_session_id)
        + "\\"@ + service + "\\v1"@
}

fn user_pipe_name(sid: &UserSid, manager_session_id: &str, service: &str) -> (name: String)
    ensures
        name@ == user_pipe(sid@, manager_session_id@, service@),
{
    let session: &str = if manager_session_id.unicode_len() == 0 {
        "standalone"
    } else {
        manager_session_id
    };
    let mut name: String = "\\\\.\\pipe\\susm\\users\\".to_owned();
    name.append(sid.as_str());
    name.append("\\sessions\\");
    name.append(session);
    name.append("\\");
    name.append(service);
    name.append("\\v1");
    name
}

/// The pipe on which the controller of a session takes the requests of its user.
pub fn control_pipe_name(sid: &UserSid, manager_session_id: &str) -> (name: String)
    ensures
        name@ == user_pipe(sid@, manager_session_id@, "control"@),
{
    user_pipe_name(sid, manager_session_id, "control")
}

/// The pipe on which the controller of a session takes the reports of its supervisors.
pub fn supervisor_pipe_name(sid: &UserSid, manager_session_id: &str) -> (name: String)
    ensures
        name@ == user_pipe(sid@, manager_session_id@, "supervisors"@),
{
    user_pipe_name(sid, manager_session_id, "supervisors")
}

/// The pipe of the host.
pub fn host_pipe_name() -> (name: String)
    ensures
        name@ == "\\\\.\\pipe\\susm\\host\\v1"@,
{
    "\\\\.\\pipe\\susm\\host\\v1".to_owned()
}

/// For whom a pipe is open.
#[derive(Debug)]
pub enum PipeAccess {
    /// Only for one user.
    User(UserSid),
    /// For every user who has logged on.
    AuthenticatedUsers,
}

impl PipeAccess {
    /// The security descriptor of the pipe: full access for the system, and what the others may
    /// do.
    pub open spec fn descriptor(&self) -> Seq<char> {
        match *self {
            PipeAccess::User(sid) => "D:P(A;;GA;;;SY)(A;;GA;;;"@ + sid@ + ")"@,
            PipeAccess::AuthenticatedUsers => "D:P(A;;GA;;;SY)(A;;GRGW;;;AU)"@,
        }
    }

    /// The security descriptor with which the pipe is made.
    pub fn security_descriptor(&self) -> (text: String)
        ensures
            text@ == self.descriptor(),
    {
        match self {
            PipeAccess::User(sid) => {
                let mut text: String = "D:P(A;;GA;;;SY)(A;;GA;;;".to_owned();
                text.append(sid.as_str());
                text.append(")");
                text
            },
            PipeAccess::AuthenticatedUsers => "D:P(A;;GA;;;SY)(A;;GRGW;;;AU)".to_owned(),
        }
    }

    /// Whether a caller is served: on a pipe of one user, only that user is.
    pub fn serves(&self, caller: &CallerIdentity) -> (served: bool)
        ensures
            served == match *self {
                PipeAccess::User(sid) => sid@ == caller.sid@,
                PipeAccess::AuthenticatedUsers => true,
            },
    {
        match self {
            PipeAccess::User(sid) => sid.same_user(&caller.sid),
            PipeAccess::AuthenticatedUsers => true,
        }
    }
}

/// The Windows error of a pipe that is not there.
pub const ERROR_FILE_NOT_FOUND: i32 = 2;

/// The Windows error of a pipe whose instances are all taken.
pub const ERROR_PIPE_BUSY: i32 = 231;

/// How long a client waits before it first tries again to open a pipe, in milliseconds.
pub const FIRST_OPEN_DELAY_MS: u64 = 20;

/// The longest wait between two tries to open a pipe, in milliseconds.
pub const LONGEST_OPEN_DELAY_MS: u64 = 1000;

/// Whether a client tries again after an error.
pub open spec fn is_transient(code: Option<i32>) -> bool {
    code == Some(ERROR_FILE_NOT_FOUND) || code == Some(ERROR_PIPE_BUSY)
}

/// The wait after a wait, in milliseconds: twice as long, up to the longest.
pub open spec fn next_open_delay(delay_ms: nat) -> nat {
    if delay_ms * 2 < LONGEST_OPEN_DELAY_MS {
        delay_ms * 2
    } else {
        LONGEST_OPEN_DELAY_MS as nat
    }
}

/// The wait before the try that follows `tries` failed ones.
pub open spec fn open_delay(tries: nat) -> nat
    decreases tries,
{
    if tries == 0 {
        FIRST_OPEN_DELAY_MS as nat
    } else {
        next_open_delay(open_delay((tries - 1) as nat))
    }
}

/// How a client goes on opening a pipe.
#[derive(Clone, Copy, Debug, PartialEq, Eq, Structural)]
pub struct OpenRetry {
    /// How long the next wait is, in milliseconds.
    pub delay_ms: u64,
}

impl OpenRetry {
    pub open spec fn well_formed(self) -> bool {
        FIRST_OPEN_DELAY_MS <= self.delay_ms <= LONGEST_OPEN_DELAY_MS
    }

    pub fn new() -> (retry: OpenRetry)
        ensures
            retry.well_formed(),
            retry.delay_ms == open_delay(0),
    {
        OpenRetry { delay_ms: FIRST_OPEN_DELAY_MS }
    }

    /// What follows a failed try with the error's code: a wait of this many milliseconds before
    /// the next one, or nothing where the error is final.
    pub fn failed(&mut self, code: Option<i32>) -> (wait: Option<u64>)
        requires
            old(self).well_formed(),
        ensures
            final(self).well_formed(),
            is_transient(code) ==> wait == Some(old(self).delay_ms) && final(self).delay_ms
                == next_open_delay(old(self).delay_ms as nat),
            !is_transient(code) ==> wait is None && *final(self) == *old(self),
    {
        let transient: bool = match code {
            Some(value) => value == ERROR_FILE_NOT_FOUND || value == ERROR_PIPE_BUSY,
            None => false,
        };
        if !transient {
            return None;
        }
        let wait: u64 = self.delay_ms;
        let doubled: u64 = wait * 2;
        self.delay_ms = if doubled < LONGEST_OPEN_DELAY_MS {
            doubled
        } else {
            LONGEST_OPEN_DELAY_MS
        };
        Some(wait)
    }
}

/// The waits of a client never shrink and never pass the longest one.
pub proof fn law_open_delays_grow_within_bounds(tries: nat)
    ensures
        FIRST_OPEN_DELAY_MS <= open_delay(tries) <= open_delay(tries + 1) <= LONGEST_OPEN_DELAY_MS,
    decreases tries,
{
    if tries > 0 {
        law_open_delays_grow_within_bounds((tries - 1) as nat);
    }
    reveal_with_fuel(open_delay, 2);
}

/// Different sessions of one user have different pipes, and so have different users with the same
/// session: neither can be taken for the other.
pub proof fn law_pipes_of_sessions_differ(sid: Seq<char>, a: Seq<char>, b: Seq<char>, service: Seq<char>)
    requires
        session_part(a) != session_part(b),
    ensures
        user_pipe(sid, a, service) != user_pipe(sid, b, service),
{
    let head = "\\\\.\\pipe\\susm\\users\\"@ + sid + "\\sessions\\"@;
    let tail = "\\"@ + service + "\\v1"@;
    assert(user_pipe(sid, a, service) =~= head + session_part(a) + tail);
    assert(user_pipe(sid, b, service) =~= head + session_part(b) + tail);
    if user_pipe(sid, a, service) == user_pipe(sid, b, service) {
        let whole = head + session_part(a) + tail;
        assert(whole.len() == (head + session_part(b) + tail).len());
        assert(whole.subrange(head.len() as int, whole.len() - tail.len()) =~= session_part(a));
        assert(whole.subrange(head.len() as int, whole.len() - tail.len()) =~= session_part(b));
    }
}

/// The pipe of one user is never the pipe of another, whatever their sessions and the services.
pub proof fn law_pipes_of_users_differ(
    sid_a: Seq<char>,
    session_a: Seq<char>,
    service_a: Seq<char>,
    sid_b: Seq<char>,
    session_b: Seq<char>,
    service_b: Seq<char>,
)
    requires
        is_user_sid(sid_a),
        is_user_sid(sid_b),
        sid_a != sid_b,
    ensures
        user_pipe(sid_a, session_a, service_a) != user_pipe(sid_b, session_b, service_b),
{
    let head = "\\\\.\\pipe\\susm\\users\\"@;
    let between = "\\sessions\\"@;
    reveal_strlit("\\sessions\\");
    let rest_a = session_part(session_a) + "\\"@ + service_a + "\\v1"@;
    let rest_b = session_part(session_b) + "\\"@ + service_b + "\\v1"@;
    let a = user_pipe(sid_a, session_a, service_a);
    let b = user_pipe(sid_b, session_b, service_b);
    assert(a =~= head + sid_a + between + rest_a);
    assert(b =~= head + sid_b + between + rest_b);
    if a == b {
        let start = head.len() as int;
        if sid_a.len() < sid_b.len() {
            let at = sid_a.len() as int;
            assert(a[start + at] == between[0]);
            assert(b[start + at] == sid_b[at]);
            assert(sid_b.contains('\\'));
        } else if sid_b.len() < sid_a.len() {
            let at = sid_b.len() as int;
            assert(b[start + at] == between[0]);
            assert(a[start + at] == sid_a[at]);
            assert(sid_a.contains('\\'));
        } else {
            assert(a.subrange(start, start + sid_a.len()) =~= sid_a);
            assert(b.subrange(start, start + sid_b.len()) =~= sid_b);
        }
    }
}

/// Why a pipe could not be connected to.
#[derive(Debug)]
pub enum PipeConnectError {
    TimedOut,
    Transport(String),
}

impl PipeConnectError {
    pub open spec fn text(&self) -> Seq<char> {
        match *self {
            PipeConnectError::TimedOut => "timed out waiting for the SUSM named pipe"@,
            PipeConnectError::Transport(reason) => "named-pipe transport failed: "@ + reason@,
        }
    }

    pub fn message(&self) -> (message: String)
        ensures
            message@ == self.text(),
    {
        match self {
            PipeConnectError::TimedOut => "timed out waiting for the SUSM named pipe".to_owned(),
            PipeConnectError::Transport(reason) => {
                let mut message: String = "named-pipe transport failed: ".to_owned();
                message.append(reason.as_str());
                message
            },
        }
    }
}

/// How long a client that waits for a pipe is given, in milliseconds.
pub const CONNECT_WAIT_MS: u64 = 5000;

} // verus!
