//! The sessions that are open on the machine, by the users who have logged on.

use vstd::prelude::*;
use vstd::string::*;

use crate::ordered::TextMap;

verus! {

/// How a session of the machine stands.
#[derive(Clone, Copy, Debug, PartialEq, Eq, Structural)]
pub enum ConnectState {
    Active,
    Connected,
    Disconnected,
    Idle,
    Other,
}

/// What is found of a session of the machine: the user who has logged on and the number of the
/// logon, where they can be found.
#[derive(Debug)]
pub struct SessionFacts {
    pub session_id: u32,
    pub state: ConnectState,
    pub sid: Option<String>,
    pub authentication_id: Option<u64>,
}

/// A session in which a controller can run, with its place among what was found.
#[derive(Clone, Copy, Debug, PartialEq, Eq, Structural)]
pub struct ActiveSession {
    pub session_id: u32,
    pub authentication_id: u64,
    pub entry: usize,
}

/// The sessions in which controllers can run.
#[derive(Debug)]
pub struct ActiveSessions {
    /// The session of each user.
    pub sessions: TextMap<ActiveSession>,
    /// The users with more than one session.
    pub conflicts: TextMap<()>,
    /// All logons, by session and number.
    pub logons: Vec<(u32, u64)>,
}

#[verifier::ext_equal]
pub struct InventoryView {
    pub sessions: Map<Seq<char>, ActiveSession>,
    pub conflicts: Set<Seq<char>>,
    pub logons: Set<(u32, u64)>,
}

impl ActiveSessions {
    pub open spec fn view(&self) -> InventoryView {
        InventoryView {
            sessions: self.sessions.map(),
            conflicts: self.conflicts.map().dom(),
            logons: self.logons@.to_set(),
        }
    }
}

/// Whether a controller can run in a session.
pub open spec fn is_eligible(facts: SessionFacts) -> bool {
    facts.state != ConnectState::Other && facts.sid is Some && facts.authentication_id is Some
}

/// What was found with one more session.
pub open spec fn with_session(inventory: InventoryView, facts: SessionFacts, entry: int) -> InventoryView {
    if !is_eligible(facts) {
        inventory
    } else {
        let sid = facts.sid->0@;
        let session = ActiveSession {
            session_id: facts.session_id,
            authentication_id: facts.authentication_id->0,
            entry: entry as usize,
        };
        let logons = inventory.logons.insert((facts.session_id, facts.authentication_id->0));
        if inventory.sessions.contains_key(sid) {
            InventoryView { conflicts: inventory.conflicts.insert(sid), logons, ..inventory }
        } else {
            InventoryView { sessions: inventory.sessions.insert(sid, session), logons, ..inventory }
        }
    }
}

/// What the first `n` sessions make up.
pub open spec fn inventory(facts: Seq<SessionFacts>, n: int) -> InventoryView
    decreases n,
{
    if n <= 0 {
        InventoryView { sessions: Map::empty(), conflicts: Set::empty(), logons: Set::empty() }
    } else {
        with_session(inventory(facts, n - 1), facts[n - 1], n - 1)
    }
}

/// The sessions in which controllers can run. The first session of a user is taken, and a user
/// with more than one is in conflict.
pub fn active_sessions(facts: &Vec<SessionFacts>) -> (found: ActiveSessions)
    ensures
        found@ == inventory(facts@, facts@.len() as int),
{
    let mut sessions: TextMap<ActiveSession> = TextMap::new();
    let mut conflicts: TextMap<()> = TextMap::new();
    let mut logons: Vec<(u32, u64)> = Vec::new();
    let mut i: usize = 0;
    proof {
        assert(sessions.map() =~= Map::empty());
        assert(conflicts.map().dom() =~= Set::empty());
        assert(logons@.to_set() =~= Set::empty());
    }
    while i < facts.len()
        invariant
            i <= facts.len(),
            inventory(facts@, i as int) == (InventoryView {
                sessions: sessions.map(),
                conflicts: conflicts.map().dom(),
                logons: logons@.to_set(),
            }),
        decreases facts.len() - i,
    {
        let found: &SessionFacts = &facts[i];
        let ghost before = inventory(facts@, i as int);
        let usable: bool = match found.state {
            ConnectState::Other => false,
            _ => true,
        };
        if usable {
            match (&found.sid, found.authentication_id) {
                (Some(sid), Some(authentication_id)) => {
                    let ghost logons_before = logons@;
                    let logon: (u32, u64) = (found.session_id, authentication_id);
                    logons.push(logon);
                    assert(logons@.to_set() =~= before.logons.insert(logon)) by {
                        assert(logons@[logons@.len() - 1] == logon);
                        assert forall|l: (u32, u64)| logons@.to_set().contains(l)
                            == before.logons.insert(logon).contains(l) by {
                            if logons_before.contains(l) {
                                let k = choose|k: int|
                                    0 <= k < logons_before.len() && logons_before[k] == l;
                                assert(logons@[k] == l);
                            }
                        }
                    }
                    if sessions.contains_key(sid.as_str()) {
                        let ghost conflicts_before = conflicts.map();
                        let _ = conflicts.insert(sid.clone(), ());
                        assert(conflicts.map().dom() =~= conflicts_before.dom().insert(sid@));
                    } else {
                        let _ = sessions.insert(
                            sid.clone(),
                            ActiveSession {
                                session_id: found.session_id,
                                authentication_id,
                                entry: i,
                            },
                        );
                    }
                },
                _ => {},
            }
        }
        i += 1;
    }
    ActiveSessions { sessions, conflicts, logons }
}

/// Whether a controller can run in a session of this user.
pub open spec fn serves(facts: SessionFacts, sid: Seq<char>) -> bool {
    is_eligible(facts) && facts.sid->0@ == sid
}

/// A user has a session exactly where one was found, and is in conflict exactly where two were.
pub proof fn law_conflicts_are_users_with_several_sessions(
    facts: Seq<SessionFacts>,
    n: int,
    sid: Seq<char>,
)
    requires
        0 <= n <= facts.len() <= usize::MAX,
    ensures
        inventory(facts, n).sessions.contains_key(sid) <==> exists|i: int|
            0 <= i < n && serves(#[trigger] facts[i], sid),
        inventory(facts, n).conflicts.contains(sid) <==> exists|i: int, j: int|
            0 <= i < j < n && serves(#[trigger] facts[i], sid) && serves(#[trigger] facts[j], sid),
        inventory(facts, n).sessions.contains_key(sid) ==> ({
            let session = inventory(facts, n).sessions[sid];
            &&& session.entry < n
            &&& serves(facts[session.entry as int], sid)
            &&& session.session_id == facts[session.entry as int].session_id
            &&& facts[session.entry as int].authentication_id == Some(session.authentication_id)
        }),
    decreases n,
{
    if n > 0 {
        law_conflicts_are_users_with_several_sessions(facts, n - 1, sid);
        let last = facts[n - 1];
        let before = inventory(facts, n - 1);
        if serves(last, sid) && before.sessions.contains_key(sid) {
            let i = choose|i: int| 0 <= i < n - 1 && serves(#[trigger] facts[i], sid);
            assert(serves(facts[i], sid) && serves(facts[n - 1], sid));
        }
    }
}

} // verus!
