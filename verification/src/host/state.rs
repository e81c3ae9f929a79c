//! Which users are registered with the host, which of their sessions have a controller, and what
//! the host does when that changes.

use vstd::prelude::*;
use vstd::string::*;

use crate::config::model::texts;
use crate::control::Status;
use crate::host::launcher::ProcessIdentity;
use crate::host::registry::{RuntimeSession, RuntimeView};
use crate::host::sessions::{ActiveSession, ActiveSessions, InventoryView};
use crate::manager::error::StatusCode;
use crate::ordered::{
    TextMap, ascending, entries_map, has_key, lemma_entry_in_map, lemma_listing_seen,
    lemma_remade_map, listing, remade, seen,
};
use crate::pipe::{UserSid, is_user_sid};
use crate::text::same_text;

verus! {

/// Whether the controller of a registration is looked after, and which process it is.
#[derive(Clone, Copy, Debug, PartialEq, Eq, Structural)]
pub enum RunnerState {
    Absent,
    Present(Option<ProcessIdentity>),
}

/// What the host knows of a registered user.
#[derive(Debug)]
pub struct Registration {
    pub manager_session_id: String,
    pub windows_session_id: Option<u32>,
    pub authentication_id: Option<u64>,
    /// Whether the event that marks the end of the session is held.
    pub has_event: bool,
    pub runner: RunnerState,
    /// The controller that was running when the host last wrote it down.
    pub recorded_process: Option<ProcessIdentity>,
    pub session_conflict: bool,
}

#[verifier::ext_equal]
pub struct RegistrationView {
    pub manager_session_id: Seq<char>,
    pub windows_session_id: Option<u32>,
    pub authentication_id: Option<u64>,
    pub has_event: bool,
    pub runner: RunnerState,
    pub recorded_process: Option<ProcessIdentity>,
    pub session_conflict: bool,
}

impl Registration {
    pub open spec fn view(&self) -> RegistrationView {
        RegistrationView {
            manager_session_id: self.manager_session_id@,
            windows_session_id: self.windows_session_id,
            authentication_id: self.authentication_id,
            has_event: self.has_event,
            runner: self.runner,
            recorded_process: self.recorded_process,
            session_conflict: self.session_conflict,
        }
    }
}

impl Clone for Registration {
    fn clone(&self) -> (copy: Registration)
        ensures
            copy@ == self@,
    {
        Registration {
            manager_session_id: self.manager_session_id.clone(),
            windows_session_id: self.windows_session_id,
            authentication_id: self.authentication_id,
            has_event: self.has_event,
            runner: self.runner,
            recorded_process: self.recorded_process,
            session_conflict: self.session_conflict,
        }
    }
}

/// What the host has done.
#[derive(Debug)]
pub enum HostEffect {
    /// A session is written down.
    Persist { sid: String, session: RuntimeSession },
    /// What was written down of a user's session goes.
    RemoveRuntime { sid: String },
    /// The end of the session is signaled by the event that is held for it.
    SignalEvent { sid: String },
    /// The end of an earlier session is signaled.
    SignalPrevious { sid: String, manager_session_id: String },
    /// The controller is ended with its session.
    EndRunner { sid: String },
    /// The controller is left to itself.
    DetachRunner { sid: String },
    /// The controller is replaced.
    RestartRunner { sid: String },
    /// A controller is launched in a session, or one that runs there already is taken over.
    Start {
        sid: String,
        manager_session_id: String,
        adopted: Option<ProcessIdentity>,
        session: ActiveSession,
    },
}

#[verifier::ext_equal]
pub enum HostEffectView {
    Persist { sid: Seq<char>, session: RuntimeView },
    RemoveRuntime { sid: Seq<char> },
    SignalEvent { sid: Seq<char> },
    SignalPrevious { sid: Seq<char>, manager_session_id: Seq<char> },
    EndRunner { sid: Seq<char> },
    DetachRunner { sid: Seq<char> },
    RestartRunner { sid: Seq<char> },
    Start {
        sid: Seq<char>,
        manager_session_id: Seq<char>,
        adopted: Option<ProcessIdentity>,
        session: ActiveSession,
    },
}

impl HostEffect {
    pub open spec fn view(&self) -> HostEffectView {
        match *self {
            HostEffect::Persist { sid, session } => HostEffectView::Persist {
                sid: sid@,
                session: session@,
            },
            HostEffect::RemoveRuntime { sid } => HostEffectView::RemoveRuntime { sid: sid@ },
            HostEffect::SignalEvent { sid } => HostEffectView::SignalEvent { sid: sid@ },
            HostEffect::SignalPrevious { sid, manager_session_id } =>
                HostEffectView::SignalPrevious {
                sid: sid@,
                manager_session_id: manager_session_id@,
            },
            HostEffect::EndRunner { sid } => HostEffectView::EndRunner { sid: sid@ },
            HostEffect::DetachRunner { sid } => HostEffectView::DetachRunner { sid: sid@ },
            HostEffect::RestartRunner { sid } => HostEffectView::RestartRunner { sid: sid@ },
            HostEffect::Start { sid, manager_session_id, adopted, session } =>
                HostEffectView::Start {
                sid: sid@,
                manager_session_id: manager_session_id@,
                adopted,
                session,
            },
        }
    }
}

/// Effects by what they say.
pub open spec fn effect_views(effects: Seq<HostEffect>) -> Seq<HostEffectView> {
    effects.map_values(|effect: HostEffect| effect@)
}

/// A user of whom nothing is known but that they are registered.
pub open spec fn blank() -> RegistrationView {
    RegistrationView {
        manager_session_id: Seq::empty(),
        windows_session_id: None,
        authentication_id: None,
        has_event: false,
        runner: RunnerState::Absent,
        recorded_process: None,
        session_conflict: false,
    }
}

fn new_registration() -> (registration: Registration)
    ensures
        registration@ == blank(),
{
    let registration: Registration = Registration {
        manager_session_id: String::new(),
        windows_session_id: None,
        authentication_id: None,
        has_event: false,
        runner: RunnerState::Absent,
        recorded_process: None,
        session_conflict: false,
    };
    assert(registration@.manager_session_id =~= Seq::empty());
    registration
}

/// A user whose session was written down.
pub open spec fn recalled(saved: RuntimeView) -> RegistrationView {
    RegistrationView {
        manager_session_id: saved.manager_session_id,
        windows_session_id: Some(saved.windows_session_id),
        authentication_id: Some(saved.authentication_id),
        recorded_process: if saved.controller_process_id != 0 && saved.controller_creation_time
            != 0 {
            Some(
                ProcessIdentity {
                    process_id: saved.controller_process_id,
                    creation_time: saved.controller_creation_time,
                },
            )
        } else {
            None
        },
        ..blank()
    }
}

fn recall(saved: RuntimeSession) -> (registration: Registration)
    ensures
        registration@ == recalled(saved@),
{
    Registration {
        recorded_process: if saved.controller_process_id != 0 && saved.controller_creation_time
            != 0 {
            Some(
                ProcessIdentity {
                    process_id: saved.controller_process_id,
                    creation_time: saved.controller_creation_time,
                },
            )
        } else {
            None
        },
        manager_session_id: saved.manager_session_id,
        windows_session_id: Some(saved.windows_session_id),
        authentication_id: Some(saved.authentication_id),
        has_event: false,
        runner: RunnerState::Absent,
        session_conflict: false,
    }
}

/// A session and its controller as they are written down.
pub open spec fn written(
    manager_session_id: Seq<char>,
    windows_session_id: u32,
    authentication_id: u64,
    process: Option<ProcessIdentity>,
) -> RuntimeView {
    RuntimeView {
        manager_session_id,
        windows_session_id,
        authentication_id,
        controller_process_id: match process {
            Some(identity) => identity.process_id,
            None => 0,
        },
        controller_creation_time: match process {
            Some(identity) => identity.creation_time,
            None => 0,
        },
    }
}

/// A session and its controller as they are written down when the controller changes.
pub fn runtime_session(
    manager_session_id: &str,
    windows_session_id: u32,
    authentication_id: u64,
    process: Option<ProcessIdentity>,
) -> (session: RuntimeSession)
    ensures
        session@ == written(manager_session_id@, windows_session_id, authentication_id, process),
{
    RuntimeSession {
        manager_session_id: manager_session_id.to_owned(),
        windows_session_id,
        authentication_id,
        controller_process_id: match process {
            Some(identity) => identity.process_id,
            None => 0,
        },
        controller_creation_time: match process {
            Some(identity) => identity.creation_time,
            None => 0,
        },
    }
}

impl RegistrationView {
    /// The controller of the user, as far as it is known.
    pub open spec fn process(self) -> Option<ProcessIdentity> {
        match self.runner {
            RunnerState::Present(Some(identity)) => Some(identity),
            _ => self.recorded_process,
        }
    }

    /// What is written down of the user, if there is a session.
    pub open spec fn persisting(self, sid: Seq<char>) -> Seq<HostEffectView> {
        match (self.windows_session_id, self.authentication_id) {
            (Some(windows_session_id), Some(authentication_id)) => seq![
                HostEffectView::Persist {
                    sid,
                    session: written(
                        self.manager_session_id,
                        windows_session_id,
                        authentication_id,
                        self.process(),
                    ),
                },
            ],
            _ => Seq::empty(),
        }
    }

    /// The user after the session has ended.
    pub open spec fn ended(self) -> RegistrationView {
        RegistrationView { session_conflict: self.session_conflict, ..blank() }
    }

    /// What ends the session of the user.
    pub open spec fn ending(self, sid: Seq<char>) -> Seq<HostEffectView> {
        (if self.has_event {
            seq![HostEffectView::SignalEvent { sid }]
        } else {
            Seq::empty()
        }) + (if self.runner != RunnerState::Absent {
            seq![HostEffectView::EndRunner { sid }]
        } else {
            Seq::empty()
        }) + seq![HostEffectView::RemoveRuntime { sid }]
    }

    /// The user before a controller is started in a session: what belongs to another logon is
    /// forgotten.
    pub open spec fn prepared(self, session: ActiveSession) -> RegistrationView {
        if self.authentication_id == Some(session.authentication_id) {
            self
        } else {
            RegistrationView {
                manager_session_id: Seq::empty(),
                windows_session_id: None,
                recorded_process: None,
                ..self
            }
        }
    }

    /// What starts a controller for the user in a session.
    pub open spec fn starting(self, sid: Seq<char>, session: ActiveSession, fresh: Seq<char>) -> Seq<
        HostEffectView,
    > {
        let base = self.prepared(session);
        let forgotten = if self.authentication_id == Some(session.authentication_id) {
            Seq::empty()
        } else {
            (if self.manager_session_id.len() > 0 {
                seq![
                    HostEffectView::SignalPrevious {
                        sid,
                        manager_session_id: self.manager_session_id,
                    },
                ]
            } else {
                Seq::empty()
            }) + seq![HostEffectView::RemoveRuntime { sid }]
        };
        forgotten + seq![
            HostEffectView::Start {
                sid,
                manager_session_id: if base.manager_session_id.len() == 0 {
                    fresh
                } else {
                    base.manager_session_id
                },
                adopted: base.recorded_process,
                session,
            },
        ]
    }

    /// The user held against the sessions that were found, and what is done. A new session of the
    /// manager gets the id `fresh`.
    pub open spec fn reconciled(
        self,
        sid: Seq<char>,
        conflict: bool,
        session: Option<ActiveSession>,
        fresh: Seq<char>,
    ) -> (RegistrationView, Seq<HostEffectView>) {
        let known = RegistrationView { session_conflict: conflict, ..self };
        if conflict {
            (known, known.persisting(sid))
        } else {
            match (known.runner, session) {
                (RunnerState::Absent, Some(session)) => if is_user_sid(sid) {
                    (known.prepared(session), known.starting(sid, session, fresh))
                } else {
                    (known, Seq::empty())
                },
                (RunnerState::Absent, None) => (known, Seq::empty()),
                (RunnerState::Present(_), None) => (known.ended(), known.ending(sid)),
                (RunnerState::Present(_), Some(session)) => if known.windows_session_id == Some(
                    session.session_id,
                ) && known.authentication_id == Some(session.authentication_id) {
                    (known, known.persisting(sid))
                } else {
                    (known.ended(), known.ending(sid))
                },
            }
        }
    }

    /// The user after a controller was started in a session.
    pub open spec fn started(
        self,
        manager_session_id: Seq<char>,
        session: ActiveSession,
        process: Option<ProcessIdentity>,
    ) -> RegistrationView {
        RegistrationView {
            manager_session_id,
            windows_session_id: Some(session.session_id),
            authentication_id: Some(session.authentication_id),
            has_event: true,
            runner: RunnerState::Present(process),
            ..self
        }
    }
}

/// How the controller of a user stands.
#[derive(Debug)]
pub struct HostStatus {
    pub registered: bool,
    pub controller_running: bool,
    pub manager_session_id: String,
    pub controller_process_id: u32,
    pub message: String,
}

#[verifier::ext_equal]
pub struct StatusView {
    pub registered: bool,
    pub controller_running: bool,
    pub manager_session_id: Seq<char>,
    pub controller_process_id: u32,
    pub message: Seq<char>,
}

impl HostStatus {
    pub open spec fn view(&self) -> StatusView {
        StatusView {
            registered: self.registered,
            controller_running: self.controller_running,
            manager_session_id: self.manager_session_id@,
            controller_process_id: self.controller_process_id,
            message: self.message@,
        }
    }
}

/// How the controller of a registered user stands.
pub open spec fn status_of(registration: Option<RegistrationView>) -> StatusView {
    match registration {
        Some(known) => {
            let process_id = match known.runner {
                RunnerState::Present(Some(identity)) => identity.process_id,
                _ => 0,
            };
            StatusView {
                registered: true,
                controller_running: process_id != 0,
                manager_session_id: known.manager_session_id,
                controller_process_id: process_id,
                message: if known.session_conflict {
                    "multiple eligible Windows sessions are active for this user"@
                } else {
                    Seq::empty()
                },
            }
        },
        None => StatusView {
            registered: false,
            controller_running: false,
            manager_session_id: Seq::empty(),
            controller_process_id: 0,
            message: Seq::empty(),
        },
    }
}

/// What the host knows, and what it has to do.
#[derive(Debug)]
pub struct HostState {
    pub controllers: TextMap<Registration>,
    /// The logons that are ending, by session and number.
    pub ending: Vec<(u32, u64)>,
    pub effects: Vec<HostEffect>,
}

#[verifier::ext_equal]
pub struct HostView {
    pub controllers: Map<Seq<char>, RegistrationView>,
    pub ending: Set<(u32, u64)>,
    pub effects: Seq<HostEffectView>,
}

/// Registrations by what they hold.
pub open spec fn registrations(controllers: Map<Seq<char>, Registration>) -> Map<
    Seq<char>,
    RegistrationView,
> {
    controllers.map_values(|registration: Registration| registration@)
}

/// The registered users in their order.
spec fn entries(controllers: TextMap<Registration>) -> Seq<(Seq<char>, RegistrationView)> {
    seen(controllers@, |registration: Registration| registration@)
}

proof fn lemma_entries(controllers: TextMap<Registration>)
    requires
        ascending(controllers@),
    ensures
        entries(controllers) == listing(registrations(controllers.map())),
        ascending(entries(controllers)),
        entries_map(entries(controllers)) == registrations(controllers.map()),
{
    let sight = |registration: Registration| registration@;
    lemma_listing_seen(controllers@, sight);
    assert(registrations(controllers.map()) =~= controllers.map().map_values(sight));
}

/// Whether a user's session is meant: all are, or those of one session of the machine.
pub open spec fn is_meant(registration: RegistrationView, session_id: Option<u32>) -> bool {
    session_id is None || registration.windows_session_id == session_id
}

/// The user after the sessions that are meant have ended.
pub open spec fn ended_if(registration: RegistrationView, session_id: Option<u32>) -> RegistrationView {
    if is_meant(registration, session_id) {
        registration.ended()
    } else {
        registration
    }
}

/// What ends the sessions that are meant, among the first `n` users.
pub open spec fn ending_effects(
    users: Seq<(Seq<char>, RegistrationView)>,
    session_id: Option<u32>,
    n: int,
) -> Seq<HostEffectView>
    decreases n,
{
    if n <= 0 {
        Seq::empty()
    } else {
        let (sid, registration) = users[n - 1];
        ending_effects(users, session_id, n - 1) + (if is_meant(registration, session_id) {
            registration.ending(sid)
        } else {
            Seq::empty()
        })
    }
}

/// The logons of one session of the machine, among the first `n` users.
pub open spec fn session_logons(
    users: Seq<(Seq<char>, RegistrationView)>,
    session_id: u32,
    n: int,
) -> Set<(u32, u64)>
    decreases n,
{
    if n <= 0 {
        Set::empty()
    } else {
        let registration = users[n - 1].1;
        let before = session_logons(users, session_id, n - 1);
        match registration.authentication_id {
            Some(authentication_id) => if registration.windows_session_id == Some(session_id) {
                before.insert((session_id, authentication_id))
            } else {
                before
            },
            None => before,
        }
    }
}

/// What leaves the controllers to themselves, of the first `n` users.
pub open spec fn detaching_effects(users: Seq<(Seq<char>, RegistrationView)>, n: int) -> Seq<
    HostEffectView,
>
    decreases n,
{
    if n <= 0 {
        Seq::empty()
    } else {
        let (sid, registration) = users[n - 1];
        detaching_effects(users, n - 1) + registration.persisting(sid) + (if registration.runner
            != RunnerState::Absent {
            seq![HostEffectView::DetachRunner { sid }]
        } else {
            Seq::empty()
        })
    }
}

impl HostView {
    pub open spec fn know(self, sid: Seq<char>, registration: RegistrationView, effects: Seq<HostEffectView>) -> HostView {
        HostView {
            controllers: self.controllers.insert(sid, registration),
            effects: self.effects + effects,
            ..self
        }
    }

    /// The session of a user, unless it is ending.
    pub open spec fn session_of(self, inventory: InventoryView, sid: Seq<char>) -> Option<ActiveSession> {
        if inventory.sessions.contains_key(sid) && !self.ending.contains(
            (inventory.sessions[sid].session_id, inventory.sessions[sid].authentication_id),
        ) {
            Some(inventory.sessions[sid])
        } else {
            None
        }
    }

    /// The host after the sessions that are meant have ended.
    pub open spec fn end(self, session_id: Option<u32>) -> HostView {
        let users = listing(self.controllers);
        HostView {
            controllers: self.controllers.map_values(
                |registration: RegistrationView| ended_if(registration, session_id),
            ),
            effects: self.effects + ending_effects(users, session_id, users.len() as int),
            ..self
        }
    }

    /// The host after one session of the machine has ended.
    pub open spec fn end_windows_session(self, session_id: u32) -> HostView {
        let users = listing(self.controllers);
        HostView {
            ending: self.ending.union(session_logons(users, session_id, users.len() as int)),
            ..self.end(Some(session_id))
        }
    }
}

/// Sessions that were written down, by what they hold.
pub open spec fn saved_views(saved: Map<Seq<char>, RuntimeSession>) -> Map<Seq<char>, RuntimeView> {
    saved.map_values(|session: RuntimeSession| session@)
}

/// The first `n` registered users with what was written down of them, and what is left of that.
pub open spec fn taken_in(
    registered: Seq<Seq<char>>,
    saved: Map<Seq<char>, RuntimeView>,
    n: int,
) -> (Map<Seq<char>, RegistrationView>, Map<Seq<char>, RuntimeView>)
    decreases n,
{
    if n <= 0 {
        (Map::empty(), saved)
    } else {
        let (controllers, left) = taken_in(registered, saved, n - 1);
        let sid = registered[n - 1];
        (
            controllers.insert(
                sid,
                if left.contains_key(sid) {
                    recalled(left[sid])
                } else {
                    blank()
                },
            ),
            left.remove(sid),
        )
    }
}

/// What removes the sessions that were written down of users who are not registered.
pub open spec fn removing_effects(left: Seq<(Seq<char>, RuntimeView)>, n: int) -> Seq<
    HostEffectView,
>
    decreases n,
{
    if n <= 0 {
        Seq::empty()
    } else {
        removing_effects(left, n - 1).push(HostEffectView::RemoveRuntime { sid: left[n - 1].0 })
    }
}

/// The users who are registered now: those who were keep what is known of them.
pub open spec fn kept(controllers: Map<Seq<char>, RegistrationView>, registered: Seq<Seq<char>>) -> Map<
    Seq<char>,
    RegistrationView,
> {
    Map::new(
        |sid: Seq<char>| registered.contains(sid),
        |sid: Seq<char>|
            if controllers.contains_key(sid) {
                controllers[sid]
            } else {
                blank()
            },
    )
}

/// What leaves the controllers of users to themselves who are not registered any more, of the first
/// `n` users.
pub open spec fn dropping_effects(
    users: Seq<(Seq<char>, RegistrationView)>,
    registered: Seq<Seq<char>>,
    n: int,
) -> Seq<HostEffectView>
    decreases n,
{
    if n <= 0 {
        Seq::empty()
    } else {
        let (sid, registration) = users[n - 1];
        let before = dropping_effects(users, registered, n - 1);
        if !registered.contains(sid) && registration.runner != RunnerState::Absent {
            before.push(HostEffectView::DetachRunner { sid })
        } else {
            before
        }
    }
}

/// Whether a text is in a list.
fn holds(list: &Vec<String>, text: &str) -> (found: bool)
    ensures
        found == texts(list@).contains(text@),
{
    let mut i: usize = 0;
    while i < list.len()
        invariant
            i <= list.len(),
            forall|j: int| 0 <= j < i ==> #[trigger] texts(list@)[j] != text@,
        decreases list.len() - i,
    {
        assert(texts(list@)[i as int] == list@[i as int]@);
        if same_text(list[i].as_str(), text) {
            return true;
        }
        i += 1;
    }
    false
}

/// Whether a logon is in a list.
fn has_logon(list: &Vec<(u32, u64)>, logon: (u32, u64)) -> (found: bool)
    ensures
        found == list@.to_set().contains(logon),
{
    let mut i: usize = 0;
    while i < list.len()
        invariant
            i <= list.len(),
            forall|j: int| 0 <= j < i ==> list@[j] != logon,
        decreases list.len() - i,
    {
        let known: (u32, u64) = list[i];
        if known.0 == logon.0 && known.1 == logon.1 {
            assert(list@[i as int] == logon);
            return true;
        }
        i += 1;
    }
    false
}

proof fn lemma_push_to_set(list: Seq<(u32, u64)>, logon: (u32, u64))
    ensures
        list.push(logon).to_set() == list.to_set().insert(logon),
{
    let after = list.push(logon);
    assert forall|l: (u32, u64)| after.to_set().contains(l) == list.to_set().insert(
        logon,
    ).contains(l) by {
        if list.contains(l) {
            let k = choose|k: int| 0 <= k < list.len() && list[k] == l;
            assert(after[k] == l);
        }
        assert(after[list.len() as int] == logon);
    }
    assert(after.to_set() =~= list.to_set().insert(logon));
}

impl Registration {
    fn push_persisting(&self, sid: &str, effects: &mut Vec<HostEffect>)
        ensures
            effect_views(final(effects)@) == effect_views(old(effects)@) + self@.persisting(sid@),
    {
        let process: Option<ProcessIdentity> = match self.runner {
            RunnerState::Present(Some(identity)) => Some(identity),
            _ => self.recorded_process,
        };
        match (self.windows_session_id, self.authentication_id) {
            (Some(windows_session_id), Some(authentication_id)) => {
                let session: RuntimeSession = runtime_session(
                    self.manager_session_id.as_str(),
                    windows_session_id,
                    authentication_id,
                    process,
                );
                effects.push(HostEffect::Persist { sid: sid.to_owned(), session });
            },
            _ => {},
        }
        assert(effect_views(effects@) =~= effect_views(old(effects)@) + self@.persisting(sid@));
    }

    fn push_ending(&self, sid: &str, effects: &mut Vec<HostEffect>)
        ensures
            effect_views(final(effects)@) == effect_views(old(effects)@) + self@.ending(sid@),
    {
        if self.has_event {
            effects.push(HostEffect::SignalEvent { sid: sid.to_owned() });
        }
        if !matches!(self.runner, RunnerState::Absent) {
            effects.push(HostEffect::EndRunner { sid: sid.to_owned() });
        }
        effects.push(HostEffect::RemoveRuntime { sid: sid.to_owned() });
        assert(effect_views(effects@) =~= effect_views(old(effects)@) + self@.ending(sid@));
    }

    fn ended(&self) -> (registration: Registration)
        ensures
            registration@ == self@.ended(),
    {
        let mut registration: Registration = new_registration();
        registration.session_conflict = self.session_conflict;
        registration
    }

    fn prepared(&self, session: ActiveSession) -> (registration: Registration)
        ensures
            registration@ == self@.prepared(session),
    {
        let mut registration: Registration = self.clone();
        let same_logon: bool = match self.authentication_id {
            Some(authentication_id) => authentication_id == session.authentication_id,
            None => false,
        };
        if !same_logon {
            registration.manager_session_id = String::new();
            registration.windows_session_id = None;
            registration.recorded_process = None;
            assert(registration@.manager_session_id =~= Seq::empty());
        }
        registration
    }

    fn push_starting(
        &self,
        sid: &str,
        session: ActiveSession,
        fresh: &str,
        effects: &mut Vec<HostEffect>,
    )
        ensures
            effect_views(final(effects)@) == effect_views(old(effects)@) + self@.starting(
                sid@,
                session,
                fresh@,
            ),
    {
        let base: Registration = self.prepared(session);
        let same_logon: bool = match self.authentication_id {
            Some(authentication_id) => authentication_id == session.authentication_id,
            None => false,
        };
        if !same_logon {
            if self.manager_session_id.as_str().unicode_len() > 0 {
                effects.push(
                    HostEffect::SignalPrevious {
                        sid: sid.to_owned(),
                        manager_session_id: self.manager_session_id.clone(),
                    },
                );
            }
            effects.push(HostEffect::RemoveRuntime { sid: sid.to_owned() });
        }
        let manager_session_id: String = if base.manager_session_id.as_str().unicode_len() == 0 {
            fresh.to_owned()
        } else {
            base.manager_session_id.clone()
        };
        effects.push(
            HostEffect::Start {
                sid: sid.to_owned(),
                manager_session_id,
                adopted: base.recorded_process,
                session,
            },
        );
        assert(effect_views(effects@) =~= effect_views(old(effects)@) + self@.starting(
            sid@,
            session,
            fresh@,
        ));
    }
}

impl HostState {
    pub open spec fn view(&self) -> HostView {
        HostView {
            controllers: registrations(self.controllers.map()),
            ending: self.ending@.to_set(),
            effects: effect_views(self.effects@),
        }
    }

    /// A host that begins with the registered users and what was written down of their sessions.
    /// What was written down of others goes.
    pub fn new(registered: &Vec<String>, saved: TextMap<RuntimeSession>) -> (host: HostState)
        ensures
            ({
                let (controllers, left) = taken_in(
                    texts(registered@),
                    saved_views(saved.map()),
                    registered@.len() as int,
                );
                let others = listing(left);
                host@ == (HostView {
                    controllers,
                    ending: Set::empty(),
                    effects: removing_effects(others, others.len() as int),
                })
            }),
    {
        let ghost all = saved_views(saved.map());
        let mut left: TextMap<RuntimeSession> = saved;
        let mut controllers: TextMap<Registration> = TextMap::new();
        let mut i: usize = 0;
        assert(registrations(controllers.map()) =~= Map::empty());
        while i < registered.len()
            invariant
                i <= registered.len(),
                taken_in(texts(registered@), all, i as int) == (
                    registrations(controllers.map()),
                    saved_views(left.map()),
                ),
            decreases registered.len() - i,
        {
            let sid: &String = &registered[i];
            assert(texts(registered@)[i as int] == sid@);
            let ghost left_before = left.map();
            let ghost controllers_before = controllers.map();
            let registration: Registration = match left.remove(sid.as_str()) {
                Some(session) => recall(session),
                None => new_registration(),
            };
            proof {
                assert(saved_views(left.map()) =~= saved_views(left_before).remove(sid@));
            }
            let ghost made = registration@;
            let _ = controllers.insert(sid.clone(), registration);
            assert(registrations(controllers.map()) =~= registrations(controllers_before).insert(
                sid@,
                made,
            ));
            i += 1;
        }
        let count: usize = left.len();
        let ghost sight = |session: RuntimeSession| session@;
        let ghost others = seen(left@, sight);
        let mut effects: Vec<HostEffect> = Vec::new();
        let mut j: usize = 0;
        assert(effect_views(effects@) =~= removing_effects(others, 0));
        while j < count
            invariant
                j <= count,
                count == left@.len(),
                sight == (|session: RuntimeSession| session@),
                others == seen(left@, sight),
                effect_views(effects@) == removing_effects(others, j as int),
            decreases count - j,
        {
            let ghost before = effects@;
            let effect = HostEffect::RemoveRuntime { sid: left.key(j).to_owned() };
            assert(others[j as int].0 == left@[j as int].0);
            effects.push(effect);
            assert(effect_views(effects@) =~= effect_views(before).push(effect@));
            j += 1;
        }
        let host = HostState { controllers, ending: Vec::new(), effects };
        proof {
            lemma_listing_seen(left@, sight);
            assert(saved_views(left.map()) =~= left.map().map_values(sight));
            assert(host@.ending =~= Set::empty());
        }
        host
    }

    /// Hands out what is to be done, in order.
    pub fn take_effects(&mut self) -> (effects: Vec<HostEffect>)
        ensures
            effect_views(effects@) == old(self)@.effects,
            final(self)@ == (HostView { effects: Seq::empty(), ..old(self)@ }),
    {
        let mut effects: Vec<HostEffect> = Vec::new();
        std::mem::swap(&mut effects, &mut self.effects);
        assert(self@ =~= (HostView { effects: Seq::empty(), ..old(self)@ }));
        effects
    }

    /// The registered users in their order.
    pub fn users(&self) -> (users: Vec<String>)
        ensures
            texts(users@) == listing(self@.controllers).map_values(
                |entry: (Seq<char>, RegistrationView)| entry.0,
            ),
    {
        let mut users: Vec<String> = Vec::new();
        let count: usize = self.controllers.len();
        let ghost known = entries(self.controllers);
        let ghost names = known.map_values(|entry: (Seq<char>, RegistrationView)| entry.0);
        proof {
            lemma_entries(self.controllers);
        }
        let mut i: usize = 0;
        assert(texts(users@) =~= names.take(0));
        while i < count
            invariant
                i <= count,
                count == self.controllers@.len(),
                known == entries(self.controllers),
                names == known.map_values(|entry: (Seq<char>, RegistrationView)| entry.0),
                texts(users@) == names.take(i as int),
            decreases count - i,
        {
            let ghost before = users@;
            let sid: String = self.controllers.key(i).to_owned();
            assert(names[i as int] == sid@);
            users.push(sid);
            assert(texts(users@) =~= texts(before).push(sid@));
            i += 1;
            assert(names.take(i as int) =~= names.take(i - 1).push(sid@));
        }
        assert(names.take(i as int) =~= names);
        users
    }

    /// Binds a user to what is known now.
    fn know(&mut self, sid: &str, registration: Registration)
        ensures
            final(self)@ == (HostView {
                controllers: old(self)@.controllers.insert(sid@, registration@),
                ..old(self)@
            }),
    {
        let ghost before = self.controllers.map();
        let ghost known = registration@;
        let _ = self.controllers.insert(sid.to_owned(), registration);
        assert(registrations(self.controllers.map()) =~= registrations(before).insert(sid@, known));
    }

    /// Takes in who is registered and which logons there are. Logons that are gone are not ending
    /// any more, and the controllers of users who are not registered any more are left to
    /// themselves.
    pub fn begin_reconcile(&mut self, inventory: &ActiveSessions, registered: &Vec<String>)
        ensures
            final(self)@ == (HostView {
                controllers: kept(old(self)@.controllers, texts(registered@)),
                ending: old(self)@.ending.intersect(inventory@.logons),
                effects: old(self)@.effects + dropping_effects(
                    listing(old(self)@.controllers),
                    texts(registered@),
                    listing(old(self)@.controllers).len() as int,
                ),
            }),
    {
        let ghost before = self.controllers;
        let ghost known = registrations(before.map());
        let ghost told = self@.effects;
        let ghost was_ending = self.ending@;
        let mut ending: Vec<(u32, u64)> = Vec::new();
        let mut i: usize = 0;
        assert(ending@.to_set() =~= was_ending.take(0).to_set().intersect(inventory@.logons));
        while i < self.ending.len()
            invariant
                i <= self.ending.len(),
                *self == *old(self),
                was_ending == self.ending@,
                ending@.to_set() == was_ending.take(i as int).to_set().intersect(inventory@.logons),
            decreases self.ending.len() - i,
        {
            let logon: (u32, u64) = self.ending[i];
            proof {
                assert(was_ending.take(i + 1) =~= was_ending.take(i as int).push(logon));
                lemma_push_to_set(was_ending.take(i as int), logon);
                lemma_push_to_set(ending@, logon);
            }
            if has_logon(&inventory.logons, logon) {
                ending.push(logon);
                assert(ending@.to_set() =~= was_ending.take(i + 1).to_set().intersect(
                    inventory@.logons,
                ));
            } else {
                assert(ending@.to_set() =~= was_ending.take(i + 1).to_set().intersect(
                    inventory@.logons,
                ));
            }
            i += 1;
        }
        assert(was_ending.take(i as int) =~= was_ending);
        self.ending = ending;
        let count: usize = self.controllers.len();
        let ghost users = entries(before);
        proof {
            lemma_entries(before);
        }
        let mut j: usize = 0;
        assert(told + dropping_effects(users, texts(registered@), 0) =~= told);
        while j < count
            invariant
                j <= count,
                count == self.controllers@.len(),
                self.controllers == before,
                users == entries(before),
                self.ending == ending,
                self@.effects == told + dropping_effects(users, texts(registered@), j as int),
            decreases count - j,
        {
            let sid: String = self.controllers.key(j).to_owned();
            let runner: RunnerState = self.controllers.value(j).runner;
            let ghost effects_before = self.effects@;
            assert(users[j as int] == (sid@, self.controllers@[j as int].1@));
            if !holds(registered, sid.as_str()) && !matches!(runner, RunnerState::Absent) {
                let effect = HostEffect::DetachRunner { sid };
                self.effects.push(effect);
                assert(effect_views(self.effects@) =~= effect_views(effects_before).push(effect@));
                assert(self@.effects =~= told + dropping_effects(users, texts(registered@), j + 1));
            }
            j += 1;
        }
        let mut controllers: TextMap<Registration> = TextMap::new();
        let mut k: usize = 0;
        let ghost names = texts(registered@);
        assert(registrations(controllers.map()) =~= kept(known, names.take(0)));
        while k < registered.len()
            invariant
                k <= registered.len(),
                self.controllers == before,
                known == registrations(before.map()),
                names == texts(registered@),
                registrations(controllers.map()) == kept(known, names.take(k as int)),
            decreases registered.len() - k,
        {
            let sid: &String = &registered[k];
            let ghost made_before = controllers.map();
            assert(names[k as int] == sid@);
            let registration: Registration = match self.controllers.get(sid.as_str()) {
                Some(registration) => registration.clone(),
                None => new_registration(),
            };
            let ghost made = registration@;
            let _ = controllers.insert(sid.clone(), registration);
            proof {
                assert(registrations(controllers.map()) =~= registrations(made_before).insert(
                    sid@,
                    made,
                ));
                assert(made == if known.contains_key(sid@) {
                    known[sid@]
                } else {
                    blank()
                });
                lemma_kept_one_more(known, names, k as int);
            }
            k += 1;
        }
        assert(names.take(k as int) =~= names);
        self.controllers = controllers;
    }

    /// The session of a user, unless it is ending.
    fn session_of(&self, inventory: &ActiveSessions, sid: &str) -> (session: Option<ActiveSession>)
        ensures
            session == self@.session_of(inventory@, sid@),
    {
        match inventory.sessions.get(sid) {
            Some(session) => {
                if has_logon(&self.ending, (session.session_id, session.authentication_id)) {
                    None
                } else {
                    Some(*session)
                }
            },
            None => None,
        }
    }

    /// Holds a registered user against the sessions that were found. A new session of the manager
    /// gets the id `fresh`.
    pub fn reconcile_user(&mut self, sid: &str, inventory: &ActiveSessions, fresh: &str)
        requires
            old(self)@.controllers.contains_key(sid@),
        ensures
            ({
                let (known, effects) = old(self)@.controllers[sid@].reconciled(
                    sid@,
                    inventory@.conflicts.contains(sid@),
                    old(self)@.session_of(inventory@, sid@),
                    fresh@,
                );
                final(self)@ == old(self)@.know(sid@, known, effects)
            }),
    {
        let session: Option<ActiveSession> = self.session_of(inventory, sid);
        let conflict: bool = inventory.conflicts.contains_key(sid);
        let mut known: Registration = match self.controllers.get(sid) {
            Some(registration) => registration.clone(),
            None => new_registration(),
        };
        let ghost told = self@.effects;
        known.session_conflict = conflict;
        assert(self@.effects + Seq::empty() =~= told);
        if conflict {
            known.push_persisting(sid, &mut self.effects);
        } else {
            match (known.runner, session) {
                (RunnerState::Absent, Some(session)) => {
                    if UserSid::parse_windows(sid.to_owned()).is_ok() {
                        known.push_starting(sid, session, fresh, &mut self.effects);
                        known = known.prepared(session);
                    }
                },
                (RunnerState::Absent, None) => {},
                (RunnerState::Present(_), None) => {
                    known.push_ending(sid, &mut self.effects);
                    known = known.ended();
                },
                (RunnerState::Present(_), Some(session)) => {
                    let same_session: bool = match known.windows_session_id {
                        Some(session_id) => session_id == session.session_id,
                        None => false,
                    };
                    let same_logon: bool = match known.authentication_id {
                        Some(authentication_id) => authentication_id == session.authentication_id,
                        None => false,
                    };
                    if same_session && same_logon {
                        known.push_persisting(sid, &mut self.effects);
                    } else {
                        known.push_ending(sid, &mut self.effects);
                        known = known.ended();
                    }
                },
            }
        }
        self.know(sid, known);
        assert(self@ =~= old(self)@.know(
            sid@,
            old(self)@.controllers[sid@].reconciled(
                sid@,
                inventory@.conflicts.contains(sid@),
                old(self)@.session_of(inventory@, sid@),
                fresh@,
            ).0,
            old(self)@.controllers[sid@].reconciled(
                sid@,
                inventory@.conflicts.contains(sid@),
                old(self)@.session_of(inventory@, sid@),
                fresh@,
            ).1,
        ));
    }

    /// Takes in that the controller which was recorded is being taken over, or a new one launched.
    pub fn begin_launch(&mut self, sid: &str)
        requires
            old(self)@.controllers.contains_key(sid@),
        ensures
            final(self)@ == old(self)@.know(
                sid@,
                (RegistrationView {
                    recorded_process: None,
                    ..old(self)@.controllers[sid@]
                }),
                Seq::empty(),
            ),
    {
        let mut known: Registration = match self.controllers.get(sid) {
            Some(registration) => registration.clone(),
            None => new_registration(),
        };
        known.recorded_process = None;
        self.know(sid, known);
        assert(self@.effects =~= old(self)@.effects + Seq::empty());
    }

    /// Takes in that a controller was started in a session, and which process it is.
    pub fn started(
        &mut self,
        sid: &str,
        manager_session_id: &str,
        session: ActiveSession,
        process: Option<ProcessIdentity>,
    )
        requires
            old(self)@.controllers.contains_key(sid@),
        ensures
            ({
                let known = old(self)@.controllers[sid@].started(
                    manager_session_id@,
                    session,
                    process,
                );
                final(self)@ == old(self)@.know(sid@, known, known.persisting(sid@))
            }),
    {
        let mut known: Registration = match self.controllers.get(sid) {
            Some(registration) => registration.clone(),
            None => new_registration(),
        };
        known.manager_session_id = manager_session_id.to_owned();
        known.windows_session_id = Some(session.session_id);
        known.authentication_id = Some(session.authentication_id);
        known.has_event = true;
        known.runner = RunnerState::Present(process);
        known.push_persisting(sid, &mut self.effects);
        self.know(sid, known);
    }

    /// Takes in that the process of a controller has changed.
    pub fn process_changed(&mut self, sid: &str, process: Option<ProcessIdentity>)
        ensures
            final(self)@ == (if old(self)@.controllers.contains_key(sid@)
                && old(self)@.controllers[sid@].runner != RunnerState::Absent {
                old(self)@.know(
                    sid@,
                    RegistrationView {
                        runner: RunnerState::Present(process),
                        ..old(self)@.controllers[sid@]
                    },
                    Seq::empty(),
                )
            } else {
                old(self)@
            }),
    {
        let mut known: Registration = match self.controllers.get(sid) {
            Some(registration) => registration.clone(),
            None => {
                return;
            },
        };
        if matches!(known.runner, RunnerState::Absent) {
            return;
        }
        known.runner = RunnerState::Present(process);
        self.know(sid, known);
        assert(self@.effects =~= old(self)@.effects + Seq::empty());
    }

    /// How the controller of a user stands.
    pub fn status(&self, sid: &str) -> (status: HostStatus)
        ensures
            status@ == status_of(
                if self@.controllers.contains_key(sid@) {
                    Some(self@.controllers[sid@])
                } else {
                    None
                },
            ),
    {
        let status: HostStatus = match self.controllers.get(sid) {
            Some(known) => {
                let process_id: u32 = match known.runner {
                    RunnerState::Present(Some(identity)) => identity.process_id,
                    _ => 0,
                };
                HostStatus {
                    registered: true,
                    controller_running: process_id != 0,
                    manager_session_id: known.manager_session_id.clone(),
                    controller_process_id: process_id,
                    message: if known.session_conflict {
                        "multiple eligible Windows sessions are active for this user".to_owned()
                    } else {
                        String::new()
                    },
                }
            },
            None => HostStatus {
                registered: false,
                controller_running: false,
                manager_session_id: String::new(),
                controller_process_id: 0,
                message: String::new(),
            },
        };
        assert(status@ =~= status_of(
            if self@.controllers.contains_key(sid@) {
                Some(self@.controllers[sid@])
            } else {
                None
            },
        ));
        status
    }

    /// Registers a user. The answer is whether a session has to be looked for.
    pub fn register_user(&mut self, sid: &str) -> (look: bool)
        ensures
            ({
                let known = if old(self)@.controllers.contains_key(sid@) {
                    old(self)@.controllers[sid@]
                } else {
                    blank()
                };
                &&& final(self)@ == old(self)@.know(sid@, known, Seq::empty())
                &&& look == (known.runner == RunnerState::Absent)
            }),
    {
        let known: Registration = match self.controllers.get(sid) {
            Some(registration) => registration.clone(),
            None => new_registration(),
        };
        let look: bool = matches!(known.runner, RunnerState::Absent);
        self.know(sid, known);
        assert(self@.effects =~= old(self)@.effects + Seq::empty());
        look
    }

    /// Starts a controller for a user who has just registered, where there is one session for it.
    /// The session of the manager gets the id `fresh`.
    pub fn start_registered(&mut self, sid: &str, inventory: &ActiveSessions, fresh: &str)
        requires
            old(self)@.controllers.contains_key(sid@),
        ensures
            ({
                let conflict = inventory@.conflicts.contains(sid@);
                final(self)@ == old(self)@.know(
                    sid@,
                    RegistrationView {
                        session_conflict: conflict,
                        ..old(self)@.controllers[sid@]
                    },
                    if !conflict && inventory@.sessions.contains_key(sid@) {
                        seq![
                            HostEffectView::Start {
                                sid: sid@,
                                manager_session_id: fresh@,
                                adopted: None,
                                session: inventory@.sessions[sid@],
                            },
                        ]
                    } else {
                        Seq::empty()
                    },
                )
            }),
    {
        let conflict: bool = inventory.conflicts.contains_key(sid);
        let mut known: Registration = match self.controllers.get(sid) {
            Some(registration) => registration.clone(),
            None => new_registration(),
        };
        known.session_conflict = conflict;
        let ghost before = self.effects@;
        if !conflict {
            match inventory.sessions.get(sid) {
                Some(session) => {
                    self.effects.push(
                        HostEffect::Start {
                            sid: sid.to_owned(),
                            manager_session_id: fresh.to_owned(),
                            adopted: None,
                            session: *session,
                        },
                    );
                },
                None => {},
            }
        }
        self.know(sid, known);
        assert(self@.effects =~= effect_views(before) + (if !conflict
            && inventory@.sessions.contains_key(sid@) {
            seq![
                HostEffectView::Start {
                    sid: sid@,
                    manager_session_id: fresh@,
                    adopted: None,
                    session: inventory@.sessions[sid@],
                },
            ]
        } else {
            Seq::empty()
        }));
    }

    /// Unregisters a user, and ends the user's session.
    pub fn unregister_user(&mut self, sid: &str)
        ensures
            final(self)@ == (if old(self)@.controllers.contains_key(sid@) {
                HostView {
                    controllers: old(self)@.controllers.remove(sid@),
                    effects: old(self)@.effects + old(self)@.controllers[sid@].ending(sid@),
                    ..old(self)@
                }
            } else {
                old(self)@
            }),
    {
        let ghost before = self.controllers.map();
        match self.controllers.remove(sid) {
            Some(registration) => {
                registration.push_ending(sid, &mut self.effects);
            },
            None => {},
        }
        assert(registrations(self.controllers.map()) =~= registrations(before).remove(sid@));
        assert(self@ =~= (if old(self)@.controllers.contains_key(sid@) {
            HostView {
                controllers: old(self)@.controllers.remove(sid@),
                effects: old(self)@.effects + old(self)@.controllers[sid@].ending(sid@),
                ..old(self)@
            }
        } else {
            old(self)@
        }));
    }

    /// Has the controller of a user replaced.
    pub fn restart_controller(&mut self, sid: &str) -> (result: Result<(), Status>)
        ensures
            match result {
                Ok(_) => old(self)@.controllers.contains_key(sid@)
                    && old(self)@.controllers[sid@].runner != RunnerState::Absent && final(self)@
                    == (HostView {
                    effects: old(self)@.effects.push(HostEffectView::RestartRunner { sid: sid@ }),
                    ..old(self)@
                }),
                Err(status) => final(self)@ == old(self)@ && if !old(
                    self,
                )@.controllers.contains_key(sid@) {
                    status.is(StatusCode::NotFound, "user is not registered"@)
                } else {
                    old(self)@.controllers[sid@].runner == RunnerState::Absent && status.is(
                        StatusCode::Unavailable,
                        "no eligible interactive session is active"@,
                    )
                },
            },
    {
        let runner: RunnerState = match self.controllers.get(sid) {
            Some(registration) => registration.runner,
            None => {
                return Err(
                    Status {
                        code: StatusCode::NotFound,
                        message: "user is not registered".to_owned(),
                    },
                );
            },
        };
        if matches!(runner, RunnerState::Absent) {
            return Err(
                Status {
                    code: StatusCode::Unavailable,
                    message: "no eligible interactive session is active".to_owned(),
                },
            );
        }
        let ghost before = self.effects@;
        let effect = HostEffect::RestartRunner { sid: sid.to_owned() };
        self.effects.push(effect);
        assert(effect_views(self.effects@) =~= effect_views(before).push(effect@));
        Ok(())
    }
}

proof fn lemma_kept_one_more(
    known: Map<Seq<char>, RegistrationView>,
    names: Seq<Seq<char>>,
    k: int,
)
    requires
        0 <= k < names.len(),
    ensures
        kept(known, names.take(k + 1)) == kept(known, names.take(k)).insert(
            names[k],
            if known.contains_key(names[k]) {
                known[names[k]]
            } else {
                blank()
            },
        ),
{
    let fewer = names.take(k);
    let more = names.take(k + 1);
    assert forall|sid: Seq<char>| more.contains(sid) == (fewer.contains(sid) || sid == names[k]) by {
        if more.contains(sid) {
            let i = choose|i: int| 0 <= i < more.len() && more[i] == sid;
            if i < k {
                assert(fewer[i] == sid);
            }
        }
        if fewer.contains(sid) {
            let i = choose|i: int| 0 <= i < fewer.len() && fewer[i] == sid;
            assert(more[i] == sid);
        }
        assert(more[k] == names[k]);
    }
    assert(kept(known, more) =~= kept(known, fewer).insert(
        names[k],
        if known.contains_key(names[k]) {
            known[names[k]]
        } else {
            blank()
        },
    ));
}

impl HostState {
    /// Ends the sessions that are meant, and gives their logons where one session of the machine is
    /// meant.
    fn end_some(&mut self, session_id: Option<u32>) -> (logons: Vec<(u32, u64)>)
        ensures
            final(self)@ == old(self)@.end(session_id),
            session_id matches Some(id) ==> logons@.to_set() == session_logons(
                listing(old(self)@.controllers),
                id,
                listing(old(self)@.controllers).len() as int,
            ),
    {
        let ghost before = self.controllers;
        let ghost users = entries(before);
        let ghost make = |sid: Seq<char>, registration: RegistrationView|
            ended_if(registration, session_id);
        let ghost wanted = remade(users, make);
        let ghost told = self@.effects;
        let mut logons: Vec<(u32, u64)> = Vec::new();
        let count: usize = self.controllers.len();
        proof {
            lemma_entries(before);
            assert(told + ending_effects(users, session_id, 0) =~= told);
            assert(logons@.to_set() =~= Set::empty());
        }
        let mut i: usize = 0;
        while i < count
            invariant
                i <= count,
                count == users.len(),
                users == entries(before),
                make == (|sid: Seq<char>, registration: RegistrationView|
                    ended_if(registration, session_id)),
                wanted == remade(users, make),
                self.ending == old(self).ending,
                ascending(self.controllers@),
                entries(self.controllers) =~= wanted.take(i as int) + users.skip(i as int),
                self@.effects == told + ending_effects(users, session_id, i as int),
                session_id matches Some(id) ==> logons@.to_set() == session_logons(
                    users,
                    id,
                    i as int,
                ),
            decreases count - i,
        {
            let ghost now = entries(self.controllers);
            assert(wanted.len() == users.len());
            assert(now.len() == wanted.take(i as int).len() + users.skip(i as int).len());
            assert(now.len() == self.controllers@.len() == count);
            let sid: String = self.controllers.key(i).to_owned();
            let known: Registration = self.controllers.value(i).clone();
            proof {
                assert(now[i as int] == users[i as int]);
                assert(now[i as int] == (sid@, known@));
            }
            let meant: bool = match session_id {
                None => true,
                Some(id) => match known.windows_session_id {
                    Some(found) => found == id,
                    None => false,
                },
            };
            assert(meant == is_meant(known@, session_id));
            if meant {
                match (session_id, known.authentication_id) {
                    (Some(id), Some(authentication_id)) => {
                        proof {
                            lemma_push_to_set(logons@, (id, authentication_id));
                        }
                        logons.push((id, authentication_id));
                    },
                    _ => {},
                }
                known.push_ending(sid.as_str(), &mut self.effects);
                let ended: Registration = known.ended();
                let ghost next = ended@;
                self.controllers.set_value(i, ended);
                proof {
                    assert(entries(self.controllers) =~= now.update(i as int, (sid@, next)));
                    assert(wanted[i as int] == (sid@, next));
                    assert(entries(self.controllers) =~= wanted.take(i + 1) + users.skip(i + 1));
                }
            } else {
                proof {
                    assert(wanted[i as int] == (sid@, known@));
                    assert(entries(self.controllers) =~= wanted.take(i + 1) + users.skip(i + 1));
                }
            }
            assert(self@.effects =~= told + ending_effects(users, session_id, i + 1));
            i += 1;
        }
        proof {
            assert(wanted.take(i as int) + users.skip(i as int) =~= wanted);
            lemma_entries(self.controllers);
            lemma_remade_map(users, make);
            assert(self@.controllers =~= old(self)@.controllers.map_values(
                |registration: RegistrationView| ended_if(registration, session_id),
            ));
        }
        logons
    }

    /// Ends all sessions.
    pub fn end_all(&mut self)
        ensures
            final(self)@ == old(self)@.end(None),
    {
        let _ = self.end_some(None);
    }

    /// Ends the sessions of the manager in one session of the machine. Its logons count as ending.
    pub fn end_windows_session(&mut self, session_id: u32)
        ensures
            final(self)@ == old(self)@.end_windows_session(session_id),
    {
        let logons: Vec<(u32, u64)> = self.end_some(Some(session_id));
        let ghost before = self.ending@.to_set();
        let ghost ended = self@;
        let mut i: usize = 0;
        assert(self.ending@.to_set() =~= before.union(logons@.take(0).to_set()));
        while i < logons.len()
            invariant
                i <= logons.len(),
                self.ending@.to_set() == before.union(logons@.take(i as int).to_set()),
                self@.controllers == ended.controllers,
                self@.effects == ended.effects,
            decreases logons.len() - i,
        {
            let logon: (u32, u64) = logons[i];
            proof {
                lemma_push_to_set(self.ending@, logon);
                lemma_push_to_set(logons@.take(i as int), logon);
                assert(logons@.take(i + 1) =~= logons@.take(i as int).push(logon));
            }
            self.ending.push(logon);
            assert(self.ending@.to_set() =~= before.union(logons@.take(i + 1).to_set()));
            i += 1;
        }
        assert(logons@.take(i as int) =~= logons@);
    }

    /// Leaves all controllers to themselves, after writing down which they are.
    pub fn detach_all(&mut self)
        ensures
            final(self)@ == (HostView {
                controllers: Map::empty(),
                effects: old(self)@.effects + detaching_effects(
                    listing(old(self)@.controllers),
                    listing(old(self)@.controllers).len() as int,
                ),
                ..old(self)@
            }),
    {
        let ghost before = self.controllers;
        let ghost users = entries(before);
        let ghost told = self@.effects;
        let count: usize = self.controllers.len();
        proof {
            lemma_entries(before);
            assert(told + detaching_effects(users, 0) =~= told);
        }
        let mut i: usize = 0;
        while i < count
            invariant
                i <= count,
                count == self.controllers@.len(),
                self.controllers == before,
                users == entries(before),
                self.ending == old(self).ending,
                self@.effects == told + detaching_effects(users, i as int),
            decreases count - i,
        {
            let sid: String = self.controllers.key(i).to_owned();
            let known: Registration = self.controllers.value(i).clone();
            assert(users[i as int] == (sid@, known@));
            known.push_persisting(sid.as_str(), &mut self.effects);
            let ghost effects_before = self.effects@;
            if !matches!(known.runner, RunnerState::Absent) {
                let effect = HostEffect::DetachRunner { sid };
                self.effects.push(effect);
                assert(effect_views(self.effects@) =~= effect_views(effects_before).push(effect@));
            }
            assert(self@.effects =~= told + detaching_effects(users, i + 1));
            i += 1;
        }
        self.controllers = TextMap::new();
        assert(registrations(self.controllers.map()) =~= Map::empty());
    }
}

/// A controller is only started for a user without one, and only in a session that was found and is
/// not in conflict.
pub proof fn law_users_have_one_controller(
    registration: RegistrationView,
    sid: Seq<char>,
    conflict: bool,
    session: Option<ActiveSession>,
    fresh: Seq<char>,
    i: int,
)
    requires
        0 <= i < registration.reconciled(sid, conflict, session, fresh).1.len(),
        registration.reconciled(sid, conflict, session, fresh).1[i] is Start,
    ensures
        registration.runner == RunnerState::Absent,
        !conflict,
        session is Some,
        registration.reconciled(sid, conflict, session, fresh).1[i]->Start_session == session->0,
{
    let known = RegistrationView { session_conflict: conflict, ..registration };
    if let Some(session) = session {
        if registration.runner != RunnerState::Absent {
            assert(known.ending(sid)[i] !is Start);
        }
    } else if registration.runner != RunnerState::Absent {
        assert(known.ending(sid)[i] !is Start);
    }
}

/// A user who has logged off, or logged on anew, does not keep the controller of the old session.
pub proof fn law_controllers_do_not_outlive_their_session(
    registration: RegistrationView,
    sid: Seq<char>,
    session: Option<ActiveSession>,
    fresh: Seq<char>,
)
    requires
        registration.runner != RunnerState::Absent,
        session matches Some(found) ==> registration.windows_session_id != Some(found.session_id)
            || registration.authentication_id != Some(found.authentication_id),
    ensures
        registration.reconciled(sid, false, session, fresh).0.runner == RunnerState::Absent,
        registration.reconciled(sid, false, session, fresh).1.contains(
            HostEffectView::EndRunner { sid },
        ),
{
    let known = RegistrationView { session_conflict: false, ..registration };
    let effects = known.ending(sid);
    let at: int = if known.has_event {
        1
    } else {
        0
    };
    assert(effects[at] == (HostEffectView::EndRunner { sid }));
}

/// A host that was replaced takes over the controllers that it finds: what the old one wrote down
/// when it detached leads the new one to the same session of the manager and the same process.
pub proof fn law_controllers_are_taken_over(
    registration: RegistrationView,
    sid: Seq<char>,
    process: ProcessIdentity,
    session: ActiveSession,
    fresh: Seq<char>,
)
    requires
        is_user_sid(sid),
        registration.runner == RunnerState::Present(Some(process)),
        registration.manager_session_id.len() > 0,
        registration.windows_session_id == Some(session.session_id),
        registration.authentication_id == Some(session.authentication_id),
        process.process_id != 0 && process.creation_time != 0,
    ensures
        ({
            let saved = written(
                registration.manager_session_id,
                session.session_id,
                session.authentication_id,
                registration.process(),
            );
            &&& registration.persisting(sid) == seq![HostEffectView::Persist { sid, session: saved }]
            &&& recalled(saved).reconciled(sid, false, Some(session), fresh).1 == seq![
                HostEffectView::Start {
                    sid,
                    manager_session_id: registration.manager_session_id,
                    adopted: Some(process),
                    session,
                },
            ]
        }),
{
    let saved = written(
        registration.manager_session_id,
        session.session_id,
        session.authentication_id,
        registration.process(),
    );
    assert(recalled(saved).reconciled(sid, false, Some(session), fresh).1 =~= seq![
        HostEffectView::Start {
            sid,
            manager_session_id: registration.manager_session_id,
            adopted: Some(process),
            session,
        },
    ]);
}

/// A logon whose session has ended gets no new controller while it is still there.
pub proof fn law_ended_logons_are_not_started(
    host: HostView,
    inventory: InventoryView,
    sid: Seq<char>,
    session_id: u32,
)
    requires
        host.controllers.contains_key(sid),
        entries_map(listing(host.controllers)) == host.controllers,
        ascending(listing(host.controllers)),
        host.controllers[sid].windows_session_id == Some(session_id),
        inventory.sessions.contains_key(sid),
        inventory.sessions[sid].session_id == session_id,
        host.controllers[sid].authentication_id == Some(inventory.sessions[sid].authentication_id),
    ensures
        host.end_windows_session(session_id).session_of(inventory, sid) is None,
{
    let users = listing(host.controllers);
    assert(has_key(users, sid));
    let i = choose|i: int| 0 <= i < users.len() && (#[trigger] users[i]).0 == sid;
    lemma_entry_in_map(users, i);
    lemma_logon_is_found(users, session_id, users.len() as int, i);
}

proof fn lemma_logon_is_found(
    users: Seq<(Seq<char>, RegistrationView)>,
    session_id: u32,
    n: int,
    i: int,
)
    requires
        0 <= i < n,
        users[i].1.windows_session_id == Some(session_id),
        users[i].1.authentication_id is Some,
    ensures
        session_logons(users, session_id, n).contains(
            (session_id, users[i].1.authentication_id->0),
        ),
    decreases n,
{
    if i < n - 1 {
        lemma_logon_is_found(users, session_id, n - 1, i);
    }
}

} // verus!
