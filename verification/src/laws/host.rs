//! What the host does for its users.

use vstd::prelude::*;

use crate::bundle::{FileView, ManifestView, SelectionView, digest_of, is_digest};
use crate::host::controller_loop::{
    ControllerLoop, LoopAction, LoopEvent, LoopPhase, RunnerCommand, next_delay,
};
use crate::host::launcher::{
    LaunchRefusal, ProcessIdentity, block_value, controller_line, controller_refusal,
    selected_manifest_refusal, selection_refusal,
};
use crate::host::registry::RuntimeView;
use crate::host::service::{HostRuntimeCommand, ServiceEvent, ServiceStep, SessionChange, told};
use crate::host::sessions::{
    ActiveSession, ConnectState, InventoryView, SessionFacts, inventory, is_eligible,
};
use crate::host::state::{
    HostEffectView, HostView, RegistrationView, RunnerState, blank, detaching_effects,
    dropping_effects, ending_effects, is_meant, kept, recalled, removing_effects, session_logons,
    status_of, taken_in, written,
};
use crate::laws::manager::orderly;
use crate::ordered::{ascending, entries_map, has_key, lemma_entry_in_map, listing};
use crate::pipe::is_user_sid;
use crate::process::{lemma_delimiter, lemma_zero_position};
use crate::text::same_ignoring_ascii_case;
use crate::time::Duration;
use crate::utf16::from_utf16_lossy;

verus! {

/// A controller that could not be launched, or that ended, is launched again after a wait, and each
/// wait is twice as long as the one before it, from a quarter of a second up to half a minute.
pub proof fn law_controllers_are_launched_ever_more_rarely(state: ControllerLoop, ran: Duration)
    requires
        state.well_formed(),
    ensures
        2 * state.delay_ms <= 30_000 ==> next_delay(state.delay_ms) == 2 * state.delay_ms,
        2 * state.delay_ms > 30_000 ==> next_delay(state.delay_ms) == 30_000,
        250 <= state.delay_ms <= 30_000,
        state.phase == LoopPhase::Waiting ==> ({
            let (after, actions) = state.step(LoopEvent::Elapsed);
            after.phase == LoopPhase::Launching && after.delay_ms == next_delay(state.delay_ms)
                && actions == seq![LoopAction::Launch]
        }),
        state.phase == LoopPhase::Launching ==> ({
            let (after, actions) = state.step(LoopEvent::LaunchFailed);
            after.phase == LoopPhase::Waiting && after.delay_ms == state.delay_ms && actions == seq![
                LoopAction::Wait(state.delay_ms),
            ]
        }),
        state.phase == LoopPhase::Running ==> ({
            let (after, actions) = state.step(LoopEvent::Exited(ran));
            &&& after.phase == LoopPhase::Waiting && after.process is None
            &&& ran@ >= 300_000_000_000 ==> after.delay_ms == 250
            &&& ran@ < 300_000_000_000 ==> after.delay_ms == state.delay_ms
            &&& actions == seq![LoopAction::Publish(None), LoopAction::Wait(after.delay_ms)]
        }),
{
}

/// A controller that was launched runs and is made known; one that is to be replaced is terminated
/// and launched anew at once, with the first wait before it again; and a wait ends at once where a
/// restart is asked for.
pub proof fn law_controllers_are_replaced_at_once(state: ControllerLoop, process: ProcessIdentity)
    ensures
        state.phase == LoopPhase::Launching ==> ({
            let (after, actions) = state.step(LoopEvent::Launched(process));
            after.phase == LoopPhase::Running && after.process == Some(process) && after.delay_ms
                == state.delay_ms && actions == seq![LoopAction::Publish(Some(process))]
        }),
        state.phase == LoopPhase::Running ==> ({
            let (after, actions) = state.step(LoopEvent::Command(RunnerCommand::Restart));
            after.phase == LoopPhase::Launching && after.process is None && after.delay_ms == 250
                && actions == seq![
                LoopAction::Terminate,
                LoopAction::Publish(None),
                LoopAction::Launch,
            ]
        }),
        state.phase == LoopPhase::Waiting ==> ({
            let (after, actions) = state.step(LoopEvent::Command(RunnerCommand::Restart));
            after.phase == LoopPhase::Launching && after.delay_ms == 250 && actions == seq![
                LoopAction::Launch,
            ]
        }),
{
}

/// A controller is terminated only where it is to be replaced, or did not end with its session in
/// the half minute that it was given for that; and launched only where it is to be replaced or its
/// wait is over.
pub proof fn law_controllers_are_not_touched_otherwise(state: ControllerLoop, event: LoopEvent)
    ensures
        ({
            let (after, actions) = state.step(event);
            let restarted = event == LoopEvent::Command(RunnerCommand::Restart);
            &&& actions.contains(LoopAction::Terminate) <==> state.phase == LoopPhase::Running
                && restarted || state.phase == LoopPhase::Ending && event == LoopEvent::Elapsed
            &&& actions.contains(LoopAction::Launch) <==> state.phase == LoopPhase::Running
                && restarted || state.phase == LoopPhase::Waiting && (restarted || event
                == LoopEvent::Elapsed)
            &&& state.phase == LoopPhase::Running && event == LoopEvent::Command(
                RunnerCommand::EndSession,
            ) ==> actions == seq![LoopAction::AwaitExit(30_000)] && after.phase == LoopPhase::Ending
            &&& state.phase == LoopPhase::Waiting && (event == LoopEvent::Disconnected || event
                == LoopEvent::Command(RunnerCommand::EndSession) || event == LoopEvent::Command(
                RunnerCommand::Detach,
            )) ==> after.phase == LoopPhase::Over && actions.len() == 0
        }),
{
    let (after, actions) = state.step(event);
    if state.phase == LoopPhase::Running && event == LoopEvent::Command(RunnerCommand::Restart) {
        assert(actions[0] == LoopAction::Terminate && actions[2] == LoopAction::Launch);
    }
    if state.phase == LoopPhase::Ending && event == LoopEvent::Elapsed {
        assert(actions[0] == LoopAction::Terminate);
    }
    if state.phase == LoopPhase::Waiting && (event == LoopEvent::Elapsed || event
        == LoopEvent::Command(RunnerCommand::Restart)) {
        assert(actions[0] == LoopAction::Launch);
    }
}

/// What the service makes of what it is told: a start launches the host, a stop leaves the
/// controllers to themselves, the end of the machine ends them, a logon has the users looked after,
/// a logoff ends that session, and everything else is nothing to it.
pub proof fn law_services_do_what_they_are_told(event: ServiceEvent)
    ensures
        told(event) is Launch <==> event is Start,
        told(event) == ServiceStep::Finish(HostRuntimeCommand::Detach) <==> event is Stop,
        told(event) == ServiceStep::Finish(HostRuntimeCommand::Preshutdown) <==> event
            is Preshutdown,
        told(event) == ServiceStep::Tell(HostRuntimeCommand::Reconcile) <==> (event
            matches ServiceEvent::SessionChange { change, session_id } && change
            == SessionChange::Logon && session_id is Some),
        told(event) matches ServiceStep::Tell(HostRuntimeCommand::EndSession(id)) ==> event == (
        ServiceEvent::SessionChange { change: SessionChange::Logoff, session_id: Some(id) }),
        event matches ServiceEvent::SessionChange {
            change: SessionChange::Logoff,
            session_id: Some(id),
        } ==> told(event) == ServiceStep::Tell(HostRuntimeCommand::EndSession(id)),
        told(event) matches ServiceStep::Finish(command) ==> command == HostRuntimeCommand::Detach
            || command == HostRuntimeCommand::Preshutdown,
{
}

/// A controller can run in a session that is open, or was and is not closed, of a user and a logon
/// that can be told.
pub proof fn law_sessions_need_a_user(facts: SessionFacts)
    ensures
        is_eligible(facts) <==> facts.sid is Some && facts.authentication_id is Some && (facts.state
            == ConnectState::Active || facts.state == ConnectState::Connected || facts.state
            == ConnectState::Disconnected || facts.state == ConnectState::Idle),
{
}

/// The logons are those of all sessions in which a controller can run, and of no others; and the
/// session of a user is the first that was found.
pub proof fn law_logons_are_those_of_the_sessions(
    facts: Seq<SessionFacts>,
    n: int,
    logon: (u32, u64),
    sid: Seq<char>,
)
    requires
        0 <= n <= facts.len() <= usize::MAX,
    ensures
        inventory(facts, n).logons.contains(logon) <==> exists|i: int|
            0 <= i < n && is_eligible(#[trigger] facts[i]) && facts[i].session_id == logon.0
                && facts[i].authentication_id == Some(logon.1),
        inventory(facts, n).sessions.contains_key(sid) ==> forall|i: int|
            0 <= i < n && is_eligible(#[trigger] facts[i]) && facts[i].sid->0@ == sid
                ==> inventory(facts, n).sessions[sid].entry <= i,
    decreases n,
{
    if n > 0 {
        law_logons_are_those_of_the_sessions(facts, n - 1, logon, sid);
        crate::host::sessions::law_conflicts_are_users_with_several_sessions(facts, n - 1, sid);
        crate::host::sessions::law_conflicts_are_users_with_several_sessions(facts, n, sid);
        let last = facts[n - 1];
        if inventory(facts, n - 1).logons.contains(logon) {
            let i = choose|i: int|
                0 <= i < n - 1 && is_eligible(#[trigger] facts[i]) && facts[i].session_id == logon.0
                    && facts[i].authentication_id == Some(logon.1);
            assert(is_eligible(facts[i]));
        }
        if inventory(facts, n).sessions.contains_key(sid) {
            if !inventory(facts, n - 1).sessions.contains_key(sid) {
                assert forall|i: int|
                    0 <= i < n && is_eligible(#[trigger] facts[i]) && facts[i].sid->0@
                        == sid implies inventory(facts, n).sessions[sid].entry <= i by {
                    if i < n - 1 {
                        assert(crate::host::sessions::serves(facts[i], sid));
                    }
                }
            }
        }
    }
}

/// What is known of a user whose session was written down: the session and the logon, and the
/// controller where one was running; nothing is looked after yet.
pub proof fn law_sessions_are_recalled_as_written(
    manager_session_id: Seq<char>,
    windows_session_id: u32,
    authentication_id: u64,
    process: Option<ProcessIdentity>,
)
    requires
        process matches Some(identity) ==> identity.process_id != 0 && identity.creation_time != 0,
    ensures
        ({
            let known = recalled(
                written(manager_session_id, windows_session_id, authentication_id, process),
            );
            &&& known.manager_session_id == manager_session_id
            &&& known.windows_session_id == Some(windows_session_id)
            &&& known.authentication_id == Some(authentication_id)
            &&& known.recorded_process == process
            &&& known.runner == RunnerState::Absent && !known.has_event && !known.session_conflict
        }),
{
}

/// The controller of a user is the one that is looked after, where its process is known, and
/// otherwise the one that was written down.
pub proof fn law_known_controllers_come_first(registration: RegistrationView)
    ensures
        registration.runner matches RunnerState::Present(Some(identity)) ==> registration.process()
            == Some(identity),
        !(registration.runner matches RunnerState::Present(Some(_))) ==> registration.process()
            == registration.recorded_process,
{
}

/// What is written down of a user is the session with its controller, where there is one, and
/// nothing otherwise.
pub proof fn law_sessions_are_written_down(registration: RegistrationView, sid: Seq<char>)
    ensures
        ({
            let effects = registration.persisting(sid);
            let open = registration.windows_session_id is Some && registration.authentication_id
                is Some;
            &&& effects.len() == if open {
                1int
            } else {
                0
            }
            &&& open ==> (effects[0] matches HostEffectView::Persist { sid: whose, session } && whose
                == sid && session.manager_session_id == registration.manager_session_id
                && Some(session.windows_session_id) == registration.windows_session_id && Some(
                session.authentication_id,
            ) == registration.authentication_id && (registration.process() matches Some(identity)
                ==> session.controller_process_id == identity.process_id
                && session.controller_creation_time == identity.creation_time) && (
            registration.process() is None ==> session.controller_process_id == 0
                && session.controller_creation_time == 0))
        }),
{
}

/// The end of a session: its event is signaled where one is held, its controller is ended where one
/// is looked after, what was written down goes, and nothing is known of it any more; a conflict stays
/// one.
pub proof fn law_ended_sessions_are_forgotten(registration: RegistrationView, sid: Seq<char>)
    ensures
        ({
            let effects = registration.ending(sid);
            let after = registration.ended();
            &&& effects.contains(HostEffectView::SignalEvent { sid }) <==> registration.has_event
            &&& effects.contains(HostEffectView::EndRunner { sid }) <==> registration.runner
                != RunnerState::Absent
            &&& effects.contains(HostEffectView::RemoveRuntime { sid })
            &&& forall|i: int|
                #![trigger effects[i]]
                0 <= i < effects.len() ==> effects[i] == (HostEffectView::SignalEvent { sid })
                    || effects[i] == (HostEffectView::EndRunner { sid }) || effects[i]
                    == (HostEffectView::RemoveRuntime { sid })
            &&& after.runner == RunnerState::Absent && !after.has_event && after.recorded_process
                is None && after.windows_session_id is None && after.authentication_id is None
                && after.manager_session_id.len() == 0 && after.session_conflict
                == registration.session_conflict
        }),
{
    let effects = registration.ending(sid);
    let events: int = if registration.has_event {
        1
    } else {
        0
    };
    if registration.has_event {
        assert(effects[0] == (HostEffectView::SignalEvent { sid }));
    }
    if registration.runner != RunnerState::Absent {
        assert(effects[events] == (HostEffectView::EndRunner { sid }));
    }
    assert(effects[effects.len() - 1] == (HostEffectView::RemoveRuntime { sid }));
}

/// A controller is started for a user exactly where none is looked after, there is one session for
/// it, and the user can be named. In the same logon it takes over the session of the manager and the
/// controller that was written down; in another it begins a new one, and the end of the old one is
/// signaled.
pub proof fn law_controllers_are_started_where_they_are_missing(
    registration: RegistrationView,
    sid: Seq<char>,
    session: ActiveSession,
    fresh: Seq<char>,
)
    requires
        registration.runner == RunnerState::Absent,
        is_user_sid(sid),
    ensures
        ({
            let (after, effects) = registration.reconciled(sid, false, Some(session), fresh);
            let start = effects[effects.len() - 1];
            let same = registration.authentication_id == Some(session.authentication_id);
            &&& effects.len() > 0 && start is Start && start->Start_sid == sid
                && start->Start_session == session
            &&& same && registration.manager_session_id.len() > 0
                ==> start->Start_manager_session_id == registration.manager_session_id
            &&& !same || registration.manager_session_id.len() == 0
                ==> start->Start_manager_session_id == fresh
            &&& same ==> start->adopted == registration.recorded_process && effects.len() == 1
                && after == (RegistrationView { session_conflict: false, ..registration })
            &&& !same ==> start->adopted is None && effects.contains(
                HostEffectView::RemoveRuntime { sid },
            ) && after.manager_session_id.len() == 0 && after.recorded_process is None
                && after.windows_session_id is None
            &&& effects.contains(
                HostEffectView::SignalPrevious {
                    sid,
                    manager_session_id: registration.manager_session_id,
                },
            ) <==> !same && registration.manager_session_id.len() > 0
        }),
{
    let effects = registration.reconciled(sid, false, Some(session), fresh).1;
    if registration.authentication_id != Some(session.authentication_id) {
        assert(effects[effects.len() - 2] == (HostEffectView::RemoveRuntime { sid }));
        if registration.manager_session_id.len() > 0 {
            assert(effects[0] == (HostEffectView::SignalPrevious {
                sid,
                manager_session_id: registration.manager_session_id,
            }));
        }
    }
}

/// Nothing is started or ended for a user who is in conflict; and a controller that runs in the
/// session that is there goes on. Both are written down.
pub proof fn law_controllers_go_on_where_they_are_right(
    registration: RegistrationView,
    sid: Seq<char>,
    conflict: bool,
    session: Option<ActiveSession>,
    fresh: Seq<char>,
)
    requires
        conflict || registration.runner != RunnerState::Absent && (session matches Some(found)
            && registration.windows_session_id == Some(found.session_id)
            && registration.authentication_id == Some(found.authentication_id)),
    ensures
        ({
            let (after, effects) = registration.reconciled(sid, conflict, session, fresh);
            &&& after == (RegistrationView { session_conflict: conflict, ..registration })
            &&& effects == registration.persisting(sid)
        }),
{
    let known = RegistrationView { session_conflict: conflict, ..registration };
    assert(known.process() == registration.process());
    assert(known.persisting(sid) =~= registration.persisting(sid));
}

/// A user without a controller and without a session waits; a controller without its session ends.
pub proof fn law_controllers_end_with_their_session(
    registration: RegistrationView,
    sid: Seq<char>,
    fresh: Seq<char>,
)
    ensures
        ({
            let (after, effects) = registration.reconciled(sid, false, None, fresh);
            &&& registration.runner == RunnerState::Absent ==> effects.len() == 0 && after
                == (RegistrationView { session_conflict: false, ..registration })
            &&& registration.runner != RunnerState::Absent ==> after.runner == RunnerState::Absent
                && effects.contains(HostEffectView::EndRunner { sid }) && effects.contains(
                HostEffectView::RemoveRuntime { sid },
            )
        }),
{
    let known = RegistrationView { session_conflict: false, ..registration };
    law_ended_sessions_are_forgotten(known, sid);
}

/// What is known of a user once a controller was started.
pub proof fn law_started_controllers_are_looked_after(
    registration: RegistrationView,
    manager_session_id: Seq<char>,
    session: ActiveSession,
    process: Option<ProcessIdentity>,
)
    ensures
        ({
            let after = registration.started(manager_session_id, session, process);
            &&& after.runner == RunnerState::Present(process) && after.has_event
            &&& after.manager_session_id == manager_session_id
            &&& after.windows_session_id == Some(session.session_id)
            &&& after.authentication_id == Some(session.authentication_id)
            &&& after.session_conflict == registration.session_conflict && after.recorded_process
                == registration.recorded_process
        }),
{
}

/// How a controller is said to stand: running exactly where its process is known and is one, as that
/// process, in the session of the manager; and a conflict is told.
pub proof fn law_controllers_are_reported_as_they_stand(registration: RegistrationView)
    ensures
        ({
            let status = status_of(Some(registration));
            let none = status_of(None);
            let runs = registration.runner matches RunnerState::Present(Some(identity))
                && identity.process_id != 0;
            &&& status.registered && !none.registered && !none.controller_running
                && none.manager_session_id.len() == 0 && none.controller_process_id == 0
            &&& status.controller_running <==> runs
            &&& registration.runner matches RunnerState::Present(Some(identity))
                ==> status.controller_process_id == identity.process_id
            &&& !(registration.runner matches RunnerState::Present(Some(_)))
                ==> status.controller_process_id == 0
            &&& status.manager_session_id == registration.manager_session_id
            &&& status.message.len() > 0 <==> registration.session_conflict
        }),
{
    reveal_strlit("multiple eligible Windows sessions are active for this user");
}

/// The session of a user is the one that was found, unless its logon is ending.
pub proof fn law_ending_logons_do_not_count(host: HostView, inventory: InventoryView, sid: Seq<char>)
    ensures
        host.session_of(inventory, sid) is Some <==> inventory.sessions.contains_key(sid)
            && !host.ending.contains(
            (inventory.sessions[sid].session_id, inventory.sessions[sid].authentication_id),
        ),
        host.session_of(inventory, sid) matches Some(session) ==> session
            == inventory.sessions[sid],
{
}

proof fn lemma_ending_effects(
    users: Seq<(Seq<char>, RegistrationView)>,
    session_id: Option<u32>,
    n: int,
    effect: HostEffectView,
)
    requires
        0 <= n <= users.len(),
    ensures
        ending_effects(users, session_id, n).contains(effect) <==> exists|i: int|
            0 <= i < n && is_meant((#[trigger] users[i]).1, session_id) && users[i].1.ending(
                users[i].0,
            ).contains(effect),
    decreases n,
{
    if n > 0 {
        lemma_ending_effects(users, session_id, n - 1, effect);
        let (sid, registration) = users[n - 1];
        let before = ending_effects(users, session_id, n - 1);
        let own = if is_meant(registration, session_id) {
            registration.ending(sid)
        } else {
            Seq::empty()
        };
        let all = before + own;
        assert(ending_effects(users, session_id, n) == all);
        if all.contains(effect) {
            let at = choose|at: int| 0 <= at < all.len() && all[at] == effect;
            if at < before.len() {
                assert(before[at] == effect);
                assert(before.contains(effect));
            } else {
                assert(own[at - before.len()] == effect);
                assert(own.contains(effect));
                assert(users[n - 1].1 == registration);
            }
        }
        if before.contains(effect) {
            let at = choose|at: int| 0 <= at < before.len() && before[at] == effect;
            assert(all[at] == effect);
        }
        if own.contains(effect) {
            let at = choose|at: int| 0 <= at < own.len() && own[at] == effect;
            assert(all[before.len() + at] == effect);
        }
    }
}

/// When sessions end, all of them or those of one session of the machine, it is exactly those users
/// that are told and forgotten.
pub proof fn law_sessions_end_where_they_are_meant(
    host: HostView,
    session_id: Option<u32>,
    sid: Seq<char>,
)
    requires
        orderly(host.controllers),
        host.controllers.contains_key(sid),
    ensures
        ({
            let after = host.end(session_id);
            let meant = session_id is None || host.controllers[sid].windows_session_id == session_id;
            &&& after.controllers.dom() == host.controllers.dom()
            &&& meant ==> after.controllers[sid] == host.controllers[sid].ended()
            &&& !meant ==> after.controllers[sid] == host.controllers[sid]
            &&& meant && host.controllers[sid].runner != RunnerState::Absent
                ==> after.effects.contains(HostEffectView::EndRunner { sid })
            &&& meant && host.controllers[sid].has_event ==> after.effects.contains(
                HostEffectView::SignalEvent { sid },
            )
            &&& meant ==> after.effects.contains(HostEffectView::RemoveRuntime { sid })
            &&& after.ending == host.ending
        }),
{
    let users = listing(host.controllers);
    lemma_users(host.controllers);
    let n = users.len() as int;
    let registration = host.controllers[sid];
    assert(host.end(session_id).controllers.dom() =~= host.controllers.dom());
    law_ended_sessions_are_forgotten(registration, sid);
    let i = choose|i: int| 0 <= i < users.len() && (#[trigger] users[i]).0 == sid;
    assert(users[i].1 == registration);
    let told = ending_effects(users, session_id, n);
    assert forall|effect: HostEffectView|
        is_meant(registration, session_id) && #[trigger] registration.ending(sid).contains(
            effect,
        ) implies host.end(session_id).effects.contains(effect) by {
        lemma_ending_effects(users, session_id, n, effect);
        assert(told.contains(effect));
        let at = choose|at: int| 0 <= at < told.len() && told[at] == effect;
        assert((host.effects + told)[host.effects.len() + at] == effect);
    }
}

proof fn lemma_users<V>(map: Map<Seq<char>, V>)
    requires
        orderly(map),
    ensures
        ascending(listing(map)),
        forall|key: Seq<char>|
            #[trigger] map.contains_key(key) <==> exists|i: int|
                0 <= i < listing(map).len() && (#[trigger] listing(map)[i]).0 == key,
        forall|i: int|
            0 <= i < listing(map).len() ==> map[(#[trigger] listing(map)[i]).0] == listing(map)[i].1,
{
    let entries = listing(map);
    assert forall|key: Seq<char>|
        #[trigger] map.contains_key(key) <==> exists|i: int|
            0 <= i < entries.len() && (#[trigger] entries[i]).0 == key by {
        assert(entries_map(entries).contains_key(key) <==> has_key(entries, key));
    }
    assert forall|i: int| 0 <= i < entries.len() implies map[(#[trigger] entries[i]).0]
        == entries[i].1 by {
        lemma_entry_in_map(entries, i);
    }
}

/// A user who is not meant is not told that the session ends.
pub proof fn law_nobody_else_is_told_of_an_end(
    host: HostView,
    session_id: Option<u32>,
    sid: Seq<char>,
)
    requires
        orderly(host.controllers),
        host.end(session_id).effects.contains(HostEffectView::EndRunner { sid }),
        !host.effects.contains(HostEffectView::EndRunner { sid }),
    ensures
        host.controllers.contains_key(sid),
        session_id is None || host.controllers[sid].windows_session_id == session_id,
        host.controllers[sid].runner != RunnerState::Absent,
{
    let users = listing(host.controllers);
    lemma_users(host.controllers);
    let n = users.len() as int;
    let effect = HostEffectView::EndRunner { sid };
    lemma_ending_effects(users, session_id, n, effect);
    let told = ending_effects(users, session_id, n);
    let all = host.effects + told;
    let at = choose|at: int| 0 <= at < all.len() && all[at] == effect;
    if at < host.effects.len() {
        assert(host.effects[at] == effect);
    } else {
        assert(told[at - host.effects.len()] == effect);
    }
    let i = choose|i: int|
        0 <= i < n && is_meant((#[trigger] users[i]).1, session_id) && users[i].1.ending(
            users[i].0,
        ).contains(effect);
    law_ended_sessions_are_forgotten(users[i].1, users[i].0);
    let own = users[i].1.ending(users[i].0);
    let k = choose|k: int| 0 <= k < own.len() && own[k] == effect;
    assert(own[k] == effect);
    assert(users[i].0 == sid);
    assert(host.controllers.contains_key(users[i].0));
}

proof fn lemma_session_logons(
    users: Seq<(Seq<char>, RegistrationView)>,
    session_id: u32,
    n: int,
    logon: (u32, u64),
)
    requires
        0 <= n <= users.len(),
    ensures
        session_logons(users, session_id, n).contains(logon) <==> logon.0 == session_id && exists|
            i: int,
        |
            0 <= i < n && (#[trigger] users[i]).1.windows_session_id == Some(session_id)
                && users[i].1.authentication_id == Some(logon.1),
    decreases n,
{
    if n > 0 {
        lemma_session_logons(users, session_id, n - 1, logon);
        let registration = users[n - 1].1;
        if session_logons(users, session_id, n - 1).contains(logon) {
            let i = choose|i: int|
                0 <= i < n - 1 && (#[trigger] users[i]).1.windows_session_id == Some(session_id)
                    && users[i].1.authentication_id == Some(logon.1);
            assert(users[i].1.authentication_id == Some(logon.1));
        }
    }
}

/// When one session of the machine ends, its logons count as ending, beside those that do already,
/// and no others.
pub proof fn law_logons_of_ended_sessions_are_ending(
    host: HostView,
    session_id: u32,
    logon: (u32, u64),
)
    requires
        orderly(host.controllers),
    ensures
        host.end_windows_session(session_id).ending.contains(logon) <==> host.ending.contains(logon)
            || logon.0 == session_id && exists|sid: Seq<char>|
            #[trigger] host.controllers.contains_key(sid)
                && host.controllers[sid].windows_session_id == Some(session_id)
                && host.controllers[sid].authentication_id == Some(logon.1),
        host.end_windows_session(session_id).controllers == host.end(Some(session_id)).controllers,
        host.end_windows_session(session_id).effects == host.end(Some(session_id)).effects,
{
    let users = listing(host.controllers);
    lemma_users(host.controllers);
    let n = users.len() as int;
    lemma_session_logons(users, session_id, n, logon);
    if exists|i: int|
        0 <= i < n && (#[trigger] users[i]).1.windows_session_id == Some(session_id)
            && users[i].1.authentication_id == Some(logon.1) {
        let i = choose|i: int|
            0 <= i < n && (#[trigger] users[i]).1.windows_session_id == Some(session_id)
                && users[i].1.authentication_id == Some(logon.1);
        assert(host.controllers.contains_key(users[i].0));
    }
    if exists|sid: Seq<char>|
        #[trigger] host.controllers.contains_key(sid) && host.controllers[sid].windows_session_id
            == Some(session_id) && host.controllers[sid].authentication_id == Some(logon.1) {
        let sid = choose|sid: Seq<char>|
            #[trigger] host.controllers.contains_key(sid)
                && host.controllers[sid].windows_session_id == Some(session_id)
                && host.controllers[sid].authentication_id == Some(logon.1);
        let i = choose|i: int| 0 <= i < users.len() && (#[trigger] users[i]).0 == sid;
        assert(users[i].1 == host.controllers[sid]);
    }
}

/// When the host goes away, the controller of a user is left to itself exactly where one is looked
/// after, and what is known of the session is written down.
pub proof fn law_detached_users_are_written_down(
    users: Seq<(Seq<char>, RegistrationView)>,
    n: int,
    i: int,
)
    requires
        0 <= i < n <= users.len(),
    ensures
        users[i].1.runner != RunnerState::Absent ==> detaching_effects(users, n).contains(
            HostEffectView::DetachRunner { sid: users[i].0 },
        ),
        users[i].1.windows_session_id is Some && users[i].1.authentication_id is Some
            ==> detaching_effects(users, n).contains(users[i].1.persisting(users[i].0)[0]),
        !detaching_effects(users, n).contains(HostEffectView::EndRunner { sid: users[i].0 }),
    decreases n,
{
    let (sid, registration) = users[n - 1];
    let before = detaching_effects(users, n - 1);
    let own = registration.persisting(sid);
    let detached = if registration.runner != RunnerState::Absent {
        seq![HostEffectView::DetachRunner { sid }]
    } else {
        Seq::empty()
    };
    let all = before + own + detached;
    assert(detaching_effects(users, n) == all);
    if i < n - 1 {
        law_detached_users_are_written_down(users, n - 1, i);
        let detach = HostEffectView::DetachRunner { sid: users[i].0 };
        if before.contains(detach) {
            let at = choose|at: int| 0 <= at < before.len() && before[at] == detach;
            assert(all[at] == detach);
        }
        let persist = users[i].1.persisting(users[i].0)[0];
        if before.contains(persist) {
            let at = choose|at: int| 0 <= at < before.len() && before[at] == persist;
            assert(all[at] == persist);
        }
    } else {
        if registration.runner != RunnerState::Absent {
            assert(all[all.len() - 1] == (HostEffectView::DetachRunner { sid }));
        }
        if own.len() > 0 {
            assert(all[before.len() as int] == own[0]);
        }
    }
    lemma_detaching_ends_nobody(users, n, users[i].0);
}

proof fn lemma_detaching_ends_nobody(
    users: Seq<(Seq<char>, RegistrationView)>,
    n: int,
    sid: Seq<char>,
)
    requires
        0 <= n <= users.len(),
    ensures
        !detaching_effects(users, n).contains(HostEffectView::EndRunner { sid }),
    decreases n,
{
    if n > 0 {
        lemma_detaching_ends_nobody(users, n - 1, sid);
        let all = detaching_effects(users, n);
        let before = detaching_effects(users, n - 1);
        if all.contains(HostEffectView::EndRunner { sid }) {
            let at = choose|at: int|
                0 <= at < all.len() && all[at] == (HostEffectView::EndRunner { sid });
            if at < before.len() {
                assert(before[at] == all[at]);
            }
        }
    }
}

/// Users are registered exactly where they are in the list: those who were known keep what is known,
/// new ones begin without anything.
pub proof fn law_registered_users_are_kept(
    controllers: Map<Seq<char>, RegistrationView>,
    registered: Seq<Seq<char>>,
    sid: Seq<char>,
)
    ensures
        kept(controllers, registered).contains_key(sid) <==> registered.contains(sid),
        registered.contains(sid) && controllers.contains_key(sid) ==> kept(
            controllers,
            registered,
        )[sid] == controllers[sid],
        registered.contains(sid) && !controllers.contains_key(sid) ==> ({
            let new = kept(controllers, registered)[sid];
            new.runner == RunnerState::Absent && new.manager_session_id.len() == 0
                && new.windows_session_id is None && new.authentication_id is None
                && new.recorded_process is None && !new.has_event && !new.session_conflict
        }),
{
}

/// The controllers of users who are not registered any more are left to themselves, and no others.
pub proof fn law_unregistered_users_are_let_go(
    users: Seq<(Seq<char>, RegistrationView)>,
    registered: Seq<Seq<char>>,
    n: int,
    sid: Seq<char>,
)
    requires
        0 <= n <= users.len(),
    ensures
        dropping_effects(users, registered, n).contains(HostEffectView::DetachRunner { sid })
            <==> !registered.contains(sid) && exists|i: int|
            0 <= i < n && (#[trigger] users[i]).0 == sid && users[i].1.runner
                != RunnerState::Absent,
        forall|i: int|
            0 <= i < dropping_effects(users, registered, n).len() ==> (
            #[trigger] dropping_effects(users, registered, n)[i]) is DetachRunner,
    decreases n,
{
    if n > 0 {
        law_unregistered_users_are_let_go(users, registered, n - 1, sid);
        let before = dropping_effects(users, registered, n - 1);
        let all = dropping_effects(users, registered, n);
        let effect = HostEffectView::DetachRunner { sid };
        if all.contains(effect) {
            let at = choose|at: int| 0 <= at < all.len() && all[at] == effect;
            if at < before.len() {
                assert(before[at] == effect);
                assert(before.contains(effect));
            } else {
                assert(users[n - 1].0 == sid);
            }
        }
        if before.contains(effect) {
            let at = choose|at: int| 0 <= at < before.len() && before[at] == effect;
            assert(all[at] == effect);
            let i = choose|i: int|
                0 <= i < n - 1 && (#[trigger] users[i]).0 == sid && users[i].1.runner
                    != RunnerState::Absent;
            assert(users[i].0 == sid);
        }
        if !registered.contains(users[n - 1].0) && users[n - 1].1.runner != RunnerState::Absent {
            assert(all[all.len() - 1] == (HostEffectView::DetachRunner { sid: users[n - 1].0 }));
        }
        assert forall|i: int| 0 <= i < all.len() implies (#[trigger] all[i]) is DetachRunner by {
            if i < before.len() {
                assert(before[i] is DetachRunner);
                assert(all[i] == before[i]);
            }
        }
    }
}

/// A host begins with exactly the registered users, each with what was written down of the session,
/// and what is left over is what was written down of others.
pub proof fn law_hosts_begin_with_their_users(
    registered: Seq<Seq<char>>,
    saved: Map<Seq<char>, RuntimeView>,
    n: int,
    sid: Seq<char>,
)
    requires
        0 <= n <= registered.len(),
        registered.no_duplicates(),
    ensures
        ({
            let (controllers, left) = taken_in(registered, saved, n);
            &&& controllers.contains_key(sid) <==> registered.take(n).contains(sid)
            &&& controllers.contains_key(sid) && saved.contains_key(sid) ==> controllers[sid]
                == recalled(saved[sid])
            &&& controllers.contains_key(sid) && !saved.contains_key(sid) ==> controllers[sid]
                == blank()
            &&& left.contains_key(sid) <==> saved.contains_key(sid) && !registered.take(n).contains(
                sid,
            )
            &&& left.contains_key(sid) ==> left[sid] == saved[sid]
        }),
    decreases n,
{
    let taken = registered.take(n);
    if n > 0 {
        law_hosts_begin_with_their_users(registered, saved, n - 1, sid);
        let earlier = registered.take(n - 1);
        let last = registered[n - 1];
        assert(taken =~= earlier.push(last));
        if earlier.contains(sid) {
            let i = choose|i: int| 0 <= i < earlier.len() && earlier[i] == sid;
            assert(taken[i] == sid);
            assert(registered[i] == sid);
        }
        if taken.contains(sid) {
            let i = choose|i: int| 0 <= i < taken.len() && taken[i] == sid;
            if i < n - 1 {
                assert(earlier[i] == sid);
            }
        }
        assert(taken[n - 1] == last);
    }
}

/// What was written down of users who are not registered goes, and nothing else.
pub proof fn law_strangers_are_forgotten(left: Seq<(Seq<char>, RuntimeView)>, n: int, i: int)
    requires
        0 <= i < n <= left.len(),
    ensures
        removing_effects(left, n).len() == n,
        removing_effects(left, n)[i] == (HostEffectView::RemoveRuntime { sid: left[i].0 }),
    decreases n,
{
    if i < n - 1 {
        law_strangers_are_forgotten(left, n - 1, i);
    } else {
        lemma_removing_len(left, n - 1);
    }
}

proof fn lemma_removing_len(left: Seq<(Seq<char>, RuntimeView)>, n: int)
    requires
        0 <= n <= left.len(),
    ensures
        removing_effects(left, n).len() == n,
    decreases n,
{
    if n > 0 {
        lemma_removing_len(left, n - 1);
    }
}

/// A selection is accepted exactly where it is text that reads as one, of the only format that there
/// is, and names a version without build metadata and a digest.
pub proof fn law_selections_are_judged(
    bytes: Seq<u8>,
    parsed: Result<SelectionView, Seq<char>>,
    version: Result<Seq<char>, Seq<char>>,
)
    ensures
        selection_refusal(bytes, parsed, version) is None <==> {
            &&& vstd::utf8::valid_utf8(bytes)
            &&& parsed matches Ok(selection) && selection.bundle_format == 1 && is_digest(
                selection.manifest_sha256,
            )
            &&& version matches Ok(build) && build.len() == 0
        },
        selection_refusal(bytes, parsed, version) matches Some(LaunchRefusal::InstallationToml(
            reason,
        )) ==> parsed == Err::<SelectionView, Seq<char>>(reason),
        selection_refusal(bytes, parsed, version) matches Some(LaunchRefusal::InstallationVersion(
            reason,
        )) ==> version == Err::<Seq<char>, Seq<char>>(reason),
{
}

/// The manifest of a selected version is accepted exactly where it is the one that was selected, text
/// that reads as a manifest, made for this machine and this version, and declares the controller as
/// a file of a proper size with a digest.
pub proof fn law_selected_manifests_are_judged(
    selection: SelectionView,
    bytes: Seq<u8>,
    manifest: ManifestView,
    architecture: Seq<char>,
)
    ensures
        selected_manifest_refusal(selection, bytes, Ok(manifest), architecture) is None <==> {
            &&& digest_of(bytes) == selection.manifest_sha256
            &&& vstd::utf8::valid_utf8(bytes)
            &&& crate::bundle::target_of(architecture) == Some(manifest.target)
            &&& manifest.bundle_format == 1 && manifest.protocol_major == 1
            &&& manifest.version == selection.version
            &&& manifest.schemas_fit() && manifest.has_runtime_format()
            &&& manifest.find("susmd.exe"@) matches Some(declared) && declared.size
                <= crate::bundle::MAX_FILE_BYTES && is_digest(declared.sha256)
        },
{
}

/// A controller is launched exactly where it is a file of the size and the digest that its manifest
/// declares; one of another size counts as missing.
pub proof fn law_controllers_are_judged(
    path: Seq<char>,
    is_file: bool,
    size: u64,
    digest: Seq<char>,
    declared: FileView,
)
    ensures
        controller_refusal(path, is_file, size, digest, declared) is None <==> is_file && size
            == declared.size && digest == declared.sha256,
        controller_refusal(path, is_file, size, digest, declared) == Some(
            LaunchRefusal::ControllerMissing(path),
        ) <==> !is_file || size != declared.size,
{
}

/// The variables of an environment block are looked through in their order: the first with the name
/// gives its value, any other is passed over, and an empty entry ends the block.
pub proof fn law_environment_blocks_are_looked_through(
    entry: Seq<u16>,
    rest: Seq<u16>,
    own: Seq<char>,
    value: Seq<char>,
    name: Seq<char>,
)
    requires
        entry.len() > 0,
        !entry.contains(0),
        from_utf16_lossy(entry) == own + seq!['='] + value,
        !own.contains('='),
    ensures
        same_ignoring_ascii_case(own, name) ==> block_value(entry + seq![0u16] + rest, name)
            == Some(value),
        !same_ignoring_ascii_case(own, name) ==> block_value(entry + seq![0u16] + rest, name)
            == block_value(rest, name),
        block_value(seq![0u16] + rest, name) is None,
        block_value(Seq::empty(), name) is None,
{
    let block = entry + seq![0u16] + rest;
    let end = entry.len() as int;
    let text = own + seq!['='] + value;
    assert forall|i: int| 0 <= i < end implies block[i] != 0 by {
        assert(block[i] == entry[i]);
    }
    lemma_zero_position(block, end);
    assert(block.take(end) =~= entry);
    assert(block.skip(end + 1) =~= rest);
    assert forall|i: int| 0 <= i < own.len() implies text[i] != '=' by {
        assert(text[i] == own[i]);
    }
    lemma_delimiter(text, 0, own.len() as int);
    assert(text.take(own.len() as int) =~= own);
    assert(text.skip(own.len() as int + 1) =~= value);
    lemma_zero_position(seq![0u16] + rest, 0);
    lemma_zero_position(Seq::<u16>::empty(), 0);
}

/// A controller is called by its quoted path, for its session.
pub proof fn law_controllers_are_called_for_their_session(
    controller: Seq<char>,
    session: Seq<char>,
)
    ensures
        controller_line(controller, session) == seq!['"'] + controller + "\" --manager-session-id "@
            + session,
{
    reveal_strlit("\"");
    assert("\""@ =~= seq!['"']);
}

} // verus!
