//! How a supervisor keeps its controller informed: what it sends after it is attached, what it
//! does about what it is told, and when it is done.

use vstd::prelude::*;

use crate::messages::{
    ConfigurationView, ExecutionConfiguration, ObservationView, RuntimeObservation, copy_bytes,
};
use crate::runner::SupervisorIdentity;
use crate::runtime_journal::{
    RecordView, RuntimeJournal, committed_sequence, last_sequence, observation_views,
    observations_above,
};
use crate::storage::{ExecutionRow, UpdateView, committed};
use crate::text::same_text;

verus! {

/// How long a supervisor waits before it tries to attach again, in milliseconds.
pub const ATTACH_INTERVAL_MS: u64 = 250;

/// With what a supervisor introduces itself.
#[derive(Debug)]
pub struct Hello {
    pub manager_session_id: String,
    pub workload_id: String,
    pub execution_id: String,
    pub supervisor_id: String,
    pub incarnation: u32,
    pub execution_config_hash: Vec<u8>,
    pub last_sequence: u64,
}

impl Hello {
    /// Whether this introduces a supervisor of this execution that has recorded so much.
    pub open spec fn introduces(
        &self,
        configuration: ConfigurationView,
        identity: SupervisorIdentity,
        records: Seq<RecordView>,
    ) -> bool {
        &&& self.manager_session_id@ == configuration.manager_session_id
        &&& self.workload_id@ == configuration.workload_id
        &&& self.execution_id@ == configuration.execution_id
        &&& self.supervisor_id@ == identity.id@
        &&& self.incarnation == identity.incarnation
        &&& self.execution_config_hash@ == configuration.execution_config_hash
        &&& self.last_sequence == last_sequence(records)
    }

    pub fn new(
        configuration: &ExecutionConfiguration,
        identity: &SupervisorIdentity,
        journal: &RuntimeJournal,
    ) -> (hello: Hello)
        ensures
            hello.introduces(configuration@, *identity, journal@),
    {
        Hello {
            manager_session_id: configuration.manager_session_id.clone(),
            workload_id: configuration.workload_id.clone(),
            execution_id: configuration.execution_id.clone(),
            supervisor_id: identity.id.clone(),
            incarnation: identity.incarnation,
            execution_config_hash: copy_bytes(&configuration.execution_config_hash),
            last_sequence: journal.recovery().last_sequence,
        }
    }
}

/// How a link stands while it is attached.
#[derive(Clone, Copy, Debug, PartialEq, Eq, Structural)]
pub struct LinkState {
    /// The highest number that was sent or that the controller had before.
    pub sent_sequence: u64,
    /// The number of the observation that ends the execution, once it is known.
    pub terminal_sequence: Option<u64>,
    /// Whether more observations may come.
    pub observations_open: bool,
    /// Whether the controller has everything.
    pub done: bool,
}

/// What an attached supervisor is told.
#[derive(Clone, Copy, Debug, PartialEq, Eq, Structural)]
pub enum CommandMeaning {
    Stop,
    UpdatePolicy,
    Unknown,
}

/// What a command of the controller means.
pub open spec fn command_meaning(kind: Seq<char>) -> CommandMeaning {
    if kind == "stop"@ || kind == "session-ending"@ {
        CommandMeaning::Stop
    } else if kind == "update-policy"@ {
        CommandMeaning::UpdatePolicy
    } else {
        CommandMeaning::Unknown
    }
}

pub fn read_command(kind: &str) -> (meaning: CommandMeaning)
    ensures
        meaning == command_meaning(kind@),
{
    if same_text(kind, "stop") || same_text(kind, "session-ending") {
        CommandMeaning::Stop
    } else if same_text(kind, "update-policy") {
        CommandMeaning::UpdatePolicy
    } else {
        CommandMeaning::Unknown
    }
}

/// The state after some observations were sent, in order.
pub open spec fn after_sending(state: LinkState, sent: Seq<ObservationView>) -> LinkState
    decreases sent.len(),
{
    if sent.len() == 0 {
        state
    } else {
        let earlier = after_sending(state, sent.drop_last());
        LinkState {
            sent_sequence: sent.last().sequence,
            terminal_sequence: if sent.last().terminal {
                Some(sent.last().sequence)
            } else {
                earlier.terminal_sequence
            },
            ..earlier
        }
    }
}

/// The number of the last observation that ends the execution, if one was recorded.
pub open spec fn last_terminal(observations: Seq<ObservationView>) -> Option<u64>
    decreases observations.len(),
{
    if observations.len() == 0 {
        None
    } else if observations.last().terminal {
        Some(observations.last().sequence)
    } else {
        last_terminal(observations.drop_last())
    }
}

/// The state of a link right after the controller welcomed it.
pub open spec fn welcomed(committed: u64) -> LinkState {
    LinkState {
        sent_sequence: committed,
        terminal_sequence: None,
        observations_open: true,
        done: false,
    }
}

impl LinkState {
    /// Attaches: the journal is told what the controller has, where that is news, and
    /// everything after it is to be sent.
    pub fn attach(journal: &mut RuntimeJournal, committed: u64) -> (result: (
        LinkState,
        Vec<RuntimeObservation>,
        bool,
    ))
        ensures
            ({
                let news = committed > committed_sequence(old(journal)@);
                let pending = observations_above(old(journal)@, committed);
                &&& result.2 == news
                &&& final(journal)@ == if news {
                    old(journal)@.push(
                        RecordView::Acknowledgement { committed_sequence: committed },
                    )
                } else {
                    old(journal)@
                }
                &&& observation_views(result.1@) == pending
                &&& result.0 == after_sending(welcomed(committed), pending)
            }),
    {
        let known: u64 = journal.recovery().committed_sequence;
        let pending: Vec<RuntimeObservation> = journal.observations_after(committed);
        let news: bool = committed > known;
        if news {
            journal.acknowledge(committed);
        }
        let mut state = LinkState {
            sent_sequence: committed,
            terminal_sequence: None,
            observations_open: true,
            done: false,
        };
        let ghost views = observation_views(pending@);
        let mut i: usize = 0;
        while i < pending.len()
            invariant
                i <= pending.len(),
                views == observation_views(pending@),
                state == after_sending(welcomed(committed), views.take(i as int)),
            decreases pending.len() - i,
        {
            proof {
                let shown = views.take(i + 1);
                assert(shown.drop_last() =~= views.take(i as int));
                assert(shown.last() == pending@[i as int]@);
            }
            state.sent_sequence = pending[i].sequence;
            if pending[i].terminal {
                state.terminal_sequence = Some(pending[i].sequence);
            }
            i += 1;
        }
        assert(views.take(i as int) =~= views);
        (state, pending, news)
    }

    /// The controller has everything up to this number.
    pub fn acknowledged(self, committed: u64) -> (next: LinkState)
        ensures
            next == (LinkState {
                done: self.done || (self.terminal_sequence matches Some(terminal) && committed
                    >= terminal),
                ..self
            }),
    {
        let mut next: LinkState = self;
        if let Some(terminal) = self.terminal_sequence {
            if committed >= terminal {
                next.done = true;
            }
        }
        next
    }

    /// An observation was made. The answer is whether it is to be sent: one that was sent before
    /// is not.
    pub fn observed(self, observation: &RuntimeObservation) -> (result: (LinkState, bool))
        ensures
            result.1 == (observation.sequence > self.sent_sequence),
            result.0 == if observation.sequence > self.sent_sequence {
                after_sending(self, seq![observation@])
            } else {
                self
            },
    {
        proof {
            assert(seq![observation@].drop_last() =~= Seq::empty());
            assert(after_sending(self, seq![observation@].drop_last()) == self);
        }
        if observation.sequence <= self.sent_sequence {
            return (self, false);
        }
        let mut next: LinkState = self;
        next.sent_sequence = observation.sequence;
        if observation.terminal {
            next.terminal_sequence = Some(observation.sequence);
        }
        (next, true)
    }

    /// No more observations will be made.
    pub fn observations_closed(self, journal: &RuntimeJournal) -> (next: LinkState)
        ensures
            next == (LinkState {
                observations_open: false,
                terminal_sequence: match self.terminal_sequence {
                    Some(terminal) => Some(terminal),
                    None => last_terminal(observations_above(journal@, 0)),
                },
                ..self
            }),
    {
        let mut next: LinkState = self;
        next.observations_open = false;
        if self.terminal_sequence.is_none() {
            let all: Vec<RuntimeObservation> = journal.observations_after(0);
            let ghost views = observation_views(all@);
            let mut i: usize = all.len();
            assert(views.take(i as int) =~= views);
            while i > 0 && !all[i - 1].terminal
                invariant
                    i <= all.len(),
                    views == observation_views(all@),
                    last_terminal(views) == last_terminal(views.take(i as int)),
                decreases i,
            {
                assert(views.take(i as int).last() == all@[i - 1]@);
                assert(views.take(i as int).drop_last() =~= views.take(i - 1));
                i -= 1;
            }
            if i > 0 {
                assert(views.take(i as int).last() == all@[i - 1]@);
                next.terminal_sequence = Some(all[i - 1].sequence);
            } else {
                next.terminal_sequence = None;
            }
        }
        next
    }
}

/// Observations with ascending numbers, all above `start`.
pub open spec fn ascend_from(observations: Seq<ObservationView>, start: u64) -> bool {
    &&& forall|i: int|
        0 <= i < observations.len() ==> (#[trigger] observations[i]).sequence > start
    &&& forall|i: int, j: int|
        0 <= i < j < observations.len() ==> (#[trigger] observations[i]).sequence < (
        #[trigger] observations[j]).sequence
}

/// While it is attached a link sends no observation twice: what was sent lies at or below the
/// number that it keeps, and only what lies above that is sent.
pub proof fn law_nothing_is_sent_twice(committed: u64, pending: Seq<ObservationView>)
    requires
        ascend_from(pending, committed),
    ensures
        after_sending(welcomed(committed), pending).sent_sequence >= committed,
        forall|i: int|
            0 <= i < pending.len() ==> (#[trigger] pending[i]).sequence <= after_sending(
                welcomed(committed),
                pending,
            ).sent_sequence,
{
    if pending.len() > 0 {
        let last = pending.last();
        assert(pending[pending.len() - 1] == last);
    }
}

/// What a link takes for the end of the execution is the last terminal observation that it
/// sent.
pub proof fn law_links_know_the_terminal_observation(
    state: LinkState,
    sent: Seq<ObservationView>,
)
    requires
        state.terminal_sequence is None,
    ensures
        after_sending(state, sent).terminal_sequence == last_terminal(sent),
    decreases sent.len(),
{
    if sent.len() > 0 {
        law_links_know_the_terminal_observation(state, sent.drop_last());
    }
}

/// Whether observations are numbered in a row from `first` on.
pub open spec fn in_a_row(observations: Seq<ObservationView>, first: int) -> bool {
    forall|i: int|
        0 <= i < observations.len() ==> (#[trigger] observations[i]).sequence == first + i
}

/// A row after observations were committed to it one after the other, or nothing where one was
/// refused.
pub open spec fn all_committed(
    row: ExecutionRow,
    observations: Seq<ObservationView>,
    updates: Seq<UpdateView>,
) -> Option<ExecutionRow>
    decreases observations.len(),
{
    if observations.len() == 0 {
        Some(row)
    } else {
        let rest = observations.drop_first();
        match committed(row, observations[0].sequence, updates[0]) {
            Ok(Some(next)) => all_committed(next, rest, updates.drop_first()),
            Ok(None) => all_committed(row, rest, updates.drop_first()),
            Err(_) => None,
        }
    }
}

proof fn lemma_committed_in_a_row(
    row: ExecutionRow,
    observations: Seq<ObservationView>,
    updates: Seq<UpdateView>,
    first: int,
)
    requires
        in_a_row(observations, first),
        updates.len() == observations.len(),
        1 <= first <= row.committed_sequence + 1,
        row.committed_sequence <= first - 1 + observations.len() <= i64::MAX,
    ensures
        all_committed(row, observations, updates) matches Some(after) && after.committed_sequence
            == first - 1 + observations.len(),
    decreases observations.len(),
{
    if observations.len() > 0 {
        let rest = observations.drop_first();
        assert(observations[0].sequence == first);
        assert forall|i: int| 0 <= i < rest.len() implies (#[trigger] rest[i]).sequence == first + 1
            + i by {
            assert(rest[i] == observations[i + 1]);
        }
        let next = match committed(row, observations[0].sequence, updates[0]) {
            Ok(Some(next)) => next,
            _ => row,
        };
        lemma_committed_in_a_row(next, rest, updates.drop_first(), first + 1);
    }
}

proof fn lemma_sent_in_a_row(records: Seq<RecordView>, known: u64)
    requires
        in_a_row(observations_above(records, 0), 1),
        known <= observations_above(records, 0).len(),
    ensures
        last_sequence(records) == observations_above(records, 0).len(),
        observations_above(records, known) == observations_above(records, 0).skip(known as int),
    decreases records.len(),
{
    let all = observations_above(records, 0);
    if records.len() == 0 {
        assert(observations_above(records, known) =~= all.skip(known as int));
    } else {
        let before = records.drop_last();
        let earlier = observations_above(before, 0);
        assert forall|i: int| 0 <= i < earlier.len() implies (#[trigger] earlier[i]).sequence == 1
            + i by {
            assert(earlier[i] == all[i]);
        }
        if known <= earlier.len() {
            lemma_sent_in_a_row(before, known);
        } else {
            lemma_sent_in_a_row(before, earlier.len() as u64);
            lemma_none_above(before, known);
        }
        if let RecordView::Observation(observation) = records.last() {
            if observation.sequence > 0 {
                assert(all == earlier.push(observation));
                assert(all[earlier.len() as int].sequence == 1 + earlier.len());
            }
        }
        assert(observations_above(records, known) =~= all.skip(known as int));
    }
}

/// Nothing lies above a number that no observation reaches.
proof fn lemma_none_above(records: Seq<RecordView>, known: u64)
    requires
        last_sequence(records) <= known,
    ensures
        observations_above(records, known) == Seq::<ObservationView>::empty(),
    decreases records.len(),
{
    if records.len() > 0 {
        lemma_none_above(records.drop_last(), known);
    }
}

/// A supervisor that attaches brings its controller up to date, whatever was lost on the way:
/// what it sends is committed without a refusal, whether or not the controller has some of it
/// already, and then the controller has all that the supervisor recorded. `known` is the number
/// that the supervisor sends from, `updates` what the observations mean to the controller.
pub proof fn law_attached_supervisors_bring_controllers_up_to_date(
    records: Seq<RecordView>,
    row: ExecutionRow,
    known: u64,
    updates: Seq<UpdateView>,
)
    requires
        in_a_row(observations_above(records, 0), 1),
        known <= row.committed_sequence <= last_sequence(records) <= i64::MAX,
        updates.len() == observations_above(records, known).len(),
    ensures
        all_committed(row, observations_above(records, known), updates) matches Some(after)
            && after.committed_sequence == last_sequence(records),
{
    let all = observations_above(records, 0);
    lemma_sent_in_a_row(records, 0);
    lemma_sent_in_a_row(records, known);
    let sent = observations_above(records, known);
    assert forall|i: int| 0 <= i < sent.len() implies (#[trigger] sent[i]).sequence == known + 1
        + i by {
        assert(sent[i] == all[known + i]);
    }
    lemma_committed_in_a_row(row, sent, updates, known + 1);
}

} // verus!
