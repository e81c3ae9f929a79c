//! What supervisors write down and send, and who may talk to whom.

use vstd::prelude::*;

use crate::controller_link::{
    CommandMeaning, Hello, LinkState, after_sending, command_meaning, last_terminal, welcomed,
};
use crate::messages::{CheckpointView, ConfigurationView, ObservationView};
use crate::pipe::{
    PipeAccess, is_transient, is_user_sid, next_open_delay, open_delay, session_part, user_pipe,
};
use crate::runner::SupervisorIdentity;
use crate::runtime_journal::{
    JournalRefusal, RecordView, RuntimeFrame, accepted_records, committed_sequence, first_refusal,
    last_checkpoint, last_sequence, observations_above,
};
use crate::session::{ending_event, is_session_id};

verus! {

/// The last number of a journal is the largest that an observation in it has, and zero where there
/// is none.
pub proof fn law_the_last_number_is_the_largest(records: Seq<RecordView>)
    ensures
        forall|i: int|
            0 <= i < records.len() ==> (#[trigger] records[i] matches RecordView::Observation(
                observation,
            ) ==> observation.sequence <= last_sequence(records)),
        last_sequence(records) == 0 || exists|i: int|
            0 <= i < records.len() && (#[trigger] records[i] matches RecordView::Observation(
                observation,
            ) && observation.sequence == last_sequence(records)),
    decreases records.len(),
{
    if records.len() > 0 {
        let rest = records.drop_last();
        law_the_last_number_is_the_largest(rest);
        assert forall|i: int|
            0 <= i < records.len() implies (#[trigger] records[i] matches RecordView::Observation(
            observation,
        ) ==> observation.sequence <= last_sequence(records)) by {
            if i < rest.len() {
                assert(rest[i] == records[i]);
            }
        }
        if last_sequence(records) != 0 {
            if last_sequence(records) == last_sequence(rest) {
                let i = choose|i: int|
                    0 <= i < rest.len() && (#[trigger] rest[i] matches RecordView::Observation(
                        observation,
                    ) && observation.sequence == last_sequence(rest));
                assert(records[i] == rest[i]);
            } else {
                assert(records[records.len() - 1] == records.last());
            }
        }
    }
}

/// What the controller is known to have is the largest number that it acknowledged, or that a
/// checkpoint says it has, and zero where there is none.
pub proof fn law_the_committed_number_is_the_largest(records: Seq<RecordView>)
    ensures
        forall|i: int|
            0 <= i < records.len() ==> (#[trigger] records[i] matches RecordView::Acknowledgement {
                committed_sequence: number,
            } ==> number <= committed_sequence(records)),
        forall|i: int|
            0 <= i < records.len() ==> (#[trigger] records[i] matches RecordView::Checkpoint(
                checkpoint,
            ) ==> checkpoint.committed_sequence <= committed_sequence(records)),
        committed_sequence(records) == 0 || exists|i: int|
            0 <= i < records.len() && match #[trigger] records[i] {
                RecordView::Acknowledgement { committed_sequence: number } => number
                    == committed_sequence(records),
                RecordView::Checkpoint(checkpoint) => checkpoint.committed_sequence
                    == committed_sequence(records),
                RecordView::Observation(_) => false,
            },
    decreases records.len(),
{
    if records.len() > 0 {
        let rest = records.drop_last();
        law_the_committed_number_is_the_largest(rest);
        assert forall|i: int|
            0 <= i < records.len() implies (#[trigger] records[i] matches RecordView::Acknowledgement {
            committed_sequence: number,
        } ==> number <= committed_sequence(records)) by {
            if i < rest.len() {
                assert(rest[i] == records[i]);
            }
        }
        assert forall|i: int|
            0 <= i < records.len() implies (#[trigger] records[i] matches RecordView::Checkpoint(
            checkpoint,
        ) ==> checkpoint.committed_sequence <= committed_sequence(records)) by {
            if i < rest.len() {
                assert(rest[i] == records[i]);
            }
        }
        if committed_sequence(records) != 0 {
            if committed_sequence(records) == committed_sequence(rest) {
                let i = choose|i: int|
                    0 <= i < rest.len() && match #[trigger] rest[i] {
                        RecordView::Acknowledgement { committed_sequence: number } => number
                            == committed_sequence(rest),
                        RecordView::Checkpoint(checkpoint) => checkpoint.committed_sequence
                            == committed_sequence(rest),
                        RecordView::Observation(_) => false,
                    };
                assert(records[i] == rest[i]);
            } else {
                assert(records[records.len() - 1] == records.last());
            }
        }
    }
}

/// What is sent was recorded, and the controller does not have it.
pub proof fn law_only_recorded_observations_are_sent(records: Seq<RecordView>, sequence: u64, k: int)
    requires
        0 <= k < observations_above(records, sequence).len(),
    ensures
        records.contains(RecordView::Observation(observations_above(records, sequence)[k])),
        observations_above(records, sequence)[k].sequence > sequence,
    decreases records.len(),
{
    let rest = records.drop_last();
    let before = observations_above(rest, sequence);
    let found = observations_above(records, sequence)[k];
    if k < before.len() {
        law_only_recorded_observations_are_sent(rest, sequence, k);
        let i = choose|i: int| 0 <= i < rest.len() && rest[i] == RecordView::Observation(found);
        assert(records[i] == RecordView::Observation(found));
    } else {
        assert(records[records.len() - 1] == RecordView::Observation(found));
    }
}

/// Everything that was recorded and that the controller does not have is sent.
pub proof fn law_all_newer_observations_are_sent(records: Seq<RecordView>, sequence: u64, i: int)
    requires
        0 <= i < records.len(),
    ensures
        records[i] matches RecordView::Observation(observation) ==> (observation.sequence > sequence
            ==> observations_above(records, sequence).contains(observation)),
    decreases records.len(),
{
    if let RecordView::Observation(observation) = records[i] {
        if observation.sequence > sequence {
            let rest = records.drop_last();
            let before = observations_above(rest, sequence);
            let all = observations_above(records, sequence);
            if i < rest.len() {
                assert(rest[i] == records[i]);
                law_all_newer_observations_are_sent(rest, sequence, i);
                let k = choose|k: int| 0 <= k < before.len() && before[k] == observation;
                assert(all[k] == observation);
            } else {
                assert(all[all.len() - 1] == observation);
            }
        }
    }
}

/// What was recorded first is sent first.
pub proof fn law_observations_are_sent_in_their_order(
    records: Seq<RecordView>,
    next: ObservationView,
    sequence: u64,
)
    requires
        next.sequence > sequence,
    ensures
        observations_above(records.push(RecordView::Observation(next)), sequence)
            == observations_above(records, sequence).push(next),
{
    assert(records.push(RecordView::Observation(next)).drop_last() =~= records);
}

/// The checkpoint that counts is the last one, whatever else follows it.
pub proof fn law_the_last_checkpoint_counts(
    records: Seq<RecordView>,
    checkpoint: CheckpointView,
    other: RecordView,
)
    requires
        other !is Checkpoint,
    ensures
        last_checkpoint(Seq::empty()) is None,
        last_checkpoint(records.push(RecordView::Checkpoint(checkpoint))) == Some(checkpoint),
        last_checkpoint(records.push(other)) == last_checkpoint(records),
{
    assert(records.push(other).drop_last() =~= records);
}

/// A frame is accepted exactly where it can be read, is of the only format that there is and records
/// something; and a journal exactly where all its frames are.
pub proof fn law_frames_are_judged(decoded: Seq<Result<RuntimeFrame, String>>, n: int)
    requires
        0 <= n <= decoded.len(),
    ensures
        first_refusal(decoded, n) is None <==> forall|i: int|
            0 <= i < n ==> (#[trigger] decoded[i] matches Ok(frame) && frame.format == 1
                && frame.record is Some),
        first_refusal(decoded, n) matches Some(JournalRefusal::Decode(reason)) ==> exists|i: int|
            0 <= i < n && (#[trigger] decoded[i] matches Err(text) && text@ == reason),
    decreases n,
{
    if n > 0 {
        law_frames_are_judged(decoded, n - 1);
        if first_refusal(decoded, n - 1) is Some {
            if let Some(JournalRefusal::Decode(reason)) = first_refusal(decoded, n - 1) {
                let i = choose|i: int|
                    0 <= i < n - 1 && (#[trigger] decoded[i] matches Err(text) && text@ == reason);
                assert(decoded[i] is Err);
            }
        } else {
            assert(decoded[n - 1] == decoded[n - 1]);
        }
    }
}

/// The records of a journal are those of its frames, in their order.
pub proof fn law_records_are_those_of_the_frames(
    decoded: Seq<Result<RuntimeFrame, String>>,
    i: int,
)
    requires
        0 <= i < decoded.len(),
    ensures
        accepted_records(decoded).len() == decoded.len(),
        decoded[i] matches Ok(frame) ==> (frame.record matches Some(record)
            ==> accepted_records(decoded)[i] == record@),
{
}

/// What a command of the controller means to a supervisor: a stop, also where the session ends, or a
/// policy; everything else means nothing.
pub proof fn law_commands_are_understood(kind: Seq<char>)
    ensures
        command_meaning(kind) == CommandMeaning::Stop <==> kind == "stop"@ || kind
            == "session-ending"@,
        command_meaning(kind) == CommandMeaning::UpdatePolicy <==> kind == "update-policy"@,
        command_meaning(kind) == CommandMeaning::Unknown <==> kind != "stop"@ && kind
            != "session-ending"@ && kind != "update-policy"@,
{
    reveal_strlit("stop");
    reveal_strlit("session-ending");
    reveal_strlit("update-policy");
    assert("stop"@.len() == 4 && "session-ending"@.len() == 14 && "update-policy"@.len() == 13);
}

/// The commands that the manager sends are those that a supervisor understands.
pub proof fn law_commands_that_are_sent_are_understood(
    command: crate::manager::state::CommandView,
)
    ensures
        command is Stop || command is SessionEnding ==> command_meaning(command.text())
            == CommandMeaning::Stop,
        command is UpdatePolicy ==> command_meaning(command.text()) == CommandMeaning::UpdatePolicy,
{
    law_commands_are_understood(command.text());
}

/// A supervisor introduces itself as what it is.
pub proof fn law_supervisors_introduce_themselves(
    hello: Hello,
    configuration: ConfigurationView,
    identity: SupervisorIdentity,
    records: Seq<RecordView>,
)
    requires
        hello.introduces(configuration, identity, records),
    ensures
        hello.workload_id@ == configuration.workload_id,
        hello.execution_id@ == configuration.execution_id,
        hello.manager_session_id@ == configuration.manager_session_id,
        hello.execution_config_hash@ == configuration.execution_config_hash,
        hello.supervisor_id@ == identity.id@,
        hello.incarnation == identity.incarnation,
        hello.last_sequence == last_sequence(records),
{
}

/// A link that was welcomed sends what the controller does not have, and knows the last that it sent;
/// nothing else about it changes.
pub proof fn law_links_know_what_they_sent(
    state: LinkState,
    sent: Seq<ObservationView>,
    next: ObservationView,
)
    ensures
        ({
            let before = after_sending(state, sent);
            let after = after_sending(state, sent.push(next));
            &&& after.sent_sequence == next.sequence
            &&& next.terminal ==> after.terminal_sequence == Some(next.sequence)
            &&& !next.terminal ==> after.terminal_sequence == before.terminal_sequence
            &&& after.observations_open == before.observations_open && after.done == before.done
            &&& after_sending(state, Seq::empty()) == state
            &&& welcomed(next.sequence).sent_sequence == next.sequence && welcomed(
                next.sequence,
            ).terminal_sequence is None && welcomed(next.sequence).observations_open && !welcomed(
                next.sequence,
            ).done
        }),
{
    assert(sent.push(next).drop_last() =~= sent);
}

/// The end of an execution is the last observation that says so.
pub proof fn law_the_last_end_counts(observations: Seq<ObservationView>, next: ObservationView)
    ensures
        last_terminal(Seq::empty()) is None,
        next.terminal ==> last_terminal(observations.push(next)) == Some(next.sequence),
        !next.terminal ==> last_terminal(observations.push(next)) == last_terminal(observations),
{
    assert(observations.push(next).drop_last() =~= observations);
}

/// An identifier of a user begins with `S-` and can stand as one part of a path.
pub proof fn law_user_identifiers_are_one_part_of_a_path(text: Seq<char>)
    ensures
        is_user_sid(text) <==> text.len() >= 2 && text[0] == 'S' && text[1] == '-' && forall|i: int|
            0 <= i < text.len() ==> #[trigger] text[i] != '\\' && text[i] != '/' && text[i] != '\0',
{
    if is_user_sid(text) {
        assert forall|i: int| 0 <= i < text.len() implies #[trigger] text[i] != '\\' && text[i]
            != '/' && text[i] != '\0' by {
            if text[i] == '\\' {
                assert(text.contains('\\'));
            }
            if text[i] == '/' {
                assert(text.contains('/'));
            }
            if text[i] == '\0' {
                assert(text.contains('\0'));
            }
        }
    }
}

/// The pipes of a session carry its name, and those without a session share one name.
pub proof fn law_pipes_carry_their_session(sid: Seq<char>, session: Seq<char>, service: Seq<char>)
    ensures
        session.len() > 0 ==> session_part(session) == session,
        session.len() == 0 ==> session_part(session) == "standalone"@,
        user_pipe(sid, session, service) == "\\\\.\\pipe\\susm\\users\\"@ + sid + "\\sessions\\"@
            + session_part(session) + "\\"@ + service + "\\v1"@,
{
}

/// The pipe of a user is open to the system and to that user only, and the pipe of the host to all
/// users who have logged on.
pub proof fn law_pipes_are_open_to_their_users(access: PipeAccess)
    ensures
        access matches PipeAccess::User(sid) ==> access.descriptor() == "D:P(A;;GA;;;SY)(A;;GA;;;"@
            + sid@ + ")"@,
        access is AuthenticatedUsers ==> access.descriptor() == "D:P(A;;GA;;;SY)(A;;GRGW;;;AU)"@,
{
}

/// A client tries again exactly where the pipe is not there yet or is taken, first after twenty
/// milliseconds, then after twice as long each time, up to a second.
pub proof fn law_clients_try_again(code: Option<i32>, tries: nat)
    ensures
        is_transient(code) <==> code == Some(2i32) || code == Some(231i32),
        open_delay(0) == 20,
        2 * open_delay(tries) <= 1000 ==> open_delay(tries + 1) == 2 * open_delay(tries),
        2 * open_delay(tries) > 1000 ==> open_delay(tries + 1) == 1000,
        next_open_delay(open_delay(tries)) == open_delay(tries + 1),
{
}

/// An id of a session has up to sixty-four letters, digits and hyphens, and its event is named after
/// it.
pub proof fn law_session_ids_are_plain(text: Seq<char>)
    ensures
        is_session_id(text) <==> 1 <= text.len() <= 64 && forall|i: int|
            0 <= i < text.len() ==> 'a' <= #[trigger] text[i] <= 'z' || 'A' <= text[i] <= 'Z' || '0'
                <= text[i] <= '9' || text[i] == '-',
        ending_event(text) == "Global\\SUSM-manager-session-"@ + text + "-ending"@,
{
    if is_session_id(text) {
        assert forall|i: int| 0 <= i < text.len() implies 'a' <= #[trigger] text[i] <= 'z' || 'A'
            <= text[i] <= 'Z' || '0' <= text[i] <= '9' || text[i] == '-' by {
            assert(crate::session::is_session_char(text[i]));
        }
    }
}

} // verus!
