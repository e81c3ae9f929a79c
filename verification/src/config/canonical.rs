//! The canonical bytes of definitions, and the digests that identify them.

use vstd::prelude::*;
use vstd::string::*;

use crate::bytes::{le_bytes, push_framed_text, push_u128, push_u32, push_u64, framed_text};
use crate::codes::{ascending_codes, list_codes};
use crate::config::model::{
    texts, EnvironmentOverlay, LoggingPolicy, ProcessDefinition, ProcessView, RetentionDuration,
    RetentionLimit, StopDefinition, WorkloadDefinition, WorkloadKind,
};
use crate::ids::{ConfigGeneration, ProcessDefinitionHash};
use crate::ordered::TextMap;
use crate::restart::{
    BackoffPolicy, ExecutionRestartPolicy, JobRestartPolicy, ServiceRestartPolicy,
    ServiceRetryLimit, ServiceRetryPolicy,
};
use crate::time::Duration;

verus! {

/// The SHA-256 digest of some bytes.
pub uninterp spec fn sha256_of(bytes: Seq<u8>) -> Seq<u8>;

/// The SHA-256 digest of `bytes`, by `sha2::Sha256::digest`.
#[verifier::external_body]
pub(crate) fn sha256(bytes: &[u8]) -> (digest: [u8; 32])
    ensures
        digest@ == sha256_of(bytes@),
{
    <sha2::Sha256 as sha2::Digest>::digest(bytes).into()
}

/// The bytes of some texts, one after the other.
pub open spec fn texts_bytes(list: Seq<Seq<char>>) -> Seq<u8>
    decreases list.len(),
{
    if list.len() == 0 {
        Seq::empty()
    } else {
        texts_bytes(list.drop_last()) + framed_text(list.last())
    }
}

/// A list of texts with its length before it.
pub open spec fn list_bytes(list: Seq<Seq<char>>) -> Seq<u8> {
    le_bytes(list.len(), 8) + texts_bytes(list)
}

/// The bytes of some pairs of texts, one after the other.
pub open spec fn pairs_bytes(pairs: Seq<(Seq<char>, Seq<char>)>) -> Seq<u8>
    decreases pairs.len(),
{
    if pairs.len() == 0 {
        Seq::empty()
    } else {
        pairs_bytes(pairs.drop_last()) + framed_text(pairs.last().0) + framed_text(pairs.last().1)
    }
}

/// The bytes of some codes, one after the other.
pub open spec fn codes_bytes(codes: Seq<u32>) -> Seq<u8>
    decreases codes.len(),
{
    if codes.len() == 0 {
        Seq::empty()
    } else {
        codes_bytes(codes.drop_last()) + le_bytes(codes.last() as nat, 4)
    }
}

/// The bytes of a span of time.
pub open spec fn duration_bytes(duration: Duration) -> Seq<u8> {
    le_bytes(duration@, 16)
}

pub open spec fn process_bytes(process: ProcessView) -> Seq<u8> {
    framed_text(process.executable) + list_bytes(process.arguments) + framed_text(
        process.working_directory,
    ) + le_bytes(process.set.len(), 8) + pairs_bytes(process.set) + list_bytes(process.unset)
}

pub open spec fn backoff_bytes(backoff: BackoffPolicy) -> Seq<u8> {
    le_bytes(backoff.initial_delay()@, 16) + le_bytes(backoff.factor()@, 4) + le_bytes(
        backoff.maximum_delay()@,
        16,
    )
}

pub open spec fn service_retry_bytes(policy: ServiceRetryPolicy) -> Seq<u8> {
    (match policy.limit {
        ServiceRetryLimit::Finite(limit) => seq![1u8] + le_bytes(limit@, 4),
        ServiceRetryLimit::Unlimited => seq![2u8],
    }) + le_bytes(policy.reset_after@, 16) + backoff_bytes(policy.backoff)
}

pub open spec fn restart_bytes(restart: ExecutionRestartPolicy) -> Seq<u8> {
    match restart {
        ExecutionRestartPolicy::Service(ServiceRestartPolicy::Never) => seq![1u8],
        ExecutionRestartPolicy::Service(ServiceRestartPolicy::OnFailure(policy)) => seq![2u8]
            + service_retry_bytes(policy),
        ExecutionRestartPolicy::Service(ServiceRestartPolicy::Always(policy)) => seq![3u8]
            + service_retry_bytes(policy),
        ExecutionRestartPolicy::Job(JobRestartPolicy::Never) => seq![4u8],
        ExecutionRestartPolicy::Job(JobRestartPolicy::OnFailure(policy)) => seq![5u8] + le_bytes(
            policy.max_restarts@,
            4,
        ) + backoff_bytes(policy.backoff),
    }
}

pub open spec fn stop_bytes(stop: StopDefinition) -> Seq<u8> {
    match stop {
        StopDefinition::CtrlBreak { timeout } => seq![1u8] + duration_bytes(timeout),
        StopDefinition::Command { timeout, command } => seq![2u8] + duration_bytes(timeout)
            + framed_text(command.executable@) + list_bytes(texts(command.arguments@)),
        StopDefinition::Kill => seq![3u8],
    }
}

pub open spec fn logging_bytes(logging: LoggingPolicy) -> Seq<u8> {
    match logging {
        LoggingPolicy::Disabled => seq![1u8],
        LoggingPolicy::Capture { segment_size, segment_age, retention_size, retention_age } => {
            seq![2u8] + le_bytes(segment_size as nat, 8) + duration_bytes(segment_age) + (
            match retention_size {
                RetentionLimit::Limited(size) => seq![1u8] + le_bytes(size as nat, 8),
                RetentionLimit::Unlimited => seq![2u8],
            }) + (match retention_age {
                RetentionDuration::Limited(age) => seq![1u8] + duration_bytes(age),
                RetentionDuration::Unlimited => seq![2u8],
            })
        },
    }
}

pub open spec fn kind_byte(kind: WorkloadKind) -> u8 {
    match kind {
        WorkloadKind::Service => 1,
        WorkloadKind::Job => 2,
    }
}

pub open spec fn definition_bytes(definition: WorkloadDefinition) -> Seq<u8> {
    let codes = ascending_codes(definition.success_exit_codes@);
    seq![kind_byte(definition.kind)] + process_bytes(definition.process@) + le_bytes(
        codes.len(),
        8,
    ) + codes_bytes(codes) + restart_bytes(definition.restart) + stop_bytes(definition.stop)
        + logging_bytes(definition.logging)
}

/// The bytes of named definitions, one after the other.
pub open spec fn definitions_bytes(entries: Seq<(Seq<char>, WorkloadDefinition)>) -> Seq<u8>
    decreases entries.len(),
{
    if entries.len() == 0 {
        Seq::empty()
    } else {
        definitions_bytes(entries.drop_last()) + framed_text(entries.last().0) + definition_bytes(
            entries.last().1,
        )
    }
}

/// What the digest of a process definition is taken of.
pub open spec fn process_digest_input(process: ProcessView) -> Seq<u8> {
    framed_text("susm-process-definition-v1"@) + process_bytes(process)
}

/// What the digest of a configuration is taken of.
pub open spec fn generation_digest_input(
    entries: Seq<(Seq<char>, WorkloadDefinition)>,
) -> Seq<u8> {
    framed_text("susm-config-generation-v1"@) + le_bytes(entries.len(), 8) + definitions_bytes(
        entries,
    )
}

/// The digest of the parts of a definition that a process is started from.
pub fn process_hash(process: &ProcessDefinition) -> (hash: ProcessDefinitionHash)
    ensures
        hash.0@ == sha256_of(process_digest_input(process@)),
{
    let mut out: Vec<u8> = Vec::new();
    push_framed_text(&mut out, "susm-process-definition-v1");
    write_process(&mut out, process);
    assert(out@ =~= process_digest_input(process@));
    ProcessDefinitionHash::from_sha256(sha256(out.as_slice()))
}

/// The digest of a whole configuration.
pub fn config_generation(definitions: &TextMap<WorkloadDefinition>) -> (
generation: ConfigGeneration)
    ensures
        generation.0@ == sha256_of(generation_digest_input(definitions@)),
{
    let mut out: Vec<u8> = Vec::new();
    push_framed_text(&mut out, "susm-config-generation-v1");
    push_u64(&mut out, definitions.len() as u64);
    let ghost head = out@;
    let mut index: usize = 0;
    assert(definitions@.take(0) =~= Seq::<(Seq<char>, WorkloadDefinition)>::empty());
    assert(out@ =~= head + definitions_bytes(definitions@.take(0)));
    while index < definitions.len()
        invariant
            index <= definitions@.len(),
            out@ == head + definitions_bytes(definitions@.take(index as int)),
        decreases definitions@.len() - index,
    {
        push_framed_text(&mut out, definitions.key(index));
        write_definition(&mut out, definitions.value(index));
        proof {
            let next = definitions@.take(index + 1);
            assert(next.drop_last() =~= definitions@.take(index as int));
            assert(out@ =~= head + definitions_bytes(next));
        }
        index += 1;
    }
    assert(definitions@.take(index as int) =~= definitions@);
    assert(out@ =~= generation_digest_input(definitions@));
    ConfigGeneration::from_sha256(sha256(out.as_slice()))
}

fn write_definition(out: &mut Vec<u8>, definition: &WorkloadDefinition)
    ensures
        final(out)@ == old(out)@ + definition_bytes(*definition),
{
    out.push(
        match definition.kind {
            WorkloadKind::Service => 1,
            WorkloadKind::Job => 2,
        },
    );
    write_process(out, &definition.process);
    let codes: Vec<u32> = list_codes(&definition.success_exit_codes);
    push_u64(out, codes.len() as u64);
    let ghost head = out@;
    let mut index: usize = 0;
    assert(codes@.take(0) =~= Seq::<u32>::empty());
    assert(out@ =~= head + codes_bytes(codes@.take(0)));
    while index < codes.len()
        invariant
            index <= codes.len(),
            out@ == head + codes_bytes(codes@.take(index as int)),
        decreases codes.len() - index,
    {
        push_u32(out, codes[index]);
        proof {
            let next = codes@.take(index + 1);
            assert(next.drop_last() =~= codes@.take(index as int));
            assert(out@ =~= head + codes_bytes(next));
        }
        index += 1;
    }
    assert(codes@.take(index as int) =~= codes@);
    write_restart(out, definition.restart);
    write_stop(out, &definition.stop);
    write_logging(out, definition.logging);
    assert(out@ =~= old(out)@ + definition_bytes(*definition));
}

fn write_texts(out: &mut Vec<u8>, list: &Vec<String>)
    ensures
        final(out)@ == old(out)@ + list_bytes(texts(list@)),
{
    let ghost all = texts(list@);
    push_u64(out, list.len() as u64);
    let ghost head = out@;
    let mut index: usize = 0;
    assert(all.take(0) =~= Seq::<Seq<char>>::empty());
    assert(out@ =~= head + texts_bytes(all.take(0)));
    while index < list.len()
        invariant
            index <= list.len(),
            all == texts(list@),
            out@ == head + texts_bytes(all.take(index as int)),
        decreases list.len() - index,
    {
        push_framed_text(out, list[index].as_str());
        proof {
            let next = all.take(index + 1);
            assert(next.drop_last() =~= all.take(index as int));
            assert(next.last() == list@[index as int]@);
            assert(out@ =~= head + texts_bytes(next));
        }
        index += 1;
    }
    assert(all.take(index as int) =~= all);
    assert(out@ =~= old(out)@ + list_bytes(all));
}

fn write_set(out: &mut Vec<u8>, environment: &EnvironmentOverlay)
    ensures
        final(out)@ == old(out)@ + le_bytes(environment.set_texts().len(), 8) + pairs_bytes(
            environment.set_texts(),
        ),
{
    let ghost all = environment.set_texts();
    push_u64(out, environment.set.len() as u64);
    let ghost head = out@;
    let mut index: usize = 0;
    assert(all.take(0) =~= Seq::<(Seq<char>, Seq<char>)>::empty());
    assert(out@ =~= head + pairs_bytes(all.take(0)));
    while index < environment.set.len()
        invariant
            index <= environment.set@.len(),
            all == environment.set_texts(),
            out@ == head + pairs_bytes(all.take(index as int)),
        decreases environment.set@.len() - index,
    {
        push_framed_text(out, environment.set.key(index));
        push_framed_text(out, environment.set.value(index).as_str());
        proof {
            let next = all.take(index + 1);
            assert(next.drop_last() =~= all.take(index as int));
            assert(next.last() == (
                environment.set@[index as int].0,
                environment.set@[index as int].1@,
            ));
            assert(out@ =~= head + pairs_bytes(next));
        }
        index += 1;
    }
    assert(all.take(index as int) =~= all);
    assert(out@ =~= old(out)@ + le_bytes(all.len(), 8) + pairs_bytes(all));
}

fn write_unset(out: &mut Vec<u8>, environment: &EnvironmentOverlay)
    ensures
        final(out)@ == old(out)@ + list_bytes(environment.unset_names()),
{
    let ghost all = environment.unset_names();
    push_u64(out, environment.unset.len() as u64);
    let ghost head = out@;
    let mut index: usize = 0;
    assert(all.take(0) =~= Seq::<Seq<char>>::empty());
    assert(out@ =~= head + texts_bytes(all.take(0)));
    while index < environment.unset.len()
        invariant
            index <= environment.unset@.len(),
            all == environment.unset_names(),
            out@ == head + texts_bytes(all.take(index as int)),
        decreases environment.unset@.len() - index,
    {
        push_framed_text(out, environment.unset.key(index));
        proof {
            let next = all.take(index + 1);
            assert(next.drop_last() =~= all.take(index as int));
            assert(next.last() == environment.unset@[index as int].0);
            assert(out@ =~= head + texts_bytes(next));
        }
        index += 1;
    }
    assert(all.take(index as int) =~= all);
    assert(out@ =~= old(out)@ + list_bytes(all));
}

fn write_process(out: &mut Vec<u8>, process: &ProcessDefinition)
    ensures
        final(out)@ == old(out)@ + process_bytes(process@),
{
    push_framed_text(out, process.executable());
    write_texts(out, &process.arguments);
    push_framed_text(out, process.working_directory());
    write_set(out, &process.environment);
    write_unset(out, &process.environment);
    assert(out@ =~= old(out)@ + process_bytes(process@));
}

fn write_restart(out: &mut Vec<u8>, restart: ExecutionRestartPolicy)
    ensures
        final(out)@ == old(out)@ + restart_bytes(restart),
{
    match restart {
        ExecutionRestartPolicy::Service(ServiceRestartPolicy::Never) => {
            out.push(1);
        },
        ExecutionRestartPolicy::Service(ServiceRestartPolicy::OnFailure(policy)) => {
            out.push(2);
            write_service_retry(out, policy);
        },
        ExecutionRestartPolicy::Service(ServiceRestartPolicy::Always(policy)) => {
            out.push(3);
            write_service_retry(out, policy);
        },
        ExecutionRestartPolicy::Job(JobRestartPolicy::Never) => {
            out.push(4);
        },
        ExecutionRestartPolicy::Job(JobRestartPolicy::OnFailure(policy)) => {
            out.push(5);
            push_u32(out, policy.max_restarts().get());
            write_backoff(out, policy.backoff());
        },
    }
    assert(out@ =~= old(out)@ + restart_bytes(restart));
}

fn write_service_retry(out: &mut Vec<u8>, policy: ServiceRetryPolicy)
    ensures
        final(out)@ == old(out)@ + service_retry_bytes(policy),
{
    match policy.limit() {
        ServiceRetryLimit::Finite(limit) => {
            out.push(1);
            push_u32(out, limit.get());
        },
        ServiceRetryLimit::Unlimited => {
            out.push(2);
        },
    }
    push_u128(out, policy.reset_after().get().as_nanos());
    write_backoff(out, policy.backoff());
    assert(out@ =~= old(out)@ + service_retry_bytes(policy));
}

fn write_backoff(out: &mut Vec<u8>, backoff: BackoffPolicy)
    ensures
        final(out)@ == old(out)@ + backoff_bytes(backoff),
{
    push_u128(out, backoff.initial().get().as_nanos());
    push_u32(out, backoff.multiplier().get());
    push_u128(out, backoff.maximum().get().as_nanos());
    assert(out@ =~= old(out)@ + backoff_bytes(backoff));
}

fn write_stop(out: &mut Vec<u8>, stop: &StopDefinition)
    ensures
        final(out)@ == old(out)@ + stop_bytes(*stop),
{
    match stop {
        StopDefinition::CtrlBreak { timeout } => {
            out.push(1);
            push_u128(out, timeout.as_nanos());
        },
        StopDefinition::Command { timeout, command } => {
            out.push(2);
            push_u128(out, timeout.as_nanos());
            push_framed_text(out, command.executable());
            write_texts(out, &command.arguments);
        },
        StopDefinition::Kill => {
            out.push(3);
        },
    }
    assert(out@ =~= old(out)@ + stop_bytes(*stop));
}

fn write_logging(out: &mut Vec<u8>, logging: LoggingPolicy)
    ensures
        final(out)@ == old(out)@ + logging_bytes(logging),
{
    match logging {
        LoggingPolicy::Disabled => {
            out.push(1);
        },
        LoggingPolicy::Capture { segment_size, segment_age, retention_size, retention_age } => {
            out.push(2);
            push_u64(out, segment_size);
            push_u128(out, segment_age.as_nanos());
            match retention_size {
                RetentionLimit::Limited(size) => {
                    out.push(1);
                    push_u64(out, size);
                },
                RetentionLimit::Unlimited => {
                    out.push(2);
                },
            }
            match retention_age {
                RetentionDuration::Limited(age) => {
                    out.push(1);
                    push_u128(out, age.as_nanos());
                },
                RetentionDuration::Unlimited => {
                    out.push(2);
                },
            }
        },
    }
    assert(out@ =~= old(out)@ + logging_bytes(logging));
}

} // verus!
