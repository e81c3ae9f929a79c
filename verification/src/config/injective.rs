//! The canonical bytes leave nothing out: different definitions have different bytes.

use vstd::prelude::*;
use vstd::utf8::{encode_utf8, encode_utf8_decode_utf8};

use crate::bytes::{byte_range, le_bytes, law_le_bytes_round_trip, lemma_byte_ranges, framed_text};
use crate::codes::ascending_codes;
use crate::config::canonical::{
    backoff_bytes, codes_bytes, definition_bytes, definitions_bytes, duration_bytes,
    generation_digest_input, kind_byte, list_bytes, logging_bytes, pairs_bytes, process_bytes,
    process_digest_input, restart_bytes, service_retry_bytes, stop_bytes, texts_bytes,
};
use crate::config::model::{
    texts, LoggingPolicy, ProcessView, RetentionDuration, RetentionLimit, StopDefinition,
    WorkloadDefinition,
};
use crate::num::NonZeroU32;
use crate::restart::{
    BackoffPolicy, ExecutionRestartPolicy, JobRestartPolicy, ServiceRestartPolicy,
    ServiceRetryLimit, ServiceRetryPolicy,
};
use crate::time::{Duration, NonZeroDuration};

verus! {

/// Whether the length of a text fits the eight bytes that it is written in.
pub open spec fn text_fits(text: Seq<char>) -> bool {
    encode_utf8(text).len() <= u64::MAX
}

/// Whether the lengths of a list and of its texts fit.
pub open spec fn list_fits(list: Seq<Seq<char>>) -> bool {
    list.len() <= u64::MAX && forall|i: int| 0 <= i < list.len() ==> text_fits(#[trigger] list[i])
}

/// Whether all lengths in a process definition fit.
pub open spec fn process_fits(process: ProcessView) -> bool {
    &&& text_fits(process.executable)
    &&& list_fits(process.arguments)
    &&& text_fits(process.working_directory)
    &&& process.set.len() <= u64::MAX
    &&& forall|i: int|
        0 <= i < process.set.len() ==> text_fits((#[trigger] process.set[i]).0) && text_fits(
            process.set[i].1,
        )
    &&& list_fits(process.unset)
}

proof fn lemma_split(a: Seq<u8>, b: Seq<u8>, x: Seq<u8>, y: Seq<u8>)
    requires
        a + x == b + y,
        a.len() == b.len(),
    ensures
        a == b,
        x == y,
{
    let n = a.len() as int;
    assert((a + x).take(n) =~= a);
    assert((b + y).take(n) =~= b);
    assert((a + x).skip(n) =~= x);
    assert((b + y).skip(n) =~= y);
}

proof fn lemma_group(a: Seq<u8>, b: Seq<u8>, c: Seq<u8>)
    ensures
        (a + b) + c == a + (b + c),
{
    assert((a + b) + c =~= a + (b + c));
}

proof fn lemma_group_six(
    a: Seq<u8>,
    b: Seq<u8>,
    c: Seq<u8>,
    d: Seq<u8>,
    e: Seq<u8>,
    f: Seq<u8>,
    x: Seq<u8>,
)
    ensures
        (a + b + c + d + e + f) + x == a + (b + (c + (d + (e + (f + x))))),
{
    lemma_group(a + b + c + d + e, f, x);
    lemma_group(a + b + c + d, e, f + x);
    lemma_group(a + b + c, d, e + (f + x));
    lemma_group(a + b, c, d + (e + (f + x)));
    lemma_group(a, b, c + (d + (e + (f + x))));
}

proof fn lemma_number_splits(a: nat, b: nat, width: nat, x: Seq<u8>, y: Seq<u8>)
    requires
        a < byte_range(width),
        b < byte_range(width),
        le_bytes(a, width) + x == le_bytes(b, width) + y,
    ensures
        a == b,
        x == y,
{
    law_le_bytes_round_trip(a, width);
    law_le_bytes_round_trip(b, width);
    lemma_split(le_bytes(a, width), le_bytes(b, width), x, y);
}

proof fn lemma_text_splits(a: Seq<char>, b: Seq<char>, x: Seq<u8>, y: Seq<u8>)
    requires
        text_fits(a),
        text_fits(b),
        framed_text(a) + x == framed_text(b) + y,
    ensures
        a == b,
        x == y,
{
    lemma_byte_ranges();
    let p = encode_utf8(a);
    let q = encode_utf8(b);
    assert(framed_text(a) + x =~= le_bytes(p.len(), 8) + (p + x));
    assert(framed_text(b) + y =~= le_bytes(q.len(), 8) + (q + y));
    lemma_number_splits(p.len(), q.len(), 8, p + x, q + y);
    lemma_split(p, q, x, y);
    encode_utf8_decode_utf8(a);
    encode_utf8_decode_utf8(b);
}

proof fn lemma_texts_split(a: Seq<Seq<char>>, b: Seq<Seq<char>>, x: Seq<u8>, y: Seq<u8>)
    requires
        a.len() == b.len(),
        list_fits(a),
        list_fits(b),
        texts_bytes(a) + x == texts_bytes(b) + y,
    ensures
        a == b,
        x == y,
    decreases a.len(),
{
    if a.len() == 0 {
        assert(texts_bytes(a) + x =~= x);
        assert(texts_bytes(b) + y =~= y);
        assert(a =~= b);
    } else {
        let u = framed_text(a.last()) + x;
        let v = framed_text(b.last()) + y;
        assert(texts_bytes(a) + x =~= texts_bytes(a.drop_last()) + u);
        assert(texts_bytes(b) + y =~= texts_bytes(b.drop_last()) + v);
        assert(forall|i: int| 0 <= i < a.drop_last().len() ==> a.drop_last()[i] == a[i]);
        assert(forall|i: int| 0 <= i < b.drop_last().len() ==> b.drop_last()[i] == b[i]);
        lemma_texts_split(a.drop_last(), b.drop_last(), u, v);
        lemma_text_splits(a.last(), b.last(), x, y);
        assert(a =~= a.drop_last().push(a.last()));
        assert(b =~= b.drop_last().push(b.last()));
    }
}

proof fn lemma_list_splits(a: Seq<Seq<char>>, b: Seq<Seq<char>>, x: Seq<u8>, y: Seq<u8>)
    requires
        list_fits(a),
        list_fits(b),
        list_bytes(a) + x == list_bytes(b) + y,
    ensures
        a == b,
        x == y,
{
    lemma_byte_ranges();
    assert(list_bytes(a) + x =~= le_bytes(a.len(), 8) + (texts_bytes(a) + x));
    assert(list_bytes(b) + y =~= le_bytes(b.len(), 8) + (texts_bytes(b) + y));
    lemma_number_splits(a.len(), b.len(), 8, texts_bytes(a) + x, texts_bytes(b) + y);
    lemma_texts_split(a, b, x, y);
}

proof fn lemma_pairs_split(
    a: Seq<(Seq<char>, Seq<char>)>,
    b: Seq<(Seq<char>, Seq<char>)>,
    x: Seq<u8>,
    y: Seq<u8>,
)
    requires
        a.len() == b.len(),
        forall|i: int| 0 <= i < a.len() ==> text_fits((#[trigger] a[i]).0) && text_fits(a[i].1),
        forall|i: int| 0 <= i < b.len() ==> text_fits((#[trigger] b[i]).0) && text_fits(b[i].1),
        pairs_bytes(a) + x == pairs_bytes(b) + y,
    ensures
        a == b,
        x == y,
    decreases a.len(),
{
    if a.len() == 0 {
        assert(pairs_bytes(a) + x =~= x);
        assert(pairs_bytes(b) + y =~= y);
        assert(a =~= b);
    } else {
        let u = framed_text(a.last().0) + (framed_text(a.last().1) + x);
        let v = framed_text(b.last().0) + (framed_text(b.last().1) + y);
        assert(pairs_bytes(a) + x =~= pairs_bytes(a.drop_last()) + u);
        assert(pairs_bytes(b) + y =~= pairs_bytes(b.drop_last()) + v);
        assert(forall|i: int| 0 <= i < a.drop_last().len() ==> a.drop_last()[i] == a[i]);
        assert(forall|i: int| 0 <= i < b.drop_last().len() ==> b.drop_last()[i] == b[i]);
        lemma_pairs_split(a.drop_last(), b.drop_last(), u, v);
        lemma_text_splits(
            a.last().0,
            b.last().0,
            framed_text(a.last().1) + x,
            framed_text(b.last().1) + y,
        );
        lemma_text_splits(a.last().1, b.last().1, x, y);
        assert(a =~= a.drop_last().push(a.last()));
        assert(b =~= b.drop_last().push(b.last()));
    }
}

proof fn lemma_process_splits(a: ProcessView, b: ProcessView, x: Seq<u8>, y: Seq<u8>)
    requires
        process_fits(a),
        process_fits(b),
        process_bytes(a) + x == process_bytes(b) + y,
    ensures
        a == b,
        x == y,
{
    lemma_byte_ranges();
    let a5 = list_bytes(a.unset) + x;
    let b5 = list_bytes(b.unset) + y;
    let a4 = pairs_bytes(a.set) + a5;
    let b4 = pairs_bytes(b.set) + b5;
    let a3 = le_bytes(a.set.len(), 8) + a4;
    let b3 = le_bytes(b.set.len(), 8) + b4;
    let a2 = framed_text(a.working_directory) + a3;
    let b2 = framed_text(b.working_directory) + b3;
    let a1 = list_bytes(a.arguments) + a2;
    let b1 = list_bytes(b.arguments) + b2;
    lemma_group_six(
        framed_text(a.executable),
        list_bytes(a.arguments),
        framed_text(a.working_directory),
        le_bytes(a.set.len(), 8),
        pairs_bytes(a.set),
        list_bytes(a.unset),
        x,
    );
    lemma_group_six(
        framed_text(b.executable),
        list_bytes(b.arguments),
        framed_text(b.working_directory),
        le_bytes(b.set.len(), 8),
        pairs_bytes(b.set),
        list_bytes(b.unset),
        y,
    );
    lemma_text_splits(a.executable, b.executable, a1, b1);
    lemma_list_splits(a.arguments, b.arguments, a2, b2);
    lemma_text_splits(a.working_directory, b.working_directory, a3, b3);
    lemma_number_splits(a.set.len(), b.set.len(), 8, a4, b4);
    lemma_pairs_split(a.set, b.set, a5, b5);
    lemma_list_splits(a.unset, b.unset, x, y);
}

/// Process definitions with the same digest input are the same, so that their digests differ
/// unless SHA-256 collides.
pub proof fn law_process_bytes_are_injective(a: ProcessView, b: ProcessView)
    requires
        process_fits(a),
        process_fits(b),
        process_digest_input(a) == process_digest_input(b),
    ensures
        a == b,
{
    let head = framed_text("susm-process-definition-v1"@);
    lemma_split(head, head, process_bytes(a), process_bytes(b));
    let none = Seq::<u8>::empty();
    assert(process_bytes(a) + none =~= process_bytes(a));
    assert(process_bytes(b) + none =~= process_bytes(b));
    lemma_process_splits(a, b, none, none);
}

/// Spans are written whole: any span fits sixteen bytes.
pub open spec fn span_fits(duration: Duration) -> bool {
    duration@ <= u128::MAX
}

/// Whether a backoff has numbers that fit.
pub open spec fn backoff_fits(backoff: BackoffPolicy) -> bool {
    backoff.initial_delay()@ <= u128::MAX && backoff.factor()@ <= u32::MAX
        && backoff.maximum_delay()@ <= u128::MAX
}

pub open spec fn service_retry_fits(policy: ServiceRetryPolicy) -> bool {
    &&& policy.limit matches ServiceRetryLimit::Finite(limit) ==> limit@ <= u32::MAX
    &&& policy.reset_after@ <= u128::MAX
    &&& backoff_fits(policy.backoff)
}

/// Whether a restart policy has numbers that fit.
pub open spec fn restart_fits(restart: ExecutionRestartPolicy) -> bool {
    match restart {
        ExecutionRestartPolicy::Service(ServiceRestartPolicy::Never) => true,
        ExecutionRestartPolicy::Service(ServiceRestartPolicy::OnFailure(policy)) =>
            service_retry_fits(policy),
        ExecutionRestartPolicy::Service(ServiceRestartPolicy::Always(policy)) =>
            service_retry_fits(policy),
        ExecutionRestartPolicy::Job(JobRestartPolicy::Never) => true,
        ExecutionRestartPolicy::Job(JobRestartPolicy::OnFailure(policy)) => policy.max_restarts@
            <= u32::MAX && backoff_fits(policy.backoff),
    }
}

proof fn lemma_backoff_splits(a: BackoffPolicy, b: BackoffPolicy, x: Seq<u8>, y: Seq<u8>)
    requires
        backoff_fits(a),
        backoff_fits(b),
        backoff_bytes(a) + x == backoff_bytes(b) + y,
    ensures
        a == b,
        x == y,
{
    lemma_byte_ranges();
    let a2 = le_bytes(a.maximum_delay()@, 16) + x;
    let b2 = le_bytes(b.maximum_delay()@, 16) + y;
    let a1 = le_bytes(a.factor()@, 4) + a2;
    let b1 = le_bytes(b.factor()@, 4) + b2;
    assert(backoff_bytes(a) + x =~= le_bytes(a.initial_delay()@, 16) + a1);
    assert(backoff_bytes(b) + y =~= le_bytes(b.initial_delay()@, 16) + b1);
    lemma_number_splits(a.initial_delay()@, b.initial_delay()@, 16, a1, b1);
    lemma_number_splits(a.factor()@, b.factor()@, 4, a2, b2);
    lemma_number_splits(a.maximum_delay()@, b.maximum_delay()@, 16, x, y);
    NonZeroDuration::lemma_view_is_injective(a.initial_delay(), b.initial_delay());
    NonZeroDuration::lemma_view_is_injective(a.maximum_delay(), b.maximum_delay());
    NonZeroU32::lemma_view_is_injective(a.factor(), b.factor());
    BackoffPolicy::lemma_parts_determine(a, b);
}

proof fn lemma_service_retry_splits(
    a: ServiceRetryPolicy,
    b: ServiceRetryPolicy,
    x: Seq<u8>,
    y: Seq<u8>,
)
    requires
        service_retry_fits(a),
        service_retry_fits(b),
        service_retry_bytes(a) + x == service_retry_bytes(b) + y,
    ensures
        a == b,
        x == y,
{
    lemma_byte_ranges();
    let a2 = backoff_bytes(a.backoff) + x;
    let b2 = backoff_bytes(b.backoff) + y;
    let a1 = le_bytes(a.reset_after@, 16) + a2;
    let b1 = le_bytes(b.reset_after@, 16) + b2;
    let whole_a = service_retry_bytes(a) + x;
    let whole_b = service_retry_bytes(b) + y;
    assert(whole_a[0] == if a.limit is Finite {
        1u8
    } else {
        2u8
    });
    assert(whole_b[0] == if b.limit is Finite {
        1u8
    } else {
        2u8
    });
    match (a.limit, b.limit) {
        (ServiceRetryLimit::Finite(p), ServiceRetryLimit::Finite(q)) => {
            assert(whole_a.skip(1) =~= le_bytes(p@, 4) + a1);
            assert(whole_b.skip(1) =~= le_bytes(q@, 4) + b1);
            lemma_number_splits(p@, q@, 4, a1, b1);
            NonZeroU32::lemma_view_is_injective(p, q);
        },
        _ => {
            assert(whole_a.skip(1) =~= a1);
            assert(whole_b.skip(1) =~= b1);
        },
    }
    lemma_number_splits(a.reset_after@, b.reset_after@, 16, a2, b2);
    NonZeroDuration::lemma_view_is_injective(a.reset_after, b.reset_after);
    lemma_backoff_splits(a.backoff, b.backoff, x, y);
}

proof fn lemma_restart_splits(
    a: ExecutionRestartPolicy,
    b: ExecutionRestartPolicy,
    x: Seq<u8>,
    y: Seq<u8>,
)
    requires
        restart_fits(a),
        restart_fits(b),
        restart_bytes(a) + x == restart_bytes(b) + y,
    ensures
        a == b,
        x == y,
{
    lemma_byte_ranges();
    let whole_a = restart_bytes(a) + x;
    let whole_b = restart_bytes(b) + y;
    assert(whole_a[0] == restart_bytes(a)[0]);
    assert(whole_b[0] == restart_bytes(b)[0]);
    match (a, b) {
        (
            ExecutionRestartPolicy::Service(ServiceRestartPolicy::OnFailure(p)),
            ExecutionRestartPolicy::Service(ServiceRestartPolicy::OnFailure(q)),
        ) => {
            assert(whole_a.skip(1) =~= service_retry_bytes(p) + x);
            assert(whole_b.skip(1) =~= service_retry_bytes(q) + y);
            lemma_service_retry_splits(p, q, x, y);
        },
        (
            ExecutionRestartPolicy::Service(ServiceRestartPolicy::Always(p)),
            ExecutionRestartPolicy::Service(ServiceRestartPolicy::Always(q)),
        ) => {
            assert(whole_a.skip(1) =~= service_retry_bytes(p) + x);
            assert(whole_b.skip(1) =~= service_retry_bytes(q) + y);
            lemma_service_retry_splits(p, q, x, y);
        },
        (
            ExecutionRestartPolicy::Job(JobRestartPolicy::OnFailure(p)),
            ExecutionRestartPolicy::Job(JobRestartPolicy::OnFailure(q)),
        ) => {
            let a1 = backoff_bytes(p.backoff) + x;
            let b1 = backoff_bytes(q.backoff) + y;
            assert(whole_a.skip(1) =~= le_bytes(p.max_restarts@, 4) + a1);
            assert(whole_b.skip(1) =~= le_bytes(q.max_restarts@, 4) + b1);
            lemma_number_splits(p.max_restarts@, q.max_restarts@, 4, a1, b1);
            NonZeroU32::lemma_view_is_injective(p.max_restarts, q.max_restarts);
            lemma_backoff_splits(p.backoff, q.backoff, x, y);
        },
        _ => {
            assert(whole_a.skip(1) =~= x);
            assert(whole_b.skip(1) =~= y);
        },
    }
}

/// Whether a stop has lengths that fit.
pub open spec fn stop_fits(stop: StopDefinition) -> bool {
    match stop {
        StopDefinition::CtrlBreak { timeout } => span_fits(timeout),
        StopDefinition::Command { timeout, command } => span_fits(timeout) && text_fits(
            command.executable@,
        ) && list_fits(texts(command.arguments@)),
        StopDefinition::Kill => true,
    }
}

/// Whether two stops say the same.
pub open spec fn same_stop(a: StopDefinition, b: StopDefinition) -> bool {
    match (a, b) {
        (
            StopDefinition::CtrlBreak { timeout: s },
            StopDefinition::CtrlBreak { timeout: t },
        ) => s == t,
        (
            StopDefinition::Command { timeout: s, command: p },
            StopDefinition::Command { timeout: t, command: q },
        ) => s == t && p.executable@ == q.executable@ && texts(p.arguments@) == texts(q.arguments@),
        (StopDefinition::Kill, StopDefinition::Kill) => true,
        _ => false,
    }
}

proof fn lemma_stop_splits(a: StopDefinition, b: StopDefinition, x: Seq<u8>, y: Seq<u8>)
    requires
        stop_fits(a),
        stop_fits(b),
        stop_bytes(a) + x == stop_bytes(b) + y,
    ensures
        same_stop(a, b),
        x == y,
{
    lemma_byte_ranges();
    let whole_a = stop_bytes(a) + x;
    let whole_b = stop_bytes(b) + y;
    assert(whole_a[0] == stop_bytes(a)[0]);
    assert(whole_b[0] == stop_bytes(b)[0]);
    match (a, b) {
        (
            StopDefinition::CtrlBreak { timeout: s },
            StopDefinition::CtrlBreak { timeout: t },
        ) => {
            assert(whole_a.skip(1) =~= le_bytes(s@, 16) + x);
            assert(whole_b.skip(1) =~= le_bytes(t@, 16) + y);
            lemma_number_splits(s@, t@, 16, x, y);
            Duration::lemma_view_is_injective(s, t);
        },
        (
            StopDefinition::Command { timeout: s, command: p },
            StopDefinition::Command { timeout: t, command: q },
        ) => {
            let a2 = list_bytes(texts(p.arguments@)) + x;
            let b2 = list_bytes(texts(q.arguments@)) + y;
            let a1 = framed_text(p.executable@) + a2;
            let b1 = framed_text(q.executable@) + b2;
            assert(whole_a.skip(1) =~= le_bytes(s@, 16) + a1);
            assert(whole_b.skip(1) =~= le_bytes(t@, 16) + b1);
            lemma_number_splits(s@, t@, 16, a1, b1);
            Duration::lemma_view_is_injective(s, t);
            lemma_text_splits(p.executable@, q.executable@, a2, b2);
            lemma_list_splits(texts(p.arguments@), texts(q.arguments@), x, y);
        },
        _ => {
            assert(whole_a.skip(1) =~= x);
            assert(whole_b.skip(1) =~= y);
        },
    }
}

/// Whether a logging policy has spans that fit.
pub open spec fn logging_fits(logging: LoggingPolicy) -> bool {
    logging matches LoggingPolicy::Capture { segment_age, retention_age, .. } ==> {
        &&& span_fits(segment_age)
        &&& retention_age matches RetentionDuration::Limited(age) ==> span_fits(age)
    }
}

proof fn lemma_logging_splits(a: LoggingPolicy, b: LoggingPolicy, x: Seq<u8>, y: Seq<u8>)
    requires
        logging_fits(a),
        logging_fits(b),
        logging_bytes(a) + x == logging_bytes(b) + y,
    ensures
        a == b,
        x == y,
{
    lemma_byte_ranges();
    let whole_a = logging_bytes(a) + x;
    let whole_b = logging_bytes(b) + y;
    assert(whole_a[0] == logging_bytes(a)[0]);
    assert(whole_b[0] == logging_bytes(b)[0]);
    if a is Disabled || b is Disabled {
        assert(whole_a.skip(1) =~= x);
        assert(whole_b.skip(1) =~= y);
    } else {
        let size_a = match a->retention_size {
            RetentionLimit::Limited(size) => seq![1u8] + le_bytes(size as nat, 8),
            RetentionLimit::Unlimited => seq![2u8],
        };
        let size_b = match b->retention_size {
            RetentionLimit::Limited(size) => seq![1u8] + le_bytes(size as nat, 8),
            RetentionLimit::Unlimited => seq![2u8],
        };
        let age_a = match a->retention_age {
            RetentionDuration::Limited(age) => seq![1u8] + duration_bytes(age),
            RetentionDuration::Unlimited => seq![2u8],
        };
        let age_b = match b->retention_age {
            RetentionDuration::Limited(age) => seq![1u8] + duration_bytes(age),
            RetentionDuration::Unlimited => seq![2u8],
        };
        let a3 = age_a + x;
        let b3 = age_b + y;
        let a2 = size_a + a3;
        let b2 = size_b + b3;
        let a1 = le_bytes(a->segment_age@, 16) + a2;
        let b1 = le_bytes(b->segment_age@, 16) + b2;
        lemma_group_six(
            Seq::empty(),
            seq![2u8],
            le_bytes(a->segment_size as nat, 8),
            le_bytes(a->segment_age@, 16),
            size_a,
            age_a,
            x,
        );
        lemma_group_six(
            Seq::empty(),
            seq![2u8],
            le_bytes(b->segment_size as nat, 8),
            le_bytes(b->segment_age@, 16),
            size_b,
            age_b,
            y,
        );
        let p1 = le_bytes(a->segment_size as nat, 8) + a1;
        let q1 = le_bytes(b->segment_size as nat, 8) + b1;
        assert(Seq::<u8>::empty() + seq![2u8] =~= seq![2u8]);
        assert(Seq::<u8>::empty() + (seq![2u8] + p1) =~= seq![2u8] + p1);
        assert(Seq::<u8>::empty() + (seq![2u8] + q1) =~= seq![2u8] + q1);
        lemma_split(seq![2u8], seq![2u8], p1, q1);
        lemma_number_splits(a->segment_size as nat, b->segment_size as nat, 8, a1, b1);
        lemma_number_splits(a->segment_age@, b->segment_age@, 16, a2, b2);
        Duration::lemma_view_is_injective(a->segment_age, b->segment_age);
        assert(a2[0] == size_a[0]);
        assert(b2[0] == size_b[0]);
        match (a->retention_size, b->retention_size) {
            (RetentionLimit::Limited(p), RetentionLimit::Limited(q)) => {
                assert(a2.skip(1) =~= le_bytes(p as nat, 8) + a3);
                assert(b2.skip(1) =~= le_bytes(q as nat, 8) + b3);
                lemma_number_splits(p as nat, q as nat, 8, a3, b3);
            },
            _ => {
                assert(a2.skip(1) =~= a3);
                assert(b2.skip(1) =~= b3);
            },
        }
        assert(a3[0] == age_a[0]);
        assert(b3[0] == age_b[0]);
        match (a->retention_age, b->retention_age) {
            (RetentionDuration::Limited(p), RetentionDuration::Limited(q)) => {
                assert(a3.skip(1) =~= le_bytes(p@, 16) + x);
                assert(b3.skip(1) =~= le_bytes(q@, 16) + y);
                lemma_number_splits(p@, q@, 16, x, y);
                Duration::lemma_view_is_injective(p, q);
            },
            _ => {
                assert(a3.skip(1) =~= x);
                assert(b3.skip(1) =~= y);
            },
        }
    }
}

proof fn lemma_codes_split(a: Seq<u32>, b: Seq<u32>, x: Seq<u8>, y: Seq<u8>)
    requires
        a.len() == b.len(),
        codes_bytes(a) + x == codes_bytes(b) + y,
    ensures
        a == b,
        x == y,
    decreases a.len(),
{
    lemma_byte_ranges();
    if a.len() == 0 {
        assert(codes_bytes(a) + x =~= x);
        assert(codes_bytes(b) + y =~= y);
        assert(a =~= b);
    } else {
        let u = le_bytes(a.last() as nat, 4) + x;
        let v = le_bytes(b.last() as nat, 4) + y;
        assert(codes_bytes(a) + x =~= codes_bytes(a.drop_last()) + u);
        assert(codes_bytes(b) + y =~= codes_bytes(b.drop_last()) + v);
        lemma_codes_split(a.drop_last(), b.drop_last(), u, v);
        lemma_number_splits(a.last() as nat, b.last() as nat, 4, x, y);
        assert(a =~= a.drop_last().push(a.last()));
        assert(b =~= b.drop_last().push(b.last()));
    }
}

/// Whether all lengths and numbers in a definition fit.
pub open spec fn definition_fits(definition: WorkloadDefinition) -> bool {
    &&& process_fits(definition.process@)
    &&& ascending_codes(definition.success_exit_codes@).len() <= u64::MAX
    &&& restart_fits(definition.restart)
    &&& stop_fits(definition.stop)
    &&& logging_fits(definition.logging)
}

/// Whether two definitions say the same of a workload, its name aside.
pub open spec fn same_definition(a: WorkloadDefinition, b: WorkloadDefinition) -> bool {
    &&& a.kind == b.kind
    &&& a.process@ == b.process@
    &&& ascending_codes(a.success_exit_codes@) == ascending_codes(b.success_exit_codes@)
    &&& a.restart == b.restart
    &&& same_stop(a.stop, b.stop)
    &&& a.logging == b.logging
}

proof fn lemma_definition_grouped(a: WorkloadDefinition, x: Seq<u8>)
    ensures
        ({
            let codes = ascending_codes(a.success_exit_codes@);
            definition_bytes(a) + x == seq![kind_byte(a.kind)] + (process_bytes(a.process@) + (
            le_bytes(codes.len(), 8) + (codes_bytes(codes) + (restart_bytes(a.restart) + (
            stop_bytes(a.stop) + (logging_bytes(a.logging) + x))))))
        }),
{
    let codes = ascending_codes(a.success_exit_codes@);
    let kind = seq![kind_byte(a.kind)];
    let process = process_bytes(a.process@);
    let count = le_bytes(codes.len(), 8);
    let list = codes_bytes(codes);
    let restart = restart_bytes(a.restart);
    let stop = stop_bytes(a.stop);
    let logging = logging_bytes(a.logging);
    lemma_group(kind + process + count + list + restart + stop, logging, x);
    lemma_group_six(kind, process, count, list, restart, stop, logging + x);
}

proof fn lemma_definition_splits(
    a: WorkloadDefinition,
    b: WorkloadDefinition,
    x: Seq<u8>,
    y: Seq<u8>,
)
    requires
        definition_fits(a),
        definition_fits(b),
        definition_bytes(a) + x == definition_bytes(b) + y,
    ensures
        same_definition(a, b),
        x == y,
{
    lemma_byte_ranges();
    let p = ascending_codes(a.success_exit_codes@);
    let q = ascending_codes(b.success_exit_codes@);
    let a5 = logging_bytes(a.logging) + x;
    let b5 = logging_bytes(b.logging) + y;
    let a4 = stop_bytes(a.stop) + a5;
    let b4 = stop_bytes(b.stop) + b5;
    let a3 = restart_bytes(a.restart) + a4;
    let b3 = restart_bytes(b.restart) + b4;
    let a2 = codes_bytes(p) + a3;
    let b2 = codes_bytes(q) + b3;
    let a1 = le_bytes(p.len(), 8) + a2;
    let b1 = le_bytes(q.len(), 8) + b2;
    let a0 = process_bytes(a.process@) + a1;
    let b0 = process_bytes(b.process@) + b1;
    lemma_definition_grouped(a, x);
    lemma_definition_grouped(b, y);
    lemma_split(seq![kind_byte(a.kind)], seq![kind_byte(b.kind)], a0, b0);
    assert(seq![kind_byte(a.kind)][0] == seq![kind_byte(b.kind)][0]);
    lemma_process_splits(a.process@, b.process@, a1, b1);
    lemma_number_splits(p.len(), q.len(), 8, a2, b2);
    lemma_codes_split(p, q, a3, b3);
    lemma_restart_splits(a.restart, b.restart, a4, b4);
    lemma_stop_splits(a.stop, b.stop, a5, b5);
    lemma_logging_splits(a.logging, b.logging, x, y);
}

proof fn lemma_definitions_split(
    a: Seq<(Seq<char>, WorkloadDefinition)>,
    b: Seq<(Seq<char>, WorkloadDefinition)>,
    x: Seq<u8>,
    y: Seq<u8>,
)
    requires
        a.len() == b.len(),
        forall|i: int|
            0 <= i < a.len() ==> text_fits((#[trigger] a[i]).0) && definition_fits(a[i].1),
        forall|i: int|
            0 <= i < b.len() ==> text_fits((#[trigger] b[i]).0) && definition_fits(b[i].1),
        definitions_bytes(a) + x == definitions_bytes(b) + y,
    ensures
        forall|i: int|
            0 <= i < a.len() ==> (#[trigger] a[i]).0 == b[i].0 && same_definition(a[i].1, b[i].1),
        x == y,
    decreases a.len(),
{
    if a.len() == 0 {
        assert(definitions_bytes(a) + x =~= x);
        assert(definitions_bytes(b) + y =~= y);
    } else {
        let u = framed_text(a.last().0) + (definition_bytes(a.last().1) + x);
        let v = framed_text(b.last().0) + (definition_bytes(b.last().1) + y);
        let a0 = a.drop_last();
        let b0 = b.drop_last();
        lemma_group(
            definitions_bytes(a0) + framed_text(a.last().0),
            definition_bytes(a.last().1),
            x,
        );
        lemma_group(
            definitions_bytes(a0),
            framed_text(a.last().0),
            definition_bytes(a.last().1) + x,
        );
        lemma_group(
            definitions_bytes(b0) + framed_text(b.last().0),
            definition_bytes(b.last().1),
            y,
        );
        lemma_group(
            definitions_bytes(b0),
            framed_text(b.last().0),
            definition_bytes(b.last().1) + y,
        );
        assert(forall|i: int| 0 <= i < a0.len() ==> a0[i] == a[i]);
        assert(forall|i: int| 0 <= i < b0.len() ==> b0[i] == b[i]);
        lemma_definitions_split(a0, b0, u, v);
        lemma_text_splits(
            a.last().0,
            b.last().0,
            definition_bytes(a.last().1) + x,
            definition_bytes(b.last().1) + y,
        );
        lemma_definition_splits(a.last().1, b.last().1, x, y);
        assert forall|i: int| 0 <= i < a.len() implies (#[trigger] a[i]).0 == b[i].0
            && same_definition(a[i].1, b[i].1) by {
            if i < a0.len() {
                assert(a0[i].0 == b0[i].0);
            }
        }
    }
}

/// Configurations with the same digest input hold the same workloads with the same
/// definitions, so that their generations differ unless SHA-256 collides.
pub proof fn law_generation_bytes_are_injective(
    a: Seq<(Seq<char>, WorkloadDefinition)>,
    b: Seq<(Seq<char>, WorkloadDefinition)>,
)
    requires
        a.len() <= u64::MAX,
        b.len() <= u64::MAX,
        forall|i: int|
            0 <= i < a.len() ==> text_fits((#[trigger] a[i]).0) && definition_fits(a[i].1),
        forall|i: int|
            0 <= i < b.len() ==> text_fits((#[trigger] b[i]).0) && definition_fits(b[i].1),
        generation_digest_input(a) == generation_digest_input(b),
    ensures
        a.len() == b.len(),
        forall|i: int|
            0 <= i < a.len() ==> (#[trigger] a[i]).0 == b[i].0 && same_definition(a[i].1, b[i].1),
{
    lemma_byte_ranges();
    let head = framed_text("susm-config-generation-v1"@);
    let x = le_bytes(a.len(), 8) + definitions_bytes(a);
    let y = le_bytes(b.len(), 8) + definitions_bytes(b);
    assert(generation_digest_input(a) =~= head + x);
    assert(generation_digest_input(b) =~= head + y);
    lemma_split(head, head, x, y);
    lemma_number_splits(
        a.len(),
        b.len(),
        8,
        definitions_bytes(a),
        definitions_bytes(b),
    );
    let none = Seq::<u8>::empty();
    assert(definitions_bytes(a) + none =~= definitions_bytes(a));
    assert(definitions_bytes(b) + none =~= definitions_bytes(b));
    lemma_definitions_split(a, b, none, none);
}

} // verus!
