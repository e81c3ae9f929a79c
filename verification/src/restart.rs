//! Restart policies: how often, how soon and after what an attempt is repeated.

use vstd::prelude::*;
use vstd::arithmetic::power::pow;
use vstd::arithmetic::power::{lemma1_pow, lemma_pow0, lemma_pow_increases, lemma_pow_positive};

use crate::num::NonZeroU32;
use crate::time::{Duration, NonZeroDuration};
use crate::time::{NANOS_PER_MILLI, NANOS_PER_SEC};

verus! {

/// How many restarts in a row a service is granted by default.
pub const DEFAULT_SERVICE_MAX_RESTARTS: u32 = 10;

/// Seconds that a service must run, by default, before its restarts are forgotten.
pub const DEFAULT_SERVICE_RESET_AFTER_SECS: u64 = 300;

/// Milliseconds before the first restart, by default.
pub const DEFAULT_BACKOFF_INITIAL_MILLIS: u64 = 250;

/// The factor between two delays, by default.
pub const DEFAULT_BACKOFF_MULTIPLIER: u32 = 2;

/// Seconds that no delay exceeds, by default.
pub const DEFAULT_BACKOFF_MAXIMUM_SECS: u64 = 30;

/// The place of a retry in a row of retries, counted from one.
#[derive(Clone, Copy, Debug, PartialEq, Eq, Structural, Hash, PartialOrd, Ord)]
pub struct RetryOrdinal(pub NonZeroU32);

impl RetryOrdinal {
    pub open spec fn view(&self) -> nat {
        self.0@
    }

    /// The ordinal whose view is `n`.
    pub open spec fn of(n: nat) -> RetryOrdinal {
        RetryOrdinal(NonZeroU32::of(n))
    }

    /// The ordinal of the first retry.
    pub fn first() -> (ordinal: RetryOrdinal)
        ensures
            ordinal == RetryOrdinal::of(1),
            ordinal@ == 1,
    {
        RetryOrdinal(NonZeroU32::new(1).unwrap())
    }

    pub fn new(value: u32) -> (result: Option<RetryOrdinal>)
        ensures
            result == if value == 0 {
                None
            } else {
                Some(RetryOrdinal::of(value as nat))
            },
            result matches Some(made) ==> made@ == value,
    {
        match NonZeroU32::new(value) {
            Some(value) => Some(RetryOrdinal(value)),
            None => None,
        }
    }

    pub fn get(self) -> (value: u32)
        ensures
            value == self@,
            value != 0,
    {
        self.0.get()
    }

    /// The ordinal of the retry after this one, unless it does not fit.
    pub fn next(self) -> (result: Option<RetryOrdinal>)
        ensures
            result == if self@ < u32::MAX {
                Some(RetryOrdinal::of(self@ + 1))
            } else {
                None
            },
    {
        match self.0.next() {
            Some(value) => Some(RetryOrdinal(value)),
            None => None,
        }
    }
}

/// Exponential backoff: each delay is the one before it times `multiplier`, from `initial`
/// up to `maximum`.
#[derive(Clone, Copy, Debug, PartialEq, Eq, Structural, Hash)]
pub struct BackoffPolicy {
    initial: NonZeroDuration,
    multiplier: NonZeroU32,
    maximum: NonZeroDuration,
}

#[derive(Clone, Copy, Debug, PartialEq, Eq, Structural)]
pub enum InvalidBackoffPolicy {
    MaximumLessThanInitial,
}

impl InvalidBackoffPolicy {
    pub open spec fn text(self) -> Seq<char> {
        match self {
            InvalidBackoffPolicy::MaximumLessThanInitial =>
                "maximum backoff is less than initial backoff"@,
        }
    }

    pub fn message(&self) -> (message: String)
        ensures
            message@ == self.text(),
    {
        match self {
            InvalidBackoffPolicy::MaximumLessThanInitial =>
                "maximum backoff is less than initial backoff".to_owned(),
        }
    }
}

/// Nanoseconds before retry number `retry`: `initial` times `multiplier` to the number of
/// retries before it, capped at `maximum`.
pub open spec fn backoff_nanos(initial: nat, multiplier: nat, maximum: nat, retry: nat) -> nat
    recommends
        retry > 0,
{
    let uncapped = initial * pow(multiplier as int, (retry - 1) as nat);
    if uncapped < maximum {
        uncapped as nat
    } else {
        maximum
    }
}

impl BackoffPolicy {
    #[verifier::type_invariant]
    spec fn ordered(self) -> bool {
        self.initial@ <= self.maximum@
    }

    pub closed spec fn initial_delay(self) -> NonZeroDuration {
        self.initial
    }

    pub closed spec fn factor(self) -> NonZeroU32 {
        self.multiplier
    }

    pub closed spec fn maximum_delay(self) -> NonZeroDuration {
        self.maximum
    }

    /// The policy with the given parts.
    pub closed spec fn of(
        initial: NonZeroDuration,
        multiplier: NonZeroU32,
        maximum: NonZeroDuration,
    ) -> BackoffPolicy {
        BackoffPolicy { initial, multiplier, maximum }
    }

    pub broadcast proof fn lemma_parts_of(
        initial: NonZeroDuration,
        multiplier: NonZeroU32,
        maximum: NonZeroDuration,
    )
        ensures
            ({
                let policy = #[trigger] BackoffPolicy::of(initial, multiplier, maximum);
                &&& policy.initial_delay() == initial
                &&& policy.factor() == multiplier
                &&& policy.maximum_delay() == maximum
            }),
    {
    }

    /// A policy is its three parts.
    pub proof fn lemma_parts_determine(a: BackoffPolicy, b: BackoffPolicy)
        ensures
            a.initial_delay() == b.initial_delay() && a.factor() == b.factor()
                && a.maximum_delay() == b.maximum_delay() ==> a == b,
    {
    }

    /// Nanoseconds before retry number `retry`.
    pub open spec fn delay_nanos(self, retry: nat) -> nat {
        backoff_nanos(self.initial_delay()@, self.factor()@, self.maximum_delay()@, retry)
    }

    pub fn new(
        initial: NonZeroDuration,
        multiplier: NonZeroU32,
        maximum: NonZeroDuration,
    ) -> (result: Result<BackoffPolicy, InvalidBackoffPolicy>)
        ensures
            result == if maximum@ < initial@ {
                Err(InvalidBackoffPolicy::MaximumLessThanInitial)
            } else {
                Ok(BackoffPolicy::of(initial, multiplier, maximum))
            },
    {
        if maximum.get().as_nanos() < initial.get().as_nanos() {
            return Err(InvalidBackoffPolicy::MaximumLessThanInitial);
        }
        Ok(BackoffPolicy { initial, multiplier, maximum })
    }

    pub fn initial(self) -> (initial: NonZeroDuration)
        ensures
            initial == self.initial_delay(),
            initial@ <= self.maximum_delay()@,
    {
        proof {
            use_type_invariant(&self);
        }
        self.initial
    }

    pub fn multiplier(self) -> (multiplier: NonZeroU32)
        ensures
            multiplier == self.factor(),
    {
        self.multiplier
    }

    pub fn maximum(self) -> (maximum: NonZeroDuration)
        ensures
            maximum == self.maximum_delay(),
            self.initial_delay()@ <= maximum@,
    {
        proof {
            use_type_invariant(&self);
        }
        self.maximum
    }

    /// The delay before the given retry.
    pub fn delay_for(self, retry: RetryOrdinal) -> (delay: Duration)
        ensures
            delay@ == self.delay_nanos(retry@),
            self.initial_delay()@ <= delay@ <= self.maximum_delay()@,
    {
        proof {
            use_type_invariant(&self);
        }
        let maximum: Duration = self.maximum.get();
        let multiplier: u32 = self.multiplier.get();
        let initial: Duration = self.initial.get();
        let mut delay: Duration = initial;
        let total: u32 = retry.get();
        proof {
            lemma_pow_positive(multiplier as int, (total - 1) as nat);
            lemma_pow0(multiplier as int);
        }
        if multiplier == 1 || delay.as_nanos() == maximum.as_nanos() {
            proof {
                if multiplier == 1 {
                    lemma1_pow((total - 1) as nat);
                } else {
                    let growth = pow(multiplier as int, (total - 1) as nat);
                    assert(initial@ * growth >= initial@) by (nonlinear_arith)
                        requires
                            growth >= 1,
                            initial@ >= 0,
                    ;
                }
            }
            return delay;
        }
        let mut done: u32 = 1;
        while done < total
            invariant
                1 <= done <= total,
                total == retry@,
                multiplier == self.multiplier@,
                multiplier > 1,
                initial@ == self.initial@,
                maximum@ == self.maximum@,
                initial@ <= delay@ < maximum@,
                delay@ == initial@ * pow(multiplier as int, (done - 1) as nat),
            decreases total - done,
        {
            proof {
                let before = pow(multiplier as int, (done - 1) as nat);
                assert(pow(multiplier as int, done as nat) == multiplier * before) by {
                    reveal(pow);
                }
                assert(initial@ * (multiplier * before) == (initial@ * before) * multiplier)
                    by (nonlinear_arith);
                lemma_pow_increases(multiplier as nat, done as nat, (total - 1) as nat);
                let now = pow(multiplier as int, done as nat);
                let last = pow(multiplier as int, (total - 1) as nat);
                assert(initial@ * now <= initial@ * last) by (nonlinear_arith)
                    requires
                        now <= last,
                ;
                assert(delay@ * multiplier >= delay@) by (nonlinear_arith)
                    requires
                        multiplier > 1,
                        delay@ >= 0,
                ;
            }
            let longest: u128 = maximum.as_nanos();
            delay = match delay.checked_mul(multiplier) {
                Some(next) => {
                    if next.as_nanos() < longest {
                        next
                    } else {
                        return maximum;
                    }
                },
                None => {
                    return maximum;
                },
            };
            done = done + 1;
        }
        delay
    }
}

impl Default for BackoffPolicy {
    /// A quarter of a second, doubled each time up to half a minute.
    fn default() -> (policy: BackoffPolicy)
        ensures
            policy.initial_delay()@ == DEFAULT_BACKOFF_INITIAL_MILLIS * NANOS_PER_MILLI,
            policy.factor()@ == DEFAULT_BACKOFF_MULTIPLIER,
            policy.maximum_delay()@ == DEFAULT_BACKOFF_MAXIMUM_SECS * NANOS_PER_SEC,
    {
        BackoffPolicy {
            initial: NonZeroDuration::new(
                Duration::from_millis(DEFAULT_BACKOFF_INITIAL_MILLIS),
            ).unwrap(),
            multiplier: NonZeroU32::new(DEFAULT_BACKOFF_MULTIPLIER).unwrap(),
            maximum: NonZeroDuration::new(
                Duration::from_secs(DEFAULT_BACKOFF_MAXIMUM_SECS),
            ).unwrap(),
        }
    }
}

/// How many retries in a row a service is granted.
#[derive(Clone, Copy, Debug, PartialEq, Eq, Structural, Hash)]
pub enum ServiceRetryLimit {
    Finite(NonZeroU32),
    Unlimited,
}

impl ServiceRetryLimit {
    /// Whether retry number `retry` lies within the limit.
    pub open spec fn admits(self, retry: nat) -> bool {
        match self {
            ServiceRetryLimit::Finite(maximum) => retry <= maximum@,
            ServiceRetryLimit::Unlimited => true,
        }
    }
}

#[derive(Clone, Copy, Debug, PartialEq, Eq, Structural, Hash)]
pub struct ServiceRetryPolicy {
    pub limit: ServiceRetryLimit,
    pub reset_after: NonZeroDuration,
    pub backoff: BackoffPolicy,
}

impl ServiceRetryPolicy {
    pub fn new(
        limit: ServiceRetryLimit,
        reset_after: NonZeroDuration,
        backoff: BackoffPolicy,
    ) -> (policy: ServiceRetryPolicy)
        ensures
            policy == (ServiceRetryPolicy { limit, reset_after, backoff }),
    {
        ServiceRetryPolicy { limit, reset_after, backoff }
    }

    pub fn limit(self) -> (limit: ServiceRetryLimit)
        ensures
            limit == self.limit,
    {
        self.limit
    }

    pub fn reset_after(self) -> (reset_after: NonZeroDuration)
        ensures
            reset_after == self.reset_after,
    {
        self.reset_after
    }

    pub fn backoff(self) -> (backoff: BackoffPolicy)
        ensures
            backoff == self.backoff,
    {
        self.backoff
    }
}

impl Default for ServiceRetryPolicy {
    /// Ten restarts in a row, forgotten after five minutes, with the default backoff.
    fn default() -> (policy: ServiceRetryPolicy)
        ensures
            policy.limit matches ServiceRetryLimit::Finite(maximum) && maximum@
                == DEFAULT_SERVICE_MAX_RESTARTS,
            policy.reset_after@ == DEFAULT_SERVICE_RESET_AFTER_SECS * NANOS_PER_SEC,
            policy.backoff.initial_delay()@ == DEFAULT_BACKOFF_INITIAL_MILLIS * NANOS_PER_MILLI,
            policy.backoff.factor()@ == DEFAULT_BACKOFF_MULTIPLIER,
            policy.backoff.maximum_delay()@ == DEFAULT_BACKOFF_MAXIMUM_SECS * NANOS_PER_SEC,
    {
        ServiceRetryPolicy {
            limit: ServiceRetryLimit::Finite(
                NonZeroU32::new(DEFAULT_SERVICE_MAX_RESTARTS).unwrap(),
            ),
            reset_after: NonZeroDuration::new(
                Duration::from_secs(DEFAULT_SERVICE_RESET_AFTER_SECS),
            ).unwrap(),
            backoff: BackoffPolicy::default(),
        }
    }
}

#[derive(Clone, Copy, Debug, PartialEq, Eq, Structural, Hash)]
pub enum ServiceRestartPolicy {
    Never,
    OnFailure(ServiceRetryPolicy),
    Always(ServiceRetryPolicy),
}

impl Default for ServiceRestartPolicy {
    /// Restart on failure, with the default retry policy.
    fn default() -> (policy: ServiceRestartPolicy)
        ensures
            policy matches ServiceRestartPolicy::OnFailure(retry) && {
                &&& retry.limit matches ServiceRetryLimit::Finite(maximum) && maximum@
                    == DEFAULT_SERVICE_MAX_RESTARTS
                &&& retry.reset_after@ == DEFAULT_SERVICE_RESET_AFTER_SECS * NANOS_PER_SEC
                &&& retry.backoff.initial_delay()@ == DEFAULT_BACKOFF_INITIAL_MILLIS
                    * NANOS_PER_MILLI
                &&& retry.backoff.factor()@ == DEFAULT_BACKOFF_MULTIPLIER
                &&& retry.backoff.maximum_delay()@ == DEFAULT_BACKOFF_MAXIMUM_SECS * NANOS_PER_SEC
            },
    {
        ServiceRestartPolicy::OnFailure(ServiceRetryPolicy::default())
    }
}

#[derive(Clone, Copy, Debug, PartialEq, Eq, Structural, Hash)]
pub struct JobRetryPolicy {
    pub max_restarts: NonZeroU32,
    pub backoff: BackoffPolicy,
}

impl JobRetryPolicy {
    pub fn new(max_restarts: NonZeroU32, backoff: BackoffPolicy) -> (policy: JobRetryPolicy)
        ensures
            policy == (JobRetryPolicy { max_restarts, backoff }),
    {
        JobRetryPolicy { max_restarts, backoff }
    }

    pub fn max_restarts(self) -> (max_restarts: NonZeroU32)
        ensures
            max_restarts == self.max_restarts,
    {
        self.max_restarts
    }

    pub fn backoff(self) -> (backoff: BackoffPolicy)
        ensures
            backoff == self.backoff,
    {
        self.backoff
    }
}

#[derive(Clone, Copy, Debug, PartialEq, Eq, Structural, Hash)]
pub enum JobRestartPolicy {
    Never,
    OnFailure(JobRetryPolicy),
}

impl Default for JobRestartPolicy {
    /// A job is not restarted unless its definition says so.
    fn default() -> (policy: JobRestartPolicy)
        ensures
            policy == JobRestartPolicy::Never,
    {
        JobRestartPolicy::Never
    }
}

#[derive(Clone, Copy, Debug, PartialEq, Eq, Structural, Hash)]
pub enum ExecutionRestartPolicy {
    Service(ServiceRestartPolicy),
    Job(JobRestartPolicy),
}

/// Delays never shrink from one retry to a later one.
pub proof fn law_backoff_is_monotone(
    initial: nat,
    multiplier: nat,
    maximum: nat,
    earlier: nat,
    later: nat,
)
    requires
        multiplier > 0,
        0 < earlier <= later,
    ensures
        backoff_nanos(initial, multiplier, maximum, earlier) <= backoff_nanos(
            initial,
            multiplier,
            maximum,
            later,
        ),
{
    lemma_pow_positive(multiplier as int, (earlier - 1) as nat);
    lemma_pow_increases(multiplier, (earlier - 1) as nat, (later - 1) as nat);
    let short = pow(multiplier as int, (earlier - 1) as nat);
    let long = pow(multiplier as int, (later - 1) as nat);
    assert(initial * short <= initial * long) by (nonlinear_arith)
        requires
            short <= long,
    ;
}

/// The first retry waits for the initial delay, and every retry waits at least that long
/// and at most for the maximum.
pub proof fn law_backoff_stays_in_bounds(
    initial: nat,
    multiplier: nat,
    maximum: nat,
    retry: nat,
)
    requires
        multiplier > 0,
        initial <= maximum,
        retry > 0,
    ensures
        backoff_nanos(initial, multiplier, maximum, 1) == initial,
        initial <= backoff_nanos(initial, multiplier, maximum, retry) <= maximum,
{
    lemma_pow0(multiplier as int);
    lemma_pow_positive(multiplier as int, (retry - 1) as nat);
    let growth = pow(multiplier as int, (retry - 1) as nat);
    assert(initial * growth >= initial) by (nonlinear_arith)
        requires
            growth >= 1,
            initial >= 0,
    ;
}

} // verus!
