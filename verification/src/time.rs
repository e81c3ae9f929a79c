//! Spans of time, instants on the boot clock, and the deadlines built on them.

use vstd::prelude::*;

verus! {

/// Nanoseconds in one second.
pub const NANOS_PER_SEC: u128 = 1_000_000_000;

/// Nanoseconds in one millisecond.
pub const NANOS_PER_MILLI: u128 = 1_000_000;

/// Nanoseconds in one tick of the boot clock.
pub const NANOS_PER_TICK: u128 = 100;

/// The longest span: `u64::MAX` seconds and 999 999 999 nanoseconds.
pub const MAX_DURATION_NANOS: u128 = 18_446_744_073_709_551_615_999_999_999;

/// A span of time in whole nanoseconds, at most `MAX_DURATION_NANOS`.
///
/// The view is the number of nanoseconds.
#[derive(Clone, Copy, Debug, PartialEq, Eq, Structural, Hash, PartialOrd, Ord)]
pub struct Duration {
    nanos: u128,
}

impl Duration {
    #[verifier::type_invariant]
    spec fn in_range(self) -> bool {
        self.nanos <= MAX_DURATION_NANOS
    }

    pub closed spec fn view(&self) -> nat {
        self.nanos as nat
    }

    /// The span of `nanos` nanoseconds, for `nanos` within the longest span.
    pub closed spec fn of(nanos: nat) -> Duration {
        Duration { nanos: nanos as u128 }
    }

    pub broadcast proof fn lemma_view_of(nanos: nat)
        requires
            nanos <= MAX_DURATION_NANOS,
        ensures
            #[trigger] Duration::of(nanos)@ == nanos,
    {
    }

    /// Spans of the same length are equal.
    pub proof fn lemma_view_is_injective(a: Duration, b: Duration)
        ensures
            a@ == b@ ==> a == b,
    {
    }

    /// The span of `nanos` nanoseconds, or `None` where it is longer than the longest.
    pub fn from_nanos(nanos: u128) -> (result: Option<Duration>)
        ensures
            result == if nanos <= MAX_DURATION_NANOS {
                Some(Duration::of(nanos as nat))
            } else {
                None
            },
            result matches Some(duration) ==> duration@ == nanos,
    {
        if nanos <= MAX_DURATION_NANOS {
            Some(Duration { nanos })
        } else {
            None
        }
    }

    pub fn from_millis(millis: u64) -> (duration: Duration)
        ensures
            duration == Duration::of((millis * NANOS_PER_MILLI) as nat),
            duration@ == millis * NANOS_PER_MILLI,
    {
        Duration { nanos: millis as u128 * NANOS_PER_MILLI }
    }

    pub fn from_secs(secs: u64) -> (duration: Duration)
        ensures
            duration == Duration::of((secs * NANOS_PER_SEC) as nat),
            duration@ == secs * NANOS_PER_SEC,
    {
        Duration { nanos: secs as u128 * NANOS_PER_SEC }
    }

    pub fn as_nanos(self) -> (nanos: u128)
        ensures
            nanos == self@,
            nanos <= MAX_DURATION_NANOS,
    {
        proof {
            use_type_invariant(&self);
        }
        self.nanos
    }

    pub fn as_millis(self) -> (millis: u128)
        ensures
            millis == self@ / NANOS_PER_MILLI as nat,
    {
        self.nanos / NANOS_PER_MILLI
    }

    pub fn as_secs(self) -> (secs: u64)
        ensures
            secs == self@ / NANOS_PER_SEC as nat,
    {
        proof {
            use_type_invariant(&self);
        }
        (self.nanos / NANOS_PER_SEC) as u64
    }

    pub fn subsec_nanos(self) -> (nanos: u32)
        ensures
            nanos == self@ % NANOS_PER_SEC as nat,
    {
        (self.nanos % NANOS_PER_SEC) as u32
    }

    pub fn is_zero(self) -> (zero: bool)
        ensures
            zero == (self@ == 0),
    {
        self.nanos == 0
    }

    /// The span taken `factor` times, unless that is longer than the longest span.
    pub fn checked_mul(self, factor: u32) -> (result: Option<Duration>)
        ensures
            result == if self@ * factor <= MAX_DURATION_NANOS {
                Some(Duration::of((self@ * factor) as nat))
            } else {
                None
            },
            result matches Some(product) ==> product@ == self@ * factor,
    {
        proof {
            use_type_invariant(&self);
        }
        assert(self.nanos * factor <= MAX_DURATION_NANOS * 0xffff_ffff) by (nonlinear_arith)
            requires
                self.nanos <= MAX_DURATION_NANOS,
                factor <= 0xffff_ffff,
        ;
        Duration::from_nanos(self.nanos * factor as u128)
    }
}

/// A span of time longer than nothing. The view is its number of nanoseconds.
#[derive(Clone, Copy, Debug, PartialEq, Eq, Structural, Hash, PartialOrd, Ord)]
pub struct NonZeroDuration {
    span: Duration,
}

impl NonZeroDuration {
    #[verifier::type_invariant]
    spec fn non_zero(self) -> bool {
        self.span@ > 0
    }

    pub closed spec fn span(&self) -> Duration {
        self.span
    }

    pub open spec fn view(&self) -> nat {
        self.span()@
    }

    /// The non-zero span that holds `span`.
    pub closed spec fn of(span: Duration) -> NonZeroDuration {
        NonZeroDuration { span }
    }

    pub broadcast proof fn lemma_span_of(span: Duration)
        ensures
            (#[trigger] NonZeroDuration::of(span)).span() == span,
    {
    }

    /// Spans of the same length are equal.
    pub proof fn lemma_view_is_injective(a: NonZeroDuration, b: NonZeroDuration)
        ensures
            a@ == b@ ==> a == b,
    {
        Duration::lemma_view_is_injective(a.span, b.span);
    }

    pub fn new(value: Duration) -> (result: Option<NonZeroDuration>)
        ensures
            result == if value@ == 0 {
                None
            } else {
                Some(NonZeroDuration::of(value))
            },
            result matches Some(made) ==> made.span() == value,
    {
        if value.is_zero() {
            None
        } else {
            Some(NonZeroDuration { span: value })
        }
    }

    pub fn get(self) -> (value: Duration)
        ensures
            value == self.span(),
            value@ == self@,
            value@ > 0,
    {
        proof {
            use_type_invariant(&self);
        }
        self.span
    }
}

/// An instant on the boot clock, in ticks of a hundred nanoseconds.
#[derive(Clone, Copy, Debug, PartialEq, Eq, Structural, Hash, PartialOrd, Ord)]
pub struct BootInstant(pub u64);

/// The ticks that cover a span of `nanos` nanoseconds: a started tick counts whole.
pub open spec fn ticks_covering(nanos: nat) -> nat {
    ((nanos + NANOS_PER_TICK - 1) / NANOS_PER_TICK as int) as nat
}

impl BootInstant {
    pub open spec fn view(&self) -> nat {
        self.0 as nat
    }

    /// The instant `nanos` nanoseconds later, where the clock can show it.
    pub open spec fn plus(self, nanos: nat) -> Option<BootInstant> {
        if self@ + ticks_covering(nanos) <= u64::MAX {
            Some(BootInstant((self@ + ticks_covering(nanos)) as u64))
        } else {
            None
        }
    }

    pub fn from_interrupt_time_100ns(value: u64) -> (instant: BootInstant)
        ensures
            instant@ == value,
    {
        BootInstant(value)
    }

    pub fn as_interrupt_time_100ns(self) -> (value: u64)
        ensures
            value == self@,
    {
        self.0
    }

    /// The instant that lies `duration` later, rounded up to a whole tick.
    pub fn checked_add(self, duration: Duration) -> (result: Option<BootInstant>)
        ensures
            result == self.plus(duration@),
    {
        let whole: u64 = duration.as_secs();
        let nanos: u32 = duration.subsec_nanos();
        let fractional_ticks: u64 = ((nanos + 99) / 100) as u64;
        assert(ticks_covering(duration@) == whole * 10_000_000 + fractional_ticks);
        let whole_ticks: u64 = match whole.checked_mul(10_000_000) {
            Some(ticks) => ticks,
            None => {
                return None;
            },
        };
        let duration_ticks: u64 = match whole_ticks.checked_add(fractional_ticks) {
            Some(ticks) => ticks,
            None => {
                return None;
            },
        };
        match self.0.checked_add(duration_ticks) {
            Some(ticks) => Some(BootInstant(ticks)),
            None => None,
        }
    }
}

/// The instant at which a retry is due.
#[derive(Clone, Copy, Debug, PartialEq, Eq, Structural, Hash, PartialOrd, Ord)]
pub struct RetryDeadline(pub BootInstant);

impl RetryDeadline {
    pub fn at(value: BootInstant) -> (deadline: RetryDeadline)
        ensures
            deadline == RetryDeadline(value),
    {
        RetryDeadline(value)
    }

    pub fn instant(self) -> (value: BootInstant)
        ensures
            self == RetryDeadline(value),
    {
        self.0
    }
}

/// The instant by which a running supervisor must have been found.
#[derive(Clone, Copy, Debug, PartialEq, Eq, Structural, Hash, PartialOrd, Ord)]
pub struct DiscoveryDeadline(pub BootInstant);

impl DiscoveryDeadline {
    pub fn at(value: BootInstant) -> (deadline: DiscoveryDeadline)
        ensures
            deadline == DiscoveryDeadline(value),
    {
        DiscoveryDeadline(value)
    }

    pub fn instant(self) -> (value: BootInstant)
        ensures
            self == DiscoveryDeadline(value),
    {
        self.0
    }
}

/// The instant by which a launched supervisor must have shaken hands.
#[derive(Clone, Copy, Debug, PartialEq, Eq, Structural, Hash, PartialOrd, Ord)]
pub struct HandshakeDeadline(pub BootInstant);

impl HandshakeDeadline {
    pub fn at(value: BootInstant) -> (deadline: HandshakeDeadline)
        ensures
            deadline == HandshakeDeadline(value),
    {
        HandshakeDeadline(value)
    }

    pub fn instant(self) -> (value: BootInstant)
        ensures
            self == HandshakeDeadline(value),
    {
        self.0
    }
}

/// The instant at which a graceful stop turns into a forced one.
#[derive(Clone, Copy, Debug, PartialEq, Eq, Structural, Hash, PartialOrd, Ord)]
pub struct StopDeadline(pub BootInstant);

impl StopDeadline {
    pub fn at(value: BootInstant) -> (deadline: StopDeadline)
        ensures
            deadline == StopDeadline(value),
    {
        StopDeadline(value)
    }

    pub fn instant(self) -> (value: BootInstant)
        ensures
            self == StopDeadline(value),
    {
        self.0
    }
}

/// Adding a longer span never gives an earlier instant, and a span that the clock can
/// show after `start` is shown without loss: the instant lies less than one tick beyond it.
pub proof fn law_deadlines_follow_their_span(start: BootInstant, shorter: nat, longer: nat)
    requires
        shorter <= longer,
        start.plus(longer) is Some,
    ensures
        start.plus(shorter) is Some,
        start@ <= start.plus(shorter)->0@ <= start.plus(longer)->0@,
        longer <= (start.plus(longer)->0@ - start@) * NANOS_PER_TICK < longer + NANOS_PER_TICK,
{
}

} // verus!
