//! Integers that are never zero.

use vstd::prelude::*;

verus! {

/// A `u32` other than zero. The view is its value.
#[derive(Clone, Copy, Debug, PartialEq, Eq, Structural, Hash, PartialOrd, Ord)]
pub struct NonZeroU32 {
    value: u32,
}

impl NonZeroU32 {
    #[verifier::type_invariant]
    spec fn non_zero(self) -> bool {
        self.value != 0
    }

    pub closed spec fn view(&self) -> nat {
        self.value as nat
    }

    /// The value whose view is `n`, for `n` within `u32`.
    pub closed spec fn of(n: nat) -> NonZeroU32 {
        NonZeroU32 { value: n as u32 }
    }

    pub broadcast proof fn lemma_view_of(n: nat)
        requires
            n <= u32::MAX,
        ensures
            #[trigger] NonZeroU32::of(n)@ == n,
    {
    }

    /// A value fits into thirty-two bits.
    pub proof fn lemma_view_bound(self)
        ensures
            self@ <= u32::MAX,
    {
    }

    /// Values with equal views are equal.
    pub proof fn lemma_view_is_injective(a: NonZeroU32, b: NonZeroU32)
        ensures
            a@ == b@ ==> a == b,
    {
    }

    pub fn new(value: u32) -> (result: Option<NonZeroU32>)
        ensures
            result == if value == 0 {
                None
            } else {
                Some(NonZeroU32::of(value as nat))
            },
            result matches Some(made) ==> made@ == value,
    {
        if value == 0 {
            None
        } else {
            Some(NonZeroU32 { value })
        }
    }

    pub fn get(self) -> (value: u32)
        ensures
            value == self@,
            value != 0,
    {
        proof {
            use_type_invariant(&self);
        }
        self.value
    }

    /// The successor, unless it does not fit.
    pub fn next(self) -> (result: Option<NonZeroU32>)
        ensures
            result == if self@ < u32::MAX {
                Some(NonZeroU32::of(self@ + 1))
            } else {
                None
            },
    {
        match self.value.checked_add(1) {
            Some(value) => NonZeroU32::new(value),
            None => None,
        }
    }
}

/// A `u64` other than zero. The view is its value.
#[derive(Clone, Copy, Debug, PartialEq, Eq, Structural, Hash, PartialOrd, Ord)]
pub struct NonZeroU64 {
    value: u64,
}

impl NonZeroU64 {
    #[verifier::type_invariant]
    spec fn non_zero(self) -> bool {
        self.value != 0
    }

    pub closed spec fn view(&self) -> nat {
        self.value as nat
    }

    /// The value whose view is `n`, for `n` within `u64`.
    pub closed spec fn of(n: nat) -> NonZeroU64 {
        NonZeroU64 { value: n as u64 }
    }

    pub broadcast proof fn lemma_view_of(n: nat)
        requires
            n <= u64::MAX,
        ensures
            #[trigger] NonZeroU64::of(n)@ == n,
    {
    }

    /// Values with equal views are equal.
    pub proof fn lemma_view_is_injective(a: NonZeroU64, b: NonZeroU64)
        ensures
            a@ == b@ ==> a == b,
    {
    }

    pub fn new(value: u64) -> (result: Option<NonZeroU64>)
        ensures
            result == if value == 0 {
                None
            } else {
                Some(NonZeroU64::of(value as nat))
            },
            result matches Some(made) ==> made@ == value,
    {
        if value == 0 {
            None
        } else {
            Some(NonZeroU64 { value })
        }
    }

    pub fn get(self) -> (value: u64)
        ensures
            value == self@,
            value != 0,
    {
        proof {
            use_type_invariant(&self);
        }
        self.value
    }

    /// The successor, unless it does not fit.
    pub fn next(self) -> (result: Option<NonZeroU64>)
        ensures
            result == if self@ < u64::MAX {
                Some(NonZeroU64::of(self@ + 1))
            } else {
                None
            },
    {
        match self.value.checked_add(1) {
            Some(value) => NonZeroU64::new(value),
            None => None,
        }
    }
}

} // verus!
