//! Rates from measured amounts and elapsed time, in integer arithmetic.

use vstd::prelude::*;

verus! {

/// Nanoseconds in one second.
pub const NANOS_PER_SECOND: u64 = 1000000000;

/// An amount of work (bytes, operations) done in `nanos` nanoseconds.
#[derive(Clone, Copy, Debug, PartialEq, Eq, Structural)]
pub struct Throughput {
    pub amount: u64,
    pub nanos: u64,
}

/// Work per second, rounded down and capped at `u64::MAX`. No work gives 0,
/// whatever the time; work done in no measurable time gives `u64::MAX`.
pub open spec fn per_second_spec(amount: u64, nanos: u64) -> int {
    if amount == 0 {
        0
    } else if nanos == 0 {
        u64::MAX as int
    } else if (amount * NANOS_PER_SECOND) / (nanos as int) > u64::MAX {
        u64::MAX as int
    } else {
        (amount * NANOS_PER_SECOND) / (nanos as int)
    }
}

impl Throughput {
    /// Work per second, as `per_second_spec` states it.
    pub fn per_second(&self) -> (r: u64)
        ensures
            r == per_second_spec(self.amount, self.nanos),
    {
        if self.amount == 0 {
            return 0;
        }
        if self.nanos == 0 {
            return u64::MAX;
        }
        proof {
            assert(self.amount * NANOS_PER_SECOND <= u64::MAX * NANOS_PER_SECOND) by (
            nonlinear_arith);
        }
        let scaled: u128 = self.amount as u128 * NANOS_PER_SECOND as u128;
        let q: u128 = scaled / self.nanos as u128;
        if q > u64::MAX as u128 {
            u64::MAX
        } else {
            q as u64
        }
    }
}

/// A positive amount gives a positive rate whenever it took no longer than
/// one second per unit.
pub proof fn lemma_rate_positive(amount: u64, nanos: u64)
    requires
        amount > 0,
        nanos <= amount * NANOS_PER_SECOND,
    ensures
        per_second_spec(amount, nanos) > 0,
{
    if nanos > 0 {
        vstd::arithmetic::div_mod::lemma_div_is_ordered(
            nanos as int,
            amount * NANOS_PER_SECOND,
            nanos as int,
        );
        vstd::arithmetic::div_mod::lemma_div_by_self(nanos as int);
    }
}

} // verus!
