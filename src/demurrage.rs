//! Exponential decay of a stored entry, as of a given block.
use vstd::prelude::*;
use crate::fixed_point::{BalanceType, exp_of, mul_spec, one_bits};

verus! {

pub type BlockNumber = u64;

/// A principal as it stood at `last_update`; its value at a later block is
/// the principal decayed over the blocks in between.
#[derive(Clone, Copy, Debug, PartialEq, Eq, Structural)]
pub struct BalanceEntry {
    /// The balance after the last adjustment.
    pub principal: BalanceType,
    /// The block at which the balance was last adjusted.
    pub last_update: BlockNumber,
}

impl BalanceEntry {
    /// An entry that was never written: zero at block zero.
    pub fn zero() -> (r: BalanceEntry)
        ensures
            r == BalanceEntry::zero_spec(),
    {
        BalanceEntry { principal: BalanceType::zero(), last_update: 0 }
    }

    pub open spec fn zero_spec() -> BalanceEntry {
        BalanceEntry { principal: BalanceType { bits: 0 }, last_update: 0 }
    }
}

/// The blocks between `e`'s last update and `now` fit the range decay is
/// defined on.
pub open spec fn can_decay(e: BalanceEntry, rate: BalanceType, now: BlockNumber) -> bool {
    &&& e.last_update <= now
    &&& now - e.last_update <= u32::MAX
    &&& rate.bits >= 0
}

/// The exponent `-rate * elapsed`, or `None` where it overflows.
pub open spec fn exponent_spec(rate: BalanceType, elapsed: int) -> Option<i128> {
    mul_spec(-rate.bits, elapsed * one_bits())
}

/// `e` decayed to block `now` at `rate` per block: its principal times
/// `exp(-rate * (now - last_update))`, stamped `now`. `None` is an arithmetic
/// overflow, which a sound configuration never reaches.
pub open spec fn decay_spec(e: BalanceEntry, rate: BalanceType, now: BlockNumber) -> Option<BalanceEntry> {
    if e.last_update == now {
        Some(e)
    } else {
        match exponent_spec(rate, now - e.last_update) {
            Some(x) => match exp_of(x) {
                Some(f) => match mul_spec(e.principal.bits as int, f as int) {
                    Some(p) => Some(BalanceEntry { principal: BalanceType { bits: p }, last_update: now }),
                    None => None,
                },
                None => None,
            },
            None => None,
        }
    }
}

/// The value of `e` at block `now`.
pub open spec fn value_at(e: BalanceEntry, rate: BalanceType, now: BlockNumber) -> Option<int> {
    match decay_spec(e, rate, now) {
        Some(d) => Some(d.principal.bits as int),
        None => None,
    }
}

/// Brings `entry` forward to block `now`. An entry already stamped `now` is
/// returned as it is, as `exp(0)` is one.
pub fn apply_demurrage(entry: BalanceEntry, demurrage: BalanceType, now: BlockNumber) -> (r: Option<BalanceEntry>)
    requires
        can_decay(entry, demurrage, now),
    ensures
        r == decay_spec(entry, demurrage, now),
        demurrage.bits == 0 ==> r == Some(BalanceEntry { principal: entry.principal, last_update: now }),
        r is Some && entry.principal.bits >= 0 ==> 0 <= r->0.principal.bits <= entry.principal.bits,
        r is Some && entry.principal.bits < 0 ==> entry.principal.bits <= r->0.principal.bits <= 0,
{
    if entry.last_update == now {
        return Some(entry);
    }
    let elapsed_ticks: u32 = (now - entry.last_update) as u32;
    let elapsed_time = BalanceType::from_u32(elapsed_ticks);
    let negated = BalanceType::from_bits(-demurrage.bits);
    proof {
        if demurrage.bits == 0 {
            assert(0 * (elapsed_ticks as int * one_bits()) == 0);
        }
    }
    let exponent = match negated.checked_mul(elapsed_time) {
        Some(x) => x,
        None => return None,
    };
    proof {
        let r = demurrage.bits as int;
        let n = elapsed_ticks as int;
        assert(-r * (n * one_bits()) == (-r * n) * one_bits()) by (nonlinear_arith);
        assert(((-r * n) * one_bits()) / one_bits() == -r * n) by (nonlinear_arith);
        assert(-r * n <= 0) by (nonlinear_arith)
            requires
                r >= 0,
                n >= 0,
        ;
    }
    let factor = match exponent.exp() {
        Some(f) => f,
        None => return None,
    };
    let product = entry.principal.checked_mul(factor);
    proof {
        let p = entry.principal.bits as int;
        let f = factor.bits as int;
        let one = one_bits();
        if demurrage.bits == 0 {
            assert(f == one);
            assert((p * one) / one == p) by (nonlinear_arith)
                requires
                    one > 0,
            ;
        }
        if p >= 0 {
            assert(0 <= (p * f) / one <= p) by (nonlinear_arith)
                requires
                    p >= 0,
                    0 <= f <= one,
                    one > 0,
            ;
        } else {
            assert(p <= (p * f) / one <= 0) by (nonlinear_arith)
                requires
                    p < 0,
                    0 <= f <= one,
                    one > 0,
            ;
        }
    }
    match product {
        Some(p) => Some(BalanceEntry { principal: p, last_update: now }),
        None => None,
    }
}

} // verus!
