//! The host around the ledger: the current block and each currency's
//! demurrage rate.
use vstd::prelude::*;
use crate::demurrage::BlockNumber;
use crate::fixed_point::BalanceType;

verus! {

/// An opaque currency id, compared for equality only.
pub type CurrencyIdentifier = u64;

/// A currency's registered properties.
#[derive(Clone, Copy, Debug, PartialEq, Eq, Structural)]
pub struct CurrencyProperties {
    pub currency_id: CurrencyIdentifier,
    /// The decay rate per block, `ln(2) / H` for a half-life of `H` blocks.
    pub demurrage_per_block: BalanceType,
}

/// The rate of `c` among `regs`: the last registration of `c` wins, and a
/// currency never registered does not decay.
pub open spec fn rate_in(regs: Seq<CurrencyProperties>, c: CurrencyIdentifier) -> BalanceType
    decreases regs.len(),
{
    if regs.len() == 0 {
        BalanceType { bits: 0 }
    } else if regs.last().currency_id == c {
        regs.last().demurrage_per_block
    } else {
        rate_in(regs.drop_last(), c)
    }
}

/// The block clock and the currency registry.
pub struct Runtime {
    pub block_number: BlockNumber,
    pub currencies: Vec<CurrencyProperties>,
}

impl Runtime {
    /// Every registered rate is non-negative.
    pub open spec fn wf(&self) -> bool {
        forall|i: int| 0 <= i < self.currencies@.len() ==> self.currencies@[i].demurrage_per_block.bits >= 0
    }

    pub open spec fn rate_of(&self, c: CurrencyIdentifier) -> BalanceType {
        rate_in(self.currencies@, c)
    }

    /// Block zero, no currency registered.
    pub fn new() -> (r: Runtime)
        ensures
            r.wf(),
            r.block_number == 0,
            r.currencies@ == Seq::<CurrencyProperties>::empty(),
    {
        Runtime { block_number: 0, currencies: Vec::new() }
    }

    pub fn set_block_number(&mut self, n: BlockNumber)
        ensures
            final(self).block_number == n,
            final(self).currencies == old(self).currencies,
    {
        self.block_number = n;
    }

    /// Registers (or re-registers) `c` with a decay rate per block.
    pub fn register_currency(&mut self, c: CurrencyIdentifier, demurrage_per_block: BalanceType)
        requires
            old(self).wf(),
            demurrage_per_block.bits >= 0,
        ensures
            final(self).wf(),
            final(self).block_number == old(self).block_number,
            final(self).rate_of(c) == demurrage_per_block,
            forall|d: CurrencyIdentifier| d != c ==> final(self).rate_of(d) == old(self).rate_of(d),
    {
        let props = CurrencyProperties { currency_id: c, demurrage_per_block };
        self.currencies.push(props);
        proof {
            assert(self.currencies@.drop_last() == old(self).currencies@);
        }
    }

    /// The decay rate of `c`.
    pub fn demurrage_of(&self, c: CurrencyIdentifier) -> (r: BalanceType)
        requires
            self.wf(),
        ensures
            r == self.rate_of(c),
            r.bits >= 0,
    {
        let mut i: usize = self.currencies.len();
        proof {
            assert(self.currencies@.take(i as int) == self.currencies@);
        }
        while i > 0
            invariant
                self.wf(),
                i <= self.currencies@.len(),
                rate_in(self.currencies@, c) == rate_in(self.currencies@.take(i as int), c),
            decreases i,
        {
            proof {
                assert(self.currencies@.take(i as int).drop_last() == self.currencies@.take(i - 1));
            }
            if self.currencies[i - 1].currency_id == c {
                return self.currencies[i - 1].demurrage_per_block;
            }
            i = i - 1;
        }
        proof {
            assert(self.currencies@.take(0) == Seq::<CurrencyProperties>::empty());
        }
        BalanceType::zero()
    }
}

} // verus!
