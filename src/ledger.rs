//! The ledger's state transitions. Each decays the entries it touches to the
//! current block, checks, and only then writes.
use vstd::prelude::*;
use crate::demurrage::{BalanceEntry, apply_demurrage, decay_spec};
use crate::fixed_point::{BalanceType, in_i128};
use crate::runtime::{CurrencyIdentifier, Runtime};
use crate::store::{AccountId, BalanceRecord, Module, balance_written, or_zero};

verus! {

#[derive(Clone, Copy, Debug, PartialEq, Eq, Structural)]
pub enum Error {
    /// The decayed balance is below the amount.
    BalanceTooLow,
    /// Total issuance would leave the representable range. From `issue` this
    /// is the ordinary refusal. From `burn` or `slash` it means total issuance
    /// has fallen below what one account holds, which conservation rules out;
    /// the arithmetic is checked all the same rather than left to wrap.
    TotalIssuanceOverflow,
    /// The credited balance would leave the representable range. While
    /// balances sum to total issuance, which `issue` keeps in range, no single
    /// balance can get there; only a state that breaks conservation (written
    /// directly through the store) reaches it, and it is then refused, not
    /// wrapped.
    BalanceOverflow,
    /// A signed amount's magnitude is not representable as a balance.
    AmountIntoBalanceFailed,
    /// Decay itself overflowed: the configured rate and the elapsed blocks
    /// are out of bounds. This is the fatal case of a broken configuration;
    /// the whole operation is abandoned and nothing is written, whichever
    /// entry it was decaying.
    DemurrageOverflow,
}

/// Notification of a successful transfer: currency, from, to, amount.
#[derive(Clone, Copy, Debug, PartialEq, Eq, Structural)]
pub enum Event {
    Transferred(CurrencyIdentifier, AccountId, AccountId, BalanceType),
}

/// `e` with `d` added to its principal.
pub open spec fn plus(e: BalanceEntry, d: int) -> BalanceEntry {
    BalanceEntry { principal: BalanceType { bits: (e.principal.bits + d) as i128 }, last_update: e.last_update }
}

/// The outcome of issuing `amount`, given the decayed balance and the decayed
/// total issuance: the two new entries, or the error.
pub open spec fn issue_spec(b: Option<BalanceEntry>, t: Option<BalanceEntry>, amount: BalanceType) -> Result<(BalanceEntry, BalanceEntry), Error> {
    match (b, t) {
        (Some(b), Some(t)) => if !in_i128(t.principal.bits + amount.bits) {
            Err(Error::TotalIssuanceOverflow)
        } else if !in_i128(b.principal.bits + amount.bits) {
            Err(Error::BalanceOverflow)
        } else {
            Ok((plus(b, amount.bits as int), plus(t, amount.bits as int)))
        },
        _ => Err(Error::DemurrageOverflow),
    }
}

/// The outcome of burning `amount`, given the decayed balance and the decayed
/// total issuance.
pub open spec fn burn_spec(b: Option<BalanceEntry>, t: Option<BalanceEntry>, amount: BalanceType) -> Result<(BalanceEntry, BalanceEntry), Error> {
    match (b, t) {
        (Some(b), Some(t)) => if b.principal.bits < amount.bits {
            Err(Error::BalanceTooLow)
        } else if !in_i128(t.principal.bits - amount.bits) {
            Err(Error::TotalIssuanceOverflow)
        } else {
            Ok((plus(b, -amount.bits), plus(t, -amount.bits)))
        },
        _ => Err(Error::DemurrageOverflow),
    }
}

/// The outcome of a transfer, given the decayed balances of sender and
/// receiver: the sender's and the receiver's new entries. From an account to
/// itself, the one entry keeps its decayed principal.
pub open spec fn transfer_spec(f: Option<BalanceEntry>, t: Option<BalanceEntry>, same: bool, amount: BalanceType) -> Result<(BalanceEntry, BalanceEntry), Error> {
    match f {
        None => Err(Error::DemurrageOverflow),
        Some(f) => if f.principal.bits < amount.bits {
            Err(Error::BalanceTooLow)
        } else if same {
            Ok((f, f))
        } else {
            match t {
                None => Err(Error::DemurrageOverflow),
                Some(t) => if !in_i128(t.principal.bits + amount.bits) {
                    Err(Error::BalanceOverflow)
                } else {
                    Ok((plus(f, -amount.bits), plus(t, amount.bits as int)))
                },
            }
        },
    }
}

/// What a slash takes: the amount, or the whole balance where it is
/// smaller; nothing from a balance that is not positive.
pub open spec fn slashed_of(b: int, amount: int) -> int {
    if b <= 0 { 0 } else if b < amount { b } else { amount }
}

/// The outcome of slashing `amount`: the two new entries and the part of
/// `amount` that could not be taken.
pub open spec fn slash_spec(b: Option<BalanceEntry>, t: Option<BalanceEntry>, amount: BalanceType) -> Result<(BalanceEntry, BalanceEntry, int), Error> {
    match (b, t) {
        (Some(b), Some(t)) => {
            let s = slashed_of(b.principal.bits as int, amount.bits as int);
            if !in_i128(t.principal.bits - s) {
                Err(Error::TotalIssuanceOverflow)
            } else {
                Ok((plus(b, -s), plus(t, -s), amount.bits - s))
            }
        },
        _ => Err(Error::DemurrageOverflow),
    }
}

/// Nothing was written.
pub open spec fn unchanged(old: Module, new: Module) -> bool {
    &&& new.balance_records@ == old.balance_records@
    &&& new.total_issuance_records@ == old.total_issuance_records@
}

/// Every balance entry but those of `(c, a1)` and `(c, a2)` is as it was.
pub open spec fn balances_framed(old: Module, new: Module, c: CurrencyIdentifier, a1: AccountId, a2: AccountId) -> bool {
    forall|c2: CurrencyIdentifier, a: AccountId|
        !(c2 == c && (a == a1 || a == a2)) ==> #[trigger] new.stored_balance(c2, a) == old.stored_balance(c2, a)
}

/// Every issuance entry but that of `c` is as it was.
pub open spec fn issuance_framed(old: Module, new: Module, c: CurrencyIdentifier) -> bool {
    forall|c2: CurrencyIdentifier| c2 != c ==> #[trigger] new.stored_issuance(c2) == old.stored_issuance(c2)
}

/// `new` is `old` with `b` written for `(c, who)` and `t` as the issuance of
/// `c`, and nothing else.
pub open spec fn wrote_balance_and_issuance(old: Module, new: Module, c: CurrencyIdentifier, who: AccountId, b: BalanceEntry, t: BalanceEntry) -> bool {
    &&& balance_written(old.balance_records@, new.balance_records@, BalanceRecord { currency_id: c, who, entry: b })
    &&& new.stored_balance(c, who) == Some(b)
    &&& balances_framed(old, new, c, who, who)
    &&& new.stored_issuance(c) == Some(t)
    &&& issuance_framed(old, new, c)
}

/// `new` is `old` with `f` written for `(c, from)`, then `t` for `(c, to)`,
/// and nothing else.
pub open spec fn wrote_two_balances(old: Module, new: Module, c: CurrencyIdentifier, from: AccountId, to: AccountId, f: BalanceEntry, t: BalanceEntry) -> bool {
    &&& exists|mid: Seq<BalanceRecord>|
        balance_written(old.balance_records@, mid, BalanceRecord { currency_id: c, who: from, entry: f })
        && #[trigger] balance_written(mid, new.balance_records@, BalanceRecord { currency_id: c, who: to, entry: t })
    &&& new.stored_balance(c, from) == Some(f)
    &&& new.stored_balance(c, to) == Some(t)
    &&& balances_framed(old, new, c, from, to)
    &&& new.total_issuance_records@ == old.total_issuance_records@
}

/// `new` is `old` with `f` written for `(c, who)`, and nothing else.
pub open spec fn wrote_one_balance(old: Module, new: Module, c: CurrencyIdentifier, who: AccountId, f: BalanceEntry) -> bool {
    &&& balance_written(old.balance_records@, new.balance_records@, BalanceRecord { currency_id: c, who, entry: f })
    &&& new.stored_balance(c, who) == Some(f)
    &&& balances_framed(old, new, c, who, who)
    &&& new.total_issuance_records@ == old.total_issuance_records@
}

/// What a call of `issue` leaves: the outcome of `issue_spec` on the
/// decayed entries, written on success, nothing written on failure.
pub open spec fn issue_post(old: Module, new: Module, rt: &Runtime, c: CurrencyIdentifier, who: AccountId, amount: BalanceType, r: Result<(), Error>) -> bool {
    match issue_spec(old.balance_decayed(rt, c, who), old.issuance_decayed(rt, c), amount) {
        Ok((b, t)) => r == Ok::<(), Error>(()) && wrote_balance_and_issuance(old, new, c, who, b, t),
        Err(e) => r == Err::<(), Error>(e) && unchanged(old, new),
    }
}

/// What a call of `burn` leaves.
pub open spec fn burn_post(old: Module, new: Module, rt: &Runtime, c: CurrencyIdentifier, who: AccountId, amount: BalanceType, r: Result<(), Error>) -> bool {
    match burn_spec(old.balance_decayed(rt, c, who), old.issuance_decayed(rt, c), amount) {
        Ok((b, t)) => r == Ok::<(), Error>(()) && wrote_balance_and_issuance(old, new, c, who, b, t),
        Err(e) => r == Err::<(), Error>(e) && unchanged(old, new),
    }
}

/// What a transfer leaves: from an account to itself, one entry rewritten
/// with its decayed principal; else both entries written.
pub open spec fn transfer_post(old: Module, new: Module, rt: &Runtime, c: CurrencyIdentifier, from: AccountId, to: AccountId, amount: BalanceType, r: Result<(), Error>) -> bool {
    match transfer_spec(old.balance_decayed(rt, c, from), old.balance_decayed(rt, c, to), from == to, amount) {
        Ok((f, t)) => r == Ok::<(), Error>(()) && if from == to {
            wrote_one_balance(old, new, c, from, f)
        } else {
            wrote_two_balances(old, new, c, from, to, f, t)
        },
        Err(e) => r == Err::<(), Error>(e) && unchanged(old, new),
    }
}

/// What a slash leaves; it returns the part of the amount not taken.
pub open spec fn slash_post(old: Module, new: Module, rt: &Runtime, c: CurrencyIdentifier, who: AccountId, amount: BalanceType, r: Result<BalanceType, Error>) -> bool {
    match slash_spec(old.balance_decayed(rt, c, who), old.issuance_decayed(rt, c), amount) {
        Ok((b, t, rest)) => r == Ok::<BalanceType, Error>(BalanceType { bits: rest as i128 })
            && wrote_balance_and_issuance(old, new, c, who, b, t),
        Err(e) => r == Err::<BalanceType, Error>(e) && unchanged(old, new),
    }
}

/// Writes stamped with the current block keep every entry at or before it.
proof fn lemma_synced_after_writes(m0: Module, m1: Module, m2: Module, rt: &Runtime)
    requires
        m0.ready(rt),
        m1.wf(),
        m2.wf(),
        forall|c: CurrencyIdentifier, a: AccountId|
            #[trigger] m1.stored_balance(c, a) == m0.stored_balance(c, a)
            || or_zero(m1.stored_balance(c, a)).last_update == rt.block_number,
        forall|c: CurrencyIdentifier|
            #[trigger] m1.stored_issuance(c) == m0.stored_issuance(c)
            || or_zero(m1.stored_issuance(c)).last_update == rt.block_number,
        forall|c: CurrencyIdentifier, a: AccountId|
            #[trigger] m2.stored_balance(c, a) == m1.stored_balance(c, a)
            || or_zero(m2.stored_balance(c, a)).last_update == rt.block_number,
        forall|c: CurrencyIdentifier|
            #[trigger] m2.stored_issuance(c) == m1.stored_issuance(c)
            || or_zero(m2.stored_issuance(c)).last_update == rt.block_number,
    ensures
        m2.ready(rt),
{
    assert forall|c: CurrencyIdentifier, a: AccountId| #[trigger] or_zero(m2.stored_balance(c, a)).last_update <= rt.block_number by {
        let now = rt.block_number;
        assert(or_zero(m0.stored_balance(c, a)).last_update <= now);
        assert(or_zero(m1.stored_balance(c, a)).last_update <= now);
    }
    assert forall|c: CurrencyIdentifier| #[trigger] or_zero(m2.stored_issuance(c)).last_update <= rt.block_number by {
        let now = rt.block_number;
        assert(or_zero(m0.stored_issuance(c)).last_update <= now);
        assert(or_zero(m1.stored_issuance(c)).last_update <= now);
    }
}

impl Module {
    /// The ledger can be operated on at `rt`'s block.
    pub open spec fn ready(&self, rt: &Runtime) -> bool {
        &&& self.wf()
        &&& rt.wf()
        &&& self.synced(rt.block_number)
    }

    /// The balance entry of `(c, a)` decayed to the current block.
    pub open spec fn balance_decayed(&self, rt: &Runtime, c: CurrencyIdentifier, a: AccountId) -> Option<BalanceEntry> {
        decay_spec(or_zero(self.stored_balance(c, a)), rt.rate_of(c), rt.block_number)
    }

    /// The issuance entry of `c` decayed to the current block.
    pub open spec fn issuance_decayed(&self, rt: &Runtime, c: CurrencyIdentifier) -> Option<BalanceEntry> {
        decay_spec(or_zero(self.stored_issuance(c)), rt.rate_of(c), rt.block_number)
    }

    /// The balance entry of `(c, who)` brought forward to the current block,
    /// without writing it.
    pub fn balance_entry(&self, rt: &Runtime, currency_id: CurrencyIdentifier, who: AccountId) -> (r: Option<BalanceEntry>)
        requires
            self.ready(rt),
        ensures
            r == self.balance_decayed(rt, currency_id, who),
    {
        let entry = match self.get_balance(currency_id, who) {
            Some(e) => e,
            None => BalanceEntry::zero(),
        };
        let rate = rt.demurrage_of(currency_id);
        proof {
            assert(or_zero(self.stored_balance(currency_id, who)).last_update <= rt.block_number);
        }
        apply_demurrage(entry, rate, rt.block_number)
    }

    /// The issuance entry of `c` brought forward to the current block,
    /// without writing it.
    pub fn total_issuance_entry(&self, rt: &Runtime, currency_id: CurrencyIdentifier) -> (r: Option<BalanceEntry>)
        requires
            self.ready(rt),
        ensures
            r == self.issuance_decayed(rt, currency_id),
    {
        let entry = match self.get_issuance(currency_id) {
            Some(e) => e,
            None => BalanceEntry::zero(),
        };
        let rate = rt.demurrage_of(currency_id);
        proof {
            assert(or_zero(self.stored_issuance(currency_id)).last_update <= rt.block_number);
        }
        apply_demurrage(entry, rate, rt.block_number)
    }

    /// The balance of `who` in `currency_id` as of the current block.
    pub fn balance(&self, rt: &Runtime, currency_id: CurrencyIdentifier, who: AccountId) -> (r: Result<BalanceType, Error>)
        requires
            self.ready(rt),
        ensures
            r == (match self.balance_decayed(rt, currency_id, who) {
                Some(e) => Ok(e.principal),
                None => Err(Error::DemurrageOverflow),
            }),
    {
        match self.balance_entry(rt, currency_id, who) {
            Some(e) => Ok(e.principal),
            None => Err(Error::DemurrageOverflow),
        }
    }

    /// The total issuance of `currency_id` as of the current block.
    pub fn total_issuance(&self, rt: &Runtime, currency_id: CurrencyIdentifier) -> (r: Result<BalanceType, Error>)
        requires
            self.ready(rt),
        ensures
            r == (match self.issuance_decayed(rt, currency_id) {
                Some(e) => Ok(e.principal),
                None => Err(Error::DemurrageOverflow),
            }),
    {
        match self.total_issuance_entry(rt, currency_id) {
            Some(e) => Ok(e.principal),
            None => Err(Error::DemurrageOverflow),
        }
    }

    /// Creates `amount` for `who`, raising total issuance by the same.
    /// Refused with `TotalIssuanceOverflow` exactly when the decayed total
    /// plus `amount` leaves the range; `BalanceOverflow` follows only from a
    /// balance above total issuance (see `Error`).
    pub fn issue(&mut self, rt: &Runtime, currency_id: CurrencyIdentifier, who: AccountId, amount: BalanceType) -> (r: Result<(), Error>)
        requires
            old(self).ready(rt),
            amount.bits >= 0,
        ensures
            final(self).ready(rt),
            issue_post(*old(self), *final(self), rt, currency_id, who, amount, r),
    {
        let entry_who = match self.balance_entry(rt, currency_id, who) {
            Some(e) => e,
            None => return Err(Error::DemurrageOverflow),
        };
        let entry_tot = match self.total_issuance_entry(rt, currency_id) {
            Some(e) => e,
            None => return Err(Error::DemurrageOverflow),
        };
        let tot = match entry_tot.principal.checked_add(amount) {
            Some(p) => p,
            None => return Err(Error::TotalIssuanceOverflow),
        };
        let bal = match entry_who.principal.checked_add(amount) {
            Some(p) => p,
            None => return Err(Error::BalanceOverflow),
        };
        let ghost m0 = *self;
        self.put_issuance(currency_id, BalanceEntry { principal: tot, last_update: entry_tot.last_update });
        let ghost m1 = *self;
        self.put_balance(currency_id, who, BalanceEntry { principal: bal, last_update: entry_who.last_update });
        proof {
            lemma_synced_after_writes(m0, m1, *self, rt);
            let b = entry_who;
            let t = entry_tot;
            assert(issue_spec(Some(b), Some(t), amount) == Ok::<(BalanceEntry, BalanceEntry), Error>(
                (plus(b, amount.bits as int), plus(t, amount.bits as int))));
            assert(self.stored_issuance(currency_id) == Some(plus(t, amount.bits as int)));
            assert(self.stored_balance(currency_id, who) == Some(plus(b, amount.bits as int)));
            assert(balances_framed(m0, *self, currency_id, who, who));
            assert forall|c2: CurrencyIdentifier| c2 != currency_id implies
                #[trigger] self.stored_issuance(c2) == m0.stored_issuance(c2) by {
                assert(self.stored_issuance(c2) == m1.stored_issuance(c2));
            }
        }
        Ok(())
    }
    /// Destroys `amount` of `who`'s balance, lowering total issuance by the
    /// same. Beyond `BalanceTooLow` it fails only where decay overflows or
    /// total issuance stands below the account's balance (see `Error`).
    pub fn burn(&mut self, rt: &Runtime, currency_id: CurrencyIdentifier, who: AccountId, amount: BalanceType) -> (r: Result<(), Error>)
        requires
            old(self).ready(rt),
            amount.bits >= 0,
        ensures
            final(self).ready(rt),
            burn_post(*old(self), *final(self), rt, currency_id, who, amount, r),
    {
        let entry_who = match self.balance_entry(rt, currency_id, who) {
            Some(e) => e,
            None => return Err(Error::DemurrageOverflow),
        };
        let entry_tot = match self.total_issuance_entry(rt, currency_id) {
            Some(e) => e,
            None => return Err(Error::DemurrageOverflow),
        };
        let bal = match entry_who.principal.checked_sub(amount) {
            Some(p) => p,
            None => return Err(Error::BalanceTooLow),
        };
        if bal.bits < 0 {
            return Err(Error::BalanceTooLow);
        }
        let tot = match entry_tot.principal.checked_sub(amount) {
            Some(p) => p,
            None => return Err(Error::TotalIssuanceOverflow),
        };
        let ghost m0 = *self;
        self.put_issuance(currency_id, BalanceEntry { principal: tot, last_update: entry_tot.last_update });
        let ghost m1 = *self;
        self.put_balance(currency_id, who, BalanceEntry { principal: bal, last_update: entry_who.last_update });
        proof {
            lemma_synced_after_writes(m0, m1, *self, rt);
            assert forall|c2: CurrencyIdentifier| c2 != currency_id implies
                #[trigger] self.stored_issuance(c2) == m0.stored_issuance(c2) by {
                assert(self.stored_issuance(c2) == m1.stored_issuance(c2));
            }
        }
        Ok(())
    }

    /// Moves `amount` from `from` to `to`. From an account to itself only
    /// the entry's block advances. The only business error is
    /// `BalanceTooLow`; the receiver can stop the call only by a decay that
    /// overflows (`DemurrageOverflow`) or by a credit past the range
    /// (`BalanceOverflow`), neither of which a ledger that keeps conservation
    /// under a sound configuration meets.
    pub fn transfer_(&mut self, rt: &Runtime, currency_id: CurrencyIdentifier, from: AccountId, to: AccountId, amount: BalanceType) -> (r: Result<(), Error>)
        requires
            old(self).ready(rt),
            amount.bits >= 0,
        ensures
            final(self).ready(rt),
            transfer_post(*old(self), *final(self), rt, currency_id, from, to, amount, r),
    {
        let entry_from = match self.balance_entry(rt, currency_id, from) {
            Some(e) => e,
            None => return Err(Error::DemurrageOverflow),
        };
        if entry_from.principal.bits < amount.bits {
            return Err(Error::BalanceTooLow);
        }
        let ghost m0 = *self;
        if from != to {
            let entry_to = match self.balance_entry(rt, currency_id, to) {
                Some(e) => e,
                None => return Err(Error::DemurrageOverflow),
            };
            let to_principal = match entry_to.principal.checked_add(amount) {
                Some(p) => p,
                None => return Err(Error::BalanceOverflow),
            };
            let from_principal = BalanceType::from_bits(entry_from.principal.bits - amount.bits);
            self.put_balance(currency_id, from, BalanceEntry { principal: from_principal, last_update: entry_from.last_update });
            let ghost m1 = *self;
            self.put_balance(currency_id, to, BalanceEntry { principal: to_principal, last_update: entry_to.last_update });
            proof {
                lemma_synced_after_writes(m0, m1, *self, rt);
                assert(balance_written(m1.balance_records@, self.balance_records@,
                    BalanceRecord { currency_id, who: to, entry: BalanceEntry { principal: to_principal, last_update: entry_to.last_update } }));
            }
        } else {
            self.put_balance(currency_id, from, entry_from);
            proof {
                lemma_synced_after_writes(m0, *self, *self, rt);
            }
        }
        Ok(())
    }

    /// The dispatchable transfer: moves `amount` from `from` to `dest` and
    /// returns the notification to emit.
    pub fn transfer(&mut self, rt: &Runtime, from: AccountId, dest: AccountId, currency_id: CurrencyIdentifier, amount: BalanceType) -> (r: Result<Event, Error>)
        requires
            old(self).ready(rt),
            amount.bits >= 0,
        ensures
            final(self).ready(rt),
            transfer_post(*old(self), *final(self), rt, currency_id, from, dest, amount, match r {
                Ok(_) => Ok::<(), Error>(()),
                Err(e) => Err(e),
            }),
            r is Ok ==> r == Ok::<Event, Error>(Event::Transferred(currency_id, from, dest, amount)),
    {
        match self.transfer_(rt, currency_id, from, dest, amount) {
            Ok(()) => Ok(Event::Transferred(currency_id, from, dest, amount)),
            Err(e) => Err(e),
        }
    }

    /// Takes up to `amount` from `who`, never failing for want of balance:
    /// total issuance falls by what was taken, and the part of `amount` that
    /// could not be taken is returned. It fails only where decay overflows or
    /// total issuance stands below what is taken (see `Error`).
    pub fn slash(&mut self, rt: &Runtime, currency_id: CurrencyIdentifier, who: AccountId, amount: BalanceType) -> (r: Result<BalanceType, Error>)
        requires
            old(self).ready(rt),
            amount.bits >= 0,
        ensures
            final(self).ready(rt),
            slash_post(*old(self), *final(self), rt, currency_id, who, amount, r),
    {
        let entry_who = match self.balance_entry(rt, currency_id, who) {
            Some(e) => e,
            None => return Err(Error::DemurrageOverflow),
        };
        let entry_tot = match self.total_issuance_entry(rt, currency_id) {
            Some(e) => e,
            None => return Err(Error::DemurrageOverflow),
        };
        let have = entry_who.principal.bits;
        let slashed: i128 = if have <= 0 {
            0
        } else if have < amount.bits {
            have
        } else {
            amount.bits
        };
        let tot = match entry_tot.principal.checked_sub(BalanceType::from_bits(slashed)) {
            Some(p) => p,
            None => return Err(Error::TotalIssuanceOverflow),
        };
        let bal = BalanceType::from_bits(have - slashed);
        let ghost m0 = *self;
        self.put_issuance(currency_id, BalanceEntry { principal: tot, last_update: entry_tot.last_update });
        let ghost m1 = *self;
        self.put_balance(currency_id, who, BalanceEntry { principal: bal, last_update: entry_who.last_update });
        proof {
            lemma_synced_after_writes(m0, m1, *self, rt);
            assert forall|c2: CurrencyIdentifier| c2 != currency_id implies
                #[trigger] self.stored_issuance(c2) == m0.stored_issuance(c2) by {
                assert(self.stored_issuance(c2) == m1.stored_issuance(c2));
            }
        }
        Ok(BalanceType::from_bits(amount.bits - slashed))
    }

    /// Applies a signed change to `who`'s balance: a positive `by` is issued,
    /// a negative one burnt with its magnitude, zero changes nothing.
    pub fn update_balance(&mut self, rt: &Runtime, currency_id: CurrencyIdentifier, who: AccountId, by: BalanceType) -> (r: Result<(), Error>)
        requires
            old(self).ready(rt),
        ensures
            final(self).ready(rt),
            by.bits == i128::MIN ==> r == Err::<(), Error>(Error::AmountIntoBalanceFailed) && unchanged(*old(self), *final(self)),
            by.bits > 0 ==> issue_post(*old(self), *final(self), rt, currency_id, who, by, r),
            i128::MIN < by.bits < 0 ==> burn_post(*old(self), *final(self), rt, currency_id, who, BalanceType { bits: (-by.bits) as i128 }, r),
            by.bits == 0 ==> r == Ok::<(), Error>(()) && unchanged(*old(self), *final(self)),
    {
        if by.bits == i128::MIN {
            Err(Error::AmountIntoBalanceFailed)
        } else if by.bits > 0 {
            self.issue(rt, currency_id, who, by)
        } else if by.bits < 0 {
            self.burn(rt, currency_id, who, BalanceType::from_bits(-by.bits))
        } else {
            Ok(())
        }
    }
}

} // verus!
