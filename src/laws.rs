//! Properties of the ledger that relate several entries or several calls.
use vstd::prelude::*;
use crate::demurrage::{BalanceEntry, BlockNumber, decay_spec, exponent_spec, value_at};
use crate::fixed_point::{BalanceType, exp_of, in_i128, one_bits};
use crate::ledger::{
    Error, burn_post, burn_spec, issue_post, issue_spec, slash_post, slash_spec, transfer_post,
    transfer_spec, unchanged,
};
use crate::runtime::{CurrencyIdentifier, Runtime};
use crate::store::{
    AccountId, BalanceRecord, Module, balance_in, balance_key, balance_keys_unique, balance_written,
    lemma_balance_in_at, lemma_balance_written, or_zero,
};

verus! {

/// The sum of the values at `now` of the balances of currency `c` in `s`;
/// `None` where one of them cannot be decayed.
pub open spec fn balance_sum(s: Seq<BalanceRecord>, c: CurrencyIdentifier, rate: BalanceType, now: BlockNumber) -> Option<int>
    decreases s.len(),
{
    if s.len() == 0 {
        Some(0)
    } else {
        let last = s.last();
        match balance_sum(s.drop_last(), c, rate, now) {
            Some(p) => if last.currency_id != c {
                Some(p)
            } else {
                match value_at(last.entry, rate, now) {
                    Some(v) => Some(p + v),
                    None => None,
                }
            },
            None => None,
        }
    }
}

/// The sum of all balances of `c` at the current block.
pub open spec fn balances_value(m: Module, rt: &Runtime, c: CurrencyIdentifier) -> Option<int> {
    balance_sum(m.balance_records@, c, rt.rate_of(c), rt.block_number)
}

/// The total issuance of `c` at the current block.
pub open spec fn issuance_value(m: Module, rt: &Runtime, c: CurrencyIdentifier) -> Option<int> {
    value_at(or_zero(m.stored_issuance(c)), rt.rate_of(c), rt.block_number)
}

pub open spec fn shifted(o: Option<int>, d: int) -> Option<int> {
    match o {
        Some(v) => Some(v + d),
        None => None,
    }
}

proof fn lemma_sum_update(s: Seq<BalanceRecord>, i: int, r: BalanceRecord, c: CurrencyIdentifier, rate: BalanceType, now: BlockNumber)
    requires
        0 <= i < s.len(),
        s[i].currency_id == c,
        r.currency_id == c,
        value_at(s[i].entry, rate, now) is Some,
        value_at(r.entry, rate, now) is Some,
    ensures
        balance_sum(s, c, rate, now) is Some ==> balance_sum(s.update(i, r), c, rate, now) == Some(
            balance_sum(s, c, rate, now)->0 - value_at(s[i].entry, rate, now)->0 + value_at(r.entry, rate, now)->0),
    decreases s.len(),
{
    let s1 = s.update(i, r);
    if i == s.len() - 1 {
        assert(s1.drop_last() == s.drop_last());
    } else {
        assert(s1.drop_last() == s.drop_last().update(i, r));
        lemma_sum_update(s.drop_last(), i, r, c, rate, now);
    }
}

/// A balance record of `c` stamped `now`, written over whatever `(c, who)`
/// held, moves the sum by the difference of the two values.
proof fn lemma_sum_written(s0: Seq<BalanceRecord>, s1: Seq<BalanceRecord>, r: BalanceRecord, rate: BalanceType, now: BlockNumber)
    requires
        balance_keys_unique(s0),
        balance_written(s0, s1, r),
        r.entry.last_update == now,
        value_at(or_zero(balance_in(s0, r.currency_id, r.who)), rate, now) is Some,
    ensures
        balance_sum(s0, r.currency_id, rate, now) is Some ==> balance_sum(s1, r.currency_id, rate, now) == Some(
            balance_sum(s0, r.currency_id, rate, now)->0
            - value_at(or_zero(balance_in(s0, r.currency_id, r.who)), rate, now)->0
            + r.entry.principal.bits),
{
    let c = r.currency_id;
    assert(value_at(r.entry, rate, now) == Some(r.entry.principal.bits as int));
    if exists|i: int| 0 <= i < s0.len() && balance_key(s0[i], c, r.who) && s1 == s0.update(i, r) {
        let i = choose|i: int| 0 <= i < s0.len() && balance_key(s0[i], c, r.who) && s1 == s0.update(i, r);
        lemma_balance_in_at(s0, i);
        lemma_sum_update(s0, i, r, c, rate, now);
    } else {
        assert(s1 == s0.push(r));
        assert(s1.drop_last() == s0);
        if !(exists|i: int| 0 <= i < s0.len() && balance_key(s0[i], c, r.who)) {
            assert(balance_in(s0, c, r.who) is None);
        }
        let z = BalanceEntry::zero_spec();
        assert(value_at(z, rate, now) == Some(0int)) by {
            if z.last_update != now {
                let d = decay_spec(z, rate, now)->0;
                assert((0 * d.principal.bits) / 0x1_0000_0000_0000_0000int == 0) by (nonlinear_arith);
            }
        }
    }
}

proof fn lemma_value_stamped(e: BalanceEntry, rate: BalanceType, now: BlockNumber)
    requires
        e.last_update == now,
    ensures
        value_at(e, rate, now) == Some(e.principal.bits as int),
{
}

/// A successful write of `(c, who)` and of the issuance of `c`, with entries
/// that stand `d` above the decayed ones, moves both sides by `d`.
proof fn lemma_balance_and_issuance_moved(old: Module, new: Module, rt: &Runtime, c: CurrencyIdentifier, who: AccountId, b: BalanceEntry, t: BalanceEntry, nb: BalanceEntry, nt: BalanceEntry, d: int)
    requires
        old.ready(rt),
        old.balance_decayed(rt, c, who) == Some(b),
        old.issuance_decayed(rt, c) == Some(t),
        nb.principal.bits == b.principal.bits + d,
        nt.principal.bits == t.principal.bits + d,
        nb.last_update == rt.block_number,
        nt.last_update == rt.block_number,
        balance_written(old.balance_records@, new.balance_records@, BalanceRecord { currency_id: c, who, entry: nb }),
        new.stored_issuance(c) == Some(nt),
    ensures
        issuance_value(old, rt, c) == Some(t.principal.bits as int),
        issuance_value(new, rt, c) == shifted(issuance_value(old, rt, c), d),
        balances_value(old, rt, c) is Some ==> balances_value(new, rt, c) == shifted(balances_value(old, rt, c), d),
{
    let rate = rt.rate_of(c);
    let now = rt.block_number;
    lemma_value_stamped(nt, rate, now);
    lemma_sum_written(old.balance_records@, new.balance_records@, BalanceRecord { currency_id: c, who, entry: nb }, rate, now);
}

/// Conservation under `issue`: read at the block of the call, total issuance
/// and the sum of all balances of the currency both rise by the amount, so
/// their difference is kept.
pub proof fn conservation_issue(old: Module, new: Module, rt: &Runtime, c: CurrencyIdentifier, who: AccountId, amount: BalanceType)
    requires
        old.ready(rt),
        issue_post(old, new, rt, c, who, amount, Ok(())),
    ensures
        issuance_value(old, rt, c) is Some,
        issuance_value(new, rt, c) == shifted(issuance_value(old, rt, c), amount.bits as int),
        balances_value(old, rt, c) is Some ==> balances_value(new, rt, c) == shifted(balances_value(old, rt, c), amount.bits as int),
{
    let res = issue_spec(old.balance_decayed(rt, c, who), old.issuance_decayed(rt, c), amount);
    assert(res is Ok);
    let b = old.balance_decayed(rt, c, who)->0;
    let t = old.issuance_decayed(rt, c)->0;
    let (nb, nt) = res->Ok_0;
    lemma_balance_and_issuance_moved(old, new, rt, c, who, b, t, nb, nt, amount.bits as int);
}

/// Conservation under `burn`: total issuance and the sum of all balances of
/// the currency both fall by the amount.
pub proof fn conservation_burn(old: Module, new: Module, rt: &Runtime, c: CurrencyIdentifier, who: AccountId, amount: BalanceType)
    requires
        old.ready(rt),
        amount.bits >= 0,
        burn_post(old, new, rt, c, who, amount, Ok(())),
    ensures
        issuance_value(old, rt, c) is Some,
        issuance_value(new, rt, c) == shifted(issuance_value(old, rt, c), -amount.bits),
        balances_value(old, rt, c) is Some ==> balances_value(new, rt, c) == shifted(balances_value(old, rt, c), -amount.bits),
{
    let res = burn_spec(old.balance_decayed(rt, c, who), old.issuance_decayed(rt, c), amount);
    assert(res is Ok);
    let b = old.balance_decayed(rt, c, who)->0;
    let t = old.issuance_decayed(rt, c)->0;
    let (nb, nt) = res->Ok_0;
    lemma_balance_and_issuance_moved(old, new, rt, c, who, b, t, nb, nt, -amount.bits);
}

/// Conservation under `slash`: total issuance and the sum of all balances of
/// the currency both fall by what was taken, `amount` less what is returned.
pub proof fn conservation_slash(old: Module, new: Module, rt: &Runtime, c: CurrencyIdentifier, who: AccountId, amount: BalanceType, rest: BalanceType)
    requires
        old.ready(rt),
        amount.bits >= 0,
        slash_post(old, new, rt, c, who, amount, Ok(rest)),
    ensures
        issuance_value(old, rt, c) is Some,
        issuance_value(new, rt, c) == shifted(issuance_value(old, rt, c), rest.bits - amount.bits),
        balances_value(old, rt, c) is Some ==> balances_value(new, rt, c) == shifted(balances_value(old, rt, c), rest.bits - amount.bits),
{
    let res = slash_spec(old.balance_decayed(rt, c, who), old.issuance_decayed(rt, c), amount);
    assert(res is Ok);
    let b = old.balance_decayed(rt, c, who)->0;
    let t = old.issuance_decayed(rt, c)->0;
    let (nb, nt, r) = res->Ok_0;
    lemma_balance_and_issuance_moved(old, new, rt, c, who, b, t, nb, nt, rest.bits - amount.bits);
}

/// Conservation under a transfer: total issuance is untouched and the sum of
/// all balances of the currency, read at the block of the call, is kept.
pub proof fn conservation_transfer(old: Module, new: Module, rt: &Runtime, c: CurrencyIdentifier, from: AccountId, to: AccountId, amount: BalanceType)
    requires
        old.ready(rt),
        amount.bits >= 0,
        transfer_post(old, new, rt, c, from, to, amount, Ok(())),
    ensures
        issuance_value(new, rt, c) == issuance_value(old, rt, c),
        balances_value(old, rt, c) is Some ==> balances_value(new, rt, c) == balances_value(old, rt, c),
{
    let rate = rt.rate_of(c);
    let now = rt.block_number;
    let res = transfer_spec(old.balance_decayed(rt, c, from), old.balance_decayed(rt, c, to), from == to, amount);
    assert(res is Ok);
    let (nf, nt) = res->Ok_0;
    let f = old.balance_decayed(rt, c, from)->0;
    let s0 = old.balance_records@;
    let s2 = new.balance_records@;
    let r1 = BalanceRecord { currency_id: c, who: from, entry: nf };
    assert(value_at(or_zero(balance_in(s0, c, from)), rate, now) == Some(f.principal.bits as int));
    if from == to {
        lemma_sum_written(s0, s2, r1, rate, now);
    } else {
        let t = old.balance_decayed(rt, c, to)->0;
        let r2 = BalanceRecord { currency_id: c, who: to, entry: nt };
        let s1 = choose|mid: Seq<BalanceRecord>| balance_written(s0, mid, r1) && #[trigger] balance_written(mid, s2, r2);
        lemma_balance_written(s0, s1, r1);
        assert(balance_in(s1, c, to) == balance_in(s0, c, to));
        lemma_sum_written(s0, s1, r1, rate, now);
        lemma_sum_written(s1, s2, r2, rate, now);
    }
}

/// A transfer from an account to itself fails for want of balance exactly
/// when the decayed balance is below the amount, and otherwise keeps the
/// decayed principal, only advancing the entry's block.
pub proof fn self_transfer_keeps_principal(old: Module, new: Module, rt: &Runtime, c: CurrencyIdentifier, a: AccountId, amount: BalanceType, r: Result<(), Error>)
    requires
        old.ready(rt),
        transfer_post(old, new, rt, c, a, a, amount, r),
        old.balance_decayed(rt, c, a) is Some,
    ensures
        r == Err::<(), Error>(Error::BalanceTooLow) <==> old.balance_decayed(rt, c, a)->0.principal.bits < amount.bits,
        r is Ok ==> new.stored_balance(c, a) == Some(BalanceEntry {
            principal: old.balance_decayed(rt, c, a)->0.principal,
            last_update: rt.block_number,
        }),
{
}

/// A slash returns a part of the amount, `amount - min(balance, amount)` for
/// a balance that is not negative, and lowers the balance and total issuance
/// by the same quantity.
pub proof fn slash_bounds(old: Module, new: Module, rt: &Runtime, c: CurrencyIdentifier, who: AccountId, amount: BalanceType, rest: BalanceType)
    requires
        old.ready(rt),
        amount.bits >= 0,
        slash_post(old, new, rt, c, who, amount, Ok(rest)),
    ensures
        0 <= rest.bits <= amount.bits,
        old.balance_decayed(rt, c, who)->0.principal.bits >= 0 ==> rest.bits == amount.bits - (
            if old.balance_decayed(rt, c, who)->0.principal.bits < amount.bits {
                old.balance_decayed(rt, c, who)->0.principal.bits as int
            } else {
                amount.bits as int
            }),
        new.stored_balance(c, who)->0.principal.bits == old.balance_decayed(rt, c, who)->0.principal.bits - (amount.bits - rest.bits),
        new.stored_issuance(c)->0.principal.bits == old.issuance_decayed(rt, c)->0.principal.bits - (amount.bits - rest.bits),
{
}

/// `issue` fails with `TotalIssuanceOverflow` exactly when the decayed total
/// issuance plus the amount leaves the representable range, and then writes
/// nothing.
pub proof fn issue_overflow_guard(old: Module, new: Module, rt: &Runtime, c: CurrencyIdentifier, who: AccountId, amount: BalanceType, r: Result<(), Error>)
    requires
        old.ready(rt),
        issue_post(old, new, rt, c, who, amount, r),
        old.balance_decayed(rt, c, who) is Some,
        old.issuance_decayed(rt, c) is Some,
    ensures
        r == Err::<(), Error>(Error::TotalIssuanceOverflow) <==> !in_i128(old.issuance_decayed(rt, c)->0.principal.bits + amount.bits),
        r == Err::<(), Error>(Error::TotalIssuanceOverflow) ==> unchanged(old, new),
{
}

/// One unit issued at block zero to an empty account reads, at block `T`,
/// as `exp(-rate * T)`: one itself at block zero.
pub proof fn decay_of_unit(old: Module, new: Module, rt0: &Runtime, rt1: &Runtime, c: CurrencyIdentifier, who: AccountId)
    requires
        old.ready(rt0),
        old.stored_balance(c, who) is None,
        rt0.block_number == 0,
        issue_post(old, new, rt0, c, who, BalanceType { bits: one_bits() as i128 }, Ok(())),
        rt1.currencies@ == rt0.currencies@,
    ensures
        rt1.block_number == 0 ==> new.balance_decayed(rt1, c, who) == Some(
            BalanceEntry { principal: BalanceType { bits: one_bits() as i128 }, last_update: 0 }),
        rt1.block_number > 0 ==> new.balance_decayed(rt1, c, who) == (match exponent_spec(rt0.rate_of(c), rt1.block_number as int) {
            Some(x) => match exp_of(x) {
                Some(f) => Some(BalanceEntry { principal: BalanceType { bits: f }, last_update: rt1.block_number }),
                None => None,
            },
            None => None,
        }),
{
    let e = new.stored_balance(c, who)->0;
    assert(e == BalanceEntry { principal: BalanceType { bits: one_bits() as i128 }, last_update: 0 });
    match exponent_spec(rt0.rate_of(c), rt1.block_number as int) {
        Some(x) => match exp_of(x) {
            Some(f) => {
                assert((one_bits() * f) / one_bits() == f) by (nonlinear_arith);
            },
            None => {},
        },
        None => {},
    }
}

} // verus!
