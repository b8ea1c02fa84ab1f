//! Persisted entries: one per (currency, account) and one issuance entry per
//! currency. An absent entry stands for zero at block zero.
use vstd::prelude::*;
use crate::demurrage::{BalanceEntry, BlockNumber};
use crate::runtime::CurrencyIdentifier;

verus! {

pub type AccountId = u64;

#[derive(Clone, Copy, Debug, PartialEq, Eq, Structural)]
pub struct BalanceRecord {
    pub currency_id: CurrencyIdentifier,
    pub who: AccountId,
    pub entry: BalanceEntry,
}

#[derive(Clone, Copy, Debug, PartialEq, Eq, Structural)]
pub struct IssuanceRecord {
    pub currency_id: CurrencyIdentifier,
    pub entry: BalanceEntry,
}

pub open spec fn balance_key(r: BalanceRecord, c: CurrencyIdentifier, a: AccountId) -> bool {
    r.currency_id == c && r.who == a
}

pub open spec fn balance_keys_unique(s: Seq<BalanceRecord>) -> bool {
    forall|i: int, j: int|
        0 <= i < j < s.len() ==> !balance_key(#[trigger] s[i], s[j].currency_id, #[trigger] s[j].who)
}

pub open spec fn issuance_keys_unique(s: Seq<IssuanceRecord>) -> bool {
    forall|i: int, j: int| 0 <= i < j < s.len() ==> #[trigger] s[i].currency_id != #[trigger] s[j].currency_id
}

/// The entry stored for `(c, a)` in `s`, if any.
pub open spec fn balance_in(s: Seq<BalanceRecord>, c: CurrencyIdentifier, a: AccountId) -> Option<BalanceEntry> {
    if exists|i: int| 0 <= i < s.len() && balance_key(s[i], c, a) {
        Some(s[choose|i: int| 0 <= i < s.len() && balance_key(s[i], c, a)].entry)
    } else {
        None
    }
}

/// The issuance entry stored for `c` in `s`, if any.
pub open spec fn issuance_in(s: Seq<IssuanceRecord>, c: CurrencyIdentifier) -> Option<BalanceEntry> {
    if exists|i: int| 0 <= i < s.len() && s[i].currency_id == c {
        Some(s[choose|i: int| 0 <= i < s.len() && s[i].currency_id == c].entry)
    } else {
        None
    }
}

/// `new` is `old` with the record `r` written: in place of the record with
/// its key, or appended where there was none.
pub open spec fn balance_written(old: Seq<BalanceRecord>, new: Seq<BalanceRecord>, r: BalanceRecord) -> bool {
    ||| exists|i: int|
        0 <= i < old.len() && balance_key(old[i], r.currency_id, r.who) && new == old.update(i, r)
    ||| (forall|i: int| 0 <= i < old.len() ==> !balance_key(old[i], r.currency_id, r.who)) && new == old.push(r)
}

pub open spec fn or_zero(e: Option<BalanceEntry>) -> BalanceEntry {
    match e {
        Some(e) => e,
        None => BalanceEntry::zero_spec(),
    }
}

pub proof fn lemma_balance_in_at(s: Seq<BalanceRecord>, i: int)
    requires
        balance_keys_unique(s),
        0 <= i < s.len(),
    ensures
        balance_in(s, s[i].currency_id, s[i].who) == Some(s[i].entry),
{
    let c = s[i].currency_id;
    let a = s[i].who;
    assert(balance_key(s[i], c, a));
    let j = choose|j: int| 0 <= j < s.len() && balance_key(s[j], c, a);
    if j < i {
        assert(!balance_key(s[j], s[i].currency_id, s[i].who));
    } else if i < j {
        assert(!balance_key(s[i], s[j].currency_id, s[j].who));
    }
}

pub proof fn lemma_issuance_in_at(s: Seq<IssuanceRecord>, i: int)
    requires
        issuance_keys_unique(s),
        0 <= i < s.len(),
    ensures
        issuance_in(s, s[i].currency_id) == Some(s[i].entry),
{
    let c = s[i].currency_id;
    let j = choose|j: int| 0 <= j < s.len() && s[j].currency_id == c;
    if j < i {
        assert(s[j].currency_id != s[i].currency_id);
    } else if i < j {
        assert(s[i].currency_id != s[j].currency_id);
    }
}

/// Writing a record keeps the keys unique, stores the record under its key,
/// and leaves every other key's entry as it was.
pub proof fn lemma_balance_written(s0: Seq<BalanceRecord>, s1: Seq<BalanceRecord>, r: BalanceRecord)
    requires
        balance_keys_unique(s0),
        balance_written(s0, s1, r),
    ensures
        balance_keys_unique(s1),
        balance_in(s1, r.currency_id, r.who) == Some(r.entry),
        forall|c2: CurrencyIdentifier, a2: AccountId|
            !(c2 == r.currency_id && a2 == r.who) ==> #[trigger] balance_in(s1, c2, a2) == balance_in(s0, c2, a2),
{
    let c = r.currency_id;
    let a = r.who;
    if exists|i: int| 0 <= i < s0.len() && balance_key(s0[i], c, a) && s1 == s0.update(i, r) {
        let i = choose|i: int| 0 <= i < s0.len() && balance_key(s0[i], c, a) && s1 == s0.update(i, r);
        assert forall|j: int, k: int| 0 <= j < k < s1.len() implies
            !balance_key(#[trigger] s1[j], s1[k].currency_id, #[trigger] s1[k].who) by {
            assert(!balance_key(s0[j], s0[k].currency_id, s0[k].who));
        }
        lemma_balance_in_at(s1, i);
        assert forall|c2: CurrencyIdentifier, a2: AccountId| !(c2 == c && a2 == a) implies
            #[trigger] balance_in(s1, c2, a2) == balance_in(s0, c2, a2) by {
            if exists|j: int| 0 <= j < s0.len() && balance_key(s0[j], c2, a2) {
                let j = choose|j: int| 0 <= j < s0.len() && balance_key(s0[j], c2, a2);
                lemma_balance_in_at(s0, j);
                lemma_balance_in_at(s1, j);
            } else {
                assert forall|j: int| 0 <= j < s1.len() implies !balance_key(s1[j], c2, a2) by {
                    if j != i {
                        assert(!balance_key(s0[j], c2, a2));
                    }
                }
            }
        }
    } else {
        assert(s1 == s0.push(r));
        assert forall|j: int, k: int| 0 <= j < k < s1.len() implies
            !balance_key(#[trigger] s1[j], s1[k].currency_id, #[trigger] s1[k].who) by {
            if k < s0.len() {
                assert(!balance_key(s0[j], s0[k].currency_id, s0[k].who));
            } else {
                assert(!balance_key(s0[j], c, a));
            }
        }
        lemma_balance_in_at(s1, s0.len() as int);
        assert forall|c2: CurrencyIdentifier, a2: AccountId| !(c2 == c && a2 == a) implies
            #[trigger] balance_in(s1, c2, a2) == balance_in(s0, c2, a2) by {
            if exists|j: int| 0 <= j < s0.len() && balance_key(s0[j], c2, a2) {
                let j = choose|j: int| 0 <= j < s0.len() && balance_key(s0[j], c2, a2);
                lemma_balance_in_at(s0, j);
                lemma_balance_in_at(s1, j);
            } else {
                assert forall|j: int| 0 <= j < s1.len() implies !balance_key(s1[j], c2, a2) by {
                    if j < s0.len() {
                        assert(!balance_key(s0[j], c2, a2));
                    }
                }
            }
        }
    }
}

/// `new` is `old` with the issuance record `r` written: in place of the
/// record of its currency, or appended where there was none.
pub open spec fn issuance_written(old: Seq<IssuanceRecord>, new: Seq<IssuanceRecord>, r: IssuanceRecord) -> bool {
    ||| exists|i: int| 0 <= i < old.len() && old[i].currency_id == r.currency_id && new == old.update(i, r)
    ||| (forall|i: int| 0 <= i < old.len() ==> old[i].currency_id != r.currency_id) && new == old.push(r)
}

/// Writing an issuance record keeps the currencies unique, stores the record
/// under its currency, and leaves every other currency's entry as it was.
pub proof fn lemma_issuance_written(s0: Seq<IssuanceRecord>, s1: Seq<IssuanceRecord>, r: IssuanceRecord)
    requires
        issuance_keys_unique(s0),
        issuance_written(s0, s1, r),
    ensures
        issuance_keys_unique(s1),
        issuance_in(s1, r.currency_id) == Some(r.entry),
        forall|c2: CurrencyIdentifier| c2 != r.currency_id ==> #[trigger] issuance_in(s1, c2) == issuance_in(s0, c2),
{
    let c = r.currency_id;
    let written_at = if exists|i: int| 0 <= i < s0.len() && s0[i].currency_id == c && s1 == s0.update(i, r) {
        choose|i: int| 0 <= i < s0.len() && s0[i].currency_id == c && s1 == s0.update(i, r)
    } else {
        s0.len() as int
    };
    if written_at == s0.len() {
        assert(s1 == s0.push(r));
    }
    assert forall|j: int, k: int| 0 <= j < k < s1.len() implies
        #[trigger] s1[j].currency_id != #[trigger] s1[k].currency_id by {
        if k == written_at && k == s0.len() {
            assert(s0[j].currency_id != c);
        } else {
            assert(s0[j].currency_id != s0[k].currency_id);
        }
    }
    lemma_issuance_in_at(s1, written_at);
    assert forall|c2: CurrencyIdentifier| c2 != c implies #[trigger] issuance_in(s1, c2) == issuance_in(s0, c2) by {
        if exists|j: int| 0 <= j < s0.len() && s0[j].currency_id == c2 {
            let j = choose|j: int| 0 <= j < s0.len() && s0[j].currency_id == c2;
            lemma_issuance_in_at(s0, j);
            lemma_issuance_in_at(s1, j);
        } else {
            assert forall|j: int| 0 <= j < s1.len() implies s1[j].currency_id != c2 by {
                if j != written_at {
                    assert(s0[j].currency_id != c2);
                }
            }
        }
    }
}

/// The ledger's persisted state.
pub struct Module {
    pub total_issuance_records: Vec<IssuanceRecord>,
    pub balance_records: Vec<BalanceRecord>,
}

impl Module {
    /// Each key is stored at most once.
    pub open spec fn wf(&self) -> bool {
        &&& balance_keys_unique(self.balance_records@)
        &&& issuance_keys_unique(self.total_issuance_records@)
    }

    /// No entry is stamped after block `now`, and `now` lies in the host's
    /// 32-bit block range.
    pub open spec fn synced(&self, now: BlockNumber) -> bool {
        &&& now <= u32::MAX
        &&& forall|c: CurrencyIdentifier, a: AccountId| #[trigger] or_zero(self.stored_balance(c, a)).last_update <= now
        &&& forall|c: CurrencyIdentifier| #[trigger] or_zero(self.stored_issuance(c)).last_update <= now
    }

    pub open spec fn stored_balance(&self, c: CurrencyIdentifier, a: AccountId) -> Option<BalanceEntry> {
        balance_in(self.balance_records@, c, a)
    }

    pub open spec fn stored_issuance(&self, c: CurrencyIdentifier) -> Option<BalanceEntry> {
        issuance_in(self.total_issuance_records@, c)
    }

    /// An empty ledger.
    pub fn new() -> (r: Module)
        ensures
            r.wf(),
            r.balance_records@ == Seq::<BalanceRecord>::empty(),
            r.total_issuance_records@ == Seq::<IssuanceRecord>::empty(),
    {
        Module { total_issuance_records: Vec::new(), balance_records: Vec::new() }
    }

    fn find_balance(&self, c: CurrencyIdentifier, a: AccountId) -> (r: Option<usize>)
        ensures
            match r {
                Some(i) => i < self.balance_records@.len() && balance_key(self.balance_records@[i as int], c, a),
                None => forall|i: int| 0 <= i < self.balance_records@.len() ==> !balance_key(self.balance_records@[i], c, a),
            },
    {
        let mut i: usize = 0;
        while i < self.balance_records.len()
            invariant
                i <= self.balance_records@.len(),
                forall|j: int| 0 <= j < i ==> !balance_key(self.balance_records@[j], c, a),
            decreases self.balance_records@.len() - i,
        {
            let rec = &self.balance_records[i];
            if rec.currency_id == c && rec.who == a {
                return Some(i);
            }
            i = i + 1;
        }
        None
    }

    fn find_issuance(&self, c: CurrencyIdentifier) -> (r: Option<usize>)
        ensures
            match r {
                Some(i) => i < self.total_issuance_records@.len() && self.total_issuance_records@[i as int].currency_id == c,
                None => forall|i: int| 0 <= i < self.total_issuance_records@.len() ==> self.total_issuance_records@[i].currency_id != c,
            },
    {
        let mut i: usize = 0;
        while i < self.total_issuance_records.len()
            invariant
                i <= self.total_issuance_records@.len(),
                forall|j: int| 0 <= j < i ==> self.total_issuance_records@[j].currency_id != c,
            decreases self.total_issuance_records@.len() - i,
        {
            if self.total_issuance_records[i].currency_id == c {
                return Some(i);
            }
            i = i + 1;
        }
        None
    }

    /// The stored balance entry of `(c, a)`, not decayed.
    pub fn get_balance(&self, c: CurrencyIdentifier, a: AccountId) -> (r: Option<BalanceEntry>)
        requires
            self.wf(),
        ensures
            r == self.stored_balance(c, a),
    {
        match self.find_balance(c, a) {
            Some(i) => {
                proof {
                    lemma_balance_in_at(self.balance_records@, i as int);
                }
                Some(self.balance_records[i].entry)
            },
            None => None,
        }
    }

    /// The stored issuance entry of `c`, not decayed.
    pub fn get_issuance(&self, c: CurrencyIdentifier) -> (r: Option<BalanceEntry>)
        requires
            self.wf(),
        ensures
            r == self.stored_issuance(c),
    {
        match self.find_issuance(c) {
            Some(i) => {
                proof {
                    lemma_issuance_in_at(self.total_issuance_records@, i as int);
                }
                Some(self.total_issuance_records[i].entry)
            },
            None => None,
        }
    }
    /// Stores `e` for `(c, a)`; every other entry stays as it was.
    pub fn put_balance(&mut self, c: CurrencyIdentifier, a: AccountId, e: BalanceEntry)
        requires
            old(self).wf(),
        ensures
            final(self).wf(),
            final(self).total_issuance_records@ == old(self).total_issuance_records@,
            balance_written(
                old(self).balance_records@,
                final(self).balance_records@,
                BalanceRecord { currency_id: c, who: a, entry: e },
            ),
            final(self).stored_balance(c, a) == Some(e),
            forall|c2: CurrencyIdentifier, a2: AccountId|
                !(c2 == c && a2 == a) ==> #[trigger] final(self).stored_balance(c2, a2) == old(self).stored_balance(c2, a2),
    {
        let rec = BalanceRecord { currency_id: c, who: a, entry: e };
        let ghost s0 = self.balance_records@;
        match self.find_balance(c, a) {
            Some(i) => {
                self.balance_records.set(i, rec);
                proof {
                    assert(self.balance_records@ == s0.update(i as int, rec));
                }
            },
            None => {
                self.balance_records.push(rec);
            },
        }
        proof {
            lemma_balance_written(s0, self.balance_records@, rec);
        }
    }

    /// Stores `e` as the issuance entry of `c`; every other entry stays as
    /// it was.
    pub fn put_issuance(&mut self, c: CurrencyIdentifier, e: BalanceEntry)
        requires
            old(self).wf(),
        ensures
            final(self).wf(),
            final(self).balance_records@ == old(self).balance_records@,
            issuance_written(
                old(self).total_issuance_records@,
                final(self).total_issuance_records@,
                IssuanceRecord { currency_id: c, entry: e },
            ),
            final(self).stored_issuance(c) == Some(e),
            forall|c2: CurrencyIdentifier| c2 != c ==> #[trigger] final(self).stored_issuance(c2) == old(self).stored_issuance(c2),
    {
        let rec = IssuanceRecord { currency_id: c, entry: e };
        let ghost s0 = self.total_issuance_records@;
        match self.find_issuance(c) {
            Some(i) => {
                self.total_issuance_records.set(i, rec);
                proof {
                    assert(self.total_issuance_records@ == s0.update(i as int, rec));
                }
            },
            None => {
                self.total_issuance_records.push(rec);
            },
        }
        proof {
            lemma_issuance_written(s0, self.total_issuance_records@, rec);
        }
    }
}

/// Builds a fresh ledger for a host to run against.
pub struct ExtBuilder {}

impl Default for ExtBuilder {
    fn default() -> (r: ExtBuilder)
        ensures
            r == (ExtBuilder {}),
    {
        ExtBuilder {}
    }
}

impl ExtBuilder {
    /// A ledger with no entry written: every balance and issuance is zero.
    pub fn build(self) -> (r: Module)
        ensures
            r.wf(),
            r.balance_records@ == Seq::<BalanceRecord>::empty(),
            r.total_issuance_records@ == Seq::<IssuanceRecord>::empty(),
            forall|c: CurrencyIdentifier, a: AccountId| #[trigger] r.stored_balance(c, a) is None,
            forall|c: CurrencyIdentifier| #[trigger] r.stored_issuance(c) is None,
    {
        Module::new()
    }
}

} // verus!
