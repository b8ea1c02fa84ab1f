use encointer_balances::{
    apply_demurrage, AccountId, BalanceEntry, BalanceType, CurrencyIdentifier, Error, ExtBuilder,
    Module, Runtime,
};
use substrate_fixed::types::I64F64;

const A: AccountId = 10;
const B: AccountId = 11;
const C: AccountId = 12;
const HALF_LIFE_RATE_BITS: i128 = 0x1E3F0A8A973;
const YEAR: u64 = 86400 / 5 * 356;

fn fresh(rate_bits: i128) -> (Runtime, Module, CurrencyIdentifier) {
    let cid: CurrencyIdentifier = 7;
    let mut rt = Runtime::new();
    rt.register_currency(cid, BalanceType::from_bits(rate_bits));
    (rt, ExtBuilder::default().build(), cid)
}

fn as_f64(b: BalanceType) -> f64 {
    I64F64::from_bits(b.to_bits()).to_num::<f64>()
}

fn sum_of(m: &Module, rt: &Runtime, cid: CurrencyIdentifier, who: &[AccountId]) -> i128 {
    who.iter().map(|a| m.balance(rt, cid, *a).unwrap().to_bits()).sum()
}

#[test]
fn conservation_over_a_sequence_of_operations() {
    let (mut rt, mut m, cid) = fresh(HALF_LIFE_RATE_BITS);
    let accounts = [A, B, C];
    assert_eq!(m.issue(&rt, cid, A, BalanceType::from_num(1000)), Ok(()));
    rt.set_block_number(1000);
    assert_eq!(m.issue(&rt, cid, B, BalanceType::from_num(300)), Ok(()));
    rt.set_block_number(50_000);
    assert!(m.transfer(&rt, A, C, cid, BalanceType::from_num(200)).is_ok());
    rt.set_block_number(600_000);
    assert_eq!(m.burn(&rt, cid, B, BalanceType::from_num(100)), Ok(()));
    rt.set_block_number(2_000_000);
    assert!(m.slash(&rt, cid, C, BalanceType::from_num(5)).is_ok());
    for t in [2_000_000u64, 3_000_000, YEAR] {
        rt.set_block_number(t);
        let total = m.total_issuance(&rt, cid).unwrap().to_bits();
        let sum = sum_of(&m, &rt, cid, &accounts);
        // each entry decays on its own: they differ by rounding, far below 2^-40 of the total
        assert!((total - sum).abs() <= total >> 40, "total {} sum {}", total, sum);
    }
}

#[test]
fn operations_at_one_block_move_total_and_sum_alike() {
    let (mut rt, mut m, cid) = fresh(HALF_LIFE_RATE_BITS);
    assert_eq!(m.issue(&rt, cid, A, BalanceType::from_num(64)), Ok(()));
    rt.set_block_number(12345);
    let gap = |m: &Module, rt: &Runtime| {
        m.total_issuance(rt, cid).unwrap().to_bits() - sum_of(m, rt, cid, &[A, B])
    };
    let g0 = gap(&m, &rt);
    assert!(m.transfer(&rt, A, B, cid, BalanceType::from_num(3)).is_ok());
    assert_eq!(gap(&m, &rt), g0);
    assert_eq!(m.issue(&rt, cid, B, BalanceType::from_num(9)), Ok(()));
    assert_eq!(gap(&m, &rt), g0);
    assert_eq!(m.burn(&rt, cid, B, BalanceType::from_num(2)), Ok(()));
    assert_eq!(gap(&m, &rt), g0);
    assert!(m.slash(&rt, cid, B, BalanceType::from_num(1000)).is_ok());
    assert_eq!(gap(&m, &rt), g0);
}

#[test]
fn decay_at_half_life_is_one_half() {
    let (mut rt, mut m, cid) = fresh(HALF_LIFE_RATE_BITS);
    assert_eq!(m.issue(&rt, cid, A, BalanceType::from_num(1)), Ok(()));
    rt.set_block_number(YEAR);
    let v = as_f64(m.balance(&rt, cid, A).unwrap());
    assert!((v - 0.5).abs() <= 1.0e-12, "{}", v);
}

#[test]
fn reading_writes_nothing() {
    let (mut rt, mut m, cid) = fresh(HALF_LIFE_RATE_BITS);
    assert_eq!(m.issue(&rt, cid, A, BalanceType::from_num(8)), Ok(()));
    rt.set_block_number(777);
    let _ = m.balance(&rt, cid, A);
    let _ = m.total_issuance(&rt, cid);
    assert_eq!(
        m.get_balance(cid, A),
        Some(BalanceEntry { principal: BalanceType::from_num(8), last_update: 0 })
    );
    assert_eq!(m.get_issuance(cid).unwrap().last_update, 0);
}

#[test]
fn self_transfer_only_advances_the_block() {
    let (mut rt, mut m, cid) = fresh(HALF_LIFE_RATE_BITS);
    assert_eq!(m.issue(&rt, cid, A, BalanceType::from_num(10)), Ok(()));
    rt.set_block_number(100_000);
    let decayed = m.balance(&rt, cid, A).unwrap();
    assert!(m.transfer(&rt, A, A, cid, BalanceType::from_num(9)).is_ok());
    assert_eq!(
        m.get_balance(cid, A),
        Some(BalanceEntry { principal: decayed, last_update: 100_000 })
    );
    assert_eq!(
        m.transfer(&rt, A, A, cid, BalanceType::from_num(10)),
        Err(Error::BalanceTooLow)
    );
    assert_eq!(m.get_balance(cid, A).unwrap().last_update, 100_000);
}

#[test]
fn slash_takes_what_is_there() {
    let (rt, mut m, cid) = fresh(0);
    assert_eq!(m.issue(&rt, cid, A, BalanceType::from_num(30)), Ok(()));
    assert_eq!(m.slash(&rt, cid, A, BalanceType::from_num(12)), Ok(BalanceType::zero()));
    assert_eq!(m.balance(&rt, cid, A), Ok(BalanceType::from_num(18)));
    assert_eq!(m.total_issuance(&rt, cid), Ok(BalanceType::from_num(18)));
    assert_eq!(m.slash(&rt, cid, A, BalanceType::from_num(25)), Ok(BalanceType::from_num(7)));
    assert_eq!(m.balance(&rt, cid, A), Ok(BalanceType::zero()));
    assert_eq!(m.total_issuance(&rt, cid), Ok(BalanceType::zero()));
    assert_eq!(m.slash(&rt, cid, B, BalanceType::from_num(4)), Ok(BalanceType::from_num(4)));
}

#[test]
fn issue_overflow_is_refused_and_writes_nothing() {
    let (rt, mut m, cid) = fresh(0);
    assert_eq!(m.issue(&rt, cid, A, BalanceType::from_bits(i128::MAX - 5)), Ok(()));
    let before = (m.get_balance(cid, B), m.get_issuance(cid));
    assert_eq!(
        m.issue(&rt, cid, B, BalanceType::from_bits(6)),
        Err(Error::TotalIssuanceOverflow)
    );
    assert_eq!((m.get_balance(cid, B), m.get_issuance(cid)), before);
    assert_eq!(m.issue(&rt, cid, B, BalanceType::from_bits(5)), Ok(()));
    assert_eq!(m.total_issuance(&rt, cid), Ok(BalanceType::from_bits(i128::MAX)));
}

#[test]
fn credit_past_the_range_is_refused() {
    let (rt, mut m, cid) = fresh(0);
    m.put_balance(cid, B, BalanceEntry { principal: BalanceType::from_bits(i128::MAX), last_update: 0 });
    assert_eq!(m.issue(&rt, cid, A, BalanceType::from_num(1)), Ok(()));
    assert_eq!(
        m.transfer(&rt, A, B, cid, BalanceType::from_num(1)),
        Err(Error::BalanceOverflow)
    );
    assert_eq!(m.balance(&rt, cid, A), Ok(BalanceType::from_num(1)));
}

#[test]
fn burn_of_more_than_the_balance_fails() {
    let (rt, mut m, cid) = fresh(0);
    assert_eq!(m.burn(&rt, cid, A, BalanceType::from_bits(1)), Err(Error::BalanceTooLow));
    assert_eq!(m.get_balance(cid, A), None);
    assert_eq!(m.get_issuance(cid), None);
}

#[test]
fn update_balance_dispatches_on_sign() {
    let (rt, mut m, cid) = fresh(0);
    assert_eq!(m.update_balance(&rt, cid, A, BalanceType::from_num(5)), Ok(()));
    assert_eq!(m.update_balance(&rt, cid, A, BalanceType::from_num(-2)), Ok(()));
    assert_eq!(m.balance(&rt, cid, A), Ok(BalanceType::from_num(3)));
    assert_eq!(m.total_issuance(&rt, cid), Ok(BalanceType::from_num(3)));
    assert_eq!(
        m.update_balance(&rt, cid, A, BalanceType::from_num(-4)),
        Err(Error::BalanceTooLow)
    );
    assert_eq!(
        m.update_balance(&rt, cid, A, BalanceType::from_bits(i128::MIN)),
        Err(Error::AmountIntoBalanceFailed)
    );
    let before = m.get_balance(cid, A);
    assert_eq!(m.update_balance(&rt, cid, A, BalanceType::zero()), Ok(()));
    assert_eq!(m.get_balance(cid, A), before);
}

#[test]
fn runaway_decay_is_reported() {
    let (mut rt, mut m, cid) = fresh(i128::MAX);
    assert_eq!(m.issue(&rt, cid, A, BalanceType::from_num(1)), Ok(()));
    rt.set_block_number(2);
    assert_eq!(m.balance(&rt, cid, A), Err(Error::DemurrageOverflow));
    assert_eq!(m.issue(&rt, cid, A, BalanceType::from_num(1)), Err(Error::DemurrageOverflow));
}

#[test]
fn unregistered_currency_does_not_decay() {
    let (mut rt, mut m, _) = fresh(HALF_LIFE_RATE_BITS);
    assert_eq!(m.issue(&rt, 99, A, BalanceType::from_num(4)), Ok(()));
    rt.set_block_number(YEAR);
    assert_eq!(m.balance(&rt, 99, A), Ok(BalanceType::from_num(4)));
}

#[test]
fn year_of_decay_then_too_large_a_transfer() {
    let (mut rt, mut m, cid) = fresh(HALF_LIFE_RATE_BITS);
    assert_eq!(m.issue(&rt, cid, A, BalanceType::from_num(100)), Ok(()));
    rt.set_block_number(YEAR);
    assert!((as_f64(m.balance(&rt, cid, A).unwrap()) - 50.0).abs() < 1.0e-9);
    assert!((as_f64(m.total_issuance(&rt, cid).unwrap()) - 50.0).abs() < 1.0e-9);
    assert_eq!(
        m.transfer(&rt, A, B, cid, BalanceType::from_num(60)),
        Err(Error::BalanceTooLow)
    );
    assert!((as_f64(m.balance(&rt, cid, A).unwrap()) - 50.0).abs() < 1.0e-9);
    assert_eq!(m.balance(&rt, cid, B), Ok(BalanceType::zero()));
}

#[test]
fn apply_demurrage_multiplies_by_the_factor() {
    let e = BalanceEntry { principal: BalanceType::from_num(2), last_update: 0 };
    let same = apply_demurrage(e, BalanceType::from_bits(HALF_LIFE_RATE_BITS), 0);
    assert_eq!(same, Some(e));
    let year = apply_demurrage(e, BalanceType::from_bits(HALF_LIFE_RATE_BITS), YEAR).unwrap();
    assert_eq!(year.last_update, YEAR);
    assert!((as_f64(year.principal) - 1.0).abs() < 1.0e-11);
    let none = apply_demurrage(e, BalanceType::zero(), 1000).unwrap();
    assert_eq!(none.principal, BalanceType::from_num(2));
    assert_eq!(none.last_update, 1000);
}

#[test]
fn decay_keeps_the_sign_and_never_grows() {
    let owed = BalanceEntry { principal: BalanceType::from_num(-2), last_update: 0 };
    let later = apply_demurrage(owed, BalanceType::from_bits(HALF_LIFE_RATE_BITS), YEAR).unwrap();
    assert!((as_f64(later.principal) + 1.0).abs() < 1.0e-11);
    assert!(later.principal.to_bits() <= 0);
    assert!(later.principal.to_bits() >= BalanceType::from_num(-2).to_bits());
    let tiny = BalanceEntry { principal: BalanceType::from_bits(1), last_update: 0 };
    let gone = apply_demurrage(tiny, BalanceType::from_bits(HALF_LIFE_RATE_BITS), YEAR).unwrap();
    assert_eq!(gone.principal, BalanceType::zero());
}

#[test]
fn fixed_point_arithmetic() {
    let two = BalanceType::from_num(2);
    let three = BalanceType::from_num(3);
    assert_eq!(two.checked_mul(three), Some(BalanceType::from_num(6)));
    let half = BalanceType::from_bits(1i128 << 63);
    assert_eq!(three.checked_mul(half), Some(BalanceType::from_bits(3i128 << 63)));
    assert_eq!(BalanceType::from_num(-1).checked_mul(BalanceType::from_bits(1)), Some(BalanceType::from_bits(-1)));
    assert_eq!(BalanceType::from_bits(-1).checked_mul(BalanceType::from_bits(1)), Some(BalanceType::from_bits(-1)));
    assert_eq!(BalanceType::from_num(1i64 << 40).checked_mul(BalanceType::from_num(1i64 << 40)), None);
    assert_eq!(two.checked_add(three), Some(BalanceType::from_num(5)));
    assert_eq!(BalanceType::from_bits(i128::MAX).checked_add(BalanceType::from_bits(1)), None);
    assert_eq!(two.checked_sub(three), Some(BalanceType::from_num(-1)));
    assert_eq!(BalanceType::from_bits(i128::MIN).checked_sub(BalanceType::from_bits(1)), None);
    assert_eq!(BalanceType::zero().exp(), Some(BalanceType::from_num(1)));
    let e_minus = BalanceType::from_num(-1).exp().unwrap();
    assert!((as_f64(e_minus) - (-1.0f64).exp()).abs() < 1.0e-15);
    assert_eq!(BalanceType::from_num(1i64 << 62).exp(), None);
}
