use encointer_balances::{
    AccountId, BalanceEntry, BalanceType, CurrencyIdentifier, Error, Event, ExtBuilder, Module,
    Runtime,
};
use substrate_fixed::transcendental::exp;
use substrate_fixed::types::I64F64;

const ALICE: AccountId = 1;
const BOB: AccountId = 2;

/// Half-life of one year at one block per five seconds: ln(2) / (86400 / 5 * 356).
const DEMURRAGE_RATE_BITS: i128 = 0x1E3F0A8A973;
const ONE_YEAR: u64 = 86400 / 5 * 356;

fn setup(rate_bits: i128) -> (Runtime, Module, CurrencyIdentifier) {
    let cid = CurrencyIdentifier::default();
    let mut rt = Runtime::new();
    rt.register_currency(cid, BalanceType::from_bits(rate_bits));
    (rt, ExtBuilder::default().build(), cid)
}

fn to_f64(b: BalanceType) -> f64 {
    I64F64::from_bits(b.to_bits()).to_num::<f64>()
}

fn close(a: f64, b: f64, eps: f64) -> bool {
    approx::AbsDiffEq::abs_diff_eq(&a, &b, eps)
}

#[test]
fn issue_should_work() {
    let (rt, mut m, cid) = setup(DEMURRAGE_RATE_BITS);
    assert_eq!(m.issue(&rt, cid, ALICE, BalanceType::from_num(50)), Ok(()));
    assert_eq!(m.balance(&rt, cid, ALICE), Ok(BalanceType::from_num(50)));
    assert_eq!(m.total_issuance(&rt, cid), Ok(BalanceType::from_num(50)));
}

#[test]
fn burn_should_work() {
    let (rt, mut m, cid) = setup(DEMURRAGE_RATE_BITS);
    assert_eq!(m.issue(&rt, cid, ALICE, BalanceType::from_num(50)), Ok(()));
    assert_eq!(m.burn(&rt, cid, ALICE, BalanceType::from_num(20)), Ok(()));
    assert_eq!(m.balance(&rt, cid, ALICE), Ok(BalanceType::from_num(30)));
    assert_eq!(m.total_issuance(&rt, cid), Ok(BalanceType::from_num(30)));
    let before_b = m.get_balance(cid, ALICE);
    let before_t = m.get_issuance(cid);
    assert_eq!(m.burn(&rt, cid, ALICE, BalanceType::from_num(31)), Err(Error::BalanceTooLow));
    assert_eq!(m.get_balance(cid, ALICE), before_b);
    assert_eq!(m.get_issuance(cid), before_t);
}

#[test]
fn transfer_should_work() {
    let (rt, mut m, cid) = setup(DEMURRAGE_RATE_BITS);
    assert_eq!(m.issue(&rt, cid, ALICE, BalanceType::from_num(50)), Ok(()));
    let ev = m.transfer(&rt, ALICE, BOB, cid, BalanceType::from_num(10));
    assert_eq!(m.balance(&rt, cid, ALICE), Ok(BalanceType::from_num(40)));
    assert_eq!(m.balance(&rt, cid, BOB), Ok(BalanceType::from_num(10)));
    assert_eq!(m.total_issuance(&rt, cid), Ok(BalanceType::from_num(50)));
    assert_eq!(ev, Ok(Event::Transferred(cid, ALICE, BOB, BalanceType::from_num(10))));
    let before_a = m.get_balance(cid, ALICE);
    let before_b = m.get_balance(cid, BOB);
    assert_eq!(
        m.transfer(&rt, ALICE, BOB, cid, BalanceType::from_num(60)),
        Err(Error::BalanceTooLow)
    );
    assert_eq!(m.get_balance(cid, ALICE), before_a);
    assert_eq!(m.get_balance(cid, BOB), before_b);
}

#[test]
fn demurrage_should_work() {
    let (mut rt, mut m, cid) = setup(DEMURRAGE_RATE_BITS);
    rt.set_block_number(0);
    assert_eq!(m.issue(&rt, cid, ALICE, BalanceType::from_num(1)), Ok(()));
    rt.set_block_number(1);
    let expected = exp::<I64F64, I64F64>(-I64F64::from_bits(DEMURRAGE_RATE_BITS)).unwrap();
    assert_eq!(m.balance(&rt, cid, ALICE).unwrap().to_bits(), expected.to_bits());
    // one year later
    rt.set_block_number(ONE_YEAR);
    let result = to_f64(m.balance(&rt, cid, ALICE).unwrap());
    assert!(close(result, 0.5, 1.0e-12));
    let result = to_f64(m.total_issuance(&rt, cid).unwrap());
    assert!(close(result, 0.5, 1.0e-12));
}

#[test]
fn transfer_with_demurrage_exceeding_amount_should_fail() {
    let (mut rt, mut m, cid) = setup(DEMURRAGE_RATE_BITS);
    rt.set_block_number(0);
    assert_eq!(m.issue(&rt, cid, ALICE, BalanceType::from_num(100)), Ok(()));
    // one year later
    rt.set_block_number(ONE_YEAR);
    // balance should now be 50
    assert_eq!(
        m.transfer(&rt, ALICE, BOB, cid, BalanceType::from_num(60)),
        Err(Error::BalanceTooLow)
    );
    assert!(close(to_f64(m.balance(&rt, cid, ALICE).unwrap()), 50.0, 1.0e-9));
    assert!(close(to_f64(m.total_issuance(&rt, cid).unwrap()), 50.0, 1.0e-9));
    assert_eq!(m.balance(&rt, cid, BOB), Ok(BalanceType::zero()));
    // nothing was written: the entries still stand at block zero
    assert_eq!(
        m.get_balance(cid, ALICE),
        Some(BalanceEntry { principal: BalanceType::from_num(100), last_update: 0 })
    );
    assert_eq!(m.get_balance(cid, BOB), None);
}
