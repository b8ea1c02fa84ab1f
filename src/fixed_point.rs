//! Signed fixed-point numbers with 64 integer and 64 fractional bits, held as
//! their raw `i128` bit pattern. The value of a number is `bits / 2^64`.
use vstd::prelude::*;
use substrate_fixed::transcendental::exp;
use substrate_fixed::types::I64F64;

verus! {

/// The bit pattern of the number one.
pub open spec fn one_bits() -> int {
    0x1_0000_0000_0000_0000
}

pub open spec fn in_i128(x: int) -> bool {
    i128::MIN <= x <= i128::MAX
}

/// The product of two fixed-point numbers, rounded towards negative infinity,
/// or `None` where it does not fit.
pub open spec fn mul_spec(a: int, b: int) -> Option<i128> {
    let p = (a * b) / one_bits();
    if in_i128(p) { Some(p as i128) } else { None }
}

/// What `exp` yields on a given exponent, or `None` where it reports overflow.
pub uninterp spec fn exp_of(x: i128) -> Option<i128>;

/// Relies on `substrate_fixed::FixedI128::checked_mul`: the exact product
/// shifted right by the fractional bit count, or `None` on overflow. Its
/// 128-bit fallback trips a debug assertion on a carry of -1, which only two
/// negative operands produce, so one of them must be non-negative.
#[verifier::external_body]
fn mul_bits(a: i128, b: i128) -> (r: Option<i128>)
    requires
        a >= 0 || b >= 0,
    ensures
        r == mul_spec(a as int, b as int),
{
    match I64F64::from_bits(a).checked_mul(I64F64::from_bits(b)) {
        Some(p) => Some(p.to_bits()),
        None => None,
    }
}

/// Relies on `substrate_fixed::transcendental::exp` on `I64F64`: a pure
/// function of the exponent's bits, `Err` where its series overflows. It
/// returns one for zero; for a negative exponent it returns one divided by a
/// series of non-negative terms that is at least one, so at most one and not
/// negative.
#[verifier::external_body]
fn exp_bits(x: i128) -> (r: Option<i128>)
    ensures
        r == exp_of(x),
        x == 0 ==> r == Some(0x1_0000_0000_0000_0000i128),
        x < 0 && r is Some ==> 0 <= r->0 <= 0x1_0000_0000_0000_0000i128,
{
    match exp::<I64F64, I64F64>(I64F64::from_bits(x)) {
        Ok(v) => Some(v.to_bits()),
        Err(()) => None,
    }
}

/// A fixed-point number with 64 fractional bits.
#[derive(Clone, Copy, Debug, PartialEq, Eq, Structural)]
pub struct BalanceType {
    pub bits: i128,
}

impl BalanceType {
    pub fn from_bits(bits: i128) -> (r: BalanceType)
        ensures
            r.bits == bits,
    {
        BalanceType { bits }
    }

    pub fn to_bits(self) -> (r: i128)
        ensures
            r == self.bits,
    {
        self.bits
    }

    pub fn zero() -> (r: BalanceType)
        ensures
            r.bits == 0,
    {
        BalanceType { bits: 0 }
    }

    /// The whole number `n`.
    pub fn from_num(n: i64) -> (r: BalanceType)
        ensures
            r.bits == n as int * one_bits(),
    {
        let wide: i128 = n as i128;
        proof {
            assert(-0x8000_0000_0000_0000 <= wide <= 0x7fff_ffff_ffff_ffff);
            assert(i128::MIN <= wide * 0x1_0000_0000_0000_0000 <= i128::MAX) by (nonlinear_arith)
                requires
                    -0x8000_0000_0000_0000 <= wide <= 0x7fff_ffff_ffff_ffff,
            ;
        }
        BalanceType { bits: wide * 0x1_0000_0000_0000_0000i128 }
    }

    /// The whole number of ticks `n`, as a fixed-point number.
    pub fn from_u32(n: u32) -> (r: BalanceType)
        ensures
            r.bits == n as int * one_bits(),
    {
        BalanceType::from_num(n as i64)
    }

    pub fn checked_add(self, rhs: BalanceType) -> (r: Option<BalanceType>)
        ensures
            r == (if in_i128(self.bits + rhs.bits) {
                Some(BalanceType { bits: (self.bits + rhs.bits) as i128 })
            } else {
                None::<BalanceType>
            }),
    {
        match self.bits.checked_add(rhs.bits) {
            Some(b) => Some(BalanceType { bits: b }),
            None => None,
        }
    }

    pub fn checked_sub(self, rhs: BalanceType) -> (r: Option<BalanceType>)
        ensures
            r == (if in_i128(self.bits - rhs.bits) {
                Some(BalanceType { bits: (self.bits - rhs.bits) as i128 })
            } else {
                None::<BalanceType>
            }),
    {
        match self.bits.checked_sub(rhs.bits) {
            Some(b) => Some(BalanceType { bits: b }),
            None => None,
        }
    }

    /// The product, rounded towards negative infinity; one factor must not
    /// be negative.
    pub fn checked_mul(self, rhs: BalanceType) -> (r: Option<BalanceType>)
        requires
            self.bits >= 0 || rhs.bits >= 0,
        ensures
            r == (match mul_spec(self.bits as int, rhs.bits as int) {
                Some(b) => Some(BalanceType { bits: b }),
                None => None::<BalanceType>,
            }),
    {
        match mul_bits(self.bits, rhs.bits) {
            Some(b) => Some(BalanceType { bits: b }),
            None => None,
        }
    }

    /// `e` raised to this number, or `None` where the series overflows.
    pub fn exp(self) -> (r: Option<BalanceType>)
        ensures
            r == (match exp_of(self.bits) {
                Some(b) => Some(BalanceType { bits: b }),
                None => None::<BalanceType>,
            }),
            self.bits == 0 ==> r == Some(BalanceType { bits: one_bits() as i128 }),
            self.bits <= 0 && r is Some ==> 0 <= r->0.bits <= one_bits(),
    {
        match exp_bits(self.bits) {
            Some(b) => Some(BalanceType { bits: b }),
            None => None,
        }
    }
}

} // verus!
