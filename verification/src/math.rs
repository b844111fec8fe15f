//! Fixed-width arithmetic of the contracts: 128-bit ratios, 256-bit
//! intermediates and the 18-decimal fixed-point `Decimal`.
use cosmwasm_std::Uint256;
use vstd::prelude::*;

verus! {

/// 2^128.
pub open spec fn pow128() -> int {
    340282366920938463463374607431768211456int
}

/// 2^256.
pub open spec fn pow256() -> int {
    pow128() * pow128()
}

/// Atomics of one whole unit of a `Decimal` (18 decimal places).
pub const DECIMAL_FRACTIONAL: u128 = 1_000_000_000_000_000_000;

/// One whole unit, as a spec integer.
pub open spec fn unit() -> int {
    1_000_000_000_000_000_000
}

/// Basis points in one whole.
pub const MAX_BPS: u16 = 10_000;

/// `floor(value * numerator / denominator)`.
pub open spec fn ratio(value: int, numerator: int, denominator: int) -> int {
    value * numerator / denominator
}

/// `cosmwasm_std::Uint128::checked_multiply_ratio`: the floor of
/// `value * numerator / denominator`, taken through a 256-bit product. The crate
/// returns an error when the denominator is zero or when the quotient does not
/// fit in 128 bits, and the exact floor otherwise.
#[verifier::external_body]
pub(crate) fn uint128_multiply_ratio(value: u128, numerator: u128, denominator: u128) -> (r: Option<u128>)
    ensures
        denominator == 0 ==> r is None,
        denominator != 0 ==> (r is Some <==> ratio(value as int, numerator as int, denominator as int) <= u128::MAX),
        r matches Some(v) ==> v == ratio(value as int, numerator as int, denominator as int),
{
    match cosmwasm_std::Uint128::new(value).checked_multiply_ratio(numerator, denominator) {
        Ok(v) => Some(v.u128()),
        Err(_) => None,
    }
}

/// `value * numerator / denominator` with a 256-bit intermediate; `None` when the
/// denominator is zero or the quotient needs more than 128 bits.
pub fn checked_ratio(value: u128, numerator: u128, denominator: u128) -> (r: Option<u128>)
    ensures
        r is Some <==> (denominator != 0 && ratio(value as int, numerator as int, denominator as int) <= u128::MAX),
        r matches Some(v) ==> v == ratio(value as int, numerator as int, denominator as int),
{
    uint128_multiply_ratio(value, numerator, denominator)
}

/// A 256-bit unsigned integer as two 128-bit halves.
#[derive(Clone, Copy, Debug, PartialEq, Eq, Structural)]
pub struct Wide {
    pub hi: u128,
    pub lo: u128,
}

impl Wide {
    pub open spec fn value(self) -> int {
        self.hi * pow128() + self.lo
    }

    pub proof fn lemma_bounds(self)
        ensures
            0 <= self.value() < pow256(),
    {
        assert(self.hi * pow128() <= (pow128() - 1) * pow128());
    }

    pub fn from_u128(x: u128) -> (r: Wide)
        ensures
            r.value() == x,
    {
        Wide { hi: 0, lo: x }
    }

    pub fn is_zero(&self) -> (r: bool)
        ensures
            r == (self.value() == 0),
    {
        self.hi == 0 && self.lo == 0
    }

    pub fn lt(&self, other: &Wide) -> (r: bool)
        ensures
            r == (self.value() < other.value()),
    {
        self.hi < other.hi || (self.hi == other.hi && self.lo < other.lo)
    }

    pub fn le(&self, other: &Wide) -> (r: bool)
        ensures
            r == (self.value() <= other.value()),
    {
        !other.lt(self)
    }

    /// The value as a `u128`, when it fits.
    pub fn to_u128(&self) -> (r: Option<u128>)
        ensures
            r is Some <==> self.value() <= u128::MAX,
            r matches Some(v) ==> v == self.value(),
    {
        if self.hi == 0 {
            Some(self.lo)
        } else {
            None
        }
    }

    /// Sum, or `None` when it needs more than 256 bits.
    pub fn checked_add(&self, other: &Wide) -> (r: Option<Wide>)
        ensures
            r is Some <==> self.value() + other.value() < pow256(),
            r matches Some(s) ==> s.value() == self.value() + other.value(),
    {
        let (lo, carry) = if self.lo <= u128::MAX - other.lo {
            (self.lo + other.lo, 0u128)
        } else {
            (self.lo - (u128::MAX - other.lo) - 1, 1u128)
        };
        if self.hi > u128::MAX - other.hi || self.hi + other.hi > u128::MAX - carry {
            assert(self.hi + other.hi + carry >= pow128());
            assert((self.hi + other.hi + carry) * pow128() >= pow128() * pow128());
            None
        } else {
            Some(Wide { hi: self.hi + other.hi + carry, lo })
        }
    }

    /// Difference of a value and a smaller one.
    pub fn sub(&self, other: &Wide) -> (r: Wide)
        requires
            other.value() <= self.value(),
        ensures
            r.value() == self.value() - other.value(),
    {
        if self.lo >= other.lo {
            assert(self.hi >= other.hi);
            Wide { hi: self.hi - other.hi, lo: self.lo - other.lo }
        } else {
            assert(self.hi > other.hi);
            Wide { hi: self.hi - other.hi - 1, lo: u128::MAX - (other.lo - self.lo) + 1 }
        }
    }

    /// Absolute difference.
    pub fn abs_diff(&self, other: &Wide) -> (r: Wide)
        ensures
            r.value() == if self.value() >= other.value() { self.value() - other.value() } else { other.value() - self.value() },
    {
        if other.le(self) {
            self.sub(other)
        } else {
            other.sub(self)
        }
    }
}

/// `Uint256::checked_mul`: the product, or an error when it needs
/// more than 256 bits.
#[verifier::external_body]
pub(crate) fn uint256_checked_mul(a: Wide, b: Wide) -> (r: Option<Wide>)
    ensures
        r is Some <==> a.value() * b.value() < pow256(),
        r matches Some(p) ==> p.value() == a.value() * b.value(),
{
    let x: [u8; 32] = [a.hi.to_be_bytes(), a.lo.to_be_bytes()].concat().try_into().unwrap();
    let y: [u8; 32] = [b.hi.to_be_bytes(), b.lo.to_be_bytes()].concat().try_into().unwrap();
    match Uint256::from_be_bytes(x).checked_mul(Uint256::from_be_bytes(y)) {
        Ok(p) => {
            let z = p.to_be_bytes();
            Some(Wide { hi: u128::from_be_bytes(z[..16].try_into().unwrap()), lo: u128::from_be_bytes(z[16..].try_into().unwrap()) })
        },
        Err(_) => None,
    }
}

/// `Uint256::checked_div`: the floor of the quotient, or an error
/// when the divisor is zero.
#[verifier::external_body]
pub(crate) fn uint256_checked_div(a: Wide, b: Wide) -> (r: Option<Wide>)
    ensures
        r is Some <==> b.value() != 0,
        r matches Some(q) ==> q.value() == a.value() / b.value(),
{
    let x: [u8; 32] = [a.hi.to_be_bytes(), a.lo.to_be_bytes()].concat().try_into().unwrap();
    let y: [u8; 32] = [b.hi.to_be_bytes(), b.lo.to_be_bytes()].concat().try_into().unwrap();
    match Uint256::from_be_bytes(x).checked_div(Uint256::from_be_bytes(y)) {
        Ok(q) => {
            let z = q.to_be_bytes();
            Some(Wide { hi: u128::from_be_bytes(z[..16].try_into().unwrap()), lo: u128::from_be_bytes(z[16..].try_into().unwrap()) })
        },
        Err(_) => None,
    }
}

/// `Uint256::checked_multiply_ratio`: the floor of
/// `a * numerator / denominator` through a 512-bit product; an error when the
/// denominator is zero or the quotient needs more than 256 bits.
#[verifier::external_body]
pub(crate) fn uint256_checked_multiply_ratio(a: Wide, numerator: u128, denominator: Wide) -> (r: Option<Wide>)
    ensures
        r is Some <==> (denominator.value() != 0 && ratio(a.value(), numerator as int, denominator.value()) < pow256()),
        r matches Some(q) ==> q.value() == ratio(a.value(), numerator as int, denominator.value()),
{
    let x: [u8; 32] = [a.hi.to_be_bytes(), a.lo.to_be_bytes()].concat().try_into().unwrap();
    let d: [u8; 32] = [denominator.hi.to_be_bytes(), denominator.lo.to_be_bytes()].concat().try_into().unwrap();
    match Uint256::from_be_bytes(x).checked_multiply_ratio(Uint256::from(numerator), Uint256::from_be_bytes(d)) {
        Ok(q) => {
            let z = q.to_be_bytes();
            Some(Wide { hi: u128::from_be_bytes(z[..16].try_into().unwrap()), lo: u128::from_be_bytes(z[16..].try_into().unwrap()) })
        },
        Err(_) => None,
    }
}

/// The exact 256-bit product of two 128-bit values.
pub fn wide_mul(a: u128, b: u128) -> (r: Wide)
    ensures
        r.value() == a * b,
{
    proof {
        assert(a * b <= u128::MAX * u128::MAX) by (nonlinear_arith)
            requires a <= u128::MAX, b <= u128::MAX, 0 <= a, 0 <= b;
        assert(u128::MAX * u128::MAX < pow256()) by (nonlinear_arith);
        assert(0 <= a * b) by (nonlinear_arith) requires 0 <= a, 0 <= b;
    }
    match uint256_checked_mul(Wide::from_u128(a), Wide::from_u128(b)) {
        Some(p) => p,
        None => Wide { hi: 0, lo: 0 },
    }
}

/// An 18-decimal fixed-point number, held as its atomics.
#[derive(Clone, Copy, Debug, PartialEq, Eq, Structural)]
pub struct Decimal {
    pub atomics: u128,
}

impl Decimal {
    pub fn zero() -> (r: Decimal)
        ensures
            r.atomics == 0,
    {
        Decimal { atomics: 0 }
    }

    pub fn one() -> (r: Decimal)
        ensures
            r.atomics == unit(),
    {
        Decimal { atomics: DECIMAL_FRACTIONAL }
    }

    pub fn raw(atomics: u128) -> (r: Decimal)
        ensures
            r.atomics == atomics,
    {
        Decimal { atomics }
    }

    /// `x` percent.
    pub fn percent(x: u64) -> (r: Decimal)
        ensures
            r.atomics == x * 10_000_000_000_000_000,
    {
        Decimal { atomics: x as u128 * 10_000_000_000_000_000 }
    }

    pub fn is_zero(&self) -> (r: bool)
        ensures
            r == (self.atomics == 0),
    {
        self.atomics == 0
    }

    /// `numerator / denominator`, or `None` on a zero denominator or overflow.
    pub fn checked_from_ratio(numerator: u128, denominator: u128) -> (r: Option<Decimal>)
        ensures
            r is Some <==> (denominator != 0 && ratio(numerator as int, unit(), denominator as int) <= u128::MAX),
            r matches Some(d) ==> d.atomics == ratio(numerator as int, unit(), denominator as int),
    {
        match uint128_multiply_ratio(numerator, DECIMAL_FRACTIONAL, denominator) {
            Some(a) => Some(Decimal { atomics: a }),
            None => None,
        }
    }

    /// `self / other`, or `None` on a zero divisor or overflow.
    pub fn checked_div(&self, other: &Decimal) -> (r: Option<Decimal>)
        ensures
            r is Some <==> (other.atomics != 0 && ratio(self.atomics as int, unit(), other.atomics as int) <= u128::MAX),
            r matches Some(d) ==> d.atomics == ratio(self.atomics as int, unit(), other.atomics as int),
    {
        Decimal::checked_from_ratio(self.atomics, other.atomics)
    }

    /// `self * other` (floored), or `None` on overflow.
    pub fn checked_mul(&self, other: &Decimal) -> (r: Option<Decimal>)
        ensures
            r is Some <==> ratio(self.atomics as int, other.atomics as int, unit()) <= u128::MAX,
            r matches Some(d) ==> d.atomics == ratio(self.atomics as int, other.atomics as int, unit()),
    {
        match uint128_multiply_ratio(self.atomics, other.atomics, DECIMAL_FRACTIONAL) {
            Some(a) => Some(Decimal { atomics: a }),
            None => None,
        }
    }

    pub fn checked_add(&self, other: &Decimal) -> (r: Option<Decimal>)
        ensures
            r is Some <==> self.atomics + other.atomics <= u128::MAX,
            r matches Some(d) ==> d.atomics == self.atomics + other.atomics,
    {
        if self.atomics <= u128::MAX - other.atomics {
            Some(Decimal { atomics: self.atomics + other.atomics })
        } else {
            None
        }
    }

    /// The whole part.
    pub fn to_uint_floor(&self) -> (r: u128)
        ensures
            r == (self.atomics as int) / unit(),
    {
        self.atomics / DECIMAL_FRACTIONAL
    }

    /// `1 / self`, or `None` for zero.
    pub fn inv(&self) -> (r: Option<Decimal>)
        ensures
            r is Some <==> self.atomics != 0,
            r matches Some(d) ==> d.atomics == (unit() * unit()) / (self.atomics as int),
    {
        if self.atomics == 0 {
            None
        } else {
            Some(Decimal { atomics: 1_000_000_000_000_000_000_000_000_000_000_000_000u128 / self.atomics })
        }
    }
}

/// An integer amount times a `Decimal`, floored; `None` on overflow.
pub fn mul_amount(amount: u128, d: Decimal) -> (r: Option<u128>)
    ensures
        r is Some <==> ratio(amount as int, d.atomics as int, unit()) <= u128::MAX,
        r matches Some(v) ==> v == ratio(amount as int, d.atomics as int, unit()),
{
    if amount == 0 || d.atomics == 0 {
        assert(amount * d.atomics == 0) by (nonlinear_arith) requires amount == 0 || d.atomics == 0;
        Some(0)
    } else {
        uint128_multiply_ratio(amount, d.atomics, DECIMAL_FRACTIONAL)
    }
}

/// A fraction at most one of an amount is at most the amount.
pub proof fn lemma_ratio_le(value: int, part: int, whole: int)
    requires
        0 <= value,
        0 <= part <= whole,
        whole > 0,
    ensures
        0 <= ratio(value, part, whole) <= value,
{
    assert(value * part <= value * whole) by (nonlinear_arith)
        requires 0 <= value, part <= whole;
    assert(value * whole / whole == value) by (nonlinear_arith) requires whole > 0;
    assert(value * part / whole <= value * whole / whole) by (nonlinear_arith)
        requires value * part <= value * whole, whole > 0;
    assert(value * part / whole >= 0) by (nonlinear_arith) requires value * part >= 0, whole > 0;
    assert(value * part >= 0) by (nonlinear_arith) requires value >= 0, part >= 0;
}

} // verus!
