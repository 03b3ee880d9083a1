//! Fixed-point arithmetic on `FixedU128` values, held as their 18-decimal inner `u128`.
//!
//! A rate, ratio or price is represented by the inner integer of a `FixedU128`:
//! the value `x` stands for the real number `x / 10^18`.  Every operation calls
//! `sp_arithmetic`; the contracts state what its source computes for unsigned
//! operands (all of them round down).

use sp_arithmetic::traits::{CheckedDiv, Saturating};
use sp_arithmetic::{FixedPointNumber, FixedU128, Permill};
use vstd::prelude::*;

verus! {

/// The accuracy of `FixedU128`: the inner value of `1`.
pub const FIXED_ONE: u128 = 1_000_000_000_000_000_000u128;

/// Parts per million of `Permill::one()`.
pub const PERMILL_ONE: u32 = 1_000_000u32;

/// `floor(a * b / c)` when `c` is not zero and the quotient fits in a `u128`.
pub open spec fn mul_div_floor(a: int, b: int, c: int) -> Option<u128> {
    if c == 0 || a * b / c > u128::MAX {
        None
    } else {
        Some((a * b / c) as u128)
    }
}

/// `x * n` for a fixed-point `x` and an integer `n`, rounded down and saturated.
pub open spec fn spec_mul_int(x: u128, n: u128) -> u128 {
    match mul_div_floor(x as int, n as int, FIXED_ONE as int) {
        Some(v) => v,
        None => u128::MAX,
    }
}

/// `n / d` as a fixed-point number, rounded down; `None` when `d == 0` or on overflow.
pub open spec fn spec_from_rational(n: u128, d: u128) -> Option<u128> {
    mul_div_floor(n as int, FIXED_ONE as int, d as int)
}

/// The product of two fixed-point numbers, rounded down and saturated.
pub open spec fn spec_fixed_mul(a: u128, b: u128) -> u128 {
    match mul_div_floor(a as int, b as int, FIXED_ONE as int) {
        Some(v) => v,
        None => u128::MAX,
    }
}

/// The quotient `a / b` of two fixed-point numbers, rounded down.
pub open spec fn spec_fixed_div(a: u128, b: u128) -> Option<u128> {
    mul_div_floor(a as int, FIXED_ONE as int, b as int)
}

/// `1 / a`, rounded down; `None` for zero.
pub open spec fn spec_reciprocal(a: u128) -> Option<u128> {
    spec_fixed_div(FIXED_ONE, a)
}

/// Saturating addition of inner values.
pub open spec fn spec_sat_add(a: u128, b: u128) -> u128 {
    if a + b > u128::MAX { u128::MAX } else { (a + b) as u128 }
}

/// Saturating subtraction of inner values.
pub open spec fn spec_sat_sub(a: u128, b: u128) -> u128 {
    if a < b { 0 } else { (a - b) as u128 }
}

/// `n / d` rounded to the nearest value, halves rounded down (as `FixedU128::from_rational`).
pub open spec fn spec_from_rational_nearest(n: u128, d: u128) -> int {
    let q = (n as int) * (FIXED_ONE as int) / (d as int);
    let r = (n as int) * (FIXED_ONE as int) % (d as int);
    if r > (d as int) / 2 { q + 1 } else { q }
}

/// The number of binary digits of `e`: one more than the position of its highest set bit.
pub open spec fn bit_len(e: nat) -> nat
    decreases e,
{
    if e == 0 { 0 } else { 1 + bit_len(e / 2) }
}

/// Exponentiation by squaring over the first `i` binary digits of `e`, least significant
/// first: the product of the squares taken so far (those whose digit is one) and `base`
/// squared `i` times, every product rounded down and saturated.
pub open spec fn pow_by_squaring(base: u128, e: nat, i: nat) -> (u128, u128)
    decreases i,
{
    if i == 0 {
        (FIXED_ONE, base)
    } else {
        let (acc, sq) = pow_by_squaring(base, e, (i - 1) as nat);
        let digit = (e / vstd::arithmetic::power2::pow2((i - 1) as nat)) % 2;
        (if digit == 1 { spec_fixed_mul(acc, sq) } else { acc }, spec_fixed_mul(sq, sq))
    }
}

/// `base` to the power `exp` as `FixedU128::saturating_pow` computes it: one for the
/// zeroth power; otherwise exponentiation by squaring over the binary digits of `exp`
/// taken as a `u32`.
pub open spec fn spec_fixed_pow(base: u128, exp: usize) -> u128 {
    if exp == 0 {
        FIXED_ONE
    } else {
        let e = (exp as u32) as nat;
        pow_by_squaring(base, e, bit_len(e)).0
    }
}

/// One times one is one, in fixed point.
pub proof fn lemma_one_times_one()
    ensures
        spec_fixed_mul(FIXED_ONE, FIXED_ONE) == FIXED_ONE,
{
    vstd::arithmetic::div_mod::lemma_div_multiples_vanish(FIXED_ONE as int, FIXED_ONE as int);
}

/// Every power of one is one.
pub proof fn lemma_pow_of_one(exp: usize)
    ensures
        spec_fixed_pow(FIXED_ONE, exp) == FIXED_ONE,
{
    if exp != 0 {
        let e = (exp as u32) as nat;
        lemma_pow_by_squaring_one(e, bit_len(e));
    }
}

proof fn lemma_pow_by_squaring_one(e: nat, i: nat)
    ensures
        pow_by_squaring(FIXED_ONE, e, i) == (FIXED_ONE, FIXED_ONE),
    decreases i,
{
    if i > 0 {
        lemma_pow_by_squaring_one(e, (i - 1) as nat);
        lemma_one_times_one();
    }
}

/// Calls `FixedU128::saturating_mul_int` on `from_inner(x)`: `x * n / 10^18` rounded
/// down, or `u128::MAX` when that does not fit.
#[verifier::external_body]
pub(crate) fn fixed_saturating_mul_int(x: u128, n: u128) -> (r: u128)
    ensures
        r == spec_mul_int(x, n),
{
    FixedU128::from_inner(x).saturating_mul_int(n)
}

/// Calls `FixedU128::checked_from_rational(n, d)`: `n * 10^18 / d` rounded down,
/// `None` when `d == 0` or the value does not fit.
#[verifier::external_body]
pub(crate) fn fixed_checked_from_rational(n: u128, d: u128) -> (r: Option<u128>)
    ensures
        r == spec_from_rational(n, d),
{
    match FixedU128::checked_from_rational(n, d) {
        Some(f) => Some(f.into_inner()),
        None => None,
    }
}

/// Calls `Saturating::saturating_mul` on two `FixedU128`: `a * b / 10^18` rounded down,
/// `u128::MAX` on overflow.
#[verifier::external_body]
pub(crate) fn fixed_saturating_mul(a: u128, b: u128) -> (r: u128)
    ensures
        r == spec_fixed_mul(a, b),
{
    FixedU128::from_inner(a).saturating_mul(FixedU128::from_inner(b)).into_inner()
}

/// Calls `CheckedDiv::checked_div` on two `FixedU128`: `a * 10^18 / b` rounded down,
/// `None` when `b == 0` or on overflow.
#[verifier::external_body]
pub(crate) fn fixed_checked_div(a: u128, b: u128) -> (r: Option<u128>)
    ensures
        r == spec_fixed_div(a, b),
{
    match FixedU128::from_inner(a).checked_div(&FixedU128::from_inner(b)) {
        Some(f) => Some(f.into_inner()),
        None => None,
    }
}

/// Calls `FixedPointNumber::reciprocal` on `from_inner(a)`, which is `one().checked_div(a)`.
#[verifier::external_body]
pub(crate) fn fixed_reciprocal(a: u128) -> (r: Option<u128>)
    ensures
        r == spec_reciprocal(a),
{
    match FixedU128::from_inner(a).reciprocal() {
        Some(f) => Some(f.into_inner()),
        None => None,
    }
}

/// Calls `Saturating::saturating_pow` on `from_inner(base)`: one for `exp == 0`;
/// otherwise, with `exp` cast to `u32`, a loop over its binary digits from the least
/// significant to the highest set one that multiplies the result by the running square
/// where the digit is one and then squares, each product a `saturating_mul`.
#[verifier::external_body]
pub(crate) fn fixed_saturating_pow(base: u128, exp: usize) -> (r: u128)
    ensures
        r == spec_fixed_pow(base, exp),
{
    FixedU128::from_inner(base).saturating_pow(exp).into_inner()
}

/// Calls `FixedU128::from_rational(n, d)`, which rounds to the nearest value with halves
/// rounded down and panics on `d == 0` or overflow; `requires` leaves those inputs out.
#[verifier::external_body]
pub(crate) fn fixed_from_rational(n: u128, d: u128) -> (r: u128)
    requires
        d != 0,
        spec_from_rational_nearest(n, d) <= u128::MAX,
    ensures
        r == spec_from_rational_nearest(n, d),
{
    FixedU128::from_rational(n, d).into_inner()
}

/// Calls `From<Permill> for FixedU128` on `Permill::from_parts(parts)`, which is
/// `saturating_from_rational(parts, 1_000_000)`: exactly `parts * 10^12` for `parts`
/// up to one million.
#[verifier::external_body]
pub(crate) fn permill_to_fixed(parts: u32) -> (r: u128)
    requires
        parts <= PERMILL_ONE,
    ensures
        r == parts * 1_000_000_000_000u128,
{
    FixedU128::from(Permill::from_parts(parts)).into_inner()
}

/// Saturating addition of fixed-point numbers (their inner values).
pub fn fixed_saturating_add(a: u128, b: u128) -> (r: u128)
    ensures
        r == spec_sat_add(a, b),
{
    match a.checked_add(b) {
        Some(v) => v,
        None => u128::MAX,
    }
}

/// Saturating subtraction of fixed-point numbers (their inner values).
pub fn fixed_saturating_sub(a: u128, b: u128) -> (r: u128)
    ensures
        r == spec_sat_sub(a, b),
{
    if a < b {
        0
    } else {
        a - b
    }
}


/// `x * n + n`, each step rounded down and saturated: what
/// `FixedPointNumber::saturating_mul_acc_int` computes for an unsigned `x`.
pub fn fixed_saturating_mul_acc_int(x: u128, n: u128) -> (r: u128)
    ensures
        r == spec_sat_add(spec_mul_int(x, n), n),
{
    fixed_saturating_add(fixed_saturating_mul_int(x, n), n)
}

} // verus!
