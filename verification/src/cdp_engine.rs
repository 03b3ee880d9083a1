//! The CDP engine: compound interest on debit per stability fee, the conversion
//! between debit units and debit value, and the risk checks of positions.

use crate::assets::{Assets, NATIVE, STABLE};
use crate::traits::{AuctionManager, DispatchError, LiquidationTarget, ModuleError, PriceProvider};
use crate::auction;
use crate::honzon_loans;
use crate::adjustment::BalanceAdjustment;
use crate::cdp_treasury;
use crate::fixed::{
    fixed_saturating_mul_acc_int,
    fixed_checked_from_rational, fixed_reciprocal, fixed_saturating_add, fixed_saturating_mul, fixed_saturating_mul_int,
    fixed_saturating_pow, fixed_saturating_sub, spec_fixed_pow, lemma_pow_of_one, spec_fixed_mul, spec_from_rational, spec_mul_int,
    spec_reciprocal, spec_sat_add, spec_sat_sub, FIXED_ONE,
};
use crate::scale::{decode_fixed, encode_fixed, le_bytes, le_value, lemma_le_value_bound, lemma_pow256_16, lemma_u128_bytes_roundtrip};
use crate::store::{Store, WideStore};
use vstd::prelude::*;

verus! {

/// A compound factor: the ratio of debit value to debit units, never below one.
#[derive(Clone, Copy, Debug, PartialEq, Eq, Structural)]
pub struct CompoundFactor {
    pub inner: u128,
}

/// Why a compound factor cannot be made.
#[derive(Clone, Copy, Debug, PartialEq, Eq, Structural)]
pub enum CompoundFactorError {
    /// The value is below one.
    LessThanOne,
}

impl CompoundFactor {
    /// At least one.
    pub open spec fn wf(&self) -> bool {
        self.inner >= FIXED_ONE
    }

    /// A factor from a fixed-point value, unless it is below one.
    pub fn try_from_inner(inner: u128) -> (r: Result<Self, CompoundFactorError>)
        ensures
            inner < FIXED_ONE ==> r == Err::<Self, CompoundFactorError>(CompoundFactorError::LessThanOne),
            inner >= FIXED_ONE ==> r == Ok::<Self, CompoundFactorError>(CompoundFactor { inner }),
    {
        if inner < FIXED_ONE {
            return Err(CompoundFactorError::LessThanOne);
        }
        Ok(CompoundFactor { inner })
    }

    /// The factor one.
    pub fn one() -> (r: Self)
        ensures
            r.inner == FIXED_ONE,
            r.wf(),
    {
        CompoundFactor { inner: FIXED_ONE }
    }

    /// A factor from a value known to be at least one.
    pub fn from_inner_unchecked(inner: u128) -> (r: Self)
        requires
            inner >= FIXED_ONE,
        ensures
            r.inner == inner,
            r.wf(),
    {
        CompoundFactor { inner }
    }

    /// The factor plus `other`, saturated; still at least one.
    pub fn saturating_add(self, other: u128) -> (r: Self)
        requires
            self.wf(),
        ensures
            r.inner == spec_sat_add(self.inner, other),
            r.wf(),
    {
        CompoundFactor { inner: fixed_saturating_add(self.inner, other) }
    }

    /// The fixed-point value.
    pub fn into_inner(self) -> (r: u128)
        ensures
            r == self.inner,
    {
        self.inner
    }

    /// `1 / factor`, which exists since the factor is at least one.
    pub fn reciprocal(self) -> (r: u128)
        requires
            self.wf(),
        ensures
            spec_reciprocal(self.inner) == Some(r),
            r <= FIXED_ONE,
    {
        proof {
            let f = self.inner as int;
            let o = FIXED_ONE as int;
            assert(o * o / f <= o) by (nonlinear_arith)
                requires f >= o, o > 0;
            assert(o * o / f >= 0) by (nonlinear_arith)
                requires f >= o, o > 0;
        }
        match fixed_reciprocal(self.inner) {
            Some(v) => v,
            None => 0,
        }
    }

    /// `factor * n`, rounded down and saturated.
    pub fn saturating_mul_int(self, n: u128) -> (r: u128)
        ensures
            r == spec_mul_int(self.inner, n),
    {
        fixed_saturating_mul_int(self.inner, n)
    }

    /// `factor * rate`, rounded down and saturated.
    pub fn saturating_mul(self, rate: u128) -> (r: u128)
        ensures
            r == spec_fixed_mul(self.inner, rate),
    {
        fixed_saturating_mul(self.inner, rate)
    }

    /// `n / d` as a factor, unless undefined or below one.
    pub fn checked_from_rational(n: u128, d: u128) -> (r: Option<Self>)
        ensures
            r == (match spec_from_rational(n, d) {
                Some(v) => if v >= FIXED_ONE { Some(CompoundFactor { inner: v }) } else { None::<CompoundFactor> },
                None => None::<CompoundFactor>,
            }),
    {
        match fixed_checked_from_rational(n, d) {
            Some(v) => if v >= FIXED_ONE { Some(CompoundFactor { inner: v }) } else { None },
            None => None,
        }
    }
}

/// Why bytes do not decode to a compound factor.
#[derive(Clone, Copy, Debug, PartialEq, Eq, Structural)]
pub enum CompoundFactorDecodeError {
    /// Fewer than the sixteen bytes of a fixed-point value.
    NotEnoughData,
    /// The value decoded is below one.
    LessThanOne,
}

/// What decoding the bytes `s` as a compound factor gives: the fixed-point value of
/// their first sixteen bytes, when there are sixteen and it is at least one.
pub open spec fn spec_decode_compound(s: Seq<u8>) -> Result<CompoundFactor, CompoundFactorDecodeError> {
    if s.len() < 16 {
        Err(CompoundFactorDecodeError::NotEnoughData)
    } else if le_value(s.take(16)) < FIXED_ONE {
        Err(CompoundFactorDecodeError::LessThanOne)
    } else {
        Ok(CompoundFactor { inner: le_value(s.take(16)) as u128 })
    }
}

impl CompoundFactor {
    /// The encoding of the factor: that of its fixed-point value.
    pub fn encode(&self) -> (r: Vec<u8>)
        ensures
            r@ == le_bytes(self.inner as nat, 16),
    {
        encode_fixed(self.inner)
    }

    /// Decode a factor from the front of `bytes`, refusing a value below one.
    pub fn decode(bytes: &[u8]) -> (r: Result<Self, CompoundFactorDecodeError>)
        ensures
            r == spec_decode_compound(bytes@),
            r matches Ok(f) ==> f.wf(),
    {
        match decode_fixed(bytes) {
            None => Err(CompoundFactorDecodeError::NotEnoughData),
            Some(inner) => {
                proof {
                    lemma_le_value_bound(bytes@.take(16));
                    lemma_pow256_16();
                }
                if inner < FIXED_ONE {
                    Err(CompoundFactorDecodeError::LessThanOne)
                } else {
                    Ok(CompoundFactor { inner })
                }
            },
        }
    }
}

/// Rounding down twice loses: with `f >= o`, `v = f * b / o` and `r = o * o / f`
/// (floors), `v >= b` and `r * v / o <= b`.
proof fn lemma_conversion_round_trip_int(f: int, b: int, o: int, v: int, r: int)
    requires
        o > 0,
        f >= o,
        b >= 0,
        v == f * b / o,
        r == o * o / f,
    ensures
        v >= b,
        r * v / o <= b,
{
    assert(v * o <= f * b) by (nonlinear_arith) requires v == f * b / o, o > 0;
    assert(f * b >= o * b) by (nonlinear_arith) requires f >= o, b >= 0;
    assert(v >= b) by (nonlinear_arith) requires v == f * b / o, f * b >= o * b, o > 0;
    assert(r * f <= o * o) by (nonlinear_arith) requires r == o * o / f, f > 0;
    assert(r >= 0) by (nonlinear_arith) requires r == o * o / f, f > 0, o > 0;
    assert(v >= 0);
    assert((r * f) * (v * o) <= (o * o) * (f * b)) by (nonlinear_arith)
        requires r * f <= o * o, v * o <= f * b, r >= 0, f > 0, v >= 0, o > 0;
    assert(r * v <= o * b) by (nonlinear_arith)
        requires (r * f) * (v * o) <= (o * o) * (f * b), f > 0, o > 0;
    assert(r * v / o <= b) by (nonlinear_arith) requires r * v <= o * b, o > 0;
}

/// Integer form of converting a value `v` to units `u` at a factor `f` of at least one
/// (through the rounded-down reciprocal `r`) and back to a value `w`: `w` is at most
/// `v`, and below it by less than `f * (v + o) / o^2 + 1`.
proof fn lemma_value_round_trip_int(f: int, v: int, o: int, r: int, u: int, w: int)
    requires
        o > 0,
        f >= o,
        v >= 0,
        r == o * o / f,
        u == r * v / o,
        w == f * u / o,
    ensures
        w <= v,
        (v - w) * o * o <= f * (v + o) + o * o,
        u >= 0,
        f * u / o <= v,
{
    assert(r * f <= o * o) by (nonlinear_arith) requires r == o * o / f, f > 0;
    assert(r * f > o * o - f) by (nonlinear_arith) requires r == o * o / f, f > 0;
    assert(r >= 0) by (nonlinear_arith) requires r == o * o / f, f > 0, o > 0;
    assert(u >= 0) by (nonlinear_arith) requires u == r * v / o, r >= 0, v >= 0, o > 0;
    assert(u * o <= r * v) by (nonlinear_arith) requires u == r * v / o, o > 0;
    assert(u * o > r * v - o) by (nonlinear_arith) requires u == r * v / o, o > 0;
    assert(w * o <= f * u) by (nonlinear_arith) requires w == f * u / o, o > 0;
    assert(w * o > f * u - o) by (nonlinear_arith) requires w == f * u / o, o > 0;
    assert(f * (u * o) <= f * (r * v)) by (nonlinear_arith) requires u * o <= r * v, f > 0;
    assert((r * f) * v <= (o * o) * v) by (nonlinear_arith) requires r * f <= o * o, v >= 0;
    assert(f * u * o <= o * o * v) by (nonlinear_arith)
        requires f * (u * o) <= f * (r * v), (r * f) * v <= (o * o) * v;
    assert(f * u <= o * v) by (nonlinear_arith) requires f * u * o <= o * o * v, o > 0;
    assert(w <= v) by (nonlinear_arith) requires w * o <= f * u, f * u <= o * v, o > 0;
    assert(f * u / o <= v) by (nonlinear_arith) requires f * u <= o * v, o > 0;
    assert(f * (u * o) > f * (r * v - o)) by (nonlinear_arith) requires u * o > r * v - o, f > 0;
    assert((r * f) * v >= (o * o - f) * v) by (nonlinear_arith) requires r * f > o * o - f, v >= 0;
    assert(w * o * o > f * u * o - o * o) by (nonlinear_arith) requires w * o > f * u - o, o > 0;
    assert(w * o * o > o * o * v - f * v - f * o - o * o) by (nonlinear_arith)
        requires
            w * o * o > f * u * o - o * o,
            f * (u * o) > f * (r * v - o),
            (r * f) * v >= (o * o - f) * v;
    assert((v - w) * o * o <= f * (v + o) + o * o) by (nonlinear_arith)
        requires w * o * o > o * o * v - f * v - f * o - o * o;
}

/// Decoding the encoding of a compound factor gives the factor back.
pub proof fn lemma_compound_factor_codec_roundtrip(f: CompoundFactor)
    requires
        f.wf(),
    ensures
        spec_decode_compound(le_bytes(f.inner as nat, 16)) == Ok::<CompoundFactor, CompoundFactorDecodeError>(f),
{
    lemma_u128_bytes_roundtrip(f.inner);
}

/// The risk parameters of the collateral.
#[derive(Clone, Copy, Debug, PartialEq, Eq, Structural)]
pub struct RiskManagementParams {
    /// The cap on the total debit value.
    pub maximum_total_debit_value: u128,
    /// The interest rate per second (fixed-point).
    pub interest_rate_per_sec: u128,
    /// Below this collateral ratio a position can be liquidated (fixed-point).
    pub liquidation_ratio: u128,
    /// The penalty on liquidated debit (fixed-point rate).
    pub liquidation_penalty: u128,
    /// The ratio a position must keep when adjusted, if set.
    pub required_collateral_ratio: Option<u128>,
}

/// Errors of the CDP engine.
#[derive(Clone, Copy, Debug, PartialEq, Eq, Structural)]
pub enum Error {
    ExceedDebitValueHardCap,
    BelowRequiredCollateralRatio,
    BelowLiquidationRatio,
    MustBeSafe,
    RemainDebitValueTooSmall,
    CollateralAmountBelowMinimum,
    InvalidFeedPrice,
    NoDebitValue,
    AlreadyShutdown,
    MustAfterShutdown,
    CollateralNotEnough,
    NotEnoughDebitDecrement,
    LiquidationFailed,
    InvalidRate,
}

/// Events of the CDP engine.
#[derive(Clone, Copy, Debug, PartialEq, Eq, Structural)]
pub enum Event {
    LiquidateUnsafeCDP { owner: u64, collateral_amount: u128, bad_debt_value: u128, target_amount: u128 },
    SettleCDPInDebit { owner: u64 },
    CloseCDPInDebitByDEX { owner: u64, sold_collateral_amount: u128, refund_collateral_amount: u128, debit_value: u128 },
}

/// `(1 + rate)^secs - 1`, every step saturating, the power as `FixedU128::saturating_pow` computes it.
pub open spec fn spec_compound_interest_rate(rate_per_sec: u128, secs: u64) -> u128 {
    let e: usize = if secs > usize::MAX { usize::MAX } else { secs as usize };
    spec_sat_sub(spec_fixed_pow(spec_sat_add(rate_per_sec, FIXED_ONE), e), FIXED_ONE)
}

/// The collateral ratio: the value of the collateral at `price` over the debit value,
/// the largest ratio when that is not representable (no debit).
pub open spec fn spec_collateral_ratio(collateral: u128, price: u128, debit_value: u128) -> u128 {
    match spec_from_rational(spec_mul_int(price, collateral), debit_value) {
        Some(r) => r,
        None => u128::MAX,
    }
}

/// The sum of the debit values of the totals per fee, saturating.
pub open spec fn spec_total_debit_value(s: Seq<(u128, u128)>, factors: Map<u128, u128>, default_factor: u128) -> u128
    decreases s.len(),
{
    if s.len() == 0 {
        0
    } else {
        let e = s.last();
        let f = if factors.dom().contains(e.0) { factors[e.0] } else { default_factor };
        spec_sat_add(spec_total_debit_value(s.drop_last(), factors, default_factor), spec_mul_int(f, e.1))
    }
}


/// The state that interest accrual changes: compound factors, the stable coin issuance
/// and the treasury's stable balance, and the count of fees touched.
pub type AccrualState = (Map<u128, u128>, u128, u128, u32);

/// Accrue interest on one entry `(fee, units)` over `interval` seconds: the factor of
/// the fee (initialised to `default_factor`) grows by its product with the compounded
/// rate, and that growth times the units is issued to the treasury as surplus; when the
/// issue would overflow, only the initialisation stays.
pub open spec fn accrue_one(st: AccrualState, e: (u128, u128), interval: u64, default_factor: u128) -> AccrualState {
    let (factors, issuance, free, touched) = st;
    let (fee, units) = e;
    let rate = spec_compound_interest_rate(fee, interval);
    if units == 0 || rate == 0 {
        st
    } else {
        let f = if factors.dom().contains(fee) { factors[fee] } else { default_factor };
        let inc = spec_fixed_mul(f, rate);
        let amount = spec_mul_int(inc, units);
        if issuance + amount <= u128::MAX && free + amount <= u128::MAX {
            (factors.insert(fee, spec_sat_add(f, inc)), (issuance + amount) as u128, (free + amount) as u128,
                if touched == u32::MAX { touched } else { (touched + 1) as u32 })
        } else {
            (factors.insert(fee, f), issuance, free, touched)
        }
    }
}

/// Rounding down the sum of two non-negative quotients loses less than one.
pub proof fn lemma_floor_of_sum(x: int, y: int, d: int)
    requires
        x >= 0,
        y >= 0,
        d > 0,
    ensures
        x / d + y / d <= (x + y) / d <= x / d + y / d + 1,
{
    vstd::arithmetic::div_mod::lemma_fundamental_div_mod(x, d);
    vstd::arithmetic::div_mod::lemma_fundamental_div_mod(y, d);
    vstd::arithmetic::div_mod::lemma_mod_bound(x, d);
    vstd::arithmetic::div_mod::lemma_mod_bound(y, d);
    let qx = x / d;
    let qy = y / d;
    let rs = x % d + y % d;
    assert((qx + qy) * d == d * qx + d * qy) by (nonlinear_arith);
    assert((qx + qy + 1) * d == d * qx + d * qy + d) by (nonlinear_arith);
    if rs < d {
        vstd::arithmetic::div_mod::lemma_fundamental_div_mod_converse(x + y, d, qx + qy, rs);
    } else {
        vstd::arithmetic::div_mod::lemma_fundamental_div_mod_converse(x + y, d, qx + qy + 1, rs - d);
    }
}

/// Accruing interest on a fee with units over an interval with a non-zero compounded
/// rate: when surplus is issued, the fee's compound factor `f` becomes `f + f * rate`
/// (rounded down), and the debit value of the units grows by what was issued (by it or,
/// through rounding, one more); what is issued goes to the treasury's free balance.
pub proof fn lemma_accrual_grows_debit_by_issue(st: AccrualState, fee: u128, units: u128, interval: u64,
    default_factor: u128)
    requires
        ({
            let o = FIXED_ONE as int;
            let f = if st.0.dom().contains(fee) { st.0[fee] } else { default_factor };
            let rate = spec_compound_interest_rate(fee, interval);
            &&& f + f * rate / o <= u128::MAX
            &&& (f + f * rate / o) * units / o <= u128::MAX
        }),
    ensures
        ({
            let o = FIXED_ONE as int;
            let f = if st.0.dom().contains(fee) { st.0[fee] } else { default_factor };
            let rate = spec_compound_interest_rate(fee, interval);
            let st2 = accrue_one(st, (fee, units), interval, default_factor);
            let issued = st2.1 - st.1;
            &&& st2.1 >= st.1
            &&& st2.2 - st.2 == issued
            &&& units != 0 && rate != 0 && issued > 0 ==> ({
                let f2 = st2.0[fee];
                &&& f2 == f + f * rate / o
                &&& f * units / o + issued <= f2 * units / o <= f * units / o + issued + 1
            })
        }),
{
    let o = FIXED_ONE as int;
    let f = if st.0.dom().contains(fee) { st.0[fee] } else { default_factor };
    let rate = spec_compound_interest_rate(fee, interval);
    if units != 0 && rate != 0 {
        let inc = f * rate / o;
        assert(inc >= 0) by (nonlinear_arith) requires f >= 0, rate >= 0, o > 0, inc == f * rate / o;
        assert(spec_fixed_mul(f, rate) == inc);
        assert((f + inc) * units == f * units + inc * units) by (nonlinear_arith);
        assert(f * units >= 0 && inc * units >= 0) by (nonlinear_arith) requires f >= 0, inc >= 0, units >= 0;
        lemma_floor_of_sum(f * units, inc * units, o);
        assert(inc * units / o <= (f + inc) * units / o);
        assert(spec_mul_int(inc as u128, units) == inc * units / o);
    }
}

/// Interest accrued over the entries in order.
pub open spec fn spec_accrue(s: Seq<(u128, u128)>, interval: u64, default_factor: u128, st: AccrualState) -> AccrualState
    decreases s.len(),
{
    if s.len() == 0 {
        st
    } else {
        accrue_one(spec_accrue(s.drop_last(), interval, default_factor, st), s.last(), interval, default_factor)
    }
}

/// The parameters and the state of the CDP engine, with its source of prices.
pub struct Pallet<P> {
    /// Stability fee => compound factor.
    pub compound_factors: WideStore<u128>,
    pub last_accumulation_secs: u64,
    /// Account => vault.
    pub vault_id_by_account_id: Store<u64>,
    /// Vault => stability fee override.
    pub stability_fee_overrides: Store<u128>,
    pub params: RiskManagementParams,
    pub default_compound_factor: CompoundFactor,
    pub minimum_debit_value: u128,
    pub minimum_collateral_amount: u128,
    /// The acceptable slippage of a swap against the oracle price.
    pub max_swap_slippage_compare_to_oracle: u128,
    /// Where collateral prices come from.
    pub price_source: P,
    pub events: Vec<Event>,
}

impl<P> Pallet<P> {
    pub open spec fn wf(&self) -> bool {
        &&& self.compound_factors.wf()
        &&& self.vault_id_by_account_id.wf()
        &&& self.stability_fee_overrides.wf()
        &&& self.default_compound_factor.wf()
        &&& forall|fee: u128| #[trigger] self.compound_factors.view_map().dom().contains(fee) ==>
            self.compound_factors.view_map()[fee] >= FIXED_ONE
    }

    /// The compound factor of `fee`: stored, or the default.
    pub open spec fn factor_of(&self, fee: u128) -> u128 {
        if self.compound_factors.view_map().dom().contains(fee) {
            self.compound_factors.view_map()[fee]
        } else {
            self.default_compound_factor.inner
        }
    }

    /// The debit value of `units` at `fee`.
    pub open spec fn spec_debit_value(&self, units: u128, fee: u128) -> u128 {
        spec_mul_int(self.factor_of(fee), units)
    }

    /// The debit units of `value` at `fee`.
    pub open spec fn spec_debit_units(&self, value: u128, fee: u128) -> u128 {
        spec_mul_int(spec_reciprocal(self.factor_of(fee)).unwrap(), value)
    }

    /// Converting a debit value to units at `fee` and back, for a compound factor of at
    /// least one: the value never grows, and shrinks by less than `f * (v + 1) + 1` (in
    /// the fixed-point scale `o`: `(v - w) * o^2 <= f * (v + o) + o^2`).
    pub proof fn lemma_value_conversion_round_trip(&self, v: u128, fee: u128)
        requires
            self.factor_of(fee) >= FIXED_ONE,
        ensures
            ({
                let o = FIXED_ONE as int;
                let w = self.spec_debit_value(self.spec_debit_units(v, fee), fee);
                &&& w <= v
                &&& (v - w) * o * o <= self.factor_of(fee) * (v + o) + o * o
            }),
    {
        let f = self.factor_of(fee) as int;
        let o = FIXED_ONE as int;
        let r = o * o / f;
        assert(r <= o) by (nonlinear_arith) requires r == o * o / f, f >= o, o > 0;
        assert(r >= 0) by (nonlinear_arith) requires r == o * o / f, f > 0, o > 0;
        assert(spec_reciprocal(f as u128) == Some(r as u128));
        let u = r * v / o;
        assert(u <= v) by (nonlinear_arith) requires u == r * v / o, r <= o, r >= 0, v >= 0, o > 0;
        assert(self.spec_debit_units(v, fee) == u);
        let w = f * u / o;
        lemma_value_round_trip_int(f, v as int, o, r, u, w);
        assert(self.spec_debit_value(u as u128, fee) == w);
    }

    /// Converting units to their debit value and back never gives more units, and the
    /// value is at least the units, for a compound factor of at least one whose product
    /// with the units does not saturate.
    pub proof fn lemma_debit_conversion_rounds_down(&self, b: u128, fee: u128)
        requires
            self.factor_of(fee) >= FIXED_ONE,
            self.factor_of(fee) * b / (FIXED_ONE as int) <= u128::MAX,
        ensures
            self.spec_debit_value(b, fee) >= b,
            self.spec_debit_units(self.spec_debit_value(b, fee), fee) <= b,
    {
        let f = self.factor_of(fee) as int;
        let o = FIXED_ONE as int;
        let v = f * b / o;
        let r = o * o / f;
        lemma_conversion_round_trip_int(f, b as int, o, v, r);
        assert(self.spec_debit_value(b, fee) == v);
        assert(r <= o) by (nonlinear_arith) requires r == o * o / f, f >= o, o > 0;
        assert(r >= 0) by (nonlinear_arith) requires r == o * o / f, f >= o, o > 0;
        assert(spec_reciprocal(self.factor_of(fee)) == Some(r as u128));
        assert(r * v / o <= u128::MAX);
    }

    /// An engine with no accumulated interest.
    pub fn new(
        params: RiskManagementParams,
        default_compound_factor: CompoundFactor,
        minimum_debit_value: u128,
        minimum_collateral_amount: u128,
        max_swap_slippage_compare_to_oracle: u128,
        price_source: P,
    ) -> (r: Self)
        requires
            default_compound_factor.wf(),
        ensures
            r.wf(),
            r.params == params,
            r.default_compound_factor == default_compound_factor,
            r.minimum_debit_value == minimum_debit_value,
            r.minimum_collateral_amount == minimum_collateral_amount,
            r.max_swap_slippage_compare_to_oracle == max_swap_slippage_compare_to_oracle,
            r.compound_factors.view_map() == Map::<u128, u128>::empty(),
            r.last_accumulation_secs == 0,
            r.price_source == price_source,
            r.events@.len() == 0,
    {
        Pallet {
            compound_factors: WideStore::new(),
            last_accumulation_secs: 0,
            vault_id_by_account_id: Store::new(),
            stability_fee_overrides: Store::new(),
            params,
            default_compound_factor,
            minimum_debit_value,
            minimum_collateral_amount,
            max_swap_slippage_compare_to_oracle,
            price_source,
            events: Vec::new(),
        }
    }

    /// The risk parameters.
    pub fn risk_management_params(&self) -> (r: RiskManagementParams)
        ensures
            r == self.params,
    {
        self.params
    }

    /// The cap on the total debit value.
    pub fn maximum_total_debit_value(&self) -> (r: u128)
        ensures
            r == self.params.maximum_total_debit_value,
    {
        self.params.maximum_total_debit_value
    }

    /// The required collateral ratio, if set.
    pub fn required_collateral_ratio(&self) -> (r: Option<u128>)
        ensures
            r == self.params.required_collateral_ratio,
    {
        self.params.required_collateral_ratio
    }

    /// The interest rate per second.
    pub fn interest_rate_per_sec(&self) -> (r: u128)
        ensures
            r == self.params.interest_rate_per_sec,
    {
        self.params.interest_rate_per_sec
    }

    /// The liquidation ratio.
    pub fn get_liquidation_ratio(&self) -> (r: u128)
        ensures
            r == self.params.liquidation_ratio,
    {
        self.params.liquidation_ratio
    }

    /// The liquidation penalty.
    pub fn get_liquidation_penalty(&self) -> (r: u128)
        ensures
            r == self.params.liquidation_penalty,
    {
        self.params.liquidation_penalty
    }

    /// The seconds of the last interest accumulation.
    pub fn last_accumulation_secs(&self) -> (r: u64)
        ensures
            r == self.last_accumulation_secs,
    {
        self.last_accumulation_secs
    }

    /// `(1 + rate_per_sec)^secs - 1`: the interest rate compounded over `secs` seconds.
    pub fn compound_interest_rate(rate_per_sec: u128, secs: u64) -> (r: u128)
        ensures
            r == spec_compound_interest_rate(rate_per_sec, secs),
            secs == 0 ==> r == 0,
            rate_per_sec == 0 ==> r == 0,
    {
        let e: usize = if secs > usize::MAX as u64 { usize::MAX } else { secs as usize };
        let base = fixed_saturating_add(rate_per_sec, FIXED_ONE);
        let p = fixed_saturating_pow(base, e);
        proof {
            lemma_pow_of_one(e);
        }
        fixed_saturating_sub(p, FIXED_ONE)
    }

    /// The compound factor of `stability_fee` (the default when none is stored).
    pub fn compound_factor(&self, stability_fee: u128) -> (r: CompoundFactor)
        requires
            self.wf(),
        ensures
            r.inner == self.factor_of(stability_fee),
            r.wf(),
    {
        match self.compound_factors.get(stability_fee) {
            Some(f) => CompoundFactor { inner: f },
            None => self.default_compound_factor,
        }
    }

    /// The compound factor of `stability_fee`, storing the default when none is stored.
    pub fn get_or_init_compound_factor(&mut self, stability_fee: u128) -> (r: CompoundFactor)
        requires
            old(self).wf(),
        ensures
            final(self).wf(),
            r.inner == old(self).factor_of(stability_fee),
            r.wf(),
            final(self).compound_factors.view_map() == old(self).compound_factors.view_map().insert(stability_fee, r.inner),
            final(self).params == old(self).params,
            final(self).default_compound_factor == old(self).default_compound_factor,
            final(self).last_accumulation_secs == old(self).last_accumulation_secs,
            final(self).minimum_debit_value == old(self).minimum_debit_value,
            final(self).minimum_collateral_amount == old(self).minimum_collateral_amount,
            final(self).max_swap_slippage_compare_to_oracle == old(self).max_swap_slippage_compare_to_oracle,
            final(self).vault_id_by_account_id == old(self).vault_id_by_account_id,
            final(self).stability_fee_overrides == old(self).stability_fee_overrides,
            final(self).price_source == old(self).price_source,
            forall|fee: u128| #[trigger] final(self).factor_of(fee) == old(self).factor_of(fee),
    {
        match self.compound_factors.get(stability_fee) {
            Some(f) => {
                self.compound_factors.insert(stability_fee, f);
                CompoundFactor { inner: f }
            },
            None => {
                let d = self.default_compound_factor;
                self.compound_factors.insert(stability_fee, d.inner);
                d
            },
        }
    }

    /// The compound factor of `stability_fee` is now stored: the one stored before, or
    /// the default.  Nothing else changes.
    pub open spec fn factor_initialized(&self, old_self: Self, stability_fee: u128) -> bool {
        &&& self.wf()
        &&& self.compound_factors.view_map() == old_self.compound_factors.view_map().insert(stability_fee, old_self.factor_of(stability_fee))
        &&& self.params == old_self.params
        &&& self.default_compound_factor == old_self.default_compound_factor
        &&& self.last_accumulation_secs == old_self.last_accumulation_secs
        &&& self.minimum_debit_value == old_self.minimum_debit_value
        &&& self.minimum_collateral_amount == old_self.minimum_collateral_amount
        &&& self.max_swap_slippage_compare_to_oracle == old_self.max_swap_slippage_compare_to_oracle
        &&& self.vault_id_by_account_id == old_self.vault_id_by_account_id
        &&& self.stability_fee_overrides == old_self.stability_fee_overrides
        &&& self.price_source == old_self.price_source
        &&& forall|fee: u128| #[trigger] self.factor_of(fee) == old_self.factor_of(fee)
    }

    /// The debit value of `debit_balance` units at `stability_fee`, storing the default
    /// compound factor when none is stored.
    pub fn convert_to_debit_value(&mut self, debit_balance: u128, stability_fee: u128) -> (r: u128)
        requires
            old(self).wf(),
        ensures
            r == old(self).spec_debit_value(debit_balance, stability_fee),
            final(self).factor_initialized(*old(self), stability_fee),
    {
        self.get_or_init_compound_factor(stability_fee).saturating_mul_int(debit_balance)
    }

    /// The debit units of `debit_value` at `stability_fee`, storing the default compound
    /// factor when none is stored.
    pub fn convert_to_debit_balance(&mut self, debit_value: u128, stability_fee: u128) -> (r: u128)
        requires
            old(self).wf(),
        ensures
            r == old(self).spec_debit_units(debit_value, stability_fee),
            final(self).factor_initialized(*old(self), stability_fee),
    {
        let f = self.get_or_init_compound_factor(stability_fee);
        fixed_saturating_mul_int(f.reciprocal(), debit_value)
    }

    /// The debit value of units (reading the factor that applies, storing nothing).
    pub fn do_debit_units_to_value(&self, debit_units: u128, stability_fee: u128) -> (r: u128)
        requires
            self.wf(),
        ensures
            r == self.spec_debit_value(debit_units, stability_fee),
    {
        self.compound_factor(stability_fee).saturating_mul_int(debit_units)
    }

    /// The debit units of a value (reading the factor that applies, storing nothing).
    pub fn do_debit_value_to_units(&self, debit_value: u128, stability_fee: u128) -> (r: u128)
        requires
            self.wf(),
        ensures
            r == self.spec_debit_units(debit_value, stability_fee),
    {
        let f = self.compound_factor(stability_fee);
        fixed_saturating_mul_int(f.reciprocal(), debit_value)
    }

    /// The collateral ratio of `collateral_balance` at `collateral_price` against
    /// `debit_value`; the largest ratio without debit.
    pub fn calculate_collateral_ratio(collateral_balance: u128, collateral_price: u128, debit_value: u128) -> (r: u128)
        ensures
            r == spec_collateral_ratio(collateral_balance, collateral_price, debit_value),
            debit_value == 0 ==> r == u128::MAX,
    {
        let locked_collateral_value = fixed_saturating_mul_int(collateral_price, collateral_balance);
        match fixed_checked_from_rational(locked_collateral_value, debit_value) {
            Some(r) => r,
            None => u128::MAX,
        }
    }

    /// The stability fee that applies to `who`: the lower of `stability_fee` and the
    /// current rate, lowered further by an override of `who`'s vault.
    pub fn get_effective_stability_fee(&self, stability_fee: u128, who: u64) -> (r: u128)
        requires
            self.wf(),
        ensures
            ({
                let base = if stability_fee < self.params.interest_rate_per_sec { stability_fee } else { self.params.interest_rate_per_sec };
                let vaults = self.vault_id_by_account_id.view_map();
                let overrides = self.stability_fee_overrides.view_map();
                r == (if vaults.dom().contains(who) && overrides.dom().contains(vaults[who]) {
                    if overrides[vaults[who]] < base { overrides[vaults[who]] } else { base }
                } else {
                    base
                })
            }),
    {
        let current = self.params.interest_rate_per_sec;
        let mut effective_fee = if stability_fee < current { stability_fee } else { current };
        if let Some(vault_id) = self.vault_id_by_account_id.get(who) {
            if let Some(override_fee) = self.stability_fee_overrides.get(vault_id) {
                if override_fee < effective_fee {
                    effective_fee = override_fee;
                }
            }
        }
        effective_fee
    }

    /// The outcome of checking a position at the relative price `feed_price`.
    pub open spec fn spec_check_position(&self, collateral_balance: u128, debit_units: u128, debit_interest_rate: u128,
        check_required_ratio: bool, feed_price: Option<u128>) -> Result<(), Error> {
        if debit_units != 0 {
            let value = self.spec_debit_value(debit_units, debit_interest_rate);
            match feed_price {
                None => Err(Error::InvalidFeedPrice),
                Some(price) => {
                    let ratio = spec_collateral_ratio(collateral_balance, price, value);
                    if check_required_ratio && self.params.required_collateral_ratio is Some
                        && ratio < self.params.required_collateral_ratio.unwrap() {
                        Err(Error::BelowRequiredCollateralRatio)
                    } else if ratio < self.params.liquidation_ratio {
                        Err(Error::BelowLiquidationRatio)
                    } else if value < self.minimum_debit_value {
                        Err(Error::RemainDebitValueTooSmall)
                    } else {
                        Ok(())
                    }
                },
            }
        } else if collateral_balance != 0 && collateral_balance < self.minimum_collateral_amount {
            Err(Error::CollateralAmountBelowMinimum)
        } else {
            Ok(())
        }
    }

    /// The risk check of a position with debit, at a known price: its collateral ratio
    /// (the collateral's value at the price over the debit value) below the required
    /// ratio, when that is asked for and set, fails with `BelowRequiredCollateralRatio`;
    /// and a position that passes has a ratio of at least the required ratio (when asked
    /// for and set) and the liquidation ratio, and a debit value of at least the minimum.
    pub proof fn lemma_check_position_ratios(&self, collateral: u128, units: u128, fee: u128,
        check_required_ratio: bool, price: u128)
        requires
            units != 0,
            self.factor_of(fee) * units / (FIXED_ONE as int) <= u128::MAX,
            price * collateral / (FIXED_ONE as int) <= u128::MAX,
        ensures
            ({
                let o = FIXED_ONE as int;
                let value = self.factor_of(fee) * units / o;
                let ratio = (price * collateral / o) * o / value;
                let r = self.spec_check_position(collateral, units, fee, check_required_ratio, Some(price));
                let req = self.params.required_collateral_ratio;
                &&& check_required_ratio && req is Some && value > 0 && ratio < req->Some_0
                    ==> r == Err::<(), Error>(Error::BelowRequiredCollateralRatio)
                &&& r is Ok ==> value >= self.minimum_debit_value
                &&& r is Ok && value > 0 ==> ratio >= self.params.liquidation_ratio
                    && (check_required_ratio && req is Some ==> ratio >= req->Some_0)
            }),
    {
    }

    /// Check a position of `collateral_balance` and `debit_units` at `debit_interest_rate`
    /// against the relative price `feed_price` of collateral: with debit, the collateral
    /// ratio must reach the required ratio (when asked and set) and the liquidation
    /// ratio, and the debit value the minimum; without debit, collateral must be zero or
    /// at least the minimum.
    pub fn check_position_at_price(
        &self,
        collateral_balance: u128,
        debit_units: u128,
        debit_interest_rate: u128,
        check_required_ratio: bool,
        feed_price: Option<u128>,
    ) -> (r: Result<(), Error>)
        requires
            self.wf(),
        ensures
            r == self.spec_check_position(collateral_balance, debit_units, debit_interest_rate, check_required_ratio, feed_price),
    {
        if debit_units != 0 {
            let price = match feed_price {
                Some(p) => p,
                None => return Err(Error::InvalidFeedPrice),
            };
            let debit_value = self.do_debit_units_to_value(debit_units, debit_interest_rate);
            let collateral_ratio = Self::calculate_collateral_ratio(collateral_balance, price, debit_value);
            if check_required_ratio {
                if let Some(required) = self.required_collateral_ratio() {
                    if collateral_ratio < required {
                        return Err(Error::BelowRequiredCollateralRatio);
                    }
                }
            }
            if collateral_ratio < self.get_liquidation_ratio() {
                return Err(Error::BelowLiquidationRatio);
            }
            if debit_value < self.minimum_debit_value {
                return Err(Error::RemainDebitValueTooSmall);
            }
        } else if collateral_balance != 0 {
            if collateral_balance < self.minimum_collateral_amount {
                return Err(Error::CollateralAmountBelowMinimum);
            }
        }
        Ok(())
    }

    /// Whether a position is safe: it passes the check without the required ratio.
    pub fn is_cdp_safe_at_price(&self, collateral: u128, debit_units: u128, stability_fee: u128, feed_price: Option<u128>) -> (r: Result<bool, Error>)
        requires
            self.wf(),
        ensures
            debit_units != 0 && feed_price is None ==> r == Err::<bool, Error>(Error::InvalidFeedPrice),
            !(debit_units != 0 && feed_price is None) ==> r == Ok::<bool, Error>(
                self.do_check_position_ok(collateral, debit_units, stability_fee, feed_price)),
    {
        match self.check_position_at_price(collateral, debit_units, stability_fee, false, feed_price) {
            Ok(()) => Ok(true),
            Err(Error::InvalidFeedPrice) => Err(Error::InvalidFeedPrice),
            Err(_) => Ok(false),
        }
    }

    /// Whether the position passes `do_check_position` without the required ratio.
    pub open spec fn do_check_position_ok(&self, collateral: u128, debit_units: u128, fee: u128, feed_price: Option<u128>) -> bool {
        if debit_units != 0 {
            match feed_price {
                None => false,
                Some(price) => {
                    let value = self.spec_debit_value(debit_units, fee);
                    let ratio = spec_collateral_ratio(collateral, price, value);
                    ratio >= self.params.liquidation_ratio && value >= self.minimum_debit_value
                },
            }
        } else {
            collateral == 0 || collateral >= self.minimum_collateral_amount
        }
    }

    /// The total debit value of `total_debit_by_fee` (fee => units) is within the cap.
    pub fn do_check_debit_cap(&self, total_debit_by_fee: &WideStore<u128>) -> (r: Result<(), Error>)
        requires
            self.wf(),
            total_debit_by_fee.wf(),
        ensures
            r is Ok <==> spec_total_debit_value(total_debit_by_fee.entries@, self.compound_factors.view_map(),
                self.default_compound_factor.inner) <= self.params.maximum_total_debit_value,
            r is Err ==> r == Err::<(), Error>(Error::ExceedDebitValueHardCap),
    {
        let hard_cap = self.maximum_total_debit_value();
        let mut total: u128 = 0;
        let mut i: usize = 0;
        while i < total_debit_by_fee.entries.len()
            invariant
                self.wf(),
                i <= total_debit_by_fee.entries@.len(),
                total == spec_total_debit_value(total_debit_by_fee.entries@.take(i as int), self.compound_factors.view_map(),
                    self.default_compound_factor.inner),
            decreases total_debit_by_fee.entries@.len() - i,
        {
            let (fee, units) = total_debit_by_fee.entries[i];
            let value = self.do_debit_units_to_value(units, fee);
            proof {
                let s = total_debit_by_fee.entries@;
                assert(s.take(i + 1).drop_last() =~= s.take(i as int));
                if units == 0 {
                    assert((self.factor_of(fee) as int) * 0 == 0);
                    assert(spec_mul_int(self.factor_of(fee), 0) == 0);
                }
            }
            if units != 0 {
                total = fixed_saturating_add(total, value);
            } else {
                assert(value == 0);
                assert(spec_sat_add(total, 0) == total);
            }
            i = i + 1;
        }
        assert(total_debit_by_fee.entries@.take(total_debit_by_fee.entries@.len() as int) =~= total_debit_by_fee.entries@);
        if total <= hard_cap {
            Ok(())
        } else {
            Err(Error::ExceedDebitValueHardCap)
        }
    }
}


impl<P: PriceProvider> Pallet<P> {
    /// The oracle price of the collateral in stable coin.
    pub open spec fn spec_feed_price(&self) -> Option<u128> {
        crate::traits::relative_price(self.price_source.price(NATIVE), self.price_source.price(STABLE))
    }

    /// The oracle price of the collateral in stable coin, if known.
    pub fn feed_price(&self) -> (r: Option<u128>)
        ensures
            r == self.spec_feed_price(),
    {
        self.price_source.get_relative_price(NATIVE, STABLE)
    }

    /// `check_position_at_price` at the oracle price.
    pub fn do_check_position(&self, collateral_balance: u128, debit_units: u128, debit_interest_rate: u128, check_required_ratio: bool)
        -> (r: Result<(), Error>)
        requires
            self.wf(),
        ensures
            r == self.spec_check_position(collateral_balance, debit_units, debit_interest_rate, check_required_ratio,
                self.spec_feed_price()),
    {
        let price = if debit_units != 0 { self.feed_price() } else { None };
        self.check_position_at_price(collateral_balance, debit_units, debit_interest_rate, check_required_ratio, price)
    }

    /// `is_cdp_safe_at_price` at the oracle price.
    pub fn is_cdp_safe(&self, collateral: u128, debit_units: u128, stability_fee: u128) -> (r: Result<bool, Error>)
        requires
            self.wf(),
        ensures
            debit_units != 0 && self.spec_feed_price() is None ==> r == Err::<bool, Error>(Error::InvalidFeedPrice),
            !(debit_units != 0 && self.spec_feed_price() is None) ==> r == Ok::<bool, Error>(
                self.do_check_position_ok(collateral, debit_units, stability_fee, self.spec_feed_price())),
    {
        let price = if debit_units != 0 { self.feed_price() } else { None };
        self.is_cdp_safe_at_price(collateral, debit_units, stability_fee, price)
    }
}


/// An engine error as a dispatch error.
pub open spec fn engine_err(e: Error) -> DispatchError {
    DispatchError::Module(ModuleError::CdpEngine(e))
}

fn to_dispatch(r: Result<(), Error>) -> (d: Result<(), DispatchError>)
    ensures
        d == (match r { Ok(()) => Ok::<(), DispatchError>(()), Err(e) => Err(engine_err(e)) }),
{
    match r {
        Ok(()) => Ok(()),
        Err(e) => Err(DispatchError::Module(ModuleError::CdpEngine(e))),
    }
}

impl<P: PriceProvider> Pallet<P> {
    /// Updating a loan, the engine valuing the debit: the debit ends at the new stability
    /// fee if one is given (at the old one otherwise) as the units of the adjusted debit
    /// value (valued at the old fee) at that fee's compound factor `f`, so its debit value
    /// there is that value up to rounding: never more, and less by under `f * (v + 1) + 1`
    /// (in the scale `o`: `(v - w) * o^2 <= f * (v + o) + o^2`).  Moving debit to another
    /// fee keeps its value.  The collateral is adjusted as asked.
    pub proof fn lemma_update_loan_keeps_value(&self, p: honzon_loans::Position, totals: Map<u128, u128>,
        c: BalanceAdjustment, d: BalanceAdjustment, new_fee: Option<u128>)
        requires
            self.wf(),
            honzon_loans::spec_update_writes(*self, p, totals, c, d, new_fee) is Ok,
        ensures
            ({
                let o = FIXED_ONE as int;
                let nf = match new_fee { Some(f) => f, None => p.debit.stability_fee };
                let np = honzon_loans::spec_update_writes(*self, p, totals, c, d, new_fee)->Ok_0.0;
                let v = d.spec_apply_to(self.spec_debit_value(p.debit.units, p.debit.stability_fee))->Ok_0;
                let w = self.spec_debit_value(np.debit.units, nf);
                &&& np.debit.stability_fee == nf
                &&& np.collateral == c.spec_apply_to(p.collateral)->Ok_0
                &&& w <= v
                &&& (v - w) * o * o <= self.factor_of(nf) * (v + o) + o * o
            }),
    {
        let nf = match new_fee { Some(f) => f, None => p.debit.stability_fee };
        let v = d.spec_apply_to(self.spec_debit_value(p.debit.units, p.debit.stability_fee))->Ok_0;
        assert(self.factor_of(nf) >= FIXED_ONE);
        self.lemma_value_conversion_round_trip(v, nf);
    }
}

impl<P: PriceProvider> honzon_loans::RiskManager for Pallet<P> {
    open spec fn risk_wf(&self) -> bool {
        self.wf()
    }

    open spec fn units_to_value(&self, units: u128, fee: u128) -> u128 {
        self.spec_debit_value(units, fee)
    }

    open spec fn value_to_units(&self, value: u128, fee: u128) -> u128 {
        self.spec_debit_units(value, fee)
    }

    open spec fn position_ok(&self, collateral: u128, units: u128, fee: u128, check_required_ratio: bool) -> bool {
        self.spec_check_position(collateral, units, fee, check_required_ratio, self.spec_feed_price()) is Ok
    }

    open spec fn cap_ok(&self, totals: Seq<(u128, u128)>) -> bool {
        spec_total_debit_value(totals, self.compound_factors.view_map(), self.default_compound_factor.inner)
            <= self.params.maximum_total_debit_value
    }

    fn debit_units_to_value(&self, units: u128, fee: u128) -> (r: u128) {
        self.do_debit_units_to_value(units, fee)
    }

    fn value_to_debit_units(&self, value: u128, fee: u128) -> (r: u128) {
        self.do_debit_value_to_units(value, fee)
    }

    fn check_position_valid(&self, collateral: u128, units: u128, fee: u128, check_required_ratio: bool) -> (r: Result<(), DispatchError>) {
        to_dispatch(self.do_check_position(collateral, units, fee, check_required_ratio))
    }

    fn check_debit_cap(&self, totals: &crate::store::WideStore<u128>) -> (r: Result<(), DispatchError>) {
        to_dispatch(self.do_check_debit_cap(totals))
    }
}


impl<P> Pallet<P> {
    /// Accrue interest on every stability fee with debit (`total_debit_by_fee`: fee =>
    /// units) over the seconds since `last_accumulation_secs`, unless shut down or at
    /// time zero; records `now_secs` either way.  Returns the number of storage entries
    /// touched (the fees accrued plus one), or zero when nothing was accrued.
    pub fn accumulate_interest(
        &mut self,
        treasury: &mut cdp_treasury::Pallet,
        assets: &mut Assets,
        total_debit_by_fee: &WideStore<u128>,
        is_shutdown: bool,
        now_secs: u64,
        last_accumulation_secs: u64,
    ) -> (r: u32)
        requires
            old(self).wf(),
            old(assets).wf(),
            total_debit_by_fee.wf(),
        ensures
            final(self).wf(),
            final(assets).wf(),
            final(self).last_accumulation_secs == now_secs,
            final(self).params == old(self).params,
            final(self).default_compound_factor == old(self).default_compound_factor,
            final(self).minimum_debit_value == old(self).minimum_debit_value,
            final(self).minimum_collateral_amount == old(self).minimum_collateral_amount,
            final(self).vault_id_by_account_id == old(self).vault_id_by_account_id,
            final(self).stability_fee_overrides == old(self).stability_fee_overrides,
            final(treasury).account_id == old(treasury).account_id,
            final(treasury).debit_pool == old(treasury).debit_pool,
            final(treasury).events@ == old(treasury).events@,
            final(assets).native == old(assets).native,
            forall|w: u64| w != old(treasury).account_id ==> final(assets).free(STABLE, w) == old(assets).free(STABLE, w),
            is_shutdown || now_secs == 0 ==> r == 0
                && final(self).compound_factors.view_map() == old(self).compound_factors.view_map()
                && final(assets).stable.issuance == old(assets).stable.issuance
                && final(assets).free(STABLE, old(treasury).account_id) == old(assets).free(STABLE, old(treasury).account_id),
            !is_shutdown && now_secs != 0 ==> ({
                let interval = if now_secs < last_accumulation_secs { 0u64 } else { (now_secs - last_accumulation_secs) as u64 };
                let st = spec_accrue(total_debit_by_fee.entries@, interval, old(self).default_compound_factor.inner,
                    (old(self).compound_factors.view_map(), old(assets).stable.issuance,
                        old(assets).free(STABLE, old(treasury).account_id), 0u32));
                &&& final(self).compound_factors.view_map() == st.0
                &&& final(assets).stable.issuance == st.1
                &&& final(assets).free(STABLE, old(treasury).account_id) == st.2
                &&& r == (if st.3 == u32::MAX { st.3 } else { (st.3 + 1) as u32 })
            }),
    {
        if is_shutdown || now_secs == 0 {
            self.last_accumulation_secs = now_secs;
            return 0;
        }
        let interval: u64 = if now_secs < last_accumulation_secs { 0 } else { now_secs - last_accumulation_secs };
        let acc = treasury.account_id();
        let ghost d = self.default_compound_factor.inner;
        let ghost s = total_debit_by_fee.entries@;
        let mut touched: u32 = 0;
        let mut i: usize = 0;
        while i < total_debit_by_fee.entries.len()
            invariant
                self.wf(),
                assets.wf(),
                total_debit_by_fee.wf(),
                s == total_debit_by_fee.entries@,
                i <= s.len(),
                acc == old(treasury).account_id,
                treasury.account_id == acc,
                treasury.debit_pool == old(treasury).debit_pool,
                treasury.events@ == old(treasury).events@,
                d == self.default_compound_factor.inner,
                self.default_compound_factor == old(self).default_compound_factor,
                self.params == old(self).params,
                self.minimum_debit_value == old(self).minimum_debit_value,
                self.minimum_collateral_amount == old(self).minimum_collateral_amount,
                self.vault_id_by_account_id == old(self).vault_id_by_account_id,
                self.stability_fee_overrides == old(self).stability_fee_overrides,
                self.last_accumulation_secs == old(self).last_accumulation_secs,
                assets.native == old(assets).native,
                forall|w: u64| w != acc ==> assets.free(STABLE, w) == old(assets).free(STABLE, w),
                spec_accrue(s.take(i as int), interval, d,
                    (old(self).compound_factors.view_map(), old(assets).stable.issuance,
                        old(assets).free(STABLE, acc), 0u32))
                    == (self.compound_factors.view_map(), assets.stable.issuance, assets.free(STABLE, acc), touched),
            decreases s.len() - i,
        {
            let (fee, units) = total_debit_by_fee.entries[i];
            proof {
                assert(s.take(i + 1).drop_last() =~= s.take(i as int));
                assert(s.take(i + 1).last() == s[i as int]);
            }
            if units != 0 {
                let rate = Self::compound_interest_rate(fee, interval);
                if rate != 0 {
                    let factor = self.get_or_init_compound_factor(fee);
                    let increment = factor.saturating_mul(rate);
                    let amount = fixed_saturating_mul_int(increment, units);
                    let ghost a0 = *assets;
                    match treasury.on_system_surplus(assets, amount) {
                        Ok(()) => {
                            let nf = factor.saturating_add(increment);
                            self.compound_factors.insert(fee, nf.inner);
                            touched = if touched == u32::MAX { touched } else { touched + 1 };
                        },
                        Err(_) => {
                            assert(*assets == a0);
                        },
                    }
                }
            }
            i = i + 1;
        }
        proof {
            assert(s.take(s.len() as int) =~= s);
        }
        self.last_accumulation_secs = now_secs;
        if touched == u32::MAX { touched } else { touched + 1 }
    }
}


/// The collateral the treasury can spend outside auctions.
pub open spec fn free_collateral<M: AuctionManager>(treasury: cdp_treasury::Pallet, manager: M, assets: Assets) -> u128 {
    spec_sat_sub(assets.free(NATIVE, treasury.account_id), manager.collateral_in_auction(NATIVE))
}

/// What selling `amount` of collateral in auctions gives, the manager going from `m0`
/// to `m1`: `CollateralNotEnough` exactly when the treasury's collateral outside
/// auctions is short; nothing to sell succeeds; a manager that starts every auction
/// makes it succeed; on success the collateral in auctions grows by `amount` (when
/// that does not overflow).
pub open spec fn spec_auction_outcome<M: AuctionManager>(treasury: cdp_treasury::Pallet, m0: M, m1: M, assets: Assets,
    amount: u128, r: Result<(), DispatchError>) -> bool
{
    let short = free_collateral(treasury, m0, assets) < amount;
    &&& r == Err::<(), DispatchError>(cdp_treasury::err(cdp_treasury::Error::CollateralNotEnough)) <==> short
    &&& !short && amount == 0 ==> r is Ok
    &&& !short && m0.accepts_all() ==> r is Ok
    &&& r is Ok && m0.collateral_in_auction(NATIVE) + amount <= u128::MAX
        ==> m1.collateral_in_auction(NATIVE) == m0.collateral_in_auction(NATIVE) + amount
}

/// What liquidating `who` needs before its collateral is sold: the position is unsafe
/// at a known price, its confiscation passes its checks, the loans and treasury accounts
/// differ, and there is debit to cover.
pub open spec fn spec_liquidation_base_ok<P: PriceProvider>(engine: Pallet<P>, loans: honzon_loans::Pallet,
    treasury: cdp_treasury::Pallet, assets: Assets, who: u64) -> bool
{
    let p = loans.position_of(who);
    let chk = engine.spec_check_position(p.collateral, p.debit.units, p.debit.stability_fee, false, engine.spec_feed_price());
    let bad_debt = engine.spec_debit_value(p.debit.units, p.debit.stability_fee);
    let target = spec_sat_add(spec_mul_int(engine.params.liquidation_penalty, bad_debt), bad_debt);
    &&& chk is Err
    &&& chk != Err::<(), Error>(Error::InvalidFeedPrice)
    &&& honzon_loans::spec_confiscation_checks(engine, loans, treasury, assets, who, p.collateral, bad_debt)
    &&& loans.account_id != treasury.account_id
    &&& target != 0
}

/// Whether the treasury can pay `amount` of `currency` to `to`.
pub open spec fn can_withdraw(treasury: cdp_treasury::Pallet, assets: Assets, currency: crate::assets::CurrencyId, to: u64, amount: u128) -> bool {
    assets.free(currency, treasury.account_id) >= amount
        && (to == treasury.account_id || assets.free(currency, to) + amount <= u128::MAX)
}

impl<P: PriceProvider> Pallet<P> {
    /// The price of stable coin in collateral.
    pub open spec fn spec_stable_price(&self) -> Option<u128> {
        crate::traits::relative_price(self.price_source.price(STABLE), self.price_source.price(NATIVE))
    }

    /// Whether liquidating `who` reaches the swap of its collateral, which needs the
    /// stable coin's price: the position is unsafe at a known price, its confiscation
    /// succeeds and there is debit to cover.
    pub open spec fn spec_liquidation_swaps(&self, loans: honzon_loans::Pallet, who: u64) -> bool {
        let p = loans.position_of(who);
        let chk = self.spec_check_position(p.collateral, p.debit.units, p.debit.stability_fee, false, self.spec_feed_price());
        let bad_debt = self.spec_debit_value(p.debit.units, p.debit.stability_fee);
        let target = crate::fixed::spec_sat_add(crate::fixed::spec_mul_int(self.params.liquidation_penalty, bad_debt), bad_debt);
        &&& chk is Err
        &&& chk != Err::<(), Error>(Error::InvalidFeedPrice)
        &&& honzon_loans::spec_confiscation(*self, loans, who, p.collateral, bad_debt) is Ok
        &&& target != 0
    }

    /// The most collateral a swap may spend for `target` stable coin: `target` at the
    /// oracle price, scaled up by the slippage allowed against the oracle.
    pub open spec fn spec_max_supply_limit(&self, target: u128, price: u128) -> u128 {
        let f = match spec_reciprocal(spec_sat_sub(FIXED_ONE, self.max_swap_slippage_compare_to_oracle)) {
            Some(x) => x,
            None => u128::MAX,
        };
        spec_mul_int(f, spec_mul_int(price, target))
    }

    /// The collateral offered to a swap for `target`: all of `amount`, up to the limit.
    pub open spec fn spec_dex_supply(&self, amount: u128, target: u128) -> u128 {
        let limit = self.spec_max_supply_limit(target, self.spec_stable_price().unwrap());
        if amount < limit { amount } else { limit }
    }

    /// Sell liquidated collateral through the treasury's swap for exactly `target` stable
    /// coin, given the swap's outcome `swapped` (the collateral it spent); the collateral
    /// not spent is refunded to `who`.
    pub fn liquidate_via_dex<M: AuctionManager>(
        &self,
        treasury: &cdp_treasury::Pallet,
        manager: &M,
        assets: &mut Assets,
        who: u64,
        amount: u128,
        target: u128,
        swapped: Result<u128, DispatchError>,
    ) -> (r: Result<(), DispatchError>)
        requires
            old(assets).wf(),
            self.spec_stable_price() is Some,
            swapped matches Ok(v) ==> v <= amount,
        ensures
            final(assets).wf(),
            ({
                let supply = self.spec_dex_supply(amount, target);
                let enough = free_collateral(*treasury, *manager, *old(assets)) >= supply;
                &&& !enough ==> r == Err::<(), DispatchError>(cdp_treasury::err(cdp_treasury::Error::CollateralNotEnough))
                &&& enough ==> (swapped matches Err(e) ==> r == Err::<(), DispatchError>(e))
                &&& enough ==> (swapped matches Ok(v) ==> {
                    let refund = (amount - v) as u128;
                    &&& r is Ok <==> (refund == 0 || can_withdraw(*treasury, *old(assets), NATIVE, who, refund))
                    &&& r is Ok && refund > 0 && who != treasury.account_id ==>
                        final(assets).free(NATIVE, who) == old(assets).free(NATIVE, who) + refund
                        && final(assets).free(NATIVE, treasury.account_id) == old(assets).free(NATIVE, treasury.account_id) - refund
                    })
                &&& r is Err ==> *final(assets) == *old(assets)
                &&& r is Ok && (swapped matches Ok(v) && v == amount) ==> *final(assets) == *old(assets)
            }),
    {
        let price = match self.price_source.get_relative_price(STABLE, NATIVE) {
            Some(p) => p,
            None => 0,
        };
        let f = match fixed_reciprocal(fixed_saturating_sub(FIXED_ONE, self.max_swap_slippage_compare_to_oracle)) {
            Some(x) => x,
            None => u128::MAX,
        };
        let limit = fixed_saturating_mul_int(f, fixed_saturating_mul_int(price, target));
        let supply = if amount < limit { amount } else { limit };
        let (actual_supply, actual_target) = match treasury.swap_collateral_to_stable(
            assets, manager, cdp_treasury::SwapLimit::ExactTarget(supply, target), false, swapped) {
            Ok(v) => v,
            Err(e) => return Err(e),
        };
        let refund = amount - actual_supply;
        if refund != 0 {
            match treasury.withdraw_collateral(assets, who, refund) {
                Ok(()) => {},
                Err(e) => return Err(e),
            }
        }
        // an exact-target swap yields the target, so no surplus is left to return
        assert(actual_target == target);
        Ok(())
    }

    /// Sell liquidated collateral in auctions for `target`, refunding `who`.
    pub fn liquidate_via_auction<M: AuctionManager>(
        &self,
        treasury: &cdp_treasury::Pallet,
        manager: &mut M,
        auctions: &mut auction::Pallet,
        assets: &mut Assets,
        now: u64,
        who: u64,
        amount: u128,
        target: u128,
    ) -> (r: Result<(), DispatchError>)
        requires
            old(manager).manager_wf(),
            old(auctions).wf(),
            old(assets).wf(),
        ensures
            final(manager).manager_wf(),
            final(auctions).wf(),
            final(assets).wf(),
            free_collateral(*treasury, *old(manager), *old(assets)) < amount
                ==> r == Err::<(), DispatchError>(cdp_treasury::err(cdp_treasury::Error::CollateralNotEnough))
                    && *final(assets) == *old(assets),
            spec_auction_outcome(*treasury, *old(manager), *final(manager), *old(assets), amount, r),
    {
        match treasury.create_collateral_auctions(manager, auctions, assets, now, amount, target, who, true) {
            Ok(_) => Ok(()),
            Err(e) => Err(e),
        }
    }

    /// Dispose of liquidated collateral: without a target it goes back to `who`;
    /// otherwise it is sold through the swap (outcome `swapped`) or, failing that, in
    /// auctions.
    pub fn handle_liquidated_collateral<M: AuctionManager>(
        &self,
        treasury: &cdp_treasury::Pallet,
        manager: &mut M,
        auctions: &mut auction::Pallet,
        assets: &mut Assets,
        now: u64,
        who: u64,
        amount: u128,
        target_stable_amount: u128,
        swapped: Result<u128, DispatchError>,
    ) -> (r: Result<(), DispatchError>)
        requires
            old(manager).manager_wf(),
            old(auctions).wf(),
            old(assets).wf(),
            target_stable_amount != 0 ==> self.spec_stable_price() is Some,
            swapped matches Ok(v) ==> v <= amount,
        ensures
            final(manager).manager_wf(),
            final(auctions).wf(),
            final(assets).wf(),
            target_stable_amount == 0 && amount == 0 ==> r is Ok && *final(assets) == *old(assets),
            target_stable_amount == 0 && amount != 0 ==>
                (r is Ok <==> can_withdraw(*treasury, *old(assets), NATIVE, who, amount))
                && (r is Err ==> *final(assets) == *old(assets))
                && (r is Ok && who != treasury.account_id ==>
                    final(assets).free(NATIVE, who) == old(assets).free(NATIVE, who) + amount
                    && final(assets).free(NATIVE, treasury.account_id) == old(assets).free(NATIVE, treasury.account_id) - amount),
            target_stable_amount != 0 && (swapped matches Ok(v) && {
                let refund = (amount - v) as u128;
                free_collateral(*treasury, *old(manager), *old(assets)) >= self.spec_dex_supply(amount, target_stable_amount)
                    && (refund == 0 || can_withdraw(*treasury, *old(assets), NATIVE, who, refund))
            }) ==> r is Ok && *final(manager) == *old(manager) && *final(auctions) == *old(auctions),
            target_stable_amount != 0 && !(swapped matches Ok(v) && {
                let refund = (amount - v) as u128;
                free_collateral(*treasury, *old(manager), *old(assets)) >= self.spec_dex_supply(amount, target_stable_amount)
                    && (refund == 0 || can_withdraw(*treasury, *old(assets), NATIVE, who, refund))
            }) ==> spec_auction_outcome(*treasury, *old(manager), *final(manager), *old(assets), amount, r),
    {
        if target_stable_amount == 0 {
            if amount != 0 {
                match treasury.withdraw_collateral(assets, who, amount) {
                    Ok(()) => {},
                    Err(e) => return Err(e),
                }
            }
            return Ok(());
        }
        match self.liquidate_via_dex(treasury, manager, assets, who, amount, target_stable_amount, swapped) {
            Ok(()) => Ok(()),
            Err(_) => self.liquidate_via_auction(treasury, manager, auctions, assets, now, who, amount, target_stable_amount),
        }
    }
}


impl<P: PriceProvider> Pallet<P> {
    /// Liquidate the position of `who` when it is unsafe (fails the check without the
    /// required ratio): its collateral and debit are confiscated through `loans`, and
    /// the collateral is sold for the debit value plus the liquidation penalty.  A safe
    /// position is refused with `LiquidationFailed`, an unknown price with
    /// `InvalidFeedPrice`.  `swapped` is the outcome of the swap tried first.
    pub fn do_liquidate<L: LiquidationTarget, M: AuctionManager>(
        &mut self,
        loans: &mut honzon_loans::Pallet,
        liquidator: &mut L,
        treasury: &mut cdp_treasury::Pallet,
        manager: &mut M,
        auctions: &mut auction::Pallet,
        assets: &mut Assets,
        now: u64,
        who: u64,
        swapped: Result<u128, DispatchError>,
    ) -> (r: Result<(), DispatchError>)
        requires
            old(liquidator).liquidator_wf(),
            old(self).wf(),
            old(loans).wf(),
            old(assets).wf(),
            old(manager).manager_wf(),
            old(auctions).wf(),
            old(self).spec_liquidation_swaps(*old(loans), who) ==> old(self).spec_stable_price() is Some,
            swapped matches Ok(v) ==> v <= old(loans).position_of(who).collateral,
        ensures
            final(self).wf(),
            final(loans).wf(),
            final(assets).wf(),
            final(manager).manager_wf(),
            final(auctions).wf(),
            final(self).compound_factors == old(self).compound_factors,
            final(self).params == old(self).params,
            ({
                let p = old(loans).position_of(who);
                let chk = old(self).spec_check_position(p.collateral, p.debit.units, p.debit.stability_fee, false,
                    old(self).spec_feed_price());
                let bad_debt = old(self).spec_debit_value(p.debit.units, p.debit.stability_fee);
                let target = spec_sat_add(spec_mul_int(old(self).params.liquidation_penalty, bad_debt), bad_debt);
                &&& chk == Err::<(), Error>(Error::InvalidFeedPrice) ==> r == Err::<(), DispatchError>(engine_err(Error::InvalidFeedPrice))
                &&& chk is Ok ==> r == Err::<(), DispatchError>(engine_err(Error::LiquidationFailed))
                &&& (chk is Ok || chk == Err::<(), Error>(Error::InvalidFeedPrice)) ==>
                    final(loans).positions_map() == old(loans).positions_map()
                    && final(loans).events@ == old(loans).events@
                    && *final(assets) == *old(assets)
                    && final(self).events@ == old(self).events@
                &&& r is Ok ==> chk is Err && chk != Err::<(), Error>(Error::InvalidFeedPrice)
                    && ({
                        let upd = honzon_loans::spec_confiscation(*old(self), *old(loans), who, p.collateral, bad_debt);
                        &&& upd is Ok
                        &&& final(loans).positions_map() == old(loans).positions_after(who, upd->Ok_0.0)
                    })
                    && final(self).events@ == old(self).events@.push(Event::LiquidateUnsafeCDP {
                        owner: who, collateral_amount: p.collateral, bad_debt_value: bad_debt, target_amount: target })
                &&& chk is Err && chk != Err::<(), Error>(Error::InvalidFeedPrice)
                    && honzon_loans::spec_confiscation_checks(*old(self), *old(loans), *old(treasury), *old(assets), who,
                        p.collateral, bad_debt)
                    && old(liquidator).takes_nothing()
                    && old(loans).account_id != old(treasury).account_id
                    && target != 0 && swapped is Err
                    && old(manager).accepts_all()
                    && old(assets).free(NATIVE, old(treasury).account_id) >= old(manager).collateral_in_auction(NATIVE)
                    ==> r is Ok
                &&& spec_liquidation_base_ok(*old(self), *old(loans), *old(treasury), *old(assets), who)
                    && old(liquidator).takes_nothing()
                    && swapped is Ok && ({
                        let v = swapped->Ok_0;
                        let t = old(treasury).account_id;
                        let free_t = old(assets).free(NATIVE, t) + p.collateral;
                        let refund = p.collateral - v;
                        &&& who != old(loans).account_id && who != t
                        &&& free_t - old(manager).collateral_in_auction(NATIVE) >= old(self).spec_dex_supply(p.collateral, target)
                        &&& (refund == 0 || (free_t >= refund && old(assets).free(NATIVE, who) + refund <= u128::MAX))
                    })
                    ==> r is Ok
            }),
    {
        let p = loans.positions(who);
        match self.do_check_position(p.collateral, p.debit.units, p.debit.stability_fee, false) {
            Ok(()) => return Err(DispatchError::Module(ModuleError::CdpEngine(Error::LiquidationFailed))),
            Err(Error::InvalidFeedPrice) => return Err(DispatchError::Module(ModuleError::CdpEngine(Error::InvalidFeedPrice))),
            Err(_) => {},
        }
        let bad_debt_value = self.do_debit_units_to_value(p.debit.units, p.debit.stability_fee);
        match loans.confiscate_collateral_and_debit(&*self, liquidator, treasury, assets, who, p.collateral, bad_debt_value) {
            Ok(()) => {},
            Err(e) => return Err(e),
        }
        let target = fixed_saturating_mul_acc_int(self.params.liquidation_penalty, bad_debt_value);
        match self.handle_liquidated_collateral(treasury, manager, auctions, assets, now, who, p.collateral, target, swapped) {
            Ok(()) => {},
            Err(e) => return Err(e),
        }
        self.events.push(Event::LiquidateUnsafeCDP {
            owner: who,
            collateral_amount: p.collateral,
            bad_debt_value,
            target_amount: target,
        });
        Ok(())
    }

    /// After shutdown, settle the position of `who`: its debit value is confiscated with
    /// collateral worth it at the oracle price (at most all of it).
    pub fn do_settle<L: LiquidationTarget>(
        &mut self,
        loans: &mut honzon_loans::Pallet,
        liquidator: &mut L,
        treasury: &mut cdp_treasury::Pallet,
        assets: &mut Assets,
        who: u64,
    ) -> (r: Result<(), DispatchError>)
        requires
            old(liquidator).liquidator_wf(),
            old(self).wf(),
            old(loans).wf(),
            old(assets).wf(),
        ensures
            final(self).wf(),
            final(loans).wf(),
            final(assets).wf(),
            final(self).compound_factors == old(self).compound_factors,
            final(self).params == old(self).params,
            ({
                let p = old(loans).position_of(who);
                let bad_debt = old(self).spec_debit_value(p.debit.units, p.debit.stability_fee);
                let price = old(self).spec_stable_price();
                let amount = if spec_mul_int(price.unwrap(), bad_debt) < p.collateral {
                    spec_mul_int(price.unwrap(), bad_debt)
                } else {
                    p.collateral
                };
                let upd = honzon_loans::spec_confiscation(*old(self), *old(loans), who, amount, bad_debt);
                &&& p.debit.units == 0 ==> r == Err::<(), DispatchError>(engine_err(Error::NoDebitValue))
                &&& p.debit.units != 0 && price is None ==> r == Err::<(), DispatchError>(engine_err(Error::InvalidFeedPrice))
                &&& p.debit.units != 0 && price is Some && upd is Err ==> r is Err
                &&& r is Err ==> final(loans).positions_map() == old(loans).positions_map()
                    && final(loans).events@ == old(loans).events@
                    && final(assets).same(*old(assets))
                    && final(self).events@ == old(self).events@
                &&& r is Ok ==> p.debit.units != 0 && price is Some && upd is Ok
                    && final(loans).positions_map() == old(loans).positions_after(who, upd->Ok_0.0)
                    && final(self).events@ == old(self).events@.push(Event::SettleCDPInDebit { owner: who })
                &&& p.debit.units != 0 && price is Some
                    && honzon_loans::spec_confiscation_checks(*old(self), *old(loans), *old(treasury), *old(assets), who,
                        amount, bad_debt)
                    && old(liquidator).takes_nothing()
                    ==> r is Ok
                        && final(treasury).debit_pool == old(treasury).debit_pool + bad_debt
                        && (old(loans).account_id != old(treasury).account_id ==>
                            final(assets).free(NATIVE, old(treasury).account_id) == old(assets).free(NATIVE, old(treasury).account_id) + amount)
            }),
    {
        let p = loans.positions(who);
        if p.debit.units == 0 {
            return Err(DispatchError::Module(ModuleError::CdpEngine(Error::NoDebitValue)));
        }
        let price = match self.price_source.get_relative_price(STABLE, NATIVE) {
            Some(x) => x,
            None => return Err(DispatchError::Module(ModuleError::CdpEngine(Error::InvalidFeedPrice))),
        };
        let bad_debt_value = self.do_debit_units_to_value(p.debit.units, p.debit.stability_fee);
        let worth = fixed_saturating_mul_int(price, bad_debt_value);
        let amount = if worth < p.collateral { worth } else { p.collateral };
        match loans.confiscate_collateral_and_debit(&*self, liquidator, treasury, assets, who, amount, bad_debt_value) {
            Ok(()) => {},
            Err(e) => return Err(e),
        }
        self.events.push(Event::SettleCDPInDebit { owner: who });
        Ok(())
    }
}


/// The calls the engine accepts without a signature.
#[derive(Clone, Copy, Debug, PartialEq, Eq, Structural)]
pub enum UnsignedCall {
    Liquidate { who: u64 },
    Settle { who: u64 },
    /// Any other call.
    Other,
}

/// Why an unsigned call is not accepted.
#[derive(Clone, Copy, Debug, PartialEq, Eq, Structural)]
pub enum InvalidTransaction {
    /// The call has nothing (left) to do.
    Stale,
    /// The call may not be sent unsigned.
    Call,
}

/// How an accepted unsigned call enters the pool.
#[derive(Clone, Copy, Debug, PartialEq, Eq, Structural)]
pub struct ValidTransaction {
    pub priority: u64,
    /// The tag it provides: the block (for a liquidation) and the account.
    pub provides_block: Option<u64>,
    pub provides_account: u64,
    pub longevity: u64,
    pub propagate: bool,
}

/// The number of blocks an unsigned call of the engine stays valid.
pub const UNSIGNED_LONGEVITY: u64 = 64u64;

impl<P: PriceProvider> Pallet<P> {
    /// Whether a position is unsafe, an unknown price counting as safe.
    pub open spec fn spec_unsafe(&self, p: honzon_loans::Position) -> bool {
        !(p.debit.units != 0 && self.spec_feed_price() is None)
            && !self.do_check_position_ok(p.collateral, p.debit.units, p.debit.stability_fee, self.spec_feed_price())
    }

    /// Accept a liquidation of an unsafe, non-empty position before shutdown, and a
    /// settlement of a position with debit after it.
    pub fn validate_unsigned(
        &self,
        loans: &honzon_loans::Pallet,
        is_shutdown: bool,
        block_number: u64,
        unsigned_priority: u64,
        call: UnsignedCall,
    ) -> (r: Result<ValidTransaction, InvalidTransaction>)
        requires
            self.wf(),
            loans.wf(),
        ensures
            ({
                match call {
                    UnsignedCall::Liquidate { who } => {
                        let p = loans.position_of(who);
                        r == (if p.collateral == 0 && p.debit.units == 0 {
                            Err(InvalidTransaction::Stale)
                        } else if !self.spec_unsafe(p) || is_shutdown {
                            Err(InvalidTransaction::Stale)
                        } else {
                            Ok(ValidTransaction { priority: unsigned_priority, provides_block: Some(block_number),
                                provides_account: who, longevity: UNSIGNED_LONGEVITY, propagate: true })
                        })
                    },
                    UnsignedCall::Settle { who } => {
                        let p = loans.position_of(who);
                        r == (if p.debit.units == 0 || !is_shutdown {
                            Err(InvalidTransaction::Stale)
                        } else {
                            Ok(ValidTransaction { priority: unsigned_priority, provides_block: None,
                                provides_account: who, longevity: UNSIGNED_LONGEVITY, propagate: true })
                        })
                    },
                    UnsignedCall::Other => r == Err::<ValidTransaction, InvalidTransaction>(InvalidTransaction::Call),
                }
            }),
    {
        match call {
            UnsignedCall::Liquidate { who } => {
                let p = loans.positions(who);
                if p.collateral == 0 && p.debit.units == 0 {
                    return Err(InvalidTransaction::Stale);
                }
                let safe = match self.is_cdp_safe(p.collateral, p.debit.units, p.debit.stability_fee) {
                    Ok(b) => b,
                    Err(_) => true,
                };
                if safe || is_shutdown {
                    return Err(InvalidTransaction::Stale);
                }
                Ok(ValidTransaction {
                    priority: unsigned_priority,
                    provides_block: Some(block_number),
                    provides_account: who,
                    longevity: UNSIGNED_LONGEVITY,
                    propagate: true,
                })
            },
            UnsignedCall::Settle { who } => {
                let p = loans.positions(who);
                if p.debit.units == 0 || !is_shutdown {
                    return Err(InvalidTransaction::Stale);
                }
                Ok(ValidTransaction {
                    priority: unsigned_priority,
                    provides_block: None,
                    provides_account: who,
                    longevity: UNSIGNED_LONGEVITY,
                    propagate: true,
                })
            },
            UnsignedCall::Other => Err(InvalidTransaction::Call),
        }
    }

    /// The call the offchain worker submits for the position `p` of `who`: a
    /// liquidation when it fails the check before shutdown, a settlement when it has
    /// debit after shutdown.
    pub open spec fn spec_offchain_call(&self, is_shutdown: bool, who: u64, p: honzon_loans::Position) -> Option<UnsignedCall> {
        if !is_shutdown && self.spec_check_position(p.collateral, p.debit.units, p.debit.stability_fee, false,
            self.spec_feed_price()) is Err {
            Some(UnsignedCall::Liquidate { who })
        } else if is_shutdown && p.debit.units != 0 {
            Some(UnsignedCall::Settle { who })
        } else {
            None
        }
    }

    /// The calls for a run of positions, in order.
    pub open spec fn spec_offchain_calls(&self, is_shutdown: bool, s: Seq<(u64, honzon_loans::Position)>) -> Seq<UnsignedCall>
        decreases s.len(),
    {
        if s.len() == 0 {
            Seq::empty()
        } else {
            let prev = self.spec_offchain_calls(is_shutdown, s.drop_last());
            match self.spec_offchain_call(is_shutdown, s.last().0, s.last().1) {
                Some(c) => prev.push(c),
                None => prev,
            }
        }
    }

    /// The call the offchain worker submits for one position, if any.
    pub fn offchain_call(&self, is_shutdown: bool, who: u64, p: honzon_loans::Position) -> (r: Option<UnsignedCall>)
        requires
            self.wf(),
        ensures
            r == self.spec_offchain_call(is_shutdown, who, p),
    {
        if !is_shutdown && self.do_check_position(p.collateral, p.debit.units, p.debit.stability_fee, false).is_err() {
            Some(UnsignedCall::Liquidate { who })
        } else if is_shutdown && p.debit.units != 0 {
            Some(UnsignedCall::Settle { who })
        } else {
            None
        }
    }

    /// One run of the offchain worker over the stored positions, from the entry at
    /// `start`: the calls to submit, and where the next run starts when this one stopped
    /// after `max_iterations` positions (zero meaning no limit).
    pub fn offchain_scan(&self, loans: &honzon_loans::Pallet, is_shutdown: bool, start: usize, max_iterations: u32)
        -> (r: (Vec<UnsignedCall>, Option<usize>))
        requires
            self.wf(),
        ensures
            ({
                let s = loans.positions.entries@;
                let first = if start < s.len() { start as int } else { s.len() as int };
                let n = s.len() - first;
                let end = if max_iterations != 0 && max_iterations <= n { first + max_iterations } else { s.len() as int };
                &&& r.0@ == self.spec_offchain_calls(is_shutdown, s.subrange(first, end))
                &&& r.1 == (if max_iterations != 0 && max_iterations <= n { Some(end as usize) } else { None::<usize> })
            }),
    {
        let ghost s = loans.positions.entries@;
        let len = loans.positions.entries.len();
        let first = if start < len { start } else { len };
        let mut calls: Vec<UnsignedCall> = Vec::new();
        let mut count: u64 = 0;
        let mut i: usize = first;
        while i < len
            invariant
                self.wf(),
                s == loans.positions.entries@,
                len == s.len(),
                first == (if start < len { start } else { len }),
                first <= i <= len,
                count == i - first,
                max_iterations == 0 || count < max_iterations,
                count <= len,
                calls@ == self.spec_offchain_calls(is_shutdown, s.subrange(first as int, i as int)),
            decreases len - i,
        {
            let (who, p) = loans.positions.entries[i];
            proof {
                assert(s.subrange(first as int, i + 1).drop_last() =~= s.subrange(first as int, i as int));
                assert(s.subrange(first as int, i + 1).last() == s[i as int]);
            }
            match self.offchain_call(is_shutdown, who, p) {
                Some(c) => calls.push(c),
                None => {},
            }
            count = count + 1;
            i = i + 1;
            if count == max_iterations as u64 {
                return (calls, Some(i));
            }
        }
        (calls, None)
    }

    /// The offchain worker: only a validator holding the worker's lock scans, from the
    /// stored position (the first when none) over at most the stored number of
    /// positions (`DEFAULT_MAX_ITERATIONS` when none is stored).
    pub fn offchain_worker(
        &self,
        loans: &honzon_loans::Pallet,
        is_validator: bool,
        lock_acquired: bool,
        is_shutdown: bool,
        start: Option<usize>,
        max_iterations: Option<u32>,
    ) -> (r: Result<(Vec<UnsignedCall>, Option<usize>), OffchainErr>)
        requires
            self.wf(),
        ensures
            !is_validator ==> r == Err::<(Vec<UnsignedCall>, Option<usize>), OffchainErr>(OffchainErr::NotValidator),
            is_validator && !lock_acquired ==> r == Err::<(Vec<UnsignedCall>, Option<usize>), OffchainErr>(OffchainErr::OffchainLock),
            is_validator && lock_acquired ==> r is Ok && ({
                let s = loans.positions.entries@;
                let st: int = match start { Some(k) => k as int, None => 0 };
                let max: u32 = match max_iterations { Some(m) => m, None => DEFAULT_MAX_ITERATIONS };
                let first = if st < s.len() { st } else { s.len() as int };
                let n = s.len() - first;
                let end = if max != 0 && max <= n { first + max } else { s.len() as int };
                &&& r->Ok_0.0@ == self.spec_offchain_calls(is_shutdown, s.subrange(first, end))
                &&& r->Ok_0.1 == (if max != 0 && max <= n { Some(end as usize) } else { None::<usize> })
            }),
    {
        if !is_validator {
            return Err(OffchainErr::NotValidator);
        }
        if !lock_acquired {
            return Err(OffchainErr::OffchainLock);
        }
        let st = match start {
            Some(k) => k,
            None => 0,
        };
        let max = match max_iterations {
            Some(m) => m,
            None => DEFAULT_MAX_ITERATIONS,
        };
        Ok(self.offchain_scan(loans, is_shutdown, st, max))
    }
}

/// Why the offchain worker did not run.
#[derive(Clone, Copy, Debug, PartialEq, Eq, Structural)]
pub enum OffchainErr {
    NotValidator,
    OffchainLock,
}

/// The positions the offchain worker looks at in one run when no limit is stored.
pub const DEFAULT_MAX_ITERATIONS: u32 = 1000u32;


impl<P: PriceProvider> Pallet<P> {
    /// Adjust the position of `who` through `loans`; more debit moves the position to
    /// the current interest rate.
    pub fn adjust_position(
        &self,
        loans: &mut honzon_loans::Pallet,
        treasury: &mut cdp_treasury::Pallet,
        assets: &mut Assets,
        who: u64,
        collateral_adjustment: BalanceAdjustment,
        debit_value_adjustment: BalanceAdjustment,
    ) -> (r: Result<(), DispatchError>)
        requires
            self.wf(),
            old(loans).wf(),
            old(assets).wf(),
        ensures
            final(loans).wf(),
            final(assets).wf(),
            ({
                let fee = if debit_value_adjustment is Increase { Some(self.params.interest_rate_per_sec) } else { None::<u128> };
                &&& r is Ok <==> honzon_loans::adjust_ok(*self, *old(loans), *old(assets), who,
                    collateral_adjustment, debit_value_adjustment, fee)
                &&& r is Err ==> final(loans).positions_map() == old(loans).positions_map()
                    && final(loans).events@ == old(loans).events@
                    && *final(assets) == *old(assets)
                &&& r is Ok ==> ({
                    let (np, w1, w2) = honzon_loans::spec_update_writes(*self, old(loans).position_of(who),
                        old(loans).totals_map(), collateral_adjustment, debit_value_adjustment, fee)->Ok_0;
                    final(loans).positions_map() == old(loans).positions_after(who, np)
                })
            }),
    {
        let fee = if debit_value_adjustment.is_increase() { Some(self.params.interest_rate_per_sec) } else { None };
        loans.adjust_position(self, treasury, assets, who, collateral_adjustment, debit_value_adjustment, fee)
    }

    /// Close the debit of `who`'s safe position by selling its collateral for exactly
    /// the debit value (at most `max_collateral_amount` of it, the swap's outcome being
    /// `swapped`): the position is confiscated, and the collateral not sold is refunded.
    /// A failure restores the position, the balances and the treasury.
    pub fn close_cdp_has_debit_by_dex<L: LiquidationTarget, M: AuctionManager>(
        &mut self,
        loans: &mut honzon_loans::Pallet,
        liquidator: &mut L,
        treasury: &mut cdp_treasury::Pallet,
        manager: &M,
        assets: &mut Assets,
        who: u64,
        max_collateral_amount: u128,
        swapped: Result<u128, DispatchError>,
    ) -> (r: Result<(), DispatchError>)
        requires
            old(liquidator).liquidator_wf(),
            old(self).wf(),
            old(loans).wf(),
            old(assets).wf(),
            swapped matches Ok(v) ==> v <= old(loans).position_of(who).collateral,
        ensures
            final(self).wf(),
            final(loans).wf(),
            final(assets).wf(),
            final(self).compound_factors == old(self).compound_factors,
            final(self).params == old(self).params,
            ({
                let p = old(loans).position_of(who);
                let value = old(self).spec_debit_value(p.debit.units, p.debit.stability_fee);
                &&& p.debit.units == 0 ==> r == Err::<(), DispatchError>(engine_err(Error::NoDebitValue))
                &&& p.debit.units != 0 && old(self).spec_feed_price() is None
                    ==> r == Err::<(), DispatchError>(engine_err(Error::InvalidFeedPrice))
                &&& p.debit.units != 0 && old(self).spec_feed_price() is Some
                    && !old(self).do_check_position_ok(p.collateral, p.debit.units, p.debit.stability_fee, old(self).spec_feed_price())
                    ==> r == Err::<(), DispatchError>(engine_err(Error::MustBeSafe))
                &&& swapped is Err && p.debit.units != 0 ==> r is Err
                &&& r is Err ==> final(loans).positions_map() == old(loans).positions_map()
                    && final(loans).totals_map() == old(loans).totals_map()
                    && final(loans).events@ == old(loans).events@
                    && final(assets).same(*old(assets))
                    && final(treasury).debit_pool == old(treasury).debit_pool
                    && final(treasury).events@ == old(treasury).events@
                    && final(self).events@ == old(self).events@
                &&& r is Ok ==> ({
                    let upd = honzon_loans::spec_confiscation(*old(self), *old(loans), who, p.collateral, value);
                    &&& upd is Ok
                    &&& final(loans).positions_map() == old(loans).positions_after(who, upd->Ok_0.0)
                    &&& swapped is Ok
                    &&& final(self).events@ == old(self).events@.push(Event::CloseCDPInDebitByDEX {
                        owner: who,
                        sold_collateral_amount: swapped->Ok_0,
                        refund_collateral_amount: (p.collateral - swapped->Ok_0) as u128,
                        debit_value: value })
                })
            }),
    {
        let p = loans.positions(who);
        if p.debit.units == 0 {
            return Err(DispatchError::Module(ModuleError::CdpEngine(Error::NoDebitValue)));
        }
        match self.is_cdp_safe(p.collateral, p.debit.units, p.debit.stability_fee) {
            Ok(true) => {},
            Ok(false) => return Err(DispatchError::Module(ModuleError::CdpEngine(Error::MustBeSafe))),
            Err(e) => return Err(DispatchError::Module(ModuleError::CdpEngine(e))),
        }
        let debit_value = self.do_debit_units_to_value(p.debit.units, p.debit.stability_fee);
        let saved_loans = loans.duplicate();
        let saved_assets = assets.duplicate();
        let saved_treasury = treasury.duplicate();
        match loans.confiscate_collateral_and_debit(&*self, liquidator, treasury, assets, who, p.collateral, debit_value) {
            Ok(()) => {},
            Err(e) => return Err(e),
        }
        let supply = if p.collateral < max_collateral_amount { p.collateral } else { max_collateral_amount };
        let (actual_supply, _) = match treasury.swap_collateral_to_stable(
            assets, manager, cdp_treasury::SwapLimit::ExactTarget(supply, debit_value), false, swapped) {
            Ok(v) => v,
            Err(e) => {
                *loans = saved_loans;
                *assets = saved_assets;
                *treasury = saved_treasury;
                return Err(e);
            },
        };
        let refund = p.collateral - actual_supply;
        match treasury.withdraw_collateral(assets, who, refund) {
            Ok(()) => {},
            Err(e) => {
                *loans = saved_loans;
                *assets = saved_assets;
                *treasury = saved_treasury;
                return Err(e);
            },
        }
        self.events.push(Event::CloseCDPInDebitByDEX {
            owner: who,
            sold_collateral_amount: actual_supply,
            refund_collateral_amount: refund,
            debit_value,
        });
        Ok(())
    }
}

} // verus!
