//! A governance-funded backstop for liquidations: it buys liquidated collateral at a
//! discount to the oracle price, issuing the debit it covers as system debit within
//! a quota.

use crate::adjustment::ArithmeticError;
use crate::assets::{Assets, CurrencyId, NATIVE, STABLE};
use crate::cdp_treasury;
use crate::fixed::{
    fixed_reciprocal, fixed_saturating_mul, fixed_saturating_mul_int, permill_to_fixed, spec_fixed_mul, spec_mul_int,
    spec_reciprocal, FIXED_ONE, PERMILL_ONE,
};
use crate::traits::{DispatchError, LiquidationTarget, ModuleError, Origin, PriceProvider};
use vstd::prelude::*;

verus! {

/// Errors of the issuance buffer.
#[derive(Clone, Copy, Debug, PartialEq, Eq, Structural)]
pub enum Error {
    QuotaExceeded,
    InsufficientFunds,
    UnsupportedCollateral,
    OraclePriceError,
}

/// Events of the issuance buffer.
#[derive(Clone, Copy, Debug, PartialEq, Eq, Structural)]
pub enum Event {
    Funded { amount: u128 },
    Defunded { amount: u128 },
    /// The discount in parts per million.
    DiscountUpdated { discount: u32 },
    IssuanceQuotaUpdated { quota: u128 },
}

/// A buffer error as a dispatch error.
pub open spec fn buffer_err(e: Error) -> DispatchError {
    DispatchError::Module(ModuleError::IssuanceBuffer(e))
}

/// The buffer's parameters and state, with its source of prices.
pub struct Pallet<P> {
    /// The account that buys collateral.
    pub account_id: u64,
    /// The fraction of the oracle price bid, in parts per million.
    pub discount: u32,
    /// The most debit the buffer may cover.
    pub issuance_quota: u128,
    /// The debit covered so far.
    pub issuance_used: u128,
    pub price_source: P,
    pub events: Vec<Event>,
}

/// The price bid for collateral: the oracle price times the discount.
pub open spec fn spec_discounted_price(price: u128, discount: u32) -> u128 {
    spec_fixed_mul(price, (discount * 1_000_000_000_000u128) as u128)
}

/// The collateral `value` stable coin buys at `price` (none at a zero price).
pub open spec fn spec_collateral_for(price: u128, value: u128) -> u128 {
    match spec_reciprocal(price) {
        Some(r) => spec_mul_int(r, value),
        None => 0,
    }
}

/// What a liquidation of `collateral_to_sell` for `debit_to_cover` buys at `price` with
/// `remaining` quota: the collateral taken and the debit covered.
pub open spec fn spec_purchase(price: u128, remaining: u128, collateral_to_sell: u128, debit_to_cover: u128) -> (u128, u128) {
    if remaining == 0 {
        (0, 0)
    } else {
        let to_buy = spec_collateral_for(price, remaining);
        let actual = if collateral_to_sell < to_buy { collateral_to_sell } else { to_buy };
        if actual == 0 {
            (0, 0)
        } else {
            let value = spec_mul_int(price, actual);
            let covered = if debit_to_cover < value { debit_to_cover } else { value };
            (spec_collateral_for(price, covered), covered)
        }
    }
}

/// The buffer never covers more debit than the quota it has left: what a purchase
/// covers is at most `remaining`.
pub proof fn lemma_purchase_within_quota(price: u128, remaining: u128, collateral_to_sell: u128, debit_to_cover: u128)
    ensures
        spec_purchase(price, remaining, collateral_to_sell, debit_to_cover).1 <= remaining,
{
    if remaining != 0 && price != 0 {
        let one = FIXED_ONE as int;
        let p = price as int;
        let rem = remaining as int;
        let rp = one * one / p;
        assert(p * rp <= one * one) by (nonlinear_arith)
            requires p > 0, rp == one * one / p, one > 0;
        assert(rp <= one * one) by (nonlinear_arith)
            requires p >= 1, rp == one * one / p, one > 0;
        assert(spec_reciprocal(price) == Some(rp as u128));
        let to_buy = spec_collateral_for(price, remaining);
        let actual = if collateral_to_sell < to_buy { collateral_to_sell } else { to_buy };
        if actual != 0 {
            let a = actual as int;
            assert(a * one <= rp * rem) by (nonlinear_arith)
                requires
                    a <= to_buy,
                    to_buy == (if rp * rem / one > u128::MAX { u128::MAX as int } else { rp * rem / one }),
                    a <= u128::MAX,
                    one > 0,
                    rp >= 0,
                    rem >= 0;
            assert(p * a * one <= one * one * rem) by (nonlinear_arith)
                requires a * one <= rp * rem, p * rp <= one * one, p > 0, rem >= 0, a >= 0, rp >= 0, one > 0;
            assert(p * a / one <= rem) by (nonlinear_arith)
                requires p * a * one <= one * one * rem, one > 0, p >= 0, a >= 0;
        }
    }
}

fn ensure_admin(origin: Origin) -> (r: Result<(), DispatchError>)
    ensures
        r == (if origin == Origin::Root { Ok::<(), DispatchError>(()) } else { Err(DispatchError::BadOrigin) }),
{
    match origin {
        Origin::Root => Ok(()),
        _ => Err(DispatchError::BadOrigin),
    }
}

impl<P> Pallet<P> {
    /// A buffer with the given discount and quota, nothing used.
    pub fn new(account_id: u64, discount: u32, issuance_quota: u128, price_source: P) -> (r: Self)
        requires
            discount <= PERMILL_ONE,
        ensures
            r.wf(),
            r.account_id == account_id,
            r.discount == discount,
            r.issuance_quota == issuance_quota,
            r.issuance_used == 0,
            r.price_source == price_source,
            r.events@.len() == 0,
    {
        Pallet { account_id, discount, issuance_quota, issuance_used: 0, price_source, events: Vec::new() }
    }

    /// The discount is a fraction of one.
    pub open spec fn wf(&self) -> bool {
        self.discount <= PERMILL_ONE
    }

    /// The account of the buffer.
    pub fn account_id(&self) -> (r: u64)
        ensures
            r == self.account_id,
    {
        self.account_id
    }

    /// The discount, in parts per million.
    pub fn discount(&self) -> (r: u32)
        ensures
            r == self.discount,
    {
        self.discount
    }

    /// The quota of debit.
    pub fn issuance_quota(&self) -> (r: u128)
        ensures
            r == self.issuance_quota,
    {
        self.issuance_quota
    }

    /// The debit covered so far.
    pub fn issuance_used(&self) -> (r: u128)
        ensures
            r == self.issuance_used,
    {
        self.issuance_used
    }

    /// Fund the buffer (admin only): `amount` of surplus is issued to the treasury.
    pub fn fund(&mut self, origin: Origin, treasury: &cdp_treasury::Pallet, assets: &mut Assets, amount: u128)
        -> (r: Result<(), DispatchError>)
        requires
            old(assets).wf(),
        ensures
            final(assets).wf(),
            final(self).discount == old(self).discount,
            final(self).issuance_quota == old(self).issuance_quota,
            final(self).issuance_used == old(self).issuance_used,
            origin != Origin::Root ==> r == Err::<(), DispatchError>(DispatchError::BadOrigin),
            r is Ok <==> origin == Origin::Root && old(assets).stable.issuance + amount <= u128::MAX
                && old(assets).free(STABLE, treasury.account_id) + amount <= u128::MAX,
            r is Err ==> *final(assets) == *old(assets) && final(self).events@ == old(self).events@,
            r is Ok ==> final(assets).free(STABLE, treasury.account_id) == old(assets).free(STABLE, treasury.account_id) + amount
                && final(self).events@ == old(self).events@.push(Event::Funded { amount }),
    {
        match ensure_admin(origin) {
            Ok(()) => {},
            Err(e) => return Err(e),
        }
        match treasury.pay_surplus(assets, amount) {
            Ok(()) => {},
            Err(e) => return Err(e),
        }
        self.events.push(Event::Funded { amount });
        Ok(())
    }

    /// Defund the buffer (admin only): `amount` of the treasury's stable coin is burned.
    pub fn defund(&mut self, origin: Origin, treasury: &cdp_treasury::Pallet, assets: &mut Assets, amount: u128)
        -> (r: Result<(), DispatchError>)
        requires
            old(assets).wf(),
        ensures
            final(assets).wf(),
            final(self).discount == old(self).discount,
            final(self).issuance_quota == old(self).issuance_quota,
            final(self).issuance_used == old(self).issuance_used,
            origin != Origin::Root ==> r == Err::<(), DispatchError>(DispatchError::BadOrigin),
            r is Ok <==> origin == Origin::Root && old(assets).free(STABLE, treasury.account_id) >= amount,
            r is Err ==> *final(assets) == *old(assets) && final(self).events@ == old(self).events@,
            r is Ok ==> final(assets).free(STABLE, treasury.account_id) == old(assets).free(STABLE, treasury.account_id) - amount
                && final(self).events@ == old(self).events@.push(Event::Defunded { amount }),
    {
        match ensure_admin(origin) {
            Ok(()) => {},
            Err(e) => return Err(e),
        }
        match treasury.refund_surplus(assets, amount) {
            Ok(()) => {},
            Err(e) => return Err(e),
        }
        self.events.push(Event::Defunded { amount });
        Ok(())
    }

    /// Set the discount (admin only), in parts per million up to one million.
    pub fn set_discount(&mut self, origin: Origin, discount: u32) -> (r: Result<(), DispatchError>)
        requires
            discount <= PERMILL_ONE,
        ensures
            origin != Origin::Root ==> r == Err::<(), DispatchError>(DispatchError::BadOrigin)
                && final(self).discount == old(self).discount && final(self).events@ == old(self).events@,
            origin == Origin::Root ==> r is Ok && final(self).discount == discount
                && final(self).events@ == old(self).events@.push(Event::DiscountUpdated { discount }),
            final(self).issuance_quota == old(self).issuance_quota,
            final(self).issuance_used == old(self).issuance_used,
            final(self).account_id == old(self).account_id,
    {
        match ensure_admin(origin) {
            Ok(()) => {},
            Err(e) => return Err(e),
        }
        self.discount = discount;
        self.events.push(Event::DiscountUpdated { discount });
        Ok(())
    }

    /// Set the quota of debit (admin only).
    pub fn set_issuance_quota(&mut self, origin: Origin, quota: u128) -> (r: Result<(), DispatchError>)
        ensures
            origin != Origin::Root ==> r == Err::<(), DispatchError>(DispatchError::BadOrigin)
                && final(self).issuance_quota == old(self).issuance_quota && final(self).events@ == old(self).events@,
            origin == Origin::Root ==> r is Ok && final(self).issuance_quota == quota
                && final(self).events@ == old(self).events@.push(Event::IssuanceQuotaUpdated { quota }),
            final(self).discount == old(self).discount,
            final(self).issuance_used == old(self).issuance_used,
            final(self).account_id == old(self).account_id,
    {
        match ensure_admin(origin) {
            Ok(()) => {},
            Err(e) => return Err(e),
        }
        self.issuance_quota = quota;
        self.events.push(Event::IssuanceQuotaUpdated { quota });
        Ok(())
    }
}


impl<P: PriceProvider> LiquidationTarget for Pallet<P> {
    open spec fn liquidator_wf(&self) -> bool {
        self.wf()
    }

    open spec fn takes_nothing(&self) -> bool {
        false
    }

    /// Buy collateral from `who` at the discounted oracle price with the quota left:
    /// the collateral goes to the treasury and the debit covered becomes system debit.
    fn liquidate(
        &mut self,
        assets: &mut Assets,
        treasury: &mut cdp_treasury::Pallet,
        who: u64,
        collateral_currency: CurrencyId,
        collateral_to_sell: u128,
        debit_to_cover: u128,
    ) -> (r: Result<(u128, u128), DispatchError>)
        ensures
            final(self).discount == old(self).discount,
            final(self).issuance_quota == old(self).issuance_quota,
            final(self).account_id == old(self).account_id,
            collateral_currency != NATIVE ==> r == Err::<(u128, u128), DispatchError>(buffer_err(Error::UnsupportedCollateral)),
            collateral_currency == NATIVE && crate::traits::relative_price(old(self).price_source.price(collateral_currency),
                old(self).price_source.price(STABLE)) is None
                ==> r == Err::<(u128, u128), DispatchError>(buffer_err(Error::OraclePriceError)),
            r is Err ==> final(self).issuance_used == old(self).issuance_used,
            old(self).issuance_used <= old(self).issuance_quota ==> final(self).issuance_used <= final(self).issuance_quota,
            r matches Ok(x) ==> ({
                let price = crate::traits::relative_price(old(self).price_source.price(collateral_currency),
                    old(self).price_source.price(STABLE))->Some_0;
                let dp = spec_discounted_price(price, old(self).discount);
                let remaining = if old(self).issuance_quota > old(self).issuance_used {
                    (old(self).issuance_quota - old(self).issuance_used) as u128
                } else {
                    0
                };
                &&& x == spec_purchase(dp, remaining, collateral_to_sell, debit_to_cover)
                &&& final(self).issuance_used == crate::fixed::spec_sat_add(old(self).issuance_used, x.1)
            }),
    {
        if collateral_currency != NATIVE {
            return Err(DispatchError::Module(ModuleError::IssuanceBuffer(Error::UnsupportedCollateral)));
        }
        let price = match self.price_source.get_relative_price(collateral_currency, STABLE) {
            Some(p) => p,
            None => return Err(DispatchError::Module(ModuleError::IssuanceBuffer(Error::OraclePriceError))),
        };
        let discounted = fixed_saturating_mul(price, permill_to_fixed(self.discount));
        let remaining = if self.issuance_quota > self.issuance_used { self.issuance_quota - self.issuance_used } else { 0 };
        proof {
            lemma_purchase_within_quota(discounted, remaining, collateral_to_sell, debit_to_cover);
        }
        if remaining == 0 {
            return Ok((0, 0));
        }
        let reciprocal = fixed_reciprocal(discounted);
        let to_buy = match reciprocal {
            Some(rp) => fixed_saturating_mul_int(rp, remaining),
            None => 0,
        };
        let actual = if collateral_to_sell < to_buy { collateral_to_sell } else { to_buy };
        if actual == 0 {
            return Ok((0, 0));
        }
        let value = fixed_saturating_mul_int(discounted, actual);
        let covered = if debit_to_cover < value { debit_to_cover } else { value };
        let collateral = match reciprocal {
            Some(rp) => fixed_saturating_mul_int(rp, covered),
            None => 0,
        };
        let buffer = self.account_id;
        let saved = assets.duplicate();
        match assets.transfer(NATIVE, who, buffer, collateral) {
            Ok(()) => {},
            Err(e) => return Err(DispatchError::Token(e)),
        }
        match treasury.deposit_collateral(assets, buffer, collateral) {
            Ok(()) => {},
            Err(e) => {
                *assets = saved;
                return Err(e);
            },
        }
        match treasury.on_system_debit(covered) {
            Ok(()) => {},
            Err(e) => {
                *assets = saved;
                return Err(e);
            },
        }
        self.issuance_used = crate::fixed::fixed_saturating_add(self.issuance_used, covered);
        Ok((collateral, covered))
    }
}

} // verus!
