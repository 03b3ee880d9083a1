//! Emergency shutdown: a one-way switch that freezes the collateral price, then, once
//! every debit is settled and no collateral is in auction, lets holders of stable coin
//! redeem it for their share of the treasury's collateral.

use crate::assets::{Assets, NATIVE};
use crate::cdp_treasury;
use crate::fixed::{fixed_saturating_mul_int, spec_from_rational, spec_mul_int};
use crate::loans;
use crate::traits::{AuctionManager, DispatchError, ModuleError, Origin};
use vstd::prelude::*;

verus! {

/// Errors of the emergency shutdown.
#[derive(Clone, Copy, Debug, PartialEq, Eq, Structural)]
pub enum Error {
    AlreadyShutdown,
    MustAfterShutdown,
    CanNotRefund,
    ExistPotentialSurplus,
    ExistUnhandledDebit,
}

/// Events of the emergency shutdown.
#[derive(Clone, Copy, Debug, PartialEq, Eq, Structural)]
pub enum Event {
    Shutdown { block_number: u64 },
    OpenRefund { block_number: u64 },
    Refund { who: u64, stable_coin_amount: u128, refunded_collateral_currency_id: u32, refunded_collateral_amount: u128 },
}

/// A shutdown error as a dispatch error.
pub open spec fn shutdown_err(e: Error) -> DispatchError {
    DispatchError::Module(ModuleError::EmergencyShutdown(e))
}

/// A price source whose price can be frozen.
pub trait LockablePrice {
    /// Freeze the price of `currency_id`.
    fn lock_price(&mut self, currency_id: u32) -> (r: Result<(), DispatchError>);

    /// Unfreeze the price of `currency_id`.
    fn unlock_price(&mut self, currency_id: u32) -> (r: Result<(), DispatchError>);
}

/// A lockable price source that accepts every lock and unlock.
#[derive(Clone, Copy, Debug, PartialEq, Eq, Structural)]
pub struct MockLockablePrice;

impl LockablePrice for MockLockablePrice {
    fn lock_price(&mut self, currency_id: u32) -> (r: Result<(), DispatchError>)
        ensures
            r is Ok,
    {
        Ok(())
    }

    fn unlock_price(&mut self, currency_id: u32) -> (r: Result<(), DispatchError>)
        ensures
            r is Ok,
    {
        Ok(())
    }
}

/// Whether `origin` may shut the system down: the single member `1`.
pub open spec fn is_shutdown_origin(origin: Origin) -> bool {
    origin == Origin::Signed(1)
}

/// The collateral refunded for `amount` of stable coin: its share of all stable coin
/// issued, applied to the treasury's collateral.
pub open spec fn spec_refund_amount(amount: u128, stable_issuance: u128, total_collaterals: u128) -> u128 {
    let ratio = match spec_from_rational(amount, stable_issuance) { Some(p) => p, None => 0 };
    spec_mul_int(ratio, total_collaterals)
}

/// Refunds are proportional: redeeming at most all the stable coin issued never
/// refunds more than all of the treasury's collateral.
pub proof fn lemma_refund_within_collateral(amount: u128, stable_issuance: u128, total_collaterals: u128)
    requires
        amount <= stable_issuance,
    ensures
        spec_refund_amount(amount, stable_issuance, total_collaterals) <= total_collaterals,
{
    if stable_issuance != 0 {
        let one = crate::fixed::FIXED_ONE as int;
        let ratio = (amount as int) * one / (stable_issuance as int);
        assert(ratio <= one) by (nonlinear_arith)
            requires ratio == (amount as int) * one / (stable_issuance as int), amount <= stable_issuance, stable_issuance > 0, one > 0;
        assert(ratio >= 0) by (nonlinear_arith)
            requires ratio == (amount as int) * one / (stable_issuance as int), stable_issuance > 0, one > 0, amount >= 0;
        assert(ratio * (total_collaterals as int) / one <= total_collaterals) by (nonlinear_arith)
            requires ratio <= one, ratio >= 0, one > 0, total_collaterals >= 0;
    }
}

/// The switch and its price source.
pub struct Pallet<S> {
    pub is_shutdown: bool,
    pub can_refund: bool,
    pub price_source: S,
    pub events: Vec<Event>,
}

impl<S: LockablePrice> Pallet<S> {
    /// Refunds are only ever open after shutdown.
    pub open spec fn wf(&self) -> bool {
        self.can_refund ==> self.is_shutdown
    }

    /// Running, refunds closed.
    pub fn new(price_source: S) -> (r: Self)
        ensures
            r.wf(),
            !r.is_shutdown,
            !r.can_refund,
            r.events@.len() == 0,
    {
        Pallet { is_shutdown: false, can_refund: false, price_source, events: Vec::new() }
    }

    /// Whether the system is shut down.
    pub fn is_shutdown(&self) -> (r: bool)
        ensures
            r == self.is_shutdown,
    {
        self.is_shutdown
    }

    /// Whether refunds are open.
    pub fn can_refund(&self) -> (r: bool)
        ensures
            r == self.can_refund,
    {
        self.can_refund
    }

    /// Shut the system down (shutdown origin only, once): the collateral price is
    /// frozen (whatever the price source answers) and the switch set.
    pub fn emergency_shutdown(&mut self, origin: Origin, block_number: u64) -> (r: Result<(), DispatchError>)
        requires
            old(self).wf(),
        ensures
            final(self).wf(),
            final(self).can_refund == old(self).can_refund,
            !is_shutdown_origin(origin) ==> r == Err::<(), DispatchError>(DispatchError::BadOrigin),
            is_shutdown_origin(origin) && old(self).is_shutdown ==> r == Err::<(), DispatchError>(shutdown_err(Error::AlreadyShutdown)),
            r is Err ==> final(self).is_shutdown == old(self).is_shutdown && final(self).events@ == old(self).events@,
            r is Ok <==> is_shutdown_origin(origin) && !old(self).is_shutdown,
            r is Ok ==> final(self).is_shutdown
                && final(self).events@ == old(self).events@.push(Event::Shutdown { block_number }),
    {
        if origin != Origin::Signed(1) {
            return Err(DispatchError::BadOrigin);
        }
        if self.is_shutdown {
            return Err(DispatchError::Module(ModuleError::EmergencyShutdown(Error::AlreadyShutdown)));
        }
        let _ = self.price_source.lock_price(NATIVE);
        self.is_shutdown = true;
        self.events.push(Event::Shutdown { block_number });
        Ok(())
    }

    /// Open refunds (shutdown origin only) once shut down, with no collateral in
    /// auction and no debit left in loans.
    pub fn open_collateral_refund<M: AuctionManager>(
        &mut self,
        origin: Origin,
        manager: &M,
        loans: &loans::Pallet,
        block_number: u64,
    ) -> (r: Result<(), DispatchError>)
        requires
            old(self).wf(),
        ensures
            final(self).wf(),
            final(self).is_shutdown == old(self).is_shutdown,
            r == (if !is_shutdown_origin(origin) {
                Err(DispatchError::BadOrigin)
            } else if !old(self).is_shutdown {
                Err(shutdown_err(Error::MustAfterShutdown))
            } else if manager.collateral_in_auction(NATIVE) != 0 {
                Err(shutdown_err(Error::ExistPotentialSurplus))
            } else if loans.total_positions.debit != 0 {
                Err(shutdown_err(Error::ExistUnhandledDebit))
            } else {
                Ok(())
            }),
            r is Err ==> final(self).can_refund == old(self).can_refund && final(self).events@ == old(self).events@,
            r is Ok ==> final(self).can_refund
                && final(self).events@ == old(self).events@.push(Event::OpenRefund { block_number }),
    {
        if origin != Origin::Signed(1) {
            return Err(DispatchError::BadOrigin);
        }
        if !self.is_shutdown {
            return Err(DispatchError::Module(ModuleError::EmergencyShutdown(Error::MustAfterShutdown)));
        }
        if manager.get_total_collateral_in_auction(NATIVE) != 0 {
            return Err(DispatchError::Module(ModuleError::EmergencyShutdown(Error::ExistPotentialSurplus)));
        }
        if loans.total_positions.debit != 0 {
            return Err(DispatchError::Module(ModuleError::EmergencyShutdown(Error::ExistUnhandledDebit)));
        }
        self.can_refund = true;
        self.events.push(Event::OpenRefund { block_number });
        Ok(())
    }

    /// Redeem `amount` of the caller's stable coin (burned) for its share of the
    /// treasury's collateral.  All or nothing.
    pub fn refund_collaterals(
        &mut self,
        origin: Origin,
        treasury: &cdp_treasury::Pallet,
        assets: &mut Assets,
        amount: u128,
    ) -> (r: Result<(), DispatchError>)
        requires
            old(self).wf(),
            old(assets).wf(),
        ensures
            final(self).wf(),
            final(assets).wf(),
            final(self).is_shutdown == old(self).is_shutdown,
            final(self).can_refund == old(self).can_refund,
            !(origin is Signed) ==> r == Err::<(), DispatchError>(DispatchError::BadOrigin),
            origin is Signed && !old(self).can_refund ==> r == Err::<(), DispatchError>(shutdown_err(Error::CanNotRefund)),
            ({
                let who = origin->Signed_0;
                let t = treasury.account_id;
                let refund = spec_refund_amount(amount, old(assets).stable.issuance, old(assets).free(NATIVE, t));
                &&& r is Ok <==> (origin is Signed && old(self).can_refund
                    && old(assets).free(crate::assets::STABLE, who) >= amount
                    && (refund == 0 || (old(assets).free(NATIVE, t) >= refund
                        && (who == t || old(assets).free(NATIVE, who) + refund <= u128::MAX))))
                &&& r is Err ==> *final(assets) == *old(assets) && final(self).events@ == old(self).events@
                &&& r is Ok ==> final(assets).free(crate::assets::STABLE, who) == old(assets).free(crate::assets::STABLE, who) - amount
                    && (who != t ==> final(assets).free(NATIVE, who) == old(assets).free(NATIVE, who) + refund
                        && final(assets).free(NATIVE, t) == old(assets).free(NATIVE, t) - refund)
                    && final(self).events@ == old(self).events@.push(Event::Refund {
                        who,
                        stable_coin_amount: amount,
                        refunded_collateral_currency_id: NATIVE,
                        refunded_collateral_amount: refund,
                    })
            }),
    {
        let who = match origin {
            Origin::Signed(w) => w,
            _ => return Err(DispatchError::BadOrigin),
        };
        if !self.can_refund {
            return Err(DispatchError::Module(ModuleError::EmergencyShutdown(Error::CanNotRefund)));
        }
        let refund_ratio = treasury.get_debit_proportion(assets, amount);
        let total = treasury.total_collaterals(assets);
        let refund_amount = fixed_saturating_mul_int(refund_ratio, total);
        let t = treasury.account_id();
        if assets.balance(crate::assets::STABLE, who) < amount {
            return Err(DispatchError::Token(crate::assets::TokenError::FundsUnavailable));
        }
        if refund_amount != 0 {
            if total < refund_amount {
                return Err(DispatchError::Token(crate::assets::TokenError::FundsUnavailable));
            }
            if who != t && assets.balance(NATIVE, who).checked_add(refund_amount).is_none() {
                return Err(DispatchError::Token(crate::assets::TokenError::Overflow));
            }
        }
        let b = treasury.burn_debit(assets, who, amount);
        assert(b is Ok);
        if refund_amount != 0 {
            let w = treasury.withdraw_collateral(assets, who, refund_amount);
            assert(w is Ok);
        }
        self.events.push(Event::Refund {
            who,
            stable_coin_amount: amount,
            refunded_collateral_currency_id: NATIVE,
            refunded_collateral_amount: refund_amount,
        });
        Ok(())
    }
}

} // verus!
