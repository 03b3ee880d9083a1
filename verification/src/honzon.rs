//! The user-facing entry points of the protocol: adjusting and closing loans, and the
//! parameters and ratios that front ends read.

use crate::adjustment::BalanceAdjustment;
use crate::assets::{Assets, NATIVE, STABLE};
use crate::cdp_engine;
use crate::cdp_treasury;
use crate::fixed::FIXED_ONE;
use crate::honzon_loans;
use crate::traits::{DispatchError, ModuleError, Origin, PriceProvider};
use vstd::prelude::*;

verus! {

/// Errors of the entry points.
#[derive(Clone, Copy, Debug, PartialEq, Eq, Structural)]
pub enum Error {
    NoPermission,
    AlreadyShutdown,
}

/// An entry-point error as a dispatch error.
pub open spec fn honzon_err(e: Error) -> DispatchError {
    DispatchError::Module(ModuleError::Honzon(e))
}

/// The account that signed `origin`.
fn ensure_signed(origin: Origin) -> (r: Result<u64, DispatchError>)
    ensures
        r == (match origin { Origin::Signed(w) => Ok::<u64, DispatchError>(w), _ => Err(DispatchError::BadOrigin) }),
{
    match origin {
        Origin::Signed(w) => Ok(w),
        _ => Err(DispatchError::BadOrigin),
    }
}

/// The stability fee a debit adjustment moves the position to: the current rate for
/// more debit, none otherwise.
pub open spec fn new_fee<P>(engine: cdp_engine::Pallet<P>, d: BalanceAdjustment) -> Option<u128> {
    if d is Increase { Some(engine.params.interest_rate_per_sec) } else { None }
}

/// The entry points; they keep no state of their own.
pub struct Pallet;

impl Pallet {
    /// Adjust the caller's loan: debit may not change after shutdown; more debit moves
    /// the position to the current interest rate.
    pub fn adjust_loan<P: PriceProvider>(
        origin: Origin,
        engine: &cdp_engine::Pallet<P>,
        loans: &mut honzon_loans::Pallet,
        treasury: &mut cdp_treasury::Pallet,
        assets: &mut Assets,
        is_shutdown: bool,
        collateral_adjustment: BalanceAdjustment,
        debit_adjustment: BalanceAdjustment,
    ) -> (r: Result<(), DispatchError>)
        requires
            engine.wf(),
            old(loans).wf(),
            old(assets).wf(),
        ensures
            final(loans).wf(),
            final(assets).wf(),
            !(origin is Signed) ==> r == Err::<(), DispatchError>(DispatchError::BadOrigin),
            origin is Signed ==> ({
                let who = origin->Signed_0;
                let blocked = debit_adjustment.spec_amount() != 0 && is_shutdown;
                let fee = new_fee(*engine, debit_adjustment);
                &&& blocked ==> r == Err::<(), DispatchError>(honzon_err(Error::AlreadyShutdown))
                &&& !blocked ==> (r is Ok <==> honzon_loans::adjust_ok(*engine, *old(loans), *old(assets), who,
                    collateral_adjustment, debit_adjustment, fee))
                &&& r is Ok ==> final(loans).positions_map() == old(loans).positions_after(who,
                    honzon_loans::spec_update_writes(*engine, old(loans).position_of(who), old(loans).totals_map(),
                        collateral_adjustment, debit_adjustment, fee)->Ok_0.0)
            }),
            r is Err ==> final(loans).positions_map() == old(loans).positions_map()
                && final(loans).events@ == old(loans).events@
                && *final(assets) == *old(assets),
    {
        let who = match ensure_signed(origin) {
            Ok(w) => w,
            Err(e) => return Err(e),
        };
        Self::do_adjust_loan(engine, loans, treasury, assets, is_shutdown, who, collateral_adjustment, debit_adjustment)
    }

    /// `adjust_loan` for `who`.
    pub fn do_adjust_loan<P: PriceProvider>(
        engine: &cdp_engine::Pallet<P>,
        loans: &mut honzon_loans::Pallet,
        treasury: &mut cdp_treasury::Pallet,
        assets: &mut Assets,
        is_shutdown: bool,
        who: u64,
        collateral_adjustment: BalanceAdjustment,
        debit_adjustment: BalanceAdjustment,
    ) -> (r: Result<(), DispatchError>)
        requires
            engine.wf(),
            old(loans).wf(),
            old(assets).wf(),
        ensures
            final(loans).wf(),
            final(assets).wf(),
            ({
                let blocked = debit_adjustment.spec_amount() != 0 && is_shutdown;
                let fee = new_fee(*engine, debit_adjustment);
                &&& blocked ==> r == Err::<(), DispatchError>(honzon_err(Error::AlreadyShutdown))
                &&& !blocked ==> (r is Ok <==> honzon_loans::adjust_ok(*engine, *old(loans), *old(assets), who,
                    collateral_adjustment, debit_adjustment, fee))
                &&& r is Err ==> final(loans).positions_map() == old(loans).positions_map()
                    && final(loans).events@ == old(loans).events@
                    && *final(assets) == *old(assets)
                &&& r is Ok ==> final(loans).positions_map() == old(loans).positions_after(who,
                    honzon_loans::spec_update_writes(*engine, old(loans).position_of(who), old(loans).totals_map(),
                        collateral_adjustment, debit_adjustment, fee)->Ok_0.0)
            }),
    {
        if !debit_adjustment.is_zero() && is_shutdown {
            return Err(DispatchError::Module(ModuleError::Honzon(Error::AlreadyShutdown)));
        }
        let fee = if debit_adjustment.is_increase() { Some(engine.interest_rate_per_sec()) } else { None };
        loans.adjust_position(engine, treasury, assets, who, collateral_adjustment, debit_adjustment, fee)
    }

    /// Adjust the caller's loan by debit value, through the engine.
    pub fn adjust_loan_by_debit_value<P: PriceProvider>(
        origin: Origin,
        engine: &cdp_engine::Pallet<P>,
        loans: &mut honzon_loans::Pallet,
        treasury: &mut cdp_treasury::Pallet,
        assets: &mut Assets,
        is_shutdown: bool,
        collateral_adjustment: BalanceAdjustment,
        debit_value_adjustment: BalanceAdjustment,
    ) -> (r: Result<(), DispatchError>)
        requires
            engine.wf(),
            old(loans).wf(),
            old(assets).wf(),
        ensures
            final(loans).wf(),
            final(assets).wf(),
            !(origin is Signed) ==> r == Err::<(), DispatchError>(DispatchError::BadOrigin),
            origin is Signed ==> ({
                let who = origin->Signed_0;
                let blocked = debit_value_adjustment.spec_amount() != 0 && is_shutdown;
                &&& blocked ==> r == Err::<(), DispatchError>(honzon_err(Error::AlreadyShutdown))
                &&& !blocked ==> (r is Ok <==> honzon_loans::adjust_ok(*engine, *old(loans), *old(assets), who,
                    collateral_adjustment, debit_value_adjustment, new_fee(*engine, debit_value_adjustment)))
            }),
            r is Err ==> final(loans).positions_map() == old(loans).positions_map()
                && *final(assets) == *old(assets),
    {
        let who = match ensure_signed(origin) {
            Ok(w) => w,
            Err(e) => return Err(e),
        };
        if !debit_value_adjustment.is_zero() && is_shutdown {
            return Err(DispatchError::Module(ModuleError::Honzon(Error::AlreadyShutdown)));
        }
        engine.adjust_position(loans, treasury, assets, who, collateral_adjustment, debit_value_adjustment)
    }

    /// Close the caller's loan by selling collateral on a DEX: refused after shutdown,
    /// otherwise nothing is done yet.
    pub fn close_loan_has_debit_by_dex(origin: Origin, is_shutdown: bool, max_collateral_amount: u128)
        -> (r: Result<(), DispatchError>)
        ensures
            r == (if !(origin is Signed) {
                Err(DispatchError::BadOrigin)
            } else if is_shutdown {
                Err(honzon_err(Error::AlreadyShutdown))
            } else {
                Ok(())
            }),
    {
        let who = match ensure_signed(origin) {
            Ok(w) => w,
            Err(e) => return Err(e),
        };
        Self::do_close_loan_by_dex(is_shutdown, who, max_collateral_amount)
    }

    /// `close_loan_has_debit_by_dex` for `who`.
    pub fn do_close_loan_by_dex(is_shutdown: bool, who: u64, max_collateral_amount: u128) -> (r: Result<(), DispatchError>)
        ensures
            r == (if is_shutdown { Err(honzon_err(Error::AlreadyShutdown)) } else { Ok::<(), DispatchError>(()) }),
    {
        if is_shutdown {
            return Err(DispatchError::Module(ModuleError::Honzon(Error::AlreadyShutdown)));
        }
        Ok(())
    }

    /// Expanding a position's collateral: only the caller is checked; nothing is done yet.
    pub fn expand_position_collateral(origin: Origin, increase_debit_value: u128, min_increase_collateral: u128)
        -> (r: Result<(), DispatchError>)
        ensures
            r == (if origin is Signed { Ok::<(), DispatchError>(()) } else { Err(DispatchError::BadOrigin) }),
    {
        match ensure_signed(origin) {
            Ok(_) => Ok(()),
            Err(e) => Err(e),
        }
    }

    /// Shrinking a position's debit: only the caller is checked; nothing is done yet.
    pub fn shrink_position_debit(origin: Origin, decrease_collateral: u128, min_decrease_debit_value: u128)
        -> (r: Result<(), DispatchError>)
        ensures
            r == (if origin is Signed { Ok::<(), DispatchError>(()) } else { Err(DispatchError::BadOrigin) }),
    {
        match ensure_signed(origin) {
            Ok(_) => Ok(()),
            Err(e) => Err(e),
        }
    }

    /// Move `who`'s position to `new_stability_fee` (root only), keeping its collateral
    /// and debit value.
    pub fn set_stability_fee<P: PriceProvider>(
        origin: Origin,
        engine: &cdp_engine::Pallet<P>,
        loans: &mut honzon_loans::Pallet,
        treasury: &mut cdp_treasury::Pallet,
        assets: &mut Assets,
        who: u64,
        new_stability_fee: u128,
    ) -> (r: Result<(), DispatchError>)
        requires
            engine.wf(),
            old(loans).wf(),
            old(assets).wf(),
        ensures
            final(loans).wf(),
            final(assets).wf(),
            origin != Origin::Root ==> r == Err::<(), DispatchError>(DispatchError::BadOrigin),
            origin == Origin::Root ==> (r is Ok <==> honzon_loans::adjust_ok(*engine, *old(loans), *old(assets), who,
                BalanceAdjustment::Increase(0), BalanceAdjustment::Increase(0), Some(new_stability_fee))),
            r is Err ==> final(loans).positions_map() == old(loans).positions_map()
                && *final(assets) == *old(assets),
            r is Ok ==> final(loans).positions_map() == old(loans).positions_after(who,
                honzon_loans::spec_update_writes(*engine, old(loans).position_of(who), old(loans).totals_map(),
                    BalanceAdjustment::Increase(0), BalanceAdjustment::Increase(0), Some(new_stability_fee))->Ok_0.0),
    {
        if origin != Origin::Root {
            return Err(DispatchError::BadOrigin);
        }
        loans.adjust_position(engine, treasury, assets, who, BalanceAdjustment::increase(0),
            BalanceAdjustment::increase(0), Some(new_stability_fee))
    }

    /// The position of `who`.
    pub fn get_position(loans: &honzon_loans::Pallet, who: u64) -> (r: honzon_loans::Position)
        requires
            loans.wf(),
        ensures
            r == loans.position_of(who),
    {
        loans.positions(who)
    }

    /// The collateral parameters: one, the liquidation ratio, one, and the required
    /// ratio (zero when unset), as fixed-point inner values.
    pub fn get_collateral_parameters<P>(engine: &cdp_engine::Pallet<P>) -> (r: Vec<u128>)
        ensures
            r@ == seq![FIXED_ONE, engine.params.liquidation_ratio, FIXED_ONE,
                match engine.params.required_collateral_ratio { Some(x) => x, None => 0u128 }],
    {
        let required = match engine.params.required_collateral_ratio {
            Some(x) => x,
            None => 0,
        };
        let mut v: Vec<u128> = Vec::new();
        v.push(FIXED_ONE);
        v.push(engine.params.liquidation_ratio);
        v.push(FIXED_ONE);
        v.push(required);
        v
    }

    /// The collateral ratio of `who`'s position at the oracle price, if known.
    pub fn get_current_collateral_ratio<P: PriceProvider>(engine: &cdp_engine::Pallet<P>, loans: &honzon_loans::Pallet, who: u64)
        -> (r: Option<u128>)
        requires
            engine.wf(),
            loans.wf(),
        ensures
            r == (match engine.spec_feed_price() {
                Some(price) => Some(cdp_engine::spec_collateral_ratio(loans.position_of(who).collateral, price,
                    engine.spec_debit_value(loans.position_of(who).debit.units, loans.position_of(who).debit.stability_fee))),
                None => None::<u128>,
            }),
    {
        let p = loans.positions(who);
        match engine.price_source.get_relative_price(NATIVE, STABLE) {
            Some(price) => {
                let value = engine.do_debit_units_to_value(p.debit.units, p.debit.stability_fee);
                Some(cdp_engine::Pallet::<P>::calculate_collateral_ratio(p.collateral, price, value))
            },
            None => None,
        }
    }

    /// The exchange rate of debit units to debit value: one.
    pub fn get_debit_exchange_rate() -> (r: u128)
        ensures
            r == FIXED_ONE,
    {
        FIXED_ONE
    }
}

} // verus!
