//! The CDP engine's dispatchable calls and block hook: unsigned liquidation and
//! settlement, interest accrual at the start of a block, and the two position
//! operations that go through a swap.

use crate::adjustment::BalanceAdjustment;
use crate::assets::{Assets, NATIVE, STABLE, TokenError};
use crate::auction;
use crate::cdp_engine::{engine_err, spec_liquidation_base_ok, Error, Pallet};
use crate::cdp_treasury;
use crate::honzon_loans;
use crate::traits::{AuctionManager, DispatchError, LiquidationTarget, ModuleError, Origin, PriceProvider};
use crate::weights::{sat_add, sat_mul, RuntimeDbWeight, Weight};
use vstd::prelude::*;

verus! {

impl<P: PriceProvider> Pallet<P> {
    /// Liquidate the unsafe position of `who` (unsigned calls only, before shutdown);
    /// `swapped` is the outcome of the swap tried first for its collateral.
    pub fn liquidate<L: LiquidationTarget, M: AuctionManager>(
        &mut self,
        origin: Origin,
        is_shutdown: bool,
        loans: &mut honzon_loans::Pallet,
        liquidator: &mut L,
        treasury: &mut cdp_treasury::Pallet,
        manager: &mut M,
        auctions: &mut auction::Pallet,
        assets: &mut Assets,
        now: u64,
        who: u64,
        swapped: Result<u128, DispatchError>,
    ) -> (r: Result<(), DispatchError>)
        requires
            old(liquidator).liquidator_wf(),
            old(self).wf(),
            old(loans).wf(),
            old(assets).wf(),
            old(manager).manager_wf(),
            old(auctions).wf(),
            old(self).spec_liquidation_swaps(*old(loans), who) ==> old(self).spec_stable_price() is Some,
            swapped matches Ok(v) ==> v <= old(loans).position_of(who).collateral,
        ensures
            final(self).wf(),
            final(loans).wf(),
            final(assets).wf(),
            origin != Origin::Unsigned ==> r == Err::<(), DispatchError>(DispatchError::BadOrigin),
            origin == Origin::Unsigned && is_shutdown ==> r == Err::<(), DispatchError>(engine_err(Error::AlreadyShutdown)),
            origin != Origin::Unsigned || is_shutdown ==> final(loans).positions_map() == old(loans).positions_map()
                && *final(assets) == *old(assets)
                && final(self).events@ == old(self).events@,
            ({
                let p = old(loans).position_of(who);
                let chk = old(self).spec_check_position(p.collateral, p.debit.units, p.debit.stability_fee, false,
                    old(self).spec_feed_price());
                let bad_debt = old(self).spec_debit_value(p.debit.units, p.debit.stability_fee);
                let target = crate::fixed::spec_sat_add(crate::fixed::spec_mul_int(old(self).params.liquidation_penalty, bad_debt), bad_debt);
                &&& origin == Origin::Unsigned && !is_shutdown && chk is Ok
                    ==> r == Err::<(), DispatchError>(engine_err(Error::LiquidationFailed))
                &&& r is Ok ==> origin == Origin::Unsigned && !is_shutdown && chk is Err
                    && final(loans).positions_map() == old(loans).positions_after(who,
                        honzon_loans::spec_confiscation(*old(self), *old(loans), who, p.collateral, bad_debt)->Ok_0.0)
                    && final(self).events@ == old(self).events@.push(crate::cdp_engine::Event::LiquidateUnsafeCDP {
                        owner: who, collateral_amount: p.collateral, bad_debt_value: bad_debt, target_amount: target })
                &&& origin == Origin::Unsigned && !is_shutdown
                    && chk is Err && chk != Err::<(), Error>(Error::InvalidFeedPrice)
                    && honzon_loans::spec_confiscation_checks(*old(self), *old(loans), *old(treasury), *old(assets), who,
                        p.collateral, bad_debt)
                    && old(liquidator).takes_nothing()
                    && old(loans).account_id != old(treasury).account_id
                    && target != 0 && swapped is Err
                    && old(manager).accepts_all()
                    && old(assets).free(NATIVE, old(treasury).account_id) >= old(manager).collateral_in_auction(NATIVE)
                    ==> r is Ok
                &&& origin == Origin::Unsigned && !is_shutdown
                    && spec_liquidation_base_ok(*old(self), *old(loans), *old(treasury), *old(assets), who)
                    && old(liquidator).takes_nothing()
                    && swapped is Ok && ({
                        let v = swapped->Ok_0;
                        let t = old(treasury).account_id;
                        let free_t = old(assets).free(NATIVE, t) + p.collateral;
                        let refund = p.collateral - v;
                        &&& who != old(loans).account_id && who != t
                        &&& free_t - old(manager).collateral_in_auction(NATIVE) >= old(self).spec_dex_supply(p.collateral, target)
                        &&& (refund == 0 || (free_t >= refund && old(assets).free(NATIVE, who) + refund <= u128::MAX))
                    })
                    ==> r is Ok
            }),
    {
        if origin != Origin::Unsigned {
            return Err(DispatchError::BadOrigin);
        }
        if is_shutdown {
            return Err(DispatchError::Module(ModuleError::CdpEngine(Error::AlreadyShutdown)));
        }
        self.do_liquidate(loans, liquidator, treasury, manager, auctions, assets, now, who, swapped)
    }

    /// Settle the position of `who` that still has debit (unsigned calls only, after
    /// shutdown).
    pub fn settle<L: LiquidationTarget>(
        &mut self,
        origin: Origin,
        is_shutdown: bool,
        loans: &mut honzon_loans::Pallet,
        liquidator: &mut L,
        treasury: &mut cdp_treasury::Pallet,
        assets: &mut Assets,
        who: u64,
    ) -> (r: Result<(), DispatchError>)
        requires
            old(liquidator).liquidator_wf(),
            old(self).wf(),
            old(loans).wf(),
            old(assets).wf(),
        ensures
            final(self).wf(),
            final(loans).wf(),
            final(assets).wf(),
            origin != Origin::Unsigned ==> r == Err::<(), DispatchError>(DispatchError::BadOrigin),
            origin == Origin::Unsigned && !is_shutdown ==> r == Err::<(), DispatchError>(engine_err(Error::MustAfterShutdown)),
            r is Err ==> final(loans).positions_map() == old(loans).positions_map()
                && final(assets).same(*old(assets))
                && final(self).events@ == old(self).events@,
            ({
                let p = old(loans).position_of(who);
                let bad_debt = old(self).spec_debit_value(p.debit.units, p.debit.stability_fee);
                let price = old(self).spec_stable_price();
                let amount = if crate::fixed::spec_mul_int(price.unwrap(), bad_debt) < p.collateral {
                    crate::fixed::spec_mul_int(price.unwrap(), bad_debt)
                } else {
                    p.collateral
                };
                let upd = honzon_loans::spec_confiscation(*old(self), *old(loans), who, amount, bad_debt);
                &&& origin == Origin::Unsigned && is_shutdown && p.debit.units == 0
                    ==> r == Err::<(), DispatchError>(engine_err(Error::NoDebitValue))
                &&& origin == Origin::Unsigned && is_shutdown && p.debit.units != 0 && price is None
                    ==> r == Err::<(), DispatchError>(engine_err(Error::InvalidFeedPrice))
                &&& r is Ok ==> origin == Origin::Unsigned && is_shutdown && upd is Ok
                    && final(loans).positions_map() == old(loans).positions_after(who, upd->Ok_0.0)
                    && final(self).events@ == old(self).events@.push(crate::cdp_engine::Event::SettleCDPInDebit { owner: who })
                &&& origin == Origin::Unsigned && is_shutdown && p.debit.units != 0 && price is Some
                    && honzon_loans::spec_confiscation_checks(*old(self), *old(loans), *old(treasury), *old(assets), who,
                        amount, bad_debt)
                    && old(liquidator).takes_nothing()
                    ==> r is Ok
                        && final(treasury).debit_pool == old(treasury).debit_pool + bad_debt
                        && (old(loans).account_id != old(treasury).account_id ==>
                            final(assets).free(NATIVE, old(treasury).account_id) == old(assets).free(NATIVE, old(treasury).account_id) + amount)
            }),
    {
        if origin != Origin::Unsigned {
            return Err(DispatchError::BadOrigin);
        }
        if !is_shutdown {
            return Err(DispatchError::Module(ModuleError::CdpEngine(Error::MustAfterShutdown)));
        }
        self.do_settle(loans, liquidator, treasury, assets, who)
    }
}

impl<P> Pallet<P> {
    /// The block hook: from the second block on, interest accrues up to `now_secs` (the
    /// time is not read in the first block); the weight is `base_weight` plus a read and
    /// a write per storage entry the accrual touched.
    pub fn on_initialize(
        &mut self,
        treasury: &mut cdp_treasury::Pallet,
        assets: &mut Assets,
        loans: &honzon_loans::Pallet,
        is_shutdown: bool,
        block_number: u64,
        now_secs: u64,
        base_weight: Weight,
        db: RuntimeDbWeight,
    ) -> (r: Weight)
        requires
            old(self).wf(),
            old(assets).wf(),
            loans.wf(),
        ensures
            final(self).wf(),
            final(assets).wf(),
            final(self).last_accumulation_secs == (if block_number > 1 { now_secs } else { 0 }),
            final(self).params == old(self).params,
            final(treasury).debit_pool == old(treasury).debit_pool,
            final(assets).native == old(assets).native,
            block_number <= 1 || is_shutdown ==> r == base_weight
                && final(self).compound_factors.view_map() == old(self).compound_factors.view_map()
                && final(assets).stable.issuance == old(assets).stable.issuance,
            block_number > 1 && !is_shutdown && now_secs != 0 ==> ({
                let interval = if now_secs < old(self).last_accumulation_secs { 0u64 }
                    else { (now_secs - old(self).last_accumulation_secs) as u64 };
                let st = crate::cdp_engine::spec_accrue(loans.total_debit_by_stability_fee.entries@, interval,
                    old(self).default_compound_factor.inner,
                    (old(self).compound_factors.view_map(), old(assets).stable.issuance,
                        old(assets).free(STABLE, old(treasury).account_id), 0u32));
                let touched: u64 = if st.3 == u32::MAX { st.3 as u64 } else { (st.3 + 1) as u64 };
                let rw = sat_add(sat_mul(db.read, touched), sat_mul(db.write, touched));
                &&& final(self).compound_factors.view_map() == st.0
                &&& final(assets).stable.issuance == st.1
                &&& r == (Weight { ref_time: sat_add(base_weight.ref_time, rw), proof_size: base_weight.proof_size })
            }),
    {
        let now_as_secs: u64 = if block_number > 1 { now_secs } else { 0 };
        let last = self.last_accumulation_secs;
        let reads_writes = self.accumulate_interest(treasury, assets, &loans.total_debit_by_stability_fee,
            is_shutdown, now_as_secs, last);
        base_weight.saturating_add(db.reads_writes(reads_writes as u64, reads_writes as u64))
    }
}


/// Whether `expand_position_collateral` succeeds once the swap bought `c` collateral for
/// `d` newly issued stable coin: the issue to the loans account fits, and the position of
/// `who` can grow by `c` collateral and `d` debit value.
pub open spec fn expand_ok<P: PriceProvider>(
    engine: Pallet<P>,
    loans: honzon_loans::Pallet,
    assets: Assets,
    who: u64,
    d: u128,
    c: u128,
) -> bool {
    let m = loans.account_id;
    let minted_to_who: int = if who == m { d as int } else { 0 };
    &&& assets.stable.issuance + d <= u128::MAX
    &&& assets.free(STABLE, m) + d <= u128::MAX
    &&& match honzon_loans::spec_update_writes(engine, loans.position_of(who), loans.totals_map(),
        BalanceAdjustment::Increase(c), BalanceAdjustment::Increase(d), None) {
        Err(_) => false,
        Ok((np, w1, w2)) => {
            &&& assets.free(NATIVE, who) >= c
            &&& assets.held(NATIVE, who) + c <= u128::MAX
            &&& honzon_loans::RiskManager::cap_ok(&engine, honzon_loans::write_entries(
                honzon_loans::write_entries(loans.total_debit_by_stability_fee.entries@, w1), w2))
            &&& assets.stable.issuance + d + d <= u128::MAX
            &&& assets.free(STABLE, who) + minted_to_who + d <= u128::MAX
            &&& honzon_loans::RiskManager::position_ok(&engine, honzon_loans::read_back(np).collateral,
                honzon_loans::read_back(np).debit.units, honzon_loans::read_back(np).debit.stability_fee, true)
        },
    }
}

impl<P: PriceProvider> Pallet<P> {
    /// Grow the position of `who` with debit issued in advance: `increase_debit_value`
    /// of stable coin is issued to the loans account and swapped for collateral
    /// (`swapped`: the collateral the swap bought, at least `min_increase_collateral`),
    /// then the position grows by both and must stay safe and within the debit cap.
    /// All or nothing.  The balances the swap itself moves are not represented here.
    pub fn expand_position_collateral(
        &self,
        loans: &mut honzon_loans::Pallet,
        treasury: &mut cdp_treasury::Pallet,
        assets: &mut Assets,
        who: u64,
        increase_debit_value: u128,
        min_increase_collateral: u128,
        swapped: Result<u128, DispatchError>,
    ) -> (r: Result<(), DispatchError>)
        requires
            self.wf(),
            old(loans).wf(),
            old(assets).wf(),
            swapped matches Ok(c) ==> c >= min_increase_collateral,
        ensures
            final(loans).wf(),
            final(assets).wf(),
            final(treasury).debit_pool == old(treasury).debit_pool,
            r is Ok <==> swapped is Ok && expand_ok(*self, *old(loans), *old(assets), who, increase_debit_value, swapped->Ok_0),
            swapped matches Err(e) ==> (old(assets).stable.issuance + increase_debit_value <= u128::MAX
                && old(assets).free(STABLE, old(loans).account_id) + increase_debit_value <= u128::MAX
                ==> r == Err::<(), DispatchError>(e)),
            r is Err ==> final(loans).positions_map() == old(loans).positions_map()
                && final(loans).totals_map() == old(loans).totals_map()
                && final(loans).events@ == old(loans).events@
                && final(assets).same(*old(assets)),
            r is Ok ==> ({
                let c = swapped->Ok_0;
                let (np, w1, w2) = honzon_loans::spec_update_writes(*self, old(loans).position_of(who), old(loans).totals_map(),
                    BalanceAdjustment::Increase(c), BalanceAdjustment::Increase(increase_debit_value), None)->Ok_0;
                &&& final(loans).positions_map() == old(loans).positions_after(who, np)
                &&& final(assets).held(NATIVE, who) == old(assets).held(NATIVE, who) + c
                &&& who != old(loans).account_id ==> final(assets).free(STABLE, old(loans).account_id)
                    == old(assets).free(STABLE, old(loans).account_id) + increase_debit_value
                    && final(assets).free(STABLE, who) == old(assets).free(STABLE, who) + increase_debit_value
            }),
    {
        let m = loans.account_id();
        let saved_loans = loans.duplicate();
        let saved_assets = assets.duplicate();
        match treasury.issue_debit(assets, m, increase_debit_value, true) {
            Ok(()) => {},
            Err(e) => return Err(e),
        }
        let ghost a1 = *assets;
        let c = match swapped {
            Ok(c) => c,
            Err(e) => {
                *assets = saved_assets;
                return Err(e);
            },
        };
        match loans.adjust_position(self, treasury, assets, who, BalanceAdjustment::increase(c),
            BalanceAdjustment::increase(increase_debit_value), None) {
            Ok(()) => {},
            Err(e) => {
                *assets = saved_assets;
                return Err(e);
            },
        }
        let p = loans.positions(who);
        match self.do_check_position(p.collateral, p.debit.units, p.debit.stability_fee, false) {
            Ok(()) => {},
            Err(e) => {
                *loans = saved_loans;
                *assets = saved_assets;
                return Err(DispatchError::Module(ModuleError::CdpEngine(e)));
            },
        }
        match self.do_check_debit_cap(&loans.total_debit_by_stability_fee) {
            Ok(()) => {},
            Err(e) => {
                *loans = saved_loans;
                *assets = saved_assets;
                return Err(DispatchError::Module(ModuleError::CdpEngine(e)));
            },
        }
        Ok(())
    }
}


/// Whether `shrink_position_debit` succeeds once the swap sold `dc` of `who`'s
/// collateral for `actual` stable coin: what exceeds the debit value goes to `who`, the
/// position shrinks by `dc` collateral and the debit repaid, that debit is burned from
/// the loans account, and the position stays safe.
/// The stable coin of `who` and of the loans account after a shrink whose swap gave
/// `actual`: the surplus over the debit value goes to `who`, `who` repays the debit
/// decrease, and the loans account's swapped stable coin of that amount is burnt.
pub open spec fn spec_shrink_stable<P: PriceProvider>(
    engine: Pallet<P>,
    loans: honzon_loans::Pallet,
    assets: Assets,
    who: u64,
    actual: u128,
) -> (int, int) {
    let m = loans.account_id;
    let p = loans.position_of(who);
    let prev = engine.spec_debit_value(p.debit.units, p.debit.stability_fee);
    let surplus: int = if actual >= prev { actual - prev } else { 0 };
    let dec: int = if actual >= prev { prev as int } else { actual as int };
    let s_m0 = assets.free(STABLE, m) as int;
    let s_w0 = assets.free(STABLE, who) as int;
    if m == who {
        (s_w0 - dec - dec, s_w0 - dec - dec)
    } else {
        (s_w0 + surplus - dec, s_m0 - surplus - dec)
    }
}

pub open spec fn shrink_ok<P: PriceProvider>(
    engine: Pallet<P>,
    loans: honzon_loans::Pallet,
    assets: Assets,
    who: u64,
    dc: u128,
    actual: u128,
) -> bool {
    let m = loans.account_id;
    let p = loans.position_of(who);
    let prev = engine.spec_debit_value(p.debit.units, p.debit.stability_fee);
    let surplus: int = if actual >= prev { actual - prev } else { 0 };
    let dec: u128 = if actual >= prev { prev } else { actual };
    let s_m0 = assets.free(STABLE, m) as int;
    let s_w0 = assets.free(STABLE, who) as int;
    let s_w1: int = if m == who { s_w0 } else { s_w0 + surplus };
    let s_m1: int = if m == who { s_m0 } else { s_m0 - surplus };
    let s_m2: int = if m == who { s_w1 - dec } else { s_m1 };
    &&& dc <= p.collateral
    &&& (actual < prev || (s_m0 >= surplus && (m == who || s_w0 + surplus <= u128::MAX)))
    &&& match honzon_loans::spec_update_writes(engine, p, loans.totals_map(),
        BalanceAdjustment::Decrease(dc), BalanceAdjustment::Decrease(dec), None) {
        Err(_) => false,
        Ok((np, w1, w2)) => {
            &&& assets.held(NATIVE, who) >= dc
            &&& assets.free(NATIVE, who) + dc <= u128::MAX
            &&& s_w1 >= dec
            &&& honzon_loans::RiskManager::position_ok(&engine, honzon_loans::read_back(np).collateral,
                honzon_loans::read_back(np).debit.units, honzon_loans::read_back(np).debit.stability_fee, true)
            &&& s_m2 >= dec
        },
    }
}

impl<P: PriceProvider> Pallet<P> {
    /// Repay debit of `who` by selling `decrease_collateral` of its collateral: the swap
    /// (`swapped`: the stable coin it returned, at least `min_decrease_debit_value`) pays
    /// the debit value, what exceeds it goes to `who`; the position shrinks by the
    /// collateral sold and the debit repaid, which is burned from the loans account, and
    /// the position must stay safe.  All or nothing.  The balances the swap itself moves
    /// are not represented here.
    pub fn shrink_position_debit(
        &self,
        loans: &mut honzon_loans::Pallet,
        treasury: &mut cdp_treasury::Pallet,
        assets: &mut Assets,
        who: u64,
        decrease_collateral: u128,
        min_decrease_debit_value: u128,
        swapped: Result<u128, DispatchError>,
    ) -> (r: Result<(), DispatchError>)
        requires
            self.wf(),
            old(loans).wf(),
            old(assets).wf(),
            swapped matches Ok(v) ==> v >= min_decrease_debit_value,
        ensures
            final(loans).wf(),
            final(assets).wf(),
            final(treasury).debit_pool == old(treasury).debit_pool,
            decrease_collateral > old(loans).position_of(who).collateral
                ==> r == Err::<(), DispatchError>(engine_err(Error::CollateralNotEnough)),
            decrease_collateral <= old(loans).position_of(who).collateral ==> (swapped matches Err(e) ==> r == Err::<(), DispatchError>(e)),
            r is Ok <==> swapped is Ok && shrink_ok(*self, *old(loans), *old(assets), who, decrease_collateral, swapped->Ok_0),
            r is Err ==> final(loans).positions_map() == old(loans).positions_map()
                && final(loans).totals_map() == old(loans).totals_map()
                && final(loans).events@ == old(loans).events@
                && final(assets).same(*old(assets)),
            r is Ok ==> ({
                let p = old(loans).position_of(who);
                let actual = swapped->Ok_0;
                let prev = self.spec_debit_value(p.debit.units, p.debit.stability_fee);
                let dec: u128 = if actual >= prev { prev } else { actual };
                let (np, w1, w2) = honzon_loans::spec_update_writes(*self, p, old(loans).totals_map(),
                    BalanceAdjustment::Decrease(decrease_collateral), BalanceAdjustment::Decrease(dec), None)->Ok_0;
                &&& final(loans).positions_map() == old(loans).positions_after(who, np)
                &&& final(assets).held(NATIVE, who) == old(assets).held(NATIVE, who) - decrease_collateral
                &&& final(assets).free(NATIVE, who) == old(assets).free(NATIVE, who) + decrease_collateral
                &&& final(assets).free(STABLE, who) == spec_shrink_stable(*self, *old(loans), *old(assets), who, actual).0
                &&& final(assets).free(STABLE, old(loans).account_id) == spec_shrink_stable(*self, *old(loans), *old(assets), who, actual).1
            }),
    {
        let m = loans.account_id();
        let p = loans.positions(who);
        if decrease_collateral > p.collateral {
            return Err(DispatchError::Module(ModuleError::CdpEngine(Error::CollateralNotEnough)));
        }
        let actual = match swapped {
            Ok(v) => v,
            Err(e) => return Err(e),
        };
        let prev = self.do_debit_units_to_value(p.debit.units, p.debit.stability_fee);
        let saved_loans = loans.duplicate();
        let saved_assets = assets.duplicate();
        let dec = if actual >= prev {
            match assets.transfer(STABLE, m, who, actual - prev) {
                Ok(()) => {},
                Err(e) => return Err(DispatchError::Token(e)),
            }
            prev
        } else {
            actual
        };
        let ghost a1 = *assets;
        match loans.adjust_position(self, treasury, assets, who, BalanceAdjustment::decrease(decrease_collateral),
            BalanceAdjustment::decrease(dec), None) {
            Ok(()) => {},
            Err(e) => {
                *assets = saved_assets;
                return Err(e);
            },
        }
        let ghost a2 = *assets;
        match treasury.burn_debit(assets, m, dec) {
            Ok(()) => {},
            Err(e) => {
                *loans = saved_loans;
                *assets = saved_assets;
                return Err(e);
            },
        }
        let q = loans.positions(who);
        match self.do_check_position(q.collateral, q.debit.units, q.debit.stability_fee, false) {
            Ok(()) => {},
            Err(e) => {
                *loans = saved_loans;
                *assets = saved_assets;
                return Err(DispatchError::Module(ModuleError::CdpEngine(e)));
            },
        }
        Ok(())
    }
}

} // verus!
