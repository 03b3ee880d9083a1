//! The CDP engine as the provider of the vaults behind connections: a vault is a
//! position in the loans module held by the engine's sub-account for it.
//!
//! Accounts here are 64-bit, so the sub-account of every vault keeps only the engine's
//! prefix and all vaults share the one account `vault_account`.

use crate::adjustment::BalanceAdjustment;
use crate::assets::{Assets, NATIVE, STABLE};
use crate::cdp_engine;
use crate::cdp_treasury;
use crate::connections::{change_at, changed_by, no_change, VaultProvider};
use crate::honzon_loans;
use crate::honzon_loans::{adjust_ok, adjust_ok_with, spec_update_writes};
use crate::traits::{DispatchError, PriceProvider};
use vstd::prelude::*;

verus! {

/// The engine, the loans and the treasury it works with, and the vaults' account.
pub struct EngineVaults<P> {
    pub engine: cdp_engine::Pallet<P>,
    pub loans: honzon_loans::Pallet,
    pub treasury: cdp_treasury::Pallet,
    pub vault_account: u64,
}

/// The stability fee that applies to a vault: the lower of `fee` and the current rate,
/// lowered further by the vault's override.
pub open spec fn vault_fee<P>(engine: cdp_engine::Pallet<P>, fee: u128, vault_id: u64) -> u128 {
    let base = if fee < engine.params.interest_rate_per_sec { fee } else { engine.params.interest_rate_per_sec };
    let overrides = engine.stability_fee_overrides.view_map();
    if overrides.dom().contains(vault_id) && overrides[vault_id] < base { overrides[vault_id] } else { base }
}

/// The stability fee that applies to the account `who`, through the vault recorded for it.
pub open spec fn account_fee<P>(engine: cdp_engine::Pallet<P>, fee: u128, who: u64) -> u128 {
    let base = if fee < engine.params.interest_rate_per_sec { fee } else { engine.params.interest_rate_per_sec };
    let vaults = engine.vault_id_by_account_id.view_map();
    let overrides = engine.stability_fee_overrides.view_map();
    if vaults.dom().contains(who) && overrides.dom().contains(vaults[who]) && overrides[vaults[who]] < base {
        overrides[vaults[who]]
    } else {
        base
    }
}

impl<P: PriceProvider> EngineVaults<P> {
    /// The vault's stability fee, as `get_effective_stability_fee` finds it once the
    /// vault is recorded for the vaults' account.
    fn effective_fee_of_vault(&self, fee: u128, vault_id: u64) -> (r: u128)
        requires
            self.engine.wf(),
        ensures
            r == vault_fee(self.engine, fee, vault_id),
    {
        let current = self.engine.params.interest_rate_per_sec;
        let base = if fee < current { fee } else { current };
        match self.engine.stability_fee_overrides.get(vault_id) {
            Some(o) => if o < base { o } else { base },
            None => base,
        }
    }

    /// Record `vault_id` for the vaults' account.
    fn record_vault(&mut self, vault_id: u64)
        requires
            old(self).engine.wf(),
        ensures
            final(self).engine.wf(),
            final(self).engine.vault_id_by_account_id.view_map()
                == old(self).engine.vault_id_by_account_id.view_map().insert(old(self).vault_account, vault_id),
            final(self).engine.stability_fee_overrides == old(self).engine.stability_fee_overrides,
            final(self).engine.compound_factors == old(self).engine.compound_factors,
            final(self).engine.params == old(self).engine.params,
            final(self).loans == old(self).loans,
            final(self).treasury == old(self).treasury,
            final(self).vault_account == old(self).vault_account,
    {
        let v = self.vault_account;
        self.engine.vault_id_by_account_id.insert(v, vault_id);
    }
}

impl<P: PriceProvider> VaultProvider for EngineVaults<P> {
    open spec fn vault_wf(&self) -> bool {
        self.engine.wf() && self.loans.wf()
    }

    open spec fn deposit_done(&self, a: Assets, b: Assets, vault_id: u64, from: u64, amount: u128) -> bool {
        changed_by(a, b, change_at(from, -(amount as int)), change_at(self.vault_account, amount as int), no_change())
    }

    open spec fn mint_done(&self, a: Assets, b: Assets, vault_id: u64, to: u64, amount: u128) -> bool {
        changed_by(a, b, no_change(), no_change(), change_at(to, amount as int))
    }

    open spec fn repay_done(&self, a: Assets, b: Assets, vault_id: u64, from: u64, amount: u128) -> bool {
        changed_by(a, b, no_change(), no_change(), change_at(from, -(amount as int)))
    }

    open spec fn withdraw_collateral_done(&self, a: Assets, b: Assets, vault_id: u64, to: u64, amount: u128) -> bool {
        changed_by(a, b, change_at(to, amount as int), change_at(self.vault_account, -(amount as int)), no_change())
    }

    open spec fn withdraw_all_collateral_done(&self, a: Assets, b: Assets, vault_id: u64, to: u64) -> bool {
        self.withdraw_collateral_done(a, b, vault_id, to, self.loans.position_of(self.vault_account).collateral)
    }

    open spec fn fee_set(&self, next: Self, vault_id: u64, fee: Option<u128>) -> bool {
        &&& next.engine.stability_fee_overrides.view_map() == (match fee {
            Some(f) => self.engine.stability_fee_overrides.view_map().insert(vault_id, f),
            None => self.engine.stability_fee_overrides.view_map().remove(vault_id),
        })
        &&& next.loans == self.loans
    }

    open spec fn close_ok(&self, vault_id: u64) -> bool {
        let p = self.loans.position_of(self.vault_account);
        p.collateral == 0 && p.debit.units == 0
    }

    open spec fn vault_position(&self, vault_id: u64) -> Result<(u128, u128), DispatchError> {
        let p = self.loans.position_of(self.vault_account);
        Ok((p.collateral, self.engine.spec_debit_value(p.debit.units, p.debit.stability_fee)))
    }

    open spec fn mint_ok(&self, a: Assets, vault_id: u64, to: u64, amount: u128) -> bool {
        let v = self.vault_account;
        let e = self.engine;
        let fee = vault_fee(e, e.params.interest_rate_per_sec, vault_id);
        adjust_ok(e, self.loans, a, v, BalanceAdjustment::Increase(0), BalanceAdjustment::Increase(amount), Some(fee))
            && (to == v || a.free(STABLE, to) + amount <= u128::MAX)
    }

    open spec fn deposit_ok(&self, a: Assets, vault_id: u64, from: u64, amount: u128) -> bool {
        let v = self.vault_account;
        let free_v1: int = if from == v { a.free(NATIVE, v) as int } else { a.free(NATIVE, v) + amount };
        a.free(NATIVE, from) >= amount && (from == v || a.free(NATIVE, v) + amount <= u128::MAX)
            && adjust_ok_with(self.engine, self.loans, v, BalanceAdjustment::Increase(amount),
                BalanceAdjustment::Increase(0), None, free_v1, a.held(NATIVE, v) as int, a.free(STABLE, v) as int,
                a.stable.issuance as int)
    }

    open spec fn repay_ok(&self, a: Assets, vault_id: u64, from: u64, amount: u128) -> bool {
        let v = self.vault_account;
        let e = self.engine;
        let p = self.loans.position_of(v);
        let fee = account_fee(e, p.debit.stability_fee, v);
        let free_s1: int = if from == v { a.free(STABLE, v) as int } else { a.free(STABLE, v) + amount };
        a.free(STABLE, from) >= amount && (from == v || a.free(STABLE, v) + amount <= u128::MAX)
            && adjust_ok_with(e, self.loans, v, BalanceAdjustment::Increase(0), BalanceAdjustment::Decrease(amount),
                Some(fee), a.free(NATIVE, v) as int, a.held(NATIVE, v) as int, free_s1, a.stable.issuance as int)
    }

    /// Move `amount` of `from`'s collateral to the vaults' account and into the vault's
    /// position.  All or nothing.
    fn deposit_collateral(&mut self, assets: &mut Assets, vault_id: u64, from: u64, amount: u128) -> (r: Result<(), DispatchError>)
        ensures
            ({
                let v = old(self).vault_account;
                let a = *old(assets);
                let free_v1: int = if from == v { a.free(NATIVE, v) as int } else { a.free(NATIVE, v) + amount };
                &&& r is Ok <==> a.free(NATIVE, from) >= amount && (from == v || a.free(NATIVE, v) + amount <= u128::MAX)
                    && adjust_ok_with(old(self).engine, old(self).loans, v, BalanceAdjustment::Increase(amount),
                        BalanceAdjustment::Increase(0), None, free_v1, a.held(NATIVE, v) as int, a.free(STABLE, v) as int,
                        a.stable.issuance as int)
                &&& r is Err ==> final(self).loans.positions_map() == old(self).loans.positions_map()
                    && final(assets).same(a)
                    && final(self).engine.vault_id_by_account_id == old(self).engine.vault_id_by_account_id
                &&& r is Ok ==> final(self).loans.positions_map() == old(self).loans.positions_after(v,
                        spec_update_writes(old(self).engine, old(self).loans.position_of(v), old(self).loans.totals_map(),
                            BalanceAdjustment::Increase(amount), BalanceAdjustment::Increase(0), None)->Ok_0.0)
                    && final(assets).held(NATIVE, v) == a.held(NATIVE, v) + amount
                    && (from != v ==> final(assets).free(NATIVE, from) == a.free(NATIVE, from) - amount)
                    && final(self).engine.vault_id_by_account_id.view_map()
                        == old(self).engine.vault_id_by_account_id.view_map().insert(v, vault_id)
            }),
    {
        let v = self.vault_account;
        let saved = assets.duplicate();
        match assets.transfer(NATIVE, from, v, amount) {
            Ok(()) => {},
            Err(e) => return Err(DispatchError::Token(e)),
        }
        match self.loans.adjust_position(&self.engine, &mut self.treasury, assets, v,
            BalanceAdjustment::increase(amount), BalanceAdjustment::increase(0), None) {
            Ok(()) => {},
            Err(e) => {
                *assets = saved;
                return Err(e);
            },
        }
        self.record_vault(vault_id);
        Ok(())
    }

    /// Set or clear the vault's stability fee override.
    fn set_stability_fee(&mut self, vault_id: u64, stability_fee: Option<u128>) -> (r: Result<(), DispatchError>)
        ensures
            r is Ok,
            final(self).engine.stability_fee_overrides.view_map() == (match stability_fee {
                Some(f) => old(self).engine.stability_fee_overrides.view_map().insert(vault_id, f),
                None => old(self).engine.stability_fee_overrides.view_map().remove(vault_id),
            }),
            final(self).loans == old(self).loans,
    {
        match stability_fee {
            Some(f) => self.engine.stability_fee_overrides.insert(vault_id, f),
            None => self.engine.stability_fee_overrides.remove(vault_id),
        }
        Ok(())
    }

    /// Issue `amount` of stable coin against the vault, at the vault's stability fee,
    /// and hand it from the vaults' account to `to`.  All or nothing.
    fn mint(&mut self, assets: &mut Assets, vault_id: u64, to: u64, amount: u128) -> (r: Result<(), DispatchError>)
        ensures
            ({
                let v = old(self).vault_account;
                let a = *old(assets);
                let e = old(self).engine;
                let fee = vault_fee(e, e.params.interest_rate_per_sec, vault_id);
                &&& r is Ok <==> adjust_ok(e, old(self).loans, a, v, BalanceAdjustment::Increase(0),
                        BalanceAdjustment::Increase(amount), Some(fee))
                    && (to == v || a.free(STABLE, to) + amount <= u128::MAX)
                &&& r is Err ==> final(self).loans.positions_map() == old(self).loans.positions_map()
                    && final(assets).same(a)
                    && final(self).engine.vault_id_by_account_id == old(self).engine.vault_id_by_account_id
                &&& r is Ok ==> final(self).loans.positions_map() == old(self).loans.positions_after(v,
                        spec_update_writes(e, old(self).loans.position_of(v), old(self).loans.totals_map(),
                            BalanceAdjustment::Increase(0), BalanceAdjustment::Increase(amount), Some(fee))->Ok_0.0)
                    && (to != v ==> final(assets).free(STABLE, to) == a.free(STABLE, to) + amount
                        && final(assets).free(STABLE, v) == a.free(STABLE, v))
                    && final(self).engine.vault_id_by_account_id.view_map()
                        == old(self).engine.vault_id_by_account_id.view_map().insert(v, vault_id)
            }),
    {
        let v = self.vault_account;
        let fee = self.effective_fee_of_vault(self.engine.params.interest_rate_per_sec, vault_id);
        let saved_loans = self.loans.duplicate();
        let saved = assets.duplicate();
        match self.loans.adjust_position(&self.engine, &mut self.treasury, assets, v,
            BalanceAdjustment::increase(0), BalanceAdjustment::increase(amount), Some(fee)) {
            Ok(()) => {},
            Err(e) => return Err(e),
        }
        match assets.transfer(STABLE, v, to, amount) {
            Ok(()) => {},
            Err(e) => {
                self.loans = saved_loans;
                *assets = saved;
                return Err(DispatchError::Token(e));
            },
        }
        self.record_vault(vault_id);
        Ok(())
    }

    /// Take `amount` of stable coin from `from` to the vaults' account and repay that
    /// much of the vault's debit value, at the vault's stability fee.  All or nothing.
    fn repay(&mut self, assets: &mut Assets, vault_id: u64, from: u64, amount: u128) -> (r: Result<(), DispatchError>)
        ensures
            ({
                let v = old(self).vault_account;
                let a = *old(assets);
                let e = old(self).engine;
                let p = old(self).loans.position_of(v);
                let fee = account_fee(e, p.debit.stability_fee, v);
                let free_s1: int = if from == v { a.free(STABLE, v) as int } else { a.free(STABLE, v) + amount };
                &&& r is Ok <==> a.free(STABLE, from) >= amount && (from == v || a.free(STABLE, v) + amount <= u128::MAX)
                    && adjust_ok_with(e, old(self).loans, v, BalanceAdjustment::Increase(0), BalanceAdjustment::Decrease(amount),
                        Some(fee), a.free(NATIVE, v) as int, a.held(NATIVE, v) as int, free_s1, a.stable.issuance as int)
                &&& r is Err ==> final(self).loans.positions_map() == old(self).loans.positions_map()
                    && final(assets).same(a)
                &&& r is Ok ==> final(self).loans.positions_map() == old(self).loans.positions_after(v,
                        spec_update_writes(e, p, old(self).loans.totals_map(),
                            BalanceAdjustment::Increase(0), BalanceAdjustment::Decrease(amount), Some(fee))->Ok_0.0)
                    && (from != v ==> final(assets).free(STABLE, from) == a.free(STABLE, from) - amount)
            }),
    {
        let v = self.vault_account;
        let p = self.loans.positions(v);
        let fee = self.engine.get_effective_stability_fee(p.debit.stability_fee, v);
        let saved = assets.duplicate();
        match assets.transfer(STABLE, from, v, amount) {
            Ok(()) => {},
            Err(e) => return Err(DispatchError::Token(e)),
        }
        match self.loans.adjust_position(&self.engine, &mut self.treasury, assets, v,
            BalanceAdjustment::increase(0), BalanceAdjustment::decrease(amount), Some(fee)) {
            Ok(()) => {},
            Err(e) => {
                *assets = saved;
                return Err(e);
            },
        }
        Ok(())
    }

    /// Take `amount` of collateral out of the vault's position and hand it from the
    /// vaults' account to `to`.  All or nothing.
    fn withdraw_collateral(&mut self, assets: &mut Assets, vault_id: u64, to: u64, amount: u128) -> (r: Result<(), DispatchError>)
        ensures
            ({
                let v = old(self).vault_account;
                let a = *old(assets);
                &&& r is Ok <==> adjust_ok(old(self).engine, old(self).loans, a, v, BalanceAdjustment::Decrease(amount),
                        BalanceAdjustment::Increase(0), None)
                    && (to == v || a.free(NATIVE, to) + amount <= u128::MAX)
                &&& r is Err ==> final(self).loans.positions_map() == old(self).loans.positions_map()
                    && final(assets).same(a)
                &&& r is Ok ==> final(self).loans.positions_map() == old(self).loans.positions_after(v,
                        spec_update_writes(old(self).engine, old(self).loans.position_of(v), old(self).loans.totals_map(),
                            BalanceAdjustment::Decrease(amount), BalanceAdjustment::Increase(0), None)->Ok_0.0)
                    && final(assets).held(NATIVE, v) == a.held(NATIVE, v) - amount
                    && (to != v ==> final(assets).free(NATIVE, to) == a.free(NATIVE, to) + amount)
            }),
    {
        let v = self.vault_account;
        let saved_loans = self.loans.duplicate();
        let saved = assets.duplicate();
        match self.loans.adjust_position(&self.engine, &mut self.treasury, assets, v,
            BalanceAdjustment::decrease(amount), BalanceAdjustment::increase(0), None) {
            Ok(()) => {},
            Err(e) => return Err(e),
        }
        match assets.transfer(NATIVE, v, to, amount) {
            Ok(()) => {},
            Err(e) => {
                self.loans = saved_loans;
                *assets = saved;
                return Err(DispatchError::Token(e));
            },
        }
        Ok(())
    }

    /// Withdraw all of the vault's collateral to `to`.
    fn withdraw_all_collateral(&mut self, assets: &mut Assets, vault_id: u64, to: u64) -> (r: Result<(), DispatchError>)
        ensures
            ({
                let v = old(self).vault_account;
                let a = *old(assets);
                let amount = old(self).loans.position_of(v).collateral;
                &&& r is Ok <==> adjust_ok(old(self).engine, old(self).loans, a, v, BalanceAdjustment::Decrease(amount),
                        BalanceAdjustment::Increase(0), None)
                    && (to == v || a.free(NATIVE, to) + amount <= u128::MAX)
                &&& r is Err ==> final(self).loans.positions_map() == old(self).loans.positions_map()
                    && final(assets).same(a)
            }),
    {
        let v = self.vault_account;
        let p = self.loans.positions(v);
        self.withdraw_collateral(assets, vault_id, to, p.collateral)
    }

    /// The vault's collateral and debit value.
    fn get_position(&self, vault_id: u64) -> (r: Result<(u128, u128), DispatchError>)
        ensures
            ({
                let p = self.loans.position_of(self.vault_account);
                r == Ok::<(u128, u128), DispatchError>((p.collateral, self.engine.spec_debit_value(p.debit.units, p.debit.stability_fee)))
            }),
    {
        let p = self.loans.positions(self.vault_account);
        let value = self.engine.do_debit_units_to_value(p.debit.units, p.debit.stability_fee);
        Ok((p.collateral, value))
    }

    /// Forget the vault, which must hold neither collateral nor debit.
    fn close_vault(&mut self, vault_id: u64) -> (r: Result<(), DispatchError>)
        ensures
            ({
                let p = old(self).loans.position_of(old(self).vault_account);
                &&& r is Ok <==> p.collateral == 0 && p.debit.units == 0
                &&& r is Ok ==> final(self).engine.vault_id_by_account_id.view_map()
                    == old(self).engine.vault_id_by_account_id.view_map().remove(old(self).vault_account)
                &&& r is Err ==> final(self).engine.vault_id_by_account_id == old(self).engine.vault_id_by_account_id
                &&& final(self).loans == old(self).loans
            }),
    {
        let v = self.vault_account;
        let p = self.loans.positions(v);
        if !(p.collateral == 0 && p.debit.units == 0) {
            return Err(DispatchError::Other);
        }
        self.engine.vault_id_by_account_id.remove(v);
        Ok(())
    }

    /// Whether the vault has debit.
    fn has_debt(&self, vault_id: u64) -> (r: Result<bool, DispatchError>)
        ensures
            r == Ok::<bool, DispatchError>(self.loans.position_of(self.vault_account).debit.units != 0),
    {
        let p = self.loans.positions(self.vault_account);
        Ok(p.debit.units != 0)
    }
}

} // verus!
