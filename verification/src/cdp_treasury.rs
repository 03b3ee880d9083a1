//! The CDP treasury: it holds the surplus (stable coin of its account), the
//! collateral (native coin of its account) and the system debit, issues and burns
//! stable coin, offsets surplus against debit, and splits collateral into auctions.

use crate::adjustment::ArithmeticError;
use crate::assets::{Assets, CurrencyId, TokenError, NATIVE, STABLE};
use crate::auction;
use crate::fixed::{fixed_checked_from_rational, spec_from_rational};
use crate::traits::{ensure_update_origin, is_update_origin, AuctionManager, DispatchError, ModuleError, Origin};
use vstd::prelude::*;

verus! {

/// Errors of the CDP treasury.
#[derive(Clone, Copy, Debug, PartialEq, Eq, Structural)]
pub enum Error {
    /// Not enough collateral (outside auctions) for the operation.
    CollateralNotEnough,
    /// Not enough surplus.
    SurplusPoolNotEnough,
}

/// Events of the CDP treasury.
#[derive(Clone, Copy, Debug, PartialEq, Eq, Structural)]
pub enum Event {
    ExpectedCollateralAuctionSizeUpdated { new_size: u128 },
    DebitOffsetBufferUpdated { amount: u128 },
}

/// How a swap is bounded: `ExactSupply(supply, min_target)` or `ExactTarget(max_supply, target)`.
#[derive(Clone, Copy, Debug, PartialEq, Eq, Structural)]
pub enum SwapLimit {
    ExactSupply(u128, u128),
    ExactTarget(u128, u128),
}

/// A swap of the treasury's collateral for stable coin as it is handed to the exchange:
/// who sends, along which currency path, within which limit, to whom the proceeds go,
/// and whether the sender must be kept alive.
#[derive(Clone, Copy, Debug, PartialEq, Eq, Structural)]
pub struct SwapRequest {
    pub sender: u64,
    /// The currency the path starts from (sold).
    pub path_from: CurrencyId,
    /// The currency the path ends in (bought).
    pub path_to: CurrencyId,
    pub limit: SwapLimit,
    pub recipient: u64,
    pub keep_alive: bool,
}

/// The error of the treasury as a dispatch error.
pub open spec fn err(e: Error) -> DispatchError {
    DispatchError::Module(ModuleError::CdpTreasury(e))
}

fn module_err(e: Error) -> (r: DispatchError)
    ensures
        r == err(e),
{
    DispatchError::Module(ModuleError::CdpTreasury(e))
}

/// The number of auctions that `amount` of collateral is split into.
pub open spec fn spec_lots_count(amount: u128, expected_size: u128, max_auctions_count: u32, split: bool) -> u128 {
    if !split || max_auctions_count == 0 || expected_size == 0 || amount <= expected_size {
        1
    } else {
        let count: int = if amount % expected_size != 0 { amount / expected_size + 1 } else { (amount / expected_size) as int };
        if count < max_auctions_count { count as u128 } else { max_auctions_count as u128 }
    }
}

/// The lots `(collateral, target)` of a split: all but the last get the average share,
/// the last gets what remains.
pub open spec fn spec_lots(amount: u128, target: u128, n: u128) -> Seq<(u128, u128)> {
    Seq::new(n as nat, |i: int| spec_lot(amount, target, n, i))
}

/// The auctions that selling `lots` for `refund` starts: one per lot, of native
/// collateral.
pub open spec fn lot_auctions(refund: u64, lots: Seq<(u128, u128)>) -> Seq<(u64, CurrencyId, u128, u128)> {
    Seq::new(lots.len(), |i: int| (refund, NATIVE, lots[i].0, lots[i].1))
}

/// The lots `amount` of collateral for `target` is split into (none for no collateral).
pub open spec fn spec_auction_lots(amount: u128, target: u128, expected_size: u128, max_auctions_count: u32, split: bool)
    -> Seq<(u128, u128)>
{
    if amount == 0 { Seq::empty() } else { spec_lots(amount, target, spec_lots_count(amount, expected_size, max_auctions_count, split)) }
}

/// Lot `i` of `n`.
pub open spec fn spec_lot(amount: u128, target: u128, n: u128, i: int) -> (u128, u128) {
    if i < n - 1 {
        (amount / n, target / n)
    } else {
        ((amount - (n - 1) * (amount / n)) as u128, (target - (n - 1) * (target / n)) as u128)
    }
}

/// The sum of the collateral of lots.
pub open spec fn sum_lot_amounts(s: Seq<(u128, u128)>) -> int
    decreases s.len(),
{
    if s.len() == 0 { 0 } else { sum_lot_amounts(s.drop_last()) + s.last().0 }
}

/// The sum of the targets of lots.
pub open spec fn sum_lot_targets(s: Seq<(u128, u128)>) -> int
    decreases s.len(),
{
    if s.len() == 0 { 0 } else { sum_lot_targets(s.drop_last()) + s.last().1 }
}

/// The parameters and state of the treasury.
pub struct Pallet {
    /// The account that holds surplus and collateral.
    pub account_id: u64,
    /// The account that extracted surplus goes to.
    pub treasury_account: u64,
    /// The system's bad debt.
    pub debit_pool: u128,
    /// The collateral per auction when collateral is split.
    pub expected_collateral_auction_size: u128,
    /// The debit kept when surplus is offset against it.
    pub debit_offset_buffer: u128,
    /// The most auctions one split creates.
    pub max_auctions_count: u32,
    pub events: Vec<Event>,
}

impl Pallet {
    /// A treasury with no debit.
    pub fn new(account_id: u64, treasury_account: u64, max_auctions_count: u32) -> (r: Self)
        ensures
            r.account_id == account_id,
            r.treasury_account == treasury_account,
            r.max_auctions_count == max_auctions_count,
            r.debit_pool == 0,
            r.expected_collateral_auction_size == 0,
            r.debit_offset_buffer == 0,
            r.events@.len() == 0,
    {
        Pallet {
            account_id,
            treasury_account,
            debit_pool: 0,
            expected_collateral_auction_size: 0,
            debit_offset_buffer: 0,
            max_auctions_count,
            events: Vec::new(),
        }
    }

    /// A copy of the treasury's state.
    pub fn duplicate(&self) -> (r: Self)
        ensures
            r.account_id == self.account_id,
            r.treasury_account == self.treasury_account,
            r.debit_pool == self.debit_pool,
            r.expected_collateral_auction_size == self.expected_collateral_auction_size,
            r.debit_offset_buffer == self.debit_offset_buffer,
            r.max_auctions_count == self.max_auctions_count,
            r.events@ == self.events@,
    {
        Pallet {
            account_id: self.account_id,
            treasury_account: self.treasury_account,
            debit_pool: self.debit_pool,
            expected_collateral_auction_size: self.expected_collateral_auction_size,
            debit_offset_buffer: self.debit_offset_buffer,
            max_auctions_count: self.max_auctions_count,
            events: crate::store::copy_vec(&self.events),
        }
    }

    /// The account of the treasury.
    pub fn account_id(&self) -> (r: u64)
        ensures
            r == self.account_id,
    {
        self.account_id
    }

    /// The surplus: the stable coin of the treasury account.
    pub fn surplus_pool(&self, assets: &Assets) -> (r: u128)
        requires
            assets.wf(),
        ensures
            r == assets.free(STABLE, self.account_id),
    {
        assets.balance(STABLE, self.account_id)
    }

    /// The collateral: the native coin of the treasury account.
    pub fn total_collaterals(&self, assets: &Assets) -> (r: u128)
        requires
            assets.wf(),
        ensures
            r == assets.free(NATIVE, self.account_id),
    {
        assets.balance(NATIVE, self.account_id)
    }

    /// The collateral not in auction.
    pub fn total_collaterals_not_in_auction<M: AuctionManager>(&self, assets: &Assets, manager: &M) -> (r: u128)
        requires
            assets.wf(),
        ensures
            r == crate::fixed::spec_sat_sub(assets.free(NATIVE, self.account_id), manager.collateral_in_auction(NATIVE)),
    {
        let total = self.total_collaterals(assets);
        total.saturating_sub(manager.get_total_collateral_in_auction(NATIVE))
    }

    /// The system debit.
    pub fn debit_pool(&self) -> (r: u128)
        ensures
            r == self.debit_pool,
    {
        self.debit_pool
    }

    /// The collateral per auction.
    pub fn expected_collateral_auction_size(&self) -> (r: u128)
        ensures
            r == self.expected_collateral_auction_size,
    {
        self.expected_collateral_auction_size
    }

    /// The debit kept by offsetting.
    pub fn debit_offset_buffer(&self) -> (r: u128)
        ensures
            r == self.debit_offset_buffer,
    {
        self.debit_offset_buffer
    }

    /// The surplus.
    pub fn get_surplus_pool(&self, assets: &Assets) -> (r: u128)
        requires
            assets.wf(),
        ensures
            r == assets.free(STABLE, self.account_id),
    {
        self.surplus_pool(assets)
    }

    /// The system debit.
    pub fn get_debit_pool(&self) -> (r: u128)
        ensures
            r == self.debit_pool,
    {
        self.debit_pool
    }

    /// The collateral.
    pub fn get_total_collaterals(&self, assets: &Assets) -> (r: u128)
        requires
            assets.wf(),
        ensures
            r == assets.free(NATIVE, self.account_id),
    {
        self.total_collaterals(assets)
    }

    /// The most auctions one split creates.
    pub fn max_auction(&self) -> (r: u32)
        ensures
            r == self.max_auctions_count,
    {
        self.max_auctions_count
    }

    /// `amount` as a share of all stable coin issued (zero if not representable).
    pub fn get_debit_proportion(&self, assets: &Assets, amount: u128) -> (r: u128)
        ensures
            r == (match spec_from_rational(amount, assets.stable.issuance) { Some(p) => p, None => 0 }),
    {
        let stable_total_supply = assets.total_issuance(STABLE);
        match fixed_checked_from_rational(amount, stable_total_supply) {
            Some(p) => p,
            None => 0,
        }
    }

    /// Add `amount` to the system debit.
    pub fn on_system_debit(&mut self, amount: u128) -> (r: Result<(), DispatchError>)
        ensures
            final(self).account_id == old(self).account_id,
            final(self).events@ == old(self).events@,
            final(self).expected_collateral_auction_size == old(self).expected_collateral_auction_size,
            final(self).debit_offset_buffer == old(self).debit_offset_buffer,
            final(self).max_auctions_count == old(self).max_auctions_count,
            final(self).treasury_account == old(self).treasury_account,
            r is Ok <==> old(self).debit_pool + amount <= u128::MAX,
            r is Ok ==> final(self).debit_pool == old(self).debit_pool + amount,
            r is Err ==> r == Err::<(), DispatchError>(DispatchError::Arithmetic(ArithmeticError::Overflow))
                && final(self).debit_pool == old(self).debit_pool,
    {
        match self.debit_pool.checked_add(amount) {
            Some(v) => {
                self.debit_pool = v;
                Ok(())
            },
            None => Err(DispatchError::Arithmetic(ArithmeticError::Overflow)),
        }
    }

    /// Issue `debit` stable coin to `who`; unless `backed`, the system debit grows by as much.
    pub fn issue_debit(&mut self, assets: &mut Assets, who: u64, debit: u128, backed: bool) -> (r: Result<(), DispatchError>)
        requires
            old(assets).wf(),
        ensures
            final(assets).wf(),
            final(self).account_id == old(self).account_id,
            final(self).events@ == old(self).events@,
            r is Ok <==> ((backed || old(self).debit_pool + debit <= u128::MAX)
                && old(assets).stable.issuance + debit <= u128::MAX
                && old(assets).free(STABLE, who) + debit <= u128::MAX),
            r is Err ==> *final(assets) == *old(assets) && final(self).debit_pool == old(self).debit_pool,
            r is Ok ==> final(self).debit_pool == (if backed { old(self).debit_pool } else { (old(self).debit_pool + debit) as u128 })
                && final(assets).free(STABLE, who) == old(assets).free(STABLE, who) + debit
                && final(assets).stable.issuance == old(assets).stable.issuance + debit
                && (forall|w: u64| w != who ==> final(assets).free(STABLE, w) == old(assets).free(STABLE, w))
                && final(assets).native == old(assets).native,
    {
        let issuance = assets.total_issuance(STABLE);
        let bal = assets.balance(STABLE, who);
        if issuance.checked_add(debit).is_none() || bal.checked_add(debit).is_none() {
            return Err(DispatchError::Token(TokenError::Overflow));
        }
        if !backed {
            match self.on_system_debit(debit) {
                Ok(()) => {},
                Err(e) => return Err(e),
            }
        }
        let m = assets.mint_into(STABLE, who, debit);
        assert(m is Ok);
        Ok(())
    }

    /// Burn `debit` stable coin of `who`.
    pub fn burn_debit(&self, assets: &mut Assets, who: u64, debit: u128) -> (r: Result<(), DispatchError>)
        requires
            old(assets).wf(),
        ensures
            final(assets).wf(),
            r is Ok <==> old(assets).free(STABLE, who) >= debit,
            r is Err ==> *final(assets) == *old(assets),
            r is Ok ==> final(assets).free(STABLE, who) == old(assets).free(STABLE, who) - debit
                && (forall|w: u64| w != who ==> final(assets).free(STABLE, w) == old(assets).free(STABLE, w))
                && final(assets).native == old(assets).native,
    {
        match assets.burn_from(STABLE, who, debit) {
            Ok(()) => Ok(()),
            Err(e) => Err(DispatchError::Token(e)),
        }
    }

    /// Issue `amount` of surplus: stable coin for the treasury account, backed.
    pub fn on_system_surplus(&mut self, assets: &mut Assets, amount: u128) -> (r: Result<(), DispatchError>)
        requires
            old(assets).wf(),
        ensures
            final(assets).wf(),
            final(self).account_id == old(self).account_id,
            final(self).debit_pool == old(self).debit_pool,
            final(self).events@ == old(self).events@,
            r is Ok <==> (old(assets).stable.issuance + amount <= u128::MAX
                && old(assets).free(STABLE, old(self).account_id) + amount <= u128::MAX),
            r is Err ==> *final(assets) == *old(assets),
            r is Ok ==> final(assets).free(STABLE, old(self).account_id) == old(assets).free(STABLE, old(self).account_id) + amount
                && final(assets).stable.issuance == old(assets).stable.issuance + amount
                && (forall|w: u64| w != old(self).account_id ==> final(assets).free(STABLE, w) == old(assets).free(STABLE, w))
                && final(assets).native == old(assets).native,
    {
        let acc = self.account_id;
        self.issue_debit(assets, acc, amount, true)
    }

    /// Mint `amount` stable coin into the treasury account.
    pub fn pay_surplus(&self, assets: &mut Assets, amount: u128) -> (r: Result<(), DispatchError>)
        requires
            old(assets).wf(),
        ensures
            final(assets).wf(),
            r is Ok <==> (old(assets).stable.issuance + amount <= u128::MAX
                && old(assets).free(STABLE, self.account_id) + amount <= u128::MAX),
            r is Err ==> *final(assets) == *old(assets),
            r is Ok ==> final(assets).free(STABLE, self.account_id) == old(assets).free(STABLE, self.account_id) + amount
                && (forall|w: u64| w != self.account_id ==> final(assets).free(STABLE, w) == old(assets).free(STABLE, w)),
    {
        match assets.mint_into(STABLE, self.account_id, amount) {
            Ok(()) => Ok(()),
            Err(e) => Err(DispatchError::Token(e)),
        }
    }

    /// Burn `amount` stable coin of the treasury account.
    pub fn refund_surplus(&self, assets: &mut Assets, amount: u128) -> (r: Result<(), DispatchError>)
        requires
            old(assets).wf(),
        ensures
            final(assets).wf(),
            r is Ok <==> old(assets).free(STABLE, self.account_id) >= amount,
            r is Err ==> *final(assets) == *old(assets),
            r is Ok ==> final(assets).free(STABLE, self.account_id) == old(assets).free(STABLE, self.account_id) - amount
                && (forall|w: u64| w != self.account_id ==> final(assets).free(STABLE, w) == old(assets).free(STABLE, w)),
    {
        match assets.burn_from(STABLE, self.account_id, amount) {
            Ok(()) => Ok(()),
            Err(e) => Err(DispatchError::Token(e)),
        }
    }

    /// Move `surplus` stable coin from `from` to the treasury account.
    pub fn deposit_surplus(&self, assets: &mut Assets, from: u64, surplus: u128) -> (r: Result<(), DispatchError>)
        requires
            old(assets).wf(),
        ensures
            final(assets).wf(),
            r is Ok <==> (old(assets).free(STABLE, from) >= surplus
                && (from == self.account_id || old(assets).free(STABLE, self.account_id) + surplus <= u128::MAX)),
            r is Err ==> *final(assets) == *old(assets),
            r is Ok && from != self.account_id ==> final(assets).free(STABLE, from) == old(assets).free(STABLE, from) - surplus
                && final(assets).free(STABLE, self.account_id) == old(assets).free(STABLE, self.account_id) + surplus,
    {
        match assets.transfer(STABLE, from, self.account_id, surplus) {
            Ok(()) => Ok(()),
            Err(e) => Err(DispatchError::Token(e)),
        }
    }

    /// Move `surplus` stable coin from the treasury account to `to`.
    pub fn withdraw_surplus(&self, assets: &mut Assets, to: u64, surplus: u128) -> (r: Result<(), DispatchError>)
        requires
            old(assets).wf(),
        ensures
            final(assets).wf(),
            r is Ok <==> (old(assets).free(STABLE, self.account_id) >= surplus
                && (to == self.account_id || old(assets).free(STABLE, to) + surplus <= u128::MAX)),
            r is Err ==> *final(assets) == *old(assets),
            r is Ok && to != self.account_id ==> final(assets).free(STABLE, to) == old(assets).free(STABLE, to) + surplus
                && final(assets).free(STABLE, self.account_id) == old(assets).free(STABLE, self.account_id) - surplus,
    {
        match assets.transfer(STABLE, self.account_id, to, surplus) {
            Ok(()) => Ok(()),
            Err(e) => Err(DispatchError::Token(e)),
        }
    }

    /// Move `amount` collateral from `from` to the treasury account.
    pub fn deposit_collateral(&self, assets: &mut Assets, from: u64, amount: u128) -> (r: Result<(), DispatchError>)
        requires
            old(assets).wf(),
        ensures
            final(assets).wf(),
            r is Ok <==> (old(assets).free(NATIVE, from) >= amount
                && (from == self.account_id || old(assets).free(NATIVE, self.account_id) + amount <= u128::MAX)),
            r is Err ==> *final(assets) == *old(assets),
            r is Ok && from != self.account_id ==> final(assets).free(NATIVE, from) == old(assets).free(NATIVE, from) - amount
                && final(assets).free(NATIVE, self.account_id) == old(assets).free(NATIVE, self.account_id) + amount,
            r is Ok ==> final(assets).stable == old(assets).stable
                && (forall|w: u64| w != from && w != self.account_id ==> final(assets).free(NATIVE, w) == old(assets).free(NATIVE, w))
                && (from == self.account_id ==> forall|w: u64| final(assets).free(NATIVE, w) == old(assets).free(NATIVE, w))
                && (forall|w: u64| final(assets).held(NATIVE, w) == old(assets).held(NATIVE, w)),
    {
        match assets.transfer(NATIVE, from, self.account_id, amount) {
            Ok(()) => Ok(()),
            Err(e) => Err(DispatchError::Token(e)),
        }
    }

    /// Move `amount` collateral from the treasury account to `to`.
    pub fn withdraw_collateral(&self, assets: &mut Assets, to: u64, amount: u128) -> (r: Result<(), DispatchError>)
        requires
            old(assets).wf(),
        ensures
            final(assets).wf(),
            r is Ok <==> (old(assets).free(NATIVE, self.account_id) >= amount
                && (to == self.account_id || old(assets).free(NATIVE, to) + amount <= u128::MAX)),
            r is Err ==> *final(assets) == *old(assets),
            r is Ok && to != self.account_id ==> final(assets).free(NATIVE, to) == old(assets).free(NATIVE, to) + amount
                && final(assets).free(NATIVE, self.account_id) == old(assets).free(NATIVE, self.account_id) - amount,
            r is Ok ==> final(assets).stable == old(assets).stable
                && (forall|w: u64| w != to && w != self.account_id ==> final(assets).free(NATIVE, w) == old(assets).free(NATIVE, w))
                && (to == self.account_id ==> forall|w: u64| final(assets).free(NATIVE, w) == old(assets).free(NATIVE, w))
                && (forall|w: u64| final(assets).held(NATIVE, w) == old(assets).held(NATIVE, w)),
    {
        match assets.transfer(NATIVE, self.account_id, to, amount) {
            Ok(()) => Ok(()),
            Err(e) => Err(DispatchError::Token(e)),
        }
    }

    /// Offset surplus against debit, keeping `debit_offset_buffer` of debit: burn
    /// `min(surplus, debit_pool - buffer)` of surplus and reduce the debit by as much.
    pub fn offset_surplus_and_debit(&mut self, assets: &mut Assets)
        requires
            old(assets).wf(),
        ensures
            final(assets).wf(),
            final(self).account_id == old(self).account_id,
            final(self).debit_offset_buffer == old(self).debit_offset_buffer,
            final(self).events@ == old(self).events@,
            ({
                let surplus = old(assets).free(STABLE, old(self).account_id);
                let excess: int = if old(self).debit_pool > old(self).debit_offset_buffer { old(self).debit_pool - old(self).debit_offset_buffer } else { 0 };
                let offset: int = if surplus < excess { surplus as int } else { excess };
                &&& final(self).debit_pool == old(self).debit_pool - offset
                &&& final(assets).free(STABLE, old(self).account_id) == surplus - offset
                &&& forall|w: u64| w != old(self).account_id ==> final(assets).free(STABLE, w) == old(assets).free(STABLE, w)
                &&& final(assets).native == old(assets).native
            }),
    {
        let surplus = self.surplus_pool(assets);
        let excess = self.debit_pool.saturating_sub(self.debit_offset_buffer);
        let offset_amount = if surplus < excess { surplus } else { excess };
        if offset_amount != 0 {
            let b = assets.burn_from(STABLE, self.account_id, offset_amount);
            assert(b is Ok);
            self.debit_pool = self.debit_pool - offset_amount;
        }
    }

    /// At the end of each block surplus is offset against debit.
    pub fn on_finalize(&mut self, assets: &mut Assets, _now: u64)
        requires
            old(assets).wf(),
        ensures
            final(assets).wf(),
            final(self).account_id == old(self).account_id,
            ({
                let surplus = old(assets).free(STABLE, old(self).account_id);
                let excess: int = if old(self).debit_pool > old(self).debit_offset_buffer { old(self).debit_pool - old(self).debit_offset_buffer } else { 0 };
                let offset: int = if surplus < excess { surplus as int } else { excess };
                &&& final(self).debit_pool == old(self).debit_pool - offset
                &&& final(assets).free(STABLE, old(self).account_id) == surplus - offset
            }),
    {
        self.offset_surplus_and_debit(assets)
    }

    /// Set the collateral per auction (update origin only).
    pub fn set_expected_collateral_auction_size(&mut self, origin: Origin, size: u128) -> (r: Result<(), DispatchError>)
        ensures
            r is Ok <==> is_update_origin(origin),
            r is Err ==> r == Err::<(), DispatchError>(DispatchError::BadOrigin) && *final(self) == *old(self),
            r is Ok ==> final(self).expected_collateral_auction_size == size
                && final(self).events@ == old(self).events@.push(Event::ExpectedCollateralAuctionSizeUpdated { new_size: size })
                && final(self).debit_pool == old(self).debit_pool
                && final(self).debit_offset_buffer == old(self).debit_offset_buffer
                && final(self).account_id == old(self).account_id
                && final(self).treasury_account == old(self).treasury_account
                && final(self).max_auctions_count == old(self).max_auctions_count,
    {
        match ensure_update_origin(origin) {
            Ok(()) => {},
            Err(e) => return Err(e),
        }
        self.expected_collateral_auction_size = size;
        self.events.push(Event::ExpectedCollateralAuctionSizeUpdated { new_size: size });
        Ok(())
    }

    /// Set the debit kept by offsetting (update origin only).
    pub fn set_debit_offset_buffer(&mut self, origin: Origin, amount: u128) -> (r: Result<(), DispatchError>)
        ensures
            r is Ok <==> is_update_origin(origin),
            r is Err ==> r == Err::<(), DispatchError>(DispatchError::BadOrigin) && *final(self) == *old(self),
            r is Ok ==> final(self).debit_offset_buffer == amount
                && final(self).events@ == old(self).events@.push(Event::DebitOffsetBufferUpdated { amount })
                && final(self).debit_pool == old(self).debit_pool
                && final(self).expected_collateral_auction_size == old(self).expected_collateral_auction_size
                && final(self).account_id == old(self).account_id
                && final(self).treasury_account == old(self).treasury_account
                && final(self).max_auctions_count == old(self).max_auctions_count,
    {
        match ensure_update_origin(origin) {
            Ok(()) => {},
            Err(e) => return Err(e),
        }
        self.debit_offset_buffer = amount;
        self.events.push(Event::DebitOffsetBufferUpdated { amount });
        Ok(())
    }

    /// Move `amount` of surplus to the treasury account (update origin only).
    pub fn extract_surplus_to_treasury(&self, origin: Origin, assets: &mut Assets, amount: u128) -> (r: Result<(), DispatchError>)
        requires
            old(assets).wf(),
        ensures
            final(assets).wf(),
            !is_update_origin(origin) ==> r == Err::<(), DispatchError>(DispatchError::BadOrigin),
            r is Ok <==> (is_update_origin(origin) && old(assets).free(STABLE, self.account_id) >= amount
                && (self.treasury_account == self.account_id
                    || old(assets).free(STABLE, self.treasury_account) + amount <= u128::MAX)),
            r is Err ==> *final(assets) == *old(assets),
            r is Ok && self.treasury_account != self.account_id ==>
                final(assets).free(STABLE, self.treasury_account) == old(assets).free(STABLE, self.treasury_account) + amount
                && final(assets).free(STABLE, self.account_id) == old(assets).free(STABLE, self.account_id) - amount,
    {
        match ensure_update_origin(origin) {
            Ok(()) => {},
            Err(e) => return Err(e),
        }
        match assets.transfer(STABLE, self.account_id, self.treasury_account, amount) {
            Ok(()) => Ok(()),
            Err(e) => Err(DispatchError::Token(e)),
        }
    }

    /// The number of auctions that `amount` of collateral is split into.
    pub fn lots_count(&self, amount: u128, split: bool) -> (r: u128)
        ensures
            r == spec_lots_count(amount, self.expected_collateral_auction_size, self.max_auctions_count, split),
            1 <= r,
            amount > 0 ==> r <= amount,
    {
        let size = self.expected_collateral_auction_size;
        let max_count: u128 = self.max_auctions_count as u128;
        if !split || max_count == 0 || size == 0 || amount <= size {
            1
        } else {
            let mut count = amount / size;
            let remainder = amount % size;
            proof {
                assert(count * size <= amount) by (nonlinear_arith)
                    requires count == amount / size, size > 0;
                assert(count >= 1) by (nonlinear_arith)
                    requires count == amount / size, amount > size, size > 0;
                assert(remainder != 0 ==> count < amount) by (nonlinear_arith)
                    requires count == amount / size, remainder == amount % size, size > 0, amount > size;
            }
            if remainder != 0 {
                count = count + 1;
            }
            if count < max_count {
                count
            } else {
                max_count
            }
        }
    }

    /// The lots `(collateral, target)` that `amount` of collateral for `target` is split
    /// into: the average share for every lot but the last, the rest for the last.
    pub fn collateral_auction_lots(&self, amount: u128, target: u128, split: bool) -> (r: Vec<(u128, u128)>)
        ensures
            amount == 0 ==> r@.len() == 0,
            amount > 0 ==> r@ == spec_lots(amount, target,
                spec_lots_count(amount, self.expected_collateral_auction_size, self.max_auctions_count, split)),
            amount > 0 ==> 1 <= spec_lots_count(amount, self.expected_collateral_auction_size, self.max_auctions_count, split),
    {
        let mut lots: Vec<(u128, u128)> = Vec::new();
        if amount == 0 {
            return lots;
        }
        let n = self.lots_count(amount, split);
        let avg_a = amount / n;
        let avg_t = target / n;
        proof {
            assert(avg_a * (n - 1) <= amount) by (nonlinear_arith)
                requires avg_a == amount / n, n >= 1;
            assert(avg_t * (n - 1) <= target) by (nonlinear_arith)
                requires avg_t == target / n, n >= 1;
        }
        let mut i: u128 = 0;
        while i < n - 1
            invariant
                n >= 1,
                i <= n - 1,
                avg_a == amount / n,
                avg_t == target / n,
                avg_a * (n - 1) <= amount,
                avg_t * (n - 1) <= target,
                lots@.len() == i,
                forall|k: int| 0 <= k < i ==> lots@[k] == spec_lots(amount, target, n)[k],
            decreases n - 1 - i,
        {
            lots.push((avg_a, avg_t));
            i = i + 1;
        }
        proof {
            assert((n - 1) * avg_a <= amount) by (nonlinear_arith)
                requires avg_a * (n - 1) <= amount;
            assert((n - 1) * avg_t <= target) by (nonlinear_arith)
                requires avg_t * (n - 1) <= target;
        }
        let last_a = amount - (n - 1) * avg_a;
        let last_t = target - (n - 1) * avg_t;
        lots.push((last_a, last_t));
        assert(lots@ =~= spec_lots(amount, target, n));
        lots
    }

    /// Split `amount` of collateral for `target` into auctions started by `manager`,
    /// each refunding `refund_receiver`; returns the number of auctions.
    pub fn create_collateral_auctions<M: AuctionManager>(
        &self,
        manager: &mut M,
        auctions: &mut auction::Pallet,
        assets: &mut Assets,
        now: u64,
        amount: u128,
        target: u128,
        refund_receiver: u64,
        split: bool,
    ) -> (r: Result<u32, DispatchError>)
        requires
            old(manager).manager_wf(),
            old(auctions).wf(),
            old(assets).wf(),
        ensures
            final(manager).manager_wf(),
            final(auctions).wf(),
            final(assets).wf(),
            crate::fixed::spec_sat_sub(old(assets).free(NATIVE, self.account_id), old(manager).collateral_in_auction(NATIVE)) < amount
                ==> r == Err::<u32, DispatchError>(err(Error::CollateralNotEnough)) && *final(assets) == *old(assets),
            r matches Ok(n) ==> n as int == (if amount == 0 { 0 } else {
                spec_lots_count(amount, self.expected_collateral_auction_size, self.max_auctions_count, split) as int }),
            ({
                let short = crate::fixed::spec_sat_sub(old(assets).free(NATIVE, self.account_id),
                    old(manager).collateral_in_auction(NATIVE)) < amount;
                let count = if amount == 0 { 0 } else {
                    spec_lots_count(amount, self.expected_collateral_auction_size, self.max_auctions_count, split) };
                &&& r == Err::<u32, DispatchError>(err(Error::CollateralNotEnough)) <==> short
                &&& !short && amount == 0 ==> r == Ok::<u32, DispatchError>(0) && *final(assets) == *old(assets)
                &&& !short && old(manager).accepts_all() ==> r == Ok::<u32, DispatchError>(count as u32)
                &&& r is Ok && old(manager).collateral_in_auction(NATIVE) + amount <= u128::MAX
                    ==> final(manager).collateral_in_auction(NATIVE) == old(manager).collateral_in_auction(NATIVE) + amount
            }),
            old(manager).moves_nothing() ==> *final(assets) == *old(assets),
            ({
                let lots = spec_auction_lots(amount, target, self.expected_collateral_auction_size, self.max_auctions_count, split);
                &&& r is Ok ==> final(manager).started() == old(manager).started() + lot_auctions(refund_receiver, lots)
                &&& r is Err ==> exists|k: int| 0 <= k <= lots.len()
                    && final(manager).started() == old(manager).started() + lot_auctions(refund_receiver, #[trigger] lots.take(k))
            }),
    {
        let ghost sl = spec_auction_lots(amount, target, self.expected_collateral_auction_size, self.max_auctions_count, split);
        let available = self.total_collaterals_not_in_auction(assets, manager);
        if available < amount {
            assert(old(manager).started() =~= old(manager).started() + lot_auctions(refund_receiver, sl.take(0)));
            return Err(module_err(Error::CollateralNotEnough));
        }
        let lots = self.collateral_auction_lots(amount, target, split);
        assert(lots@ =~= sl);
        let ghost available0 = available;
        proof {
            if amount > 0 {
                let c = spec_lots_count(amount, self.expected_collateral_auction_size, self.max_auctions_count, split);
                assert(c <= self.max_auctions_count || c == 1);
                assert(lots@ == spec_lots(amount, target, c));
                assert(spec_lots(amount, target, c).len() == c);
                assert(lots@.len() == c);
            }
        }
        let ghost n: int = lots@.len() as int;
        let ghost q: int = if n > 0 { (amount as int) / n } else { 0 };
        let ghost old_in: int = old(manager).collateral_in_auction(NATIVE) as int;
        proof {
            if amount > 0 {
                let c = spec_lots_count(amount, self.expected_collateral_auction_size, self.max_auctions_count, split);
                assert(n == c);
                assert(c >= 1);
                assert((n - 1) * q <= amount) by (nonlinear_arith)
                    requires q == (amount as int) / n, n >= 1;
            }
        }
        let mut created: u32 = 0;
        let mut i: usize = 0;
        while i < lots.len()
            invariant
                manager.manager_wf(),
                auctions.wf(),
                assets.wf(),
                i <= lots@.len(),
                created == i,
                lots@.len() <= u32::MAX,
                available0 >= amount,
                available0 == crate::fixed::spec_sat_sub(old(assets).free(NATIVE, self.account_id), old(manager).collateral_in_auction(NATIVE)),
                old(manager).accepts_all() ==> manager.accepts_all(),
                n == lots@.len(),
                amount == 0 ==> n == 0,
                amount > 0 ==> n >= 1 && q == (amount as int) / n && (n - 1) * q <= amount
                    && lots@ == spec_lots(amount, target, n as u128),
                old_in == old(manager).collateral_in_auction(NATIVE),
                i == 0 ==> *assets == *old(assets),
                old(manager).moves_nothing() ==> manager.moves_nothing() && *assets == *old(assets),
                manager.started() == old(manager).started() + lot_auctions(refund_receiver, lots@.take(i as int)),
                lots@ == sl,
                sl == spec_auction_lots(amount, target, self.expected_collateral_auction_size, self.max_auctions_count, split),
                old_in + amount <= u128::MAX ==> manager.collateral_in_auction(NATIVE)
                    == old_in + (if i < n { i * q } else { amount as int }),
            decreases lots@.len() - i,
        {
            let (lot_amount, lot_target) = lots[i];
            proof {
                assert(lot_amount == spec_lot(amount, target, n as u128, i as int).0);
                if i < n - 1 {
                    assert((i + 1) * q <= (n - 1) * q) by (nonlinear_arith)
                        requires i + 1 <= n - 1, q >= 0;
                    assert((i + 1) * q == i * q + q) by (nonlinear_arith);
                } else {
                    assert(i * q == (n - 1) * q);
                }
                assert(0 <= i * q) by (nonlinear_arith) requires i >= 0, q >= 0;
            }
            proof {
                assert(lot_auctions(refund_receiver, lots@.take(i + 1))
                    =~= lot_auctions(refund_receiver, lots@.take(i as int)).push((refund_receiver, NATIVE, lot_amount, lot_target)));
            }
            match manager.new_collateral_auction(auctions, assets, self.account_id, now, refund_receiver, NATIVE, lot_amount, lot_target) {
                Ok(()) => {},
                Err(e) => {
                    assert(manager.started() == old(manager).started() + lot_auctions(refund_receiver, sl.take(i as int)));
                    return Err(e);
                },
            }
            proof {
                assert(old(manager).started() + lot_auctions(refund_receiver, lots@.take(i + 1))
                    =~= (old(manager).started() + lot_auctions(refund_receiver, lots@.take(i as int)))
                        .push((refund_receiver, NATIVE, lot_amount, lot_target)));
            }
            created = created + 1;
            i = i + 1;
        }
        assert(lots@.take(lots@.len() as int) =~= lots@);
        assert(created as int == lots@.len());
        Ok(created)
    }

    /// Sell collateral from the treasury (update origin only), refunding to the treasury
    /// account itself.
    pub fn auction_collateral<M: AuctionManager>(
        &self,
        origin: Origin,
        manager: &mut M,
        auctions: &mut auction::Pallet,
        assets: &mut Assets,
        now: u64,
        amount: u128,
        target: u128,
        split: bool,
    ) -> (r: Result<u32, DispatchError>)
        requires
            old(manager).manager_wf(),
            old(auctions).wf(),
            old(assets).wf(),
        ensures
            final(manager).manager_wf(),
            final(auctions).wf(),
            final(assets).wf(),
            !is_update_origin(origin) ==> r == Err::<u32, DispatchError>(DispatchError::BadOrigin),
            is_update_origin(origin) && crate::fixed::spec_sat_sub(old(assets).free(NATIVE, self.account_id),
                old(manager).collateral_in_auction(NATIVE)) < amount
                ==> r == Err::<u32, DispatchError>(err(Error::CollateralNotEnough)),
            r matches Ok(n) ==> n as int == (if amount == 0 { 0 } else {
                spec_lots_count(amount, self.expected_collateral_auction_size, self.max_auctions_count, split) as int }),
    {
        match ensure_update_origin(origin) {
            Ok(()) => {},
            Err(e) => return Err(e),
        }
        let acc = self.account_id;
        self.create_collateral_auctions(manager, auctions, assets, now, amount, target, acc, split)
    }

    /// The swap that selling the treasury's collateral for stable coin within `limit`
    /// asks of the exchange: from the treasury's account, collateral to stable coin, the
    /// proceeds back to the treasury's account, which is kept alive.
    pub fn swap_request(&self, limit: SwapLimit) -> (r: SwapRequest)
        ensures
            r == (SwapRequest { sender: self.account_id, path_from: NATIVE, path_to: STABLE, limit,
                recipient: self.account_id, keep_alive: true }),
    {
        SwapRequest { sender: self.account_id, path_from: NATIVE, path_to: STABLE, limit, recipient: self.account_id, keep_alive: true }
    }

    /// The outcome of swapping collateral of the treasury for stable coin: the check
    /// that enough collateral is available (in auctions or outside them), then the
    /// amounts `(supplied, received)` given the result `swapped` of the swap that
    /// `swap_request(limit)` describes (the received amount for an exact supply, the
    /// supplied amount for an exact target).
    pub fn swap_collateral_to_stable<M: AuctionManager>(
        &self,
        assets: &Assets,
        manager: &M,
        limit: SwapLimit,
        collateral_in_auction: bool,
        swapped: Result<u128, DispatchError>,
    ) -> (r: Result<(u128, u128), DispatchError>)
        requires
            assets.wf(),
        ensures
            ({
                let supply_limit = match limit { SwapLimit::ExactSupply(s, _) => s, SwapLimit::ExactTarget(s, _) => s };
                let total = assets.free(NATIVE, self.account_id);
                let in_auction = manager.collateral_in_auction(NATIVE);
                let enough = if collateral_in_auction {
                    total >= supply_limit && in_auction >= supply_limit
                } else {
                    crate::fixed::spec_sat_sub(total, in_auction) >= supply_limit
                };
                &&& !enough ==> r == Err::<(u128, u128), DispatchError>(err(Error::CollateralNotEnough))
                &&& enough ==> r == (match swapped {
                    Err(e) => Err(e),
                    Ok(v) => Ok(match limit {
                        SwapLimit::ExactSupply(s, _) => (s, v),
                        SwapLimit::ExactTarget(_, t) => (v, t),
                    }),
                })
            }),
    {
        let supply_limit = match limit {
            SwapLimit::ExactSupply(s, _) => s,
            SwapLimit::ExactTarget(s, _) => s,
        };
        if collateral_in_auction {
            let total = self.total_collaterals(assets);
            let in_auction = manager.get_total_collateral_in_auction(NATIVE);
            if !(total >= supply_limit && in_auction >= supply_limit) {
                return Err(module_err(Error::CollateralNotEnough));
            }
        } else {
            if self.total_collaterals_not_in_auction(assets, manager) < supply_limit {
                return Err(module_err(Error::CollateralNotEnough));
            }
        }
        match swapped {
            Err(e) => Err(e),
            Ok(v) => match limit {
                SwapLimit::ExactSupply(s, _) => Ok((s, v)),
                SwapLimit::ExactTarget(_, t) => Ok((v, t)),
            },
        }
    }
}

/// The lots of a split cover the collateral and the target exactly.
pub proof fn lemma_lots_cover(amount: u128, target: u128, n: u128)
    requires
        n >= 1,
        (amount / n) * (n - 1) <= amount,
        (target / n) * (n - 1) <= target,
    ensures
        sum_lot_amounts(spec_lots(amount, target, n)) == amount,
        sum_lot_targets(spec_lots(amount, target, n)) == target,
{
    let s = spec_lots(amount, target, n);
    let avg_a = amount / n;
    let avg_t = target / n;
    assert forall|k: nat| k <= n - 1 implies sum_lot_amounts(#[trigger] s.take(k as int)) == k * avg_a
        && sum_lot_targets(s.take(k as int)) == k * avg_t by {
        lemma_prefix_sums(amount, target, n, k);
    }
    let p = s.take((n - 1) as int);
    assert(s.drop_last() =~= p);
    assert(sum_lot_amounts(p) == (n - 1) * avg_a);
    assert(sum_lot_targets(p) == (n - 1) * avg_t);
    assert((n - 1) * avg_a <= amount) by (nonlinear_arith)
        requires avg_a * (n - 1) <= amount;
    assert((n - 1) * avg_t <= target) by (nonlinear_arith)
        requires avg_t * (n - 1) <= target;
    assert(s.last() == s[n - 1]);
    assert(s.last().0 == amount - (n - 1) * avg_a);
    assert(s.last().1 == target - (n - 1) * avg_t);
}

proof fn lemma_prefix_sums(amount: u128, target: u128, n: u128, k: nat)
    requires
        n >= 1,
        k <= n - 1,
    ensures
        sum_lot_amounts(spec_lots(amount, target, n).take(k as int)) == k * (amount / n),
        sum_lot_targets(spec_lots(amount, target, n).take(k as int)) == k * (target / n),
    decreases k,
{
    let s = spec_lots(amount, target, n);
    if k > 0 {
        lemma_prefix_sums(amount, target, n, (k - 1) as nat);
        assert(s.take(k as int).drop_last() =~= s.take(k - 1));
        assert(k * (amount / n) == (k - 1) * (amount / n) + (amount / n)) by (nonlinear_arith);
        assert(k * (target / n) == (k - 1) * (target / n) + (target / n)) by (nonlinear_arith);
    } else {
        assert(s.take(0) =~= Seq::<(u128, u128)>::empty());
    }
}

} // verus!
