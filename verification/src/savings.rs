//! Savings: reward pools created on behalf of the savings account, each funded every
//! update period with its reward rate times the period.

use crate::assets::{Assets, CurrencyId, NATIVE, STABLE};
use crate::traits::{DispatchError, ModuleError, Origin};
use vstd::prelude::*;

verus! {

/// A reward pool: its id, the asset it pays and its reward per block.
#[derive(Clone, Copy, Debug, PartialEq, Eq, Structural)]
pub struct PoolData {
    pub pool_id: u32,
    pub reward_asset_id: u32,
    pub reward_rate_per_block: u128,
}

/// Errors of the savings.
#[derive(Clone, Copy, Debug, PartialEq, Eq, Structural)]
pub enum Error {
    TooManyPools,
}

/// Events of the savings.
#[derive(Clone, Copy, Debug, PartialEq, Eq, Structural)]
pub enum Event {
    PoolCreated { pool_id: u32 },
}

/// What the rewards pallet is asked for when a pool is created.
#[derive(Clone, Copy, Debug, PartialEq, Eq, Structural)]
pub struct PoolRequest {
    pub creator: u64,
    pub staked_asset_id: u32,
    pub reward_asset_id: u32,
    pub reward_rate_per_block: u128,
    /// The block at which the pool expires.
    pub expiry: u64,
    pub admin: Option<u64>,
}

/// One funding of a pool: `amount` of `asset_id` to the account of `pool_id`.
#[derive(Clone, Copy, Debug, PartialEq, Eq, Structural)]
pub struct RewardTransfer {
    pub asset_id: u32,
    pub pool_id: u32,
    pub amount: u128,
}

/// `a * b`, saturated.
pub open spec fn sat_mul(a: u128, b: u128) -> u128 {
    if a * b > u128::MAX { u128::MAX } else { (a * b) as u128 }
}

/// The fundings of `pools` for one period.
pub open spec fn spec_transfers(pools: Seq<PoolData>, period: u64) -> Seq<RewardTransfer> {
    Seq::new(pools.len(), |i: int| spec_transfer(pools[i], period))
}

/// The funding of one pool for one period.
pub open spec fn spec_transfer(p: PoolData, period: u64) -> RewardTransfer {
    RewardTransfer { asset_id: p.reward_asset_id, pool_id: p.pool_id, amount: sat_mul(p.reward_rate_per_block, period as u128) }
}

/// The balances of the savings account and of the rewards account in `currency` after
/// the fundings of `transfers` in order: each moves its amount when the savings account
/// has it (a funding that cannot be made is skipped).
pub open spec fn spec_funded(transfers: Seq<RewardTransfer>, currency: CurrencyId, from: u128, to: u128) -> (u128, u128)
    decreases transfers.len(),
{
    if transfers.len() == 0 {
        (from, to)
    } else {
        let (f, t) = spec_funded(transfers.drop_last(), currency, from, to);
        let tr = transfers.last();
        if tr.asset_id == currency && f >= tr.amount && t + tr.amount <= u128::MAX {
            ((f - tr.amount) as u128, (t + tr.amount) as u128)
        } else {
            (f, t)
        }
    }
}

/// The pools, bounded in number, and the savings account that funds them.
pub struct Pallet {
    pub reward_pools: Vec<PoolData>,
    pub max_reward_pools: u32,
    pub update_period: u64,
    /// The account that creates and funds the pools.
    pub savings_account: u64,
    pub events: Vec<Event>,
}

/// Whether `origin` may create pools: the single member `1`.
pub open spec fn is_update_origin(origin: Origin) -> bool {
    origin == Origin::Signed(1)
}

impl Pallet {
    pub open spec fn wf(&self) -> bool {
        self.reward_pools@.len() <= self.max_reward_pools && self.update_period > 0
    }

    /// No pools.
    pub fn new(max_reward_pools: u32, update_period: u64, savings_account: u64) -> (r: Self)
        requires
            update_period > 0,
        ensures
            r.wf(),
            r.reward_pools@.len() == 0,
            r.max_reward_pools == max_reward_pools,
            r.update_period == update_period,
            r.savings_account == savings_account,
            r.events@.len() == 0,
    {
        Pallet { reward_pools: Vec::new(), max_reward_pools, update_period, savings_account, events: Vec::new() }
    }

    /// The pools.
    pub fn reward_pools(&self) -> (r: Vec<PoolData>)
        ensures
            r@ == self.reward_pools@,
    {
        crate::store::copy_vec(&self.reward_pools)
    }

    /// What creating a pool asks of the rewards pallet (update origin only): a pool
    /// created by the savings account, expiring one update period after `now`.
    pub fn create_pool_request(
        &self,
        origin: Origin,
        now: u64,
        staked_asset_id: u32,
        reward_asset_id: u32,
        reward_rate_per_block: u128,
        admin: Option<u64>,
    ) -> (r: Result<PoolRequest, DispatchError>)
        requires
            now + self.update_period <= u64::MAX,
        ensures
            r == (if !is_update_origin(origin) {
                Err(DispatchError::BadOrigin)
            } else {
                Ok(PoolRequest {
                    creator: self.savings_account,
                    staked_asset_id,
                    reward_asset_id,
                    reward_rate_per_block,
                    expiry: (now + self.update_period) as u64,
                    admin,
                })
            }),
    {
        if origin != Origin::Signed(1) {
            return Err(DispatchError::BadOrigin);
        }
        Ok(PoolRequest {
            creator: self.savings_account,
            staked_asset_id,
            reward_asset_id,
            reward_rate_per_block,
            expiry: now + self.update_period,
            admin,
        })
    }

    /// Record the pool the rewards pallet created (`created`: its id, or its refusal),
    /// while there is room for it.
    pub fn record_pool(&mut self, created: Result<u32, DispatchError>, reward_asset_id: u32, reward_rate_per_block: u128)
        -> (r: Result<(), DispatchError>)
        requires
            old(self).wf(),
        ensures
            final(self).wf(),
            final(self).max_reward_pools == old(self).max_reward_pools,
            final(self).update_period == old(self).update_period,
            final(self).savings_account == old(self).savings_account,
            r == (match created {
                Err(e) => Err(e),
                Ok(_) => if old(self).reward_pools@.len() >= old(self).max_reward_pools {
                    Err(DispatchError::Module(ModuleError::Savings(Error::TooManyPools)))
                } else {
                    Ok(())
                },
            }),
            r is Err ==> final(self).reward_pools@ == old(self).reward_pools@ && final(self).events@ == old(self).events@,
            r is Ok ==> final(self).reward_pools@ == old(self).reward_pools@.push(PoolData {
                    pool_id: created->Ok_0, reward_asset_id, reward_rate_per_block })
                && final(self).events@ == old(self).events@.push(Event::PoolCreated { pool_id: created->Ok_0 }),
    {
        let pool_id = match created {
            Ok(id) => id,
            Err(e) => return Err(e),
        };
        if self.reward_pools.len() >= self.max_reward_pools as usize {
            return Err(DispatchError::Module(ModuleError::Savings(Error::TooManyPools)));
        }
        self.reward_pools.push(PoolData { pool_id, reward_asset_id, reward_rate_per_block });
        self.events.push(Event::PoolCreated { pool_id });
        Ok(())
    }

    /// Create a pool: the origin is checked, the rewards pallet answered the request of
    /// `create_pool_request` with `created`, and the pool is recorded.
    pub fn create_pool(
        &mut self,
        origin: Origin,
        staked_asset_id: u32,
        reward_asset_id: u32,
        reward_rate_per_block: u128,
        created: Result<u32, DispatchError>,
    ) -> (r: Result<(), DispatchError>)
        requires
            old(self).wf(),
        ensures
            final(self).wf(),
            !is_update_origin(origin) ==> r == Err::<(), DispatchError>(DispatchError::BadOrigin),
            r is Err ==> final(self).reward_pools@ == old(self).reward_pools@ && final(self).events@ == old(self).events@,
            is_update_origin(origin) ==> r == (match created {
                Err(e) => Err(e),
                Ok(_) => if old(self).reward_pools@.len() >= old(self).max_reward_pools {
                    Err(DispatchError::Module(ModuleError::Savings(Error::TooManyPools)))
                } else {
                    Ok(())
                },
            }),
            r is Ok ==> final(self).reward_pools@ == old(self).reward_pools@.push(PoolData {
                pool_id: created->Ok_0, reward_asset_id, reward_rate_per_block }),
    {
        if origin != Origin::Signed(1) {
            return Err(DispatchError::BadOrigin);
        }
        self.record_pool(created, reward_asset_id, reward_rate_per_block)
    }

    /// The block hook: the fundings due at `now` move from the savings account to the
    /// rewards pools' account (every pool's sub-account is that account here, accounts
    /// being 64-bit).  Only the two currencies of the balances are moved; a funding the
    /// savings account cannot make is skipped.
    pub fn on_initialize(&self, assets: &mut Assets, rewards_account: u64, now: u64)
        requires
            self.wf(),
            old(assets).wf(),
        ensures
            final(assets).wf(),
            self.savings_account == rewards_account ==> forall|w: u64| final(assets).free(NATIVE, w) == old(assets).free(NATIVE, w)
                && final(assets).free(STABLE, w) == old(assets).free(STABLE, w),
            self.savings_account != rewards_account ==> ({
                let ts = if now % self.update_period == 0 { spec_transfers(self.reward_pools@, self.update_period) }
                    else { Seq::<RewardTransfer>::empty() };
                let sa = self.savings_account;
                &&& (final(assets).free(NATIVE, sa), final(assets).free(NATIVE, rewards_account))
                    == spec_funded(ts, NATIVE, old(assets).free(NATIVE, sa), old(assets).free(NATIVE, rewards_account))
                &&& (final(assets).free(STABLE, sa), final(assets).free(STABLE, rewards_account))
                    == spec_funded(ts, STABLE, old(assets).free(STABLE, sa), old(assets).free(STABLE, rewards_account))
                &&& forall|w: u64| w != sa && w != rewards_account ==> final(assets).free(NATIVE, w) == old(assets).free(NATIVE, w)
                    && final(assets).free(STABLE, w) == old(assets).free(STABLE, w)
            }),
    {
        let sa = self.savings_account;
        if sa == rewards_account {
            // a funding to the savings account itself moves nothing
            return;
        }
        let transfers = self.reward_transfers(now);
        let ghost ts = transfers@;
        let mut i: usize = 0;
        while i < transfers.len()
            invariant
                assets.wf(),
                ts == transfers@,
                i <= ts.len(),
                sa != rewards_account,
                (assets.free(NATIVE, sa), assets.free(NATIVE, rewards_account))
                    == spec_funded(ts.take(i as int), NATIVE, old(assets).free(NATIVE, sa), old(assets).free(NATIVE, rewards_account)),
                (assets.free(STABLE, sa), assets.free(STABLE, rewards_account))
                    == spec_funded(ts.take(i as int), STABLE, old(assets).free(STABLE, sa), old(assets).free(STABLE, rewards_account)),
                forall|w: u64| w != sa && w != rewards_account ==> assets.free(NATIVE, w) == old(assets).free(NATIVE, w)
                    && assets.free(STABLE, w) == old(assets).free(STABLE, w),
            decreases ts.len() - i,
        {
            let tr = transfers[i];
            proof {
                assert(ts.take(i + 1).drop_last() =~= ts.take(i as int));
                assert(ts.take(i + 1).last() == tr);
            }
            if tr.asset_id == NATIVE || tr.asset_id == STABLE {
                let _ = assets.transfer(tr.asset_id, sa, rewards_account, tr.amount);
            }
            i = i + 1;
        }
        assert(ts.take(ts.len() as int) =~= ts);
    }

    /// The fundings due at block `now`: every pool gets its rate times the period when
    /// `now` is a multiple of the period, none otherwise.
    pub fn reward_transfers(&self, now: u64) -> (r: Vec<RewardTransfer>)
        requires
            self.wf(),
        ensures
            now % self.update_period == 0 ==> r@ == spec_transfers(self.reward_pools@, self.update_period),
            now % self.update_period != 0 ==> r@.len() == 0,
    {
        let mut r: Vec<RewardTransfer> = Vec::new();
        if now % self.update_period != 0 {
            return r;
        }
        let period = self.update_period as u128;
        let mut i: usize = 0;
        while i < self.reward_pools.len()
            invariant
                i <= self.reward_pools@.len(),
                period == self.update_period as u128,
                r@ == spec_transfers(self.reward_pools@.take(i as int), self.update_period),
            decreases self.reward_pools@.len() - i,
        {
            let p = self.reward_pools[i];
            let amount = match p.reward_rate_per_block.checked_mul(period) {
                Some(a) => a,
                None => u128::MAX,
            };
            r.push(RewardTransfer { asset_id: p.reward_asset_id, pool_id: p.pool_id, amount });
            proof {
                assert(spec_transfers(self.reward_pools@.take(i + 1), self.update_period)
                    =~= spec_transfers(self.reward_pools@.take(i as int), self.update_period).push(spec_transfer(p, self.update_period)));
            }
            i = i + 1;
        }
        assert(self.reward_pools@.take(self.reward_pools@.len() as int) =~= self.reward_pools@);
        r
    }
}

} // verus!
