//! Connections: a user locks collateral in a vault of its own, stable coin is minted
//! against it and routed to a liquidity destination; withdrawals from the destination
//! repay the vault, and closing a connection settles everything back to its owner.

use crate::assets::{op_ok, op_step, Assets, BalanceOp, NATIVE, STABLE, TokenError};
use crate::store::Store;
use crate::traits::{DispatchError, ModuleError, Origin};
use vstd::prelude::*;

verus! {

/// Where a connection stands.
#[derive(Clone, Copy, Debug, PartialEq, Eq, Structural)]
pub enum ConnectionStatus {
    Active,
    /// `amount` of stable coin is being withdrawn from the destination since `initiated_at`.
    WithdrawalInProgress { amount: u128, initiated_at: u64 },
}

/// A connection: its owner, its liquidity destination and its status.
#[derive(Clone, Copy, Debug, PartialEq, Eq, Structural)]
pub struct Connection {
    pub owner: u64,
    pub destination_id: u64,
    pub status: ConnectionStatus,
}

/// Errors of the connections.
#[derive(Clone, Copy, Debug, PartialEq, Eq, Structural)]
pub enum Error {
    ConnectionNotFound,
    NotOwner,
    InvalidStatus,
    DestinationNotFound,
    VaultCreationFailed,
    InsufficientCollateral,
    MintFailed,
    DepositFailed,
    WithdrawalFailed,
    BadOrigin,
    AmountMismatch,
    RepayFailed,
    WithdrawCollateralFailed,
    VaultPosition,
    IdOverflow,
    TimeoutNotPassed,
}

/// Events of the connections.
#[derive(Clone, Copy, Debug, PartialEq, Eq, Structural)]
pub enum Event {
    ConnectionOpened { connection_id: u64, owner: u64, destination_id: u64, collateral_deposited: u128, stables_minted: u128 },
    WithdrawalInitiated { connection_id: u64, stables_amount: u128 },
    WithdrawalCompleted { connection_id: u64, stables_repaid: u128 },
    CollateralWithdrawn { connection_id: u64, amount: u128 },
    ConnectionClosed { connection_id: u64 },
    StabilityFeeOverrideSet { destination_id: u64, new_value: Option<u128> },
    LiquidityInjected { destination: u64, amount: u128 },
}

/// A connections error as a dispatch error.
pub open spec fn conn_err(e: Error) -> DispatchError {
    DispatchError::Module(ModuleError::Connections(e))
}

fn module_err(e: Error) -> (r: DispatchError)
    ensures
        r == conn_err(e),
{
    DispatchError::Module(ModuleError::Connections(e))
}

/// No change for any account.
pub open spec fn no_change() -> spec_fn(u64) -> int {
    |w: u64| 0int
}

/// A change of `x` for account `who` only.
pub open spec fn change_at(who: u64, x: int) -> spec_fn(u64) -> int {
    |w: u64| if w == who { x } else { 0int }
}

/// `b` is `a` changed, for every account, by `free_native` in its free and `held_native`
/// in its held native balance, and by `free_stable` in its free stable balance.
pub open spec fn changed_by(a: Assets, b: Assets, free_native: spec_fn(u64) -> int, held_native: spec_fn(u64) -> int,
    free_stable: spec_fn(u64) -> int) -> bool
{
    &&& forall|w: u64| #[trigger] b.free(NATIVE, w) == a.free(NATIVE, w) + free_native(w)
    &&& forall|w: u64| #[trigger] b.held(NATIVE, w) == a.held(NATIVE, w) + held_native(w)
    &&& forall|w: u64| #[trigger] b.free(STABLE, w) == a.free(STABLE, w) + free_stable(w)
}

/// The vaults that back connections, one per connection id.
pub trait VaultProvider: Sized {
    /// The provider's own invariant.
    spec fn vault_wf(&self) -> bool;

    /// Whether depositing `amount` of `from`'s collateral into vault `vault_id` succeeds
    /// on balances `assets`.
    spec fn deposit_ok(&self, assets: Assets, vault_id: u64, from: u64, amount: u128) -> bool;

    /// Whether repaying `amount` of vault `vault_id`'s debt from `from` succeeds on
    /// balances `assets`.
    spec fn repay_ok(&self, assets: Assets, vault_id: u64, from: u64, amount: u128) -> bool;

    /// What a deposit of `amount` of `from`'s collateral into vault `vault_id` makes of
    /// balances `a`: `b`.
    spec fn deposit_done(&self, a: Assets, b: Assets, vault_id: u64, from: u64, amount: u128) -> bool;

    /// What minting `amount` against vault `vault_id` to `to` makes of balances `a`: `b`.
    spec fn mint_done(&self, a: Assets, b: Assets, vault_id: u64, to: u64, amount: u128) -> bool;

    /// What repaying `amount` of vault `vault_id`'s debt from `from` makes of balances
    /// `a`: `b`.
    spec fn repay_done(&self, a: Assets, b: Assets, vault_id: u64, from: u64, amount: u128) -> bool;

    /// What withdrawing `amount` of vault `vault_id`'s collateral to `to` makes of
    /// balances `a`: `b`.
    spec fn withdraw_collateral_done(&self, a: Assets, b: Assets, vault_id: u64, to: u64, amount: u128) -> bool;

    /// What withdrawing all of vault `vault_id`'s collateral to `to` makes of balances
    /// `a`: `b`.
    spec fn withdraw_all_collateral_done(&self, a: Assets, b: Assets, vault_id: u64, to: u64) -> bool;

    /// `next` is this provider with the stability fee of vault `vault_id` set to `fee`
    /// (cleared for `None`).
    spec fn fee_set(&self, next: Self, vault_id: u64, fee: Option<u128>) -> bool;

    /// Whether vault `vault_id` can be closed.
    spec fn close_ok(&self, vault_id: u64) -> bool;

    /// Deposit `amount` of `from`'s collateral into vault `vault_id`.
    fn deposit_collateral(&mut self, assets: &mut Assets, vault_id: u64, from: u64, amount: u128) -> (r: Result<(), DispatchError>)
        requires old(self).vault_wf(), old(assets).wf(),
        ensures final(self).vault_wf(), final(assets).wf(),
            r is Ok <==> old(self).deposit_ok(*old(assets), vault_id, from, amount),
            r is Ok ==> old(self).deposit_done(*old(assets), *final(assets), vault_id, from, amount);

    /// Set or clear the stability fee of a vault.
    fn set_stability_fee(&mut self, vault_id: u64, stability_fee: Option<u128>) -> (r: Result<(), DispatchError>)
        requires old(self).vault_wf(),
        ensures final(self).vault_wf(),
            r is Ok ==> old(self).fee_set(*final(self), vault_id, stability_fee);

    /// Mint `amount` of stable coin against a vault to `to`.
    fn mint(&mut self, assets: &mut Assets, vault_id: u64, to: u64, amount: u128) -> (r: Result<(), DispatchError>)
        requires old(self).vault_wf(), old(assets).wf(),
        ensures final(self).vault_wf(), final(assets).wf(),
            r is Ok <==> old(self).mint_ok(*old(assets), vault_id, to, amount),
            r is Ok ==> old(self).mint_done(*old(assets), *final(assets), vault_id, to, amount);

    /// Whether minting `amount` against vault `vault_id` to `to` succeeds on balances
    /// `assets`.
    spec fn mint_ok(&self, assets: Assets, vault_id: u64, to: u64, amount: u128) -> bool;

    /// Repay `amount` of a vault's debt from `from`.
    fn repay(&mut self, assets: &mut Assets, vault_id: u64, from: u64, amount: u128) -> (r: Result<(), DispatchError>)
        requires old(self).vault_wf(), old(assets).wf(),
        ensures final(self).vault_wf(), final(assets).wf(),
            r is Ok <==> old(self).repay_ok(*old(assets), vault_id, from, amount),
            r is Ok ==> old(self).repay_done(*old(assets), *final(assets), vault_id, from, amount);

    /// Withdraw `amount` of a vault's collateral to `to`.
    fn withdraw_collateral(&mut self, assets: &mut Assets, vault_id: u64, to: u64, amount: u128) -> (r: Result<(), DispatchError>)
        requires old(self).vault_wf(), old(assets).wf(),
        ensures final(self).vault_wf(), final(assets).wf(),
            r is Ok ==> old(self).withdraw_collateral_done(*old(assets), *final(assets), vault_id, to, amount);

    /// Withdraw all of a vault's collateral to `to`.
    fn withdraw_all_collateral(&mut self, assets: &mut Assets, vault_id: u64, to: u64) -> (r: Result<(), DispatchError>)
        requires old(self).vault_wf(), old(assets).wf(),
        ensures final(self).vault_wf(), final(assets).wf(),
            r is Ok ==> old(self).withdraw_all_collateral_done(*old(assets), *final(assets), vault_id, to);

    /// The collateral and the debt value of a vault, if it exists.
    spec fn vault_position(&self, vault_id: u64) -> Result<(u128, u128), DispatchError>;

    /// The collateral and the debt value of a vault.
    fn get_position(&self, vault_id: u64) -> (r: Result<(u128, u128), DispatchError>)
        requires self.vault_wf(),
        ensures r == self.vault_position(vault_id);

    /// Close an empty vault.
    fn close_vault(&mut self, vault_id: u64) -> (r: Result<(), DispatchError>)
        requires old(self).vault_wf(),
        ensures final(self).vault_wf(),
            r is Ok <==> old(self).close_ok(vault_id);

    /// Whether a vault has debt.
    fn has_debt(&self, vault_id: u64) -> (r: Result<bool, DispatchError>)
        requires self.vault_wf();
}

/// The destinations that liquidity is routed to.
pub trait LiquidityRouter {
    /// The router's own invariant.
    spec fn router_wf(&self) -> bool;

    /// Deposit `amount` of `from`'s stable coin at `destination_id`.
    fn deposit(&mut self, assets: &mut Assets, destination_id: u64, from: u64, amount: u128) -> (r: Result<(), DispatchError>)
        requires old(self).router_wf(), old(assets).wf(),
        ensures final(self).router_wf(), final(assets).wf(),
            r is Ok <==> old(self).deposit_ok(*old(assets), destination_id, from, amount),
            r is Ok ==> old(self).deposit_done(*old(assets), *final(assets), destination_id, from, amount);

    /// Whether depositing `amount` of `from`'s stable coin at `destination_id` succeeds
    /// on balances `assets`.
    spec fn deposit_ok(&self, assets: Assets, destination_id: u64, from: u64, amount: u128) -> bool;

    /// What depositing `amount` of `from`'s stable coin at `destination_id` makes of
    /// balances `a`: `b`.
    spec fn deposit_done(&self, a: Assets, b: Assets, destination_id: u64, from: u64, amount: u128) -> bool;

    /// What withdrawing everything `account` has at `destination_id` makes of balances
    /// `a`: `b`.
    spec fn withdraw_all_done(&self, a: Assets, b: Assets, destination_id: u64, account: u64) -> bool;

    /// Start withdrawing `amount` for `account` from `destination_id`.
    fn withdraw(&mut self, destination_id: u64, account: u64, amount: u128) -> (r: Result<(), DispatchError>)
        requires old(self).router_wf(),
        ensures final(self).router_wf();

    /// Withdraw everything `account` has at `destination_id` back to it.
    fn withdraw_all(&mut self, assets: &mut Assets, destination_id: u64, account: u64) -> (r: Result<(), DispatchError>)
        requires old(self).router_wf(), old(assets).wf(),
        ensures final(self).router_wf(), final(assets).wf(),
            r is Ok ==> old(self).withdraw_all_done(*old(assets), *final(assets), destination_id, account);

    /// The account of a destination, if it exists.
    spec fn destination_of(&self, destination_id: u64) -> Result<u64, DispatchError>;

    /// The account of a destination.
    fn get_destination_account(&self, destination_id: u64) -> (r: Result<u64, DispatchError>)
        requires self.router_wf(),
        ensures r == self.destination_of(destination_id);
}

/// How closing a connection splits the `withdrawn` stable coin against the vault's
/// `debt`: what is repaid (as much of the debt as the withdrawal covers) and what is
/// left for the owner.
pub open spec fn spec_close_split(debt: u128, withdrawn: u128) -> (u128, u128) {
    let repay = if debt < withdrawn { debt } else { withdrawn };
    (repay, (withdrawn - repay) as u128)
}

/// The repayment and the leftover when `withdrawn` stable coin meets a vault debt of
/// `debt`.
pub fn close_split(debt: u128, withdrawn: u128) -> (r: (u128, u128))
    ensures
        r == spec_close_split(debt, withdrawn),
        r.0 <= debt && r.0 <= withdrawn,
        r.0 + r.1 == withdrawn,
{
    let repay = if debt < withdrawn { debt } else { withdrawn };
    (repay, withdrawn - repay)
}

/// How closing connection `id` settles, the balances being `a1` once everything was
/// withdrawn from the destination to the connection's account `ca` and the vaults being
/// `vaults`: the vault's debt is repaid from what was withdrawn as far as it goes (`a2`,
/// `v1` after), the rest of the stable coin goes from `ca` to `owner` (`a3` after), the
/// vault's collateral goes from the pallet's account `acc` to `owner` (`a4` after) and
/// is withdrawn from the vault to `owner` (`a5`, `v2` after), and the vault can then be
/// closed.
pub open spec fn close_settled<V: VaultProvider>(vaults: V, id: u64, acc: u64, ca: u64, owner: u64,
    a1: Assets, a2: Assets, a3: Assets, a4: Assets, a5: Assets, v1: V, v2: V) -> bool
{
    let withdrawn = a1.free(STABLE, ca);
    let (collateral, debt) = vaults.vault_position(id)->Ok_0;
    let (repay, rest) = spec_close_split(debt, withdrawn);
    let give = BalanceOp::Transfer { currency: STABLE, from: ca, to: owner, amount: rest };
    let back = BalanceOp::Transfer { currency: NATIVE, from: acc, to: owner, amount: collateral };
    &&& repay == 0 ==> a2 == a1 && v1 == vaults
    &&& repay != 0 ==> vaults.repay_ok(a1, id, ca, repay) && vaults.repay_done(a1, a2, id, ca, repay)
    &&& op_ok(a2, give) && op_step(a2, a3, give)
    &&& collateral == 0 ==> a5 == a3 && v2 == v1
    &&& collateral != 0 ==> op_ok(a3, back) && op_step(a3, a4, back)
        && v1.withdraw_all_collateral_done(a4, a5, id, owner)
    &&& v2.close_ok(id)
}

/// A withdrawal initiated and then completed leaves the connections as they were: the
/// connection is active again with its owner and destination (the change that
/// `initiate_withdrawal` states, then the one `complete_withdrawal` states).
pub proof fn lemma_withdrawal_round_trip(m: Map<u64, Connection>, id: u64, amount: u128, now: u64)
    requires
        m.dom().contains(id),
        m[id].status == ConnectionStatus::Active,
    ensures
        ({
            let m1 = m.insert(id, Connection { status: ConnectionStatus::WithdrawalInProgress { amount, initiated_at: now }, ..m[id] });
            m1.insert(id, Connection { status: ConnectionStatus::Active, ..m1[id] }) == m
        }),
{
    let m1 = m.insert(id, Connection { status: ConnectionStatus::WithdrawalInProgress { amount, initiated_at: now }, ..m[id] });
    assert(m1.insert(id, Connection { status: ConnectionStatus::Active, ..m1[id] }) =~= m);
}

/// How opening connection `id` goes from balances `a0`, the vaults being `vaults` and the
/// router `router`: `coll` of `owner`'s native coin goes to the pallet's account `acc`
/// (`a1` after), is deposited into vault `id` (`a2`, `v1` after), the vault gets the
/// destination's fee override `fee` if there is one (`v2` after), `mint` stable coin is
/// minted against it to `acc` (`a3` after) and deposited at destination `dest` through
/// the connection's account `ca` (`a4` after).
pub open spec fn open_settled<V: VaultProvider, L: LiquidityRouter>(vaults: V, router: L, fee: Option<u128>,
    id: u64, owner: u64, acc: u64, ca: u64, dest: u64, coll: u128, mint: u128,
    a0: Assets, a1: Assets, a2: Assets, a3: Assets, a4: Assets, v1: V, v2: V) -> bool
{
    let t = BalanceOp::Transfer { currency: NATIVE, from: owner, to: acc, amount: coll };
    &&& op_ok(a0, t) && op_step(a0, a1, t)
    &&& vaults.deposit_ok(a1, id, owner, coll) && vaults.deposit_done(a1, a2, id, owner, coll)
    &&& fee is Some ==> v1.fee_set(v2, id, fee)
    &&& fee is None ==> v2 == v1
    &&& v2.mint_ok(a2, id, acc, mint) && v2.mint_done(a2, a3, id, acc, mint)
    &&& router.deposit_ok(a3, dest, ca, mint) && router.deposit_done(a3, a4, dest, ca, mint)
}

/// The account of connection `id` under `base`: `base + id`, wrapping around.
pub open spec fn sub_account(base: u64, id: u64) -> u64 {
    if base + id <= u64::MAX { (base + id) as u64 } else { (base + id - 0x1_0000_0000_0000_0000) as u64 }
}

/// The connections, the next id, the stability fee overrides per destination.
pub struct Pallet {
    pub connections: Store<Connection>,
    pub next_connection_id: u64,
    pub stability_fee_overrides: Store<u128>,
    /// The account that holds the connections' collateral and stable coin.
    pub account_id: u64,
    /// The base of the connections' own accounts: connection `id` deposits at its
    /// destination through `sub_account(connection_account, id)`.
    pub connection_account: u64,
    pub events: Vec<Event>,
}

impl Pallet {
    pub open spec fn wf(&self) -> bool {
        self.connections.wf() && self.stability_fee_overrides.wf()
    }

    pub open spec fn connections_map(&self) -> Map<u64, Connection> {
        self.connections.view_map()
    }

    /// The stability fee override of destination `destination_id`, if any.
    pub open spec fn fee_override(&self, destination_id: u64) -> Option<u128> {
        if self.stability_fee_overrides.view_map().dom().contains(destination_id) {
            Some(self.stability_fee_overrides.view_map()[destination_id])
        } else {
            None::<u128>
        }
    }

    /// No connections.
    pub fn new(account_id: u64, connection_account: u64) -> (r: Self)
        ensures
            r.wf(),
            r.connections_map() == Map::<u64, Connection>::empty(),
            r.stability_fee_overrides.view_map() == Map::<u64, u128>::empty(),
            r.next_connection_id == 0,
            r.account_id == account_id,
            r.connection_account == connection_account,
            r.events@.len() == 0,
    {
        Pallet {
            connections: Store::new(),
            next_connection_id: 0,
            stability_fee_overrides: Store::new(),
            account_id,
            connection_account,
            events: Vec::new(),
        }
    }

    /// The account through which connection `id` deposits at its destination.
    pub fn connection_account_of(&self, id: u64) -> (r: u64)
        ensures
            r == sub_account(self.connection_account, id),
    {
        let base = self.connection_account;
        if id <= u64::MAX - base { base + id } else { id - (u64::MAX - base) - 1 }
    }

    /// The account of the pallet.
    pub fn account_id(&self) -> (r: u64)
        ensures
            r == self.account_id,
    {
        self.account_id
    }

    /// The connection `id`, if any.
    pub fn connections(&self, id: u64) -> (r: Option<Connection>)
        requires
            self.wf(),
        ensures
            r == (if self.connections_map().dom().contains(id) { Some(self.connections_map()[id]) } else { None::<Connection> }),
    {
        self.connections.get(id)
    }

    /// The id the next connection gets.
    pub fn next_connection_id(&self) -> (r: u64)
        ensures
            r == self.next_connection_id,
    {
        self.next_connection_id
    }

    /// The stability fee override of `destination_id`, if any.
    pub fn stability_fee_overrides(&self, destination_id: u64) -> (r: Option<u128>)
        requires
            self.wf(),
        ensures
            r == self.fee_override(destination_id),
    {
        self.stability_fee_overrides.get(destination_id)
    }

    /// The connection `id` owned by `owner` and active: the checks shared by the
    /// owner's calls.
    pub fn owned_active(&self, id: u64, owner: u64) -> (r: Result<Connection, DispatchError>)
        requires
            self.wf(),
        ensures
            r == (if !self.connections_map().dom().contains(id) {
                Err(conn_err(Error::ConnectionNotFound))
            } else if self.connections_map()[id].owner != owner {
                Err(conn_err(Error::NotOwner))
            } else if self.connections_map()[id].status != ConnectionStatus::Active {
                Err(conn_err(Error::InvalidStatus))
            } else {
                Ok(self.connections_map()[id])
            }),
    {
        let c = match self.connections.get(id) {
            Some(c) => c,
            None => return Err(module_err(Error::ConnectionNotFound)),
        };
        if c.owner != owner {
            return Err(module_err(Error::NotOwner));
        }
        match c.status {
            ConnectionStatus::Active => Ok(c),
            _ => Err(module_err(Error::InvalidStatus)),
        }
    }
}

/// The signer of `origin`.
fn ensure_signed(origin: Origin) -> (r: Result<u64, DispatchError>)
    ensures
        r == (match origin { Origin::Signed(w) => Ok::<u64, DispatchError>(w), _ => Err(DispatchError::BadOrigin) }),
{
    match origin {
        Origin::Signed(w) => Ok(w),
        _ => Err(DispatchError::BadOrigin),
    }
}

impl Pallet {
    /// Open a connection to `destination_id`: the caller's collateral goes to the pallet
    /// and into a new vault (with the destination's fee override, if any), stable coin
    /// is minted against it and deposited at the destination.  The connection is
    /// recorded active under the next id.
    pub fn open_connection<V: VaultProvider, L: LiquidityRouter>(
        &mut self,
        origin: Origin,
        vaults: &mut V,
        router: &mut L,
        assets: &mut Assets,
        destination_id: u64,
        collateral_amount: u128,
        mint_amount: u128,
    ) -> (r: Result<(), DispatchError>)
        requires
            old(self).wf(),
            old(vaults).vault_wf(),
            old(router).router_wf(),
            old(assets).wf(),
        ensures
            final(self).wf(),
            final(vaults).vault_wf(),
            final(router).router_wf(),
            final(assets).wf(),
            !(origin is Signed) ==> r == Err::<(), DispatchError>(DispatchError::BadOrigin),
            origin is Signed && old(self).next_connection_id == u64::MAX
                ==> r == Err::<(), DispatchError>(conn_err(Error::IdOverflow)),
            origin is Signed && old(self).next_connection_id != u64::MAX ==> ({
                let owner = origin->Signed_0;
                let acc = old(self).account_id;
                let a = *old(assets);
                let t = BalanceOp::Transfer { currency: NATIVE, from: owner, to: acc, amount: collateral_amount };
                &&& a.free(NATIVE, owner) < collateral_amount
                    ==> r == Err::<(), DispatchError>(DispatchError::Token(TokenError::FundsUnavailable))
                &&& a.free(NATIVE, owner) >= collateral_amount && !op_ok(a, t)
                    ==> r == Err::<(), DispatchError>(DispatchError::Token(TokenError::Overflow))
                &&& op_ok(a, t) ==> exists|a1: Assets| #[trigger] op_step(a, a1, t)
                    && (!old(vaults).deposit_ok(a1, old(self).next_connection_id, owner, collateral_amount)
                        ==> r == Err::<(), DispatchError>(conn_err(Error::InsufficientCollateral)))
                    && (r is Ok ==> old(vaults).deposit_ok(a1, old(self).next_connection_id, owner, collateral_amount))
            }),
            r is Ok ==> exists|a1: Assets, a2: Assets, a3: Assets, v1: V, v2: V|
                #[trigger] open_settled(*old(vaults), *old(router),
                    old(self).fee_override(destination_id),
                    old(self).next_connection_id, origin->Signed_0, old(self).account_id,
                    sub_account(old(self).connection_account, old(self).next_connection_id), destination_id,
                    collateral_amount, mint_amount, *old(assets), a1, a2, a3, *final(assets), v1, v2),
            r is Err ==> final(self).connections_map() == old(self).connections_map()
                && final(self).next_connection_id == old(self).next_connection_id
                && final(self).events@ == old(self).events@,
            r is Ok ==> ({
                let id = old(self).next_connection_id;
                &&& origin is Signed
                &&& final(self).connections_map() == old(self).connections_map().insert(id,
                    Connection { owner: origin->Signed_0, destination_id, status: ConnectionStatus::Active })
                &&& final(self).next_connection_id == id + 1
                &&& final(self).events@ == old(self).events@.push(Event::ConnectionOpened {
                    connection_id: id, owner: origin->Signed_0, destination_id,
                    collateral_deposited: collateral_amount, stables_minted: mint_amount })
            }),
    {
        let owner = match ensure_signed(origin) {
            Ok(w) => w,
            Err(e) => return Err(e),
        };
        let connection_id = self.next_connection_id;
        if connection_id == u64::MAX {
            return Err(module_err(Error::IdOverflow));
        }
        let next = connection_id + 1;
        let acc = self.account_id;
        match assets.transfer(NATIVE, owner, acc, collateral_amount) {
            Ok(()) => {},
            Err(e) => return Err(DispatchError::Token(e)),
        }
        let ghost a1 = *assets;
        assert(op_step(*old(assets), a1, BalanceOp::Transfer { currency: NATIVE, from: owner, to: acc, amount: collateral_amount }));
        match vaults.deposit_collateral(assets, connection_id, owner, collateral_amount) {
            Ok(()) => {},
            Err(_) => return Err(module_err(Error::InsufficientCollateral)),
        }
        let ghost v1 = *vaults;
        let fee_override = self.stability_fee_overrides.get(destination_id);
        match fee_override {
            Some(fee) => match vaults.set_stability_fee(connection_id, Some(fee)) {
                Ok(()) => {},
                Err(e) => return Err(e),
            },
            None => {},
        }
        let ghost v2 = *vaults;
        let ghost a2 = *assets;
        match vaults.mint(assets, connection_id, acc, mint_amount) {
            Ok(()) => {},
            Err(_) => return Err(module_err(Error::MintFailed)),
        }
        let connection_account = self.connection_account_of(connection_id);
        let ghost a3 = *assets;
        match router.deposit(assets, destination_id, connection_account, mint_amount) {
            Ok(()) => {},
            Err(_) => return Err(module_err(Error::DepositFailed)),
        }
        assert(open_settled(*old(vaults), *old(router), fee_override, connection_id, owner, acc, connection_account,
            destination_id, collateral_amount, mint_amount, *old(assets), a1, a2, a3, *assets, v1, v2));
        self.connections.insert(connection_id, Connection { owner, destination_id, status: ConnectionStatus::Active });
        self.next_connection_id = next;
        self.events.push(Event::ConnectionOpened {
            connection_id,
            owner,
            destination_id,
            collateral_deposited: collateral_amount,
            stables_minted: mint_amount,
        });
        Ok(())
    }

    /// Start withdrawing `stables_amount` of an active connection's liquidity (owner
    /// only): the connection waits for that amount from `now`.
    pub fn initiate_withdrawal<L: LiquidityRouter>(
        &mut self,
        origin: Origin,
        router: &mut L,
        now: u64,
        connection_id: u64,
        stables_amount: u128,
    ) -> (r: Result<(), DispatchError>)
        requires
            old(self).wf(),
            old(router).router_wf(),
        ensures
            final(self).wf(),
            final(router).router_wf(),
            final(self).next_connection_id == old(self).next_connection_id,
            !(origin is Signed) ==> r == Err::<(), DispatchError>(DispatchError::BadOrigin),
            origin is Signed ==> ({
                let checks = old(self).spec_owned_active(connection_id, origin->Signed_0);
                &&& checks matches Err(e) ==> r == Err::<(), DispatchError>(e)
                &&& r is Ok ==> checks is Ok
                    && final(self).connections_map() == old(self).connections_map().insert(connection_id,
                        Connection { status: ConnectionStatus::WithdrawalInProgress { amount: stables_amount, initiated_at: now },
                            ..checks->Ok_0 })
                    && final(self).events@ == old(self).events@.push(Event::WithdrawalInitiated { connection_id, stables_amount })
            }),
            r is Err ==> final(self).connections_map() == old(self).connections_map() && final(self).events@ == old(self).events@,
    {
        let owner = match ensure_signed(origin) {
            Ok(w) => w,
            Err(e) => return Err(e),
        };
        let mut connection = match self.owned_active(connection_id, owner) {
            Ok(c) => c,
            Err(e) => return Err(e),
        };
        connection.status = ConnectionStatus::WithdrawalInProgress { amount: stables_amount, initiated_at: now };
        let connection_account = self.connection_account_of(connection_id);
        match router.withdraw(connection.destination_id, connection_account, stables_amount) {
            Ok(()) => {},
            Err(_) => return Err(module_err(Error::WithdrawalFailed)),
        }
        self.connections.insert(connection_id, connection);
        self.events.push(Event::WithdrawalInitiated { connection_id, stables_amount });
        Ok(())
    }

    /// The checks of `owned_active`, as a value.
    pub open spec fn spec_owned_active(&self, id: u64, owner: u64) -> Result<Connection, DispatchError> {
        if !self.connections_map().dom().contains(id) {
            Err(conn_err(Error::ConnectionNotFound))
        } else if self.connections_map()[id].owner != owner {
            Err(conn_err(Error::NotOwner))
        } else if self.connections_map()[id].status != ConnectionStatus::Active {
            Err(conn_err(Error::InvalidStatus))
        } else {
            Ok(self.connections_map()[id])
        }
    }

    /// Complete a withdrawal (the destination's account only): exactly the amount being
    /// withdrawn is repaid to the vault from the pallet's account, and the connection is
    /// active again.
    pub fn complete_withdrawal<V: VaultProvider, L: LiquidityRouter>(
        &mut self,
        origin: Origin,
        vaults: &mut V,
        router: &L,
        assets: &mut Assets,
        connection_id: u64,
        repaid_amount: u128,
    ) -> (r: Result<(), DispatchError>)
        requires
            old(self).wf(),
            old(vaults).vault_wf(),
            router.router_wf(),
            old(assets).wf(),
        ensures
            final(self).wf(),
            final(vaults).vault_wf(),
            final(assets).wf(),
            final(self).next_connection_id == old(self).next_connection_id,
            !(origin is Signed) ==> r == Err::<(), DispatchError>(DispatchError::BadOrigin),
            origin is Signed && !old(self).connections_map().dom().contains(connection_id)
                ==> r == Err::<(), DispatchError>(conn_err(Error::ConnectionNotFound)),
            origin is Signed && old(self).connections_map().dom().contains(connection_id) ==> ({
                let c = old(self).connections_map()[connection_id];
                let who = origin->Signed_0;
                let dest = router.destination_of(c.destination_id);
                let d = dest->Ok_0;
                &&& dest is Err ==> r == Err::<(), DispatchError>(conn_err(Error::DestinationNotFound))
                &&& dest is Ok && who != d ==> r == Err::<(), DispatchError>(conn_err(Error::BadOrigin))
                &&& dest is Ok && who == d && !(c.status is WithdrawalInProgress)
                    ==> r == Err::<(), DispatchError>(conn_err(Error::InvalidStatus))
                &&& dest is Ok && who == d && c.status is WithdrawalInProgress
                    ==> (c.status->amount != repaid_amount ==> r == Err::<(), DispatchError>(conn_err(Error::AmountMismatch)))
                        && (c.status->amount == repaid_amount ==>
                            (r is Ok <==> old(vaults).repay_ok(*old(assets), connection_id, old(self).account_id, repaid_amount))
                            && (r is Err ==> r == Err::<(), DispatchError>(conn_err(Error::RepayFailed))))
            }),
            r is Err ==> final(self).connections_map() == old(self).connections_map() && final(self).events@ == old(self).events@,
            r is Ok ==> ({
                let c = old(self).connections_map()[connection_id];
                &&& old(self).connections_map().dom().contains(connection_id)
                &&& c.status matches ConnectionStatus::WithdrawalInProgress { amount, .. } && amount == repaid_amount
                &&& final(self).connections_map() == old(self).connections_map().insert(connection_id,
                    Connection { status: ConnectionStatus::Active, ..c })
                &&& final(self).events@ == old(self).events@.push(Event::WithdrawalCompleted {
                    connection_id, stables_repaid: repaid_amount })
            }),
    {
        let who = match ensure_signed(origin) {
            Ok(w) => w,
            Err(e) => return Err(e),
        };
        let mut connection = match self.connections.get(connection_id) {
            Some(c) => c,
            None => return Err(module_err(Error::ConnectionNotFound)),
        };
        let destination_account = match router.get_destination_account(connection.destination_id) {
            Ok(a) => a,
            Err(_) => return Err(module_err(Error::DestinationNotFound)),
        };
        if who != destination_account {
            return Err(module_err(Error::BadOrigin));
        }
        match connection.status {
            ConnectionStatus::WithdrawalInProgress { amount, .. } => {
                if amount != repaid_amount {
                    return Err(module_err(Error::AmountMismatch));
                }
            },
            _ => return Err(module_err(Error::InvalidStatus)),
        }
        let acc = self.account_id;
        match vaults.repay(assets, connection_id, acc, repaid_amount) {
            Ok(()) => {},
            Err(_) => return Err(module_err(Error::RepayFailed)),
        }
        connection.status = ConnectionStatus::Active;
        self.connections.insert(connection_id, connection);
        self.events.push(Event::WithdrawalCompleted { connection_id, stables_repaid: repaid_amount });
        Ok(())
    }

    /// Withdraw `amount_to_withdraw` of an active connection's collateral (owner only)
    /// from the pallet's account and the vault.
    pub fn withdraw_collateral<V: VaultProvider>(
        &mut self,
        origin: Origin,
        vaults: &mut V,
        assets: &mut Assets,
        connection_id: u64,
        amount_to_withdraw: u128,
    ) -> (r: Result<(), DispatchError>)
        requires
            old(self).wf(),
            old(vaults).vault_wf(),
            old(assets).wf(),
        ensures
            final(self).wf(),
            final(vaults).vault_wf(),
            final(assets).wf(),
            final(self).connections == old(self).connections,
            final(self).next_connection_id == old(self).next_connection_id,
            !(origin is Signed) ==> r == Err::<(), DispatchError>(DispatchError::BadOrigin),
            origin is Signed ==> ({
                let checks = old(self).spec_owned_active(connection_id, origin->Signed_0);
                &&& checks matches Err(e) ==> r == Err::<(), DispatchError>(e)
                &&& checks is Ok && old(assets).free(NATIVE, old(self).account_id) < amount_to_withdraw
                    ==> r == Err::<(), DispatchError>(DispatchError::Token(TokenError::FundsUnavailable))
                &&& r is Ok ==> checks is Ok && final(self).events@ == old(self).events@.push(Event::CollateralWithdrawn {
                    connection_id, amount: amount_to_withdraw })
            }),
            r is Err ==> final(self).events@ == old(self).events@,
    {
        let owner = match ensure_signed(origin) {
            Ok(w) => w,
            Err(e) => return Err(e),
        };
        match self.owned_active(connection_id, owner) {
            Ok(_) => {},
            Err(e) => return Err(e),
        }
        let acc = self.account_id;
        match assets.transfer(NATIVE, acc, owner, amount_to_withdraw) {
            Ok(()) => {},
            Err(e) => return Err(DispatchError::Token(e)),
        }
        match vaults.withdraw_collateral(assets, connection_id, owner, amount_to_withdraw) {
            Ok(()) => {},
            Err(_) => return Err(module_err(Error::WithdrawCollateralFailed)),
        }
        self.events.push(Event::CollateralWithdrawn { connection_id, amount: amount_to_withdraw });
        Ok(())
    }

    /// Close an active connection (owner only): everything is withdrawn from the
    /// destination, the vault's debt repaid from it (as far as it goes) and the rest of
    /// the stable coin handed to the owner, the collateral returned to the owner, and the
    /// vault and the connection removed.
    pub fn close_connection<V: VaultProvider, L: LiquidityRouter>(
        &mut self,
        origin: Origin,
        vaults: &mut V,
        router: &mut L,
        assets: &mut Assets,
        connection_id: u64,
    ) -> (r: Result<(), DispatchError>)
        requires
            old(self).wf(),
            old(vaults).vault_wf(),
            old(router).router_wf(),
            old(assets).wf(),
        ensures
            final(self).wf(),
            final(vaults).vault_wf(),
            final(router).router_wf(),
            final(assets).wf(),
            final(self).next_connection_id == old(self).next_connection_id,
            !(origin is Signed) ==> r == Err::<(), DispatchError>(DispatchError::BadOrigin),
            origin is Signed ==> ({
                let checks = old(self).spec_owned_active(connection_id, origin->Signed_0);
                &&& checks matches Err(e) ==> r == Err::<(), DispatchError>(e)
                &&& checks is Ok && old(vaults).vault_position(connection_id) is Err ==> r is Err
                &&& r is Ok ==> checks is Ok
                    && old(vaults).vault_position(connection_id) is Ok
                    && final(self).connections_map() == old(self).connections_map().remove(connection_id)
                    && final(self).events@ == old(self).events@.push(Event::ConnectionClosed { connection_id })
                    && exists|a1: Assets, a2: Assets, a3: Assets, a4: Assets, v1: V, v2: V|
                        #[trigger] close_settled(*old(vaults), connection_id, old(self).account_id,
                            sub_account(old(self).connection_account, connection_id), origin->Signed_0,
                            a1, a2, a3, a4, *final(assets), v1, v2)
                        && old(router).withdraw_all_done(*old(assets), a1, checks->Ok_0.destination_id,
                            sub_account(old(self).connection_account, connection_id))
            }),
            r is Err ==> final(self).connections_map() == old(self).connections_map() && final(self).events@ == old(self).events@,
    {
        let owner = match ensure_signed(origin) {
            Ok(w) => w,
            Err(e) => return Err(e),
        };
        let connection = match self.owned_active(connection_id, owner) {
            Ok(c) => c,
            Err(e) => return Err(e),
        };
        let connection_account = self.connection_account_of(connection_id);
        match router.withdraw_all(assets, connection.destination_id, connection_account) {
            Ok(()) => {},
            Err(e) => return Err(e),
        }
        let ghost v0 = *vaults;
        let ghost a1 = *assets;
        let withdrawn_amount = assets.balance(STABLE, connection_account);
        let (collateral_amount, debt_value) = match vaults.get_position(connection_id) {
            Ok(p) => p,
            Err(_) => return Err(module_err(Error::VaultPosition)),
        };
        let (amount_to_repay, leftover_stables) = close_split(debt_value, withdrawn_amount);
        if amount_to_repay != 0 {
            match vaults.repay(assets, connection_id, connection_account, amount_to_repay) {
                Ok(()) => {},
                Err(e) => return Err(e),
            }
        }
        let ghost a2 = *assets;
        let ghost v1 = *vaults;
        if leftover_stables != 0 {
            match assets.transfer(STABLE, connection_account, owner, leftover_stables) {
                Ok(()) => {},
                Err(e) => return Err(DispatchError::Token(e)),
            }
        }
        let ghost a3 = *assets;
        let ghost mut a4 = *assets;
        proof {
            let rest = BalanceOp::Transfer { currency: STABLE, from: connection_account, to: owner, amount: leftover_stables };
            if leftover_stables == 0 {
                assert(op_ok(a2, rest));
                assert(op_step(a2, a3, rest));
            }
        }
        if collateral_amount != 0 {
            let acc = self.account_id;
            match assets.transfer(NATIVE, acc, owner, collateral_amount) {
                Ok(()) => {},
                Err(e) => return Err(DispatchError::Token(e)),
            }
            proof { a4 = *assets; }
            match vaults.withdraw_all_collateral(assets, connection_id, owner) {
                Ok(()) => {},
                Err(e) => return Err(e),
            }
        }
        let ghost v2 = *vaults;
        match vaults.close_vault(connection_id) {
            Ok(()) => {},
            Err(e) => return Err(e),
        }
        self.connections.remove(connection_id);
        self.events.push(Event::ConnectionClosed { connection_id });
        assert(close_settled(v0, connection_id, self.account_id, connection_account, owner, a1, a2, a3, a4, *assets, v1, v2));
        Ok(())
    }

    /// Set or clear the stability fee override of a destination (root only).
    pub fn set_stability_fee(&mut self, origin: Origin, destination_id: u64, override_value: Option<u128>)
        -> (r: Result<(), DispatchError>)
        requires
            old(self).wf(),
        ensures
            final(self).wf(),
            final(self).connections == old(self).connections,
            origin != Origin::Root ==> r == Err::<(), DispatchError>(DispatchError::BadOrigin)
                && final(self).stability_fee_overrides.view_map() == old(self).stability_fee_overrides.view_map()
                && final(self).events@ == old(self).events@,
            origin == Origin::Root ==> r is Ok
                && final(self).stability_fee_overrides.view_map() == (match override_value {
                    Some(v) => old(self).stability_fee_overrides.view_map().insert(destination_id, v),
                    None => old(self).stability_fee_overrides.view_map().remove(destination_id),
                })
                && final(self).events@ == old(self).events@.push(Event::StabilityFeeOverrideSet {
                    destination_id, new_value: override_value }),
    {
        if origin != Origin::Root {
            return Err(DispatchError::BadOrigin);
        }
        match override_value {
            Some(v) => self.stability_fee_overrides.insert(destination_id, v),
            None => self.stability_fee_overrides.remove(destination_id),
        }
        self.events.push(Event::StabilityFeeOverrideSet { destination_id, new_value: override_value });
        Ok(())
    }

    /// Mint `amount` of stable coin to the pallet's account and hand it to `dest`
    /// (root only).
    pub fn inject_liquidity(&mut self, origin: Origin, assets: &mut Assets, dest: u64, amount: u128)
        -> (r: Result<(), DispatchError>)
        requires
            old(assets).wf(),
        ensures
            final(assets).wf(),
            final(self).connections == old(self).connections,
            origin != Origin::Root ==> r == Err::<(), DispatchError>(DispatchError::BadOrigin),
            r is Ok <==> (origin == Origin::Root && old(assets).stable.issuance + amount <= u128::MAX
                && old(assets).free(STABLE, old(self).account_id) + amount <= u128::MAX
                && (dest == old(self).account_id || old(assets).free(STABLE, dest) + amount <= u128::MAX)),
            r is Err ==> *final(assets) == *old(assets) && final(self).events@ == old(self).events@,
            r is Ok ==> final(self).events@ == old(self).events@.push(Event::LiquidityInjected { destination: dest, amount })
                && (dest != old(self).account_id ==>
                    final(assets).free(STABLE, dest) == old(assets).free(STABLE, dest) + amount
                    && final(assets).free(STABLE, old(self).account_id) == old(assets).free(STABLE, old(self).account_id)),
    {
        if origin != Origin::Root {
            return Err(DispatchError::BadOrigin);
        }
        let acc = self.account_id;
        if dest != acc && assets.balance(STABLE, dest).checked_add(amount).is_none() {
            return Err(DispatchError::Token(TokenError::Overflow));
        }
        match assets.mint_into(STABLE, acc, amount) {
            Ok(()) => {},
            Err(e) => return Err(DispatchError::Token(e)),
        }
        let t = assets.transfer(STABLE, acc, dest, amount);
        assert(t is Ok);
        self.events.push(Event::LiquidityInjected { destination: dest, amount });
        Ok(())
    }
}

} // verus!
