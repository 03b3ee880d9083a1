//! Shared types of the protocol: dispatch errors, origins, and the interfaces
//! through which the pallets use each other.

use crate::adjustment::ArithmeticError;
use crate::assets::{Assets, CurrencyId, TokenError, NATIVE};
use crate::auction;
use crate::cdp_treasury;
use crate::fixed::{fixed_checked_div, spec_fixed_div, spec_sat_add};
use vstd::prelude::*;

verus! {

/// Why a dispatched operation failed.
#[derive(Clone, Copy, Debug, PartialEq, Eq, Structural)]
pub enum DispatchError {
    /// The origin may not do this.
    BadOrigin,
    /// A balance operation failed.
    Token(TokenError),
    /// An arithmetic bound was crossed.
    Arithmetic(ArithmeticError),
    /// An error of the generic auction.
    Auction(auction::Error),
    /// A module error, by the module's name and the error's index in its `Error` enum.
    Module(ModuleError),
    /// Some other failure.
    Other,
}

/// The module that raised an error and the error.
#[derive(Clone, Copy, Debug, PartialEq, Eq, Structural)]
pub enum ModuleError {
    AuctionManager(crate::auction_manager::Error),
    CdpTreasury(crate::cdp_treasury::Error),
    Loans(crate::loans::Error),
    CdpEngine(crate::cdp_engine::Error),
    IssuanceBuffer(crate::issuance_buffer::Error),
    EmergencyShutdown(crate::emergency_shutdown::Error),
    Honzon(crate::honzon::Error),
    Connections(crate::connections::Error),
    Savings(crate::savings::Error),
}

/// Who dispatches a call.
#[derive(Clone, Copy, Debug, PartialEq, Eq, Structural)]
pub enum Origin {
    Root,
    Signed(u64),
    Unsigned,
}

/// The members allowed to update parameters: the single account `1`.
#[derive(Clone, Copy, Debug, PartialEq, Eq)]
pub struct OneMember;

impl OneMember {
    /// The sorted members.
    pub fn sorted_members() -> (r: Vec<u64>)
        ensures
            r@ == seq![1u64],
    {
        let mut v: Vec<u64> = Vec::new();
        v.push(1);
        v
    }
}

/// Root, or an account signed by the single member `1`.
pub open spec fn is_update_origin(o: Origin) -> bool {
    o == Origin::Root || o == Origin::Signed(1)
}

/// Ensure that `o` is root or a member of `OneMember`.
pub fn ensure_update_origin(o: Origin) -> (r: Result<(), DispatchError>)
    ensures
        r is Ok <==> is_update_origin(o),
        r is Err ==> r == Err::<(), DispatchError>(DispatchError::BadOrigin),
{
    match o {
        Origin::Root => Ok(()),
        Origin::Signed(w) => {
            let members = OneMember::sorted_members();
            if members[0] == w {
                Ok(())
            } else {
                Err(DispatchError::BadOrigin)
            }
        },
        Origin::Unsigned => Err(DispatchError::BadOrigin),
    }
}

/// Values debit and checks positions and the debit cap.
pub trait RiskManager {
    /// The value of `debit` units of debit of `currency`.
    spec fn debit_value(&self, currency: CurrencyId, debit: u128) -> u128;

    /// Whether a position passes the risk check.
    spec fn position_valid(&self, currency: CurrencyId, collateral: u128, debit: u128, check_required_ratio: bool) -> bool;

    /// Whether the total debit is within the cap.
    spec fn debit_cap_ok(&self, currency: CurrencyId, total_debit: u128) -> bool;

    /// The value of `debit_balance` units of debit.
    fn get_debit_value(&self, currency: CurrencyId, debit_balance: u128) -> (r: u128)
        ensures
            r == self.debit_value(currency, debit_balance),
    ;

    /// Check a position.
    fn check_position_valid(&self, currency: CurrencyId, collateral: u128, debit: u128, check_required_ratio: bool) -> (r: Result<(), DispatchError>)
        ensures
            r is Ok <==> self.position_valid(currency, collateral, debit, check_required_ratio),
    ;

    /// Check the total debit against the cap.
    fn check_debit_cap(&self, currency: CurrencyId, total_debit: u128) -> (r: Result<(), DispatchError>)
        ensures
            r is Ok <==> self.debit_cap_ok(currency, total_debit),
    ;
}

/// A risk manager that values debit one for one and accepts every position.
#[derive(Clone, Copy, Debug, PartialEq, Eq)]
pub struct MockRiskManager;

impl RiskManager for MockRiskManager {
    open spec fn debit_value(&self, currency: CurrencyId, debit: u128) -> u128 {
        debit
    }

    open spec fn position_valid(&self, currency: CurrencyId, collateral: u128, debit: u128, check_required_ratio: bool) -> bool {
        true
    }

    open spec fn debit_cap_ok(&self, currency: CurrencyId, total_debit: u128) -> bool {
        true
    }

    fn get_debit_value(&self, currency: CurrencyId, debit_balance: u128) -> (r: u128) {
        debit_balance
    }

    fn check_position_valid(&self, currency: CurrencyId, collateral: u128, debit: u128, check_required_ratio: bool) -> (r: Result<(), DispatchError>) {
        Ok(())
    }

    fn check_debit_cap(&self, currency: CurrencyId, total_debit: u128) -> (r: Result<(), DispatchError>) {
        Ok(())
    }
}

/// Manages collateral auctions; used by the CDP treasury to sell collateral.
pub trait AuctionManager {
    /// The manager's own invariant.
    spec fn manager_wf(&self) -> bool;

    /// Whether the manager starts every auction it is asked for.
    spec fn accepts_all(&self) -> bool;

    /// Whether starting an auction leaves every balance as it was (the manager keeps
    /// the collateral where it is).
    spec fn moves_nothing(&self) -> bool;

    /// The auctions the manager started, in order: refund recipient, currency, amount
    /// of collateral and target.
    spec fn started(&self) -> Seq<(u64, CurrencyId, u128, u128)>;

    /// Start an auction selling `amount` of collateral `currency` for `target` stable coin,
    /// the rest refunded to `refund_recipient`.
    fn new_collateral_auction(
        &mut self,
        auctions: &mut auction::Pallet,
        assets: &mut Assets,
        treasury_account: u64,
        now: u64,
        refund_recipient: u64,
        currency: CurrencyId,
        amount: u128,
        target: u128,
    ) -> (r: Result<(), DispatchError>)
        requires
            old(self).manager_wf(),
            old(auctions).wf(),
            old(assets).wf(),
        ensures
            final(self).manager_wf(),
            final(auctions).wf(),
            final(assets).wf(),
            old(self).accepts_all() ==> r is Ok && final(self).accepts_all(),
            r is Ok ==> final(self).started() == old(self).started().push((refund_recipient, currency, amount, target)),
            r is Err ==> final(self).started() == old(self).started(),
            r is Ok && currency == NATIVE ==> final(self).collateral_in_auction(NATIVE)
                == spec_sat_add(old(self).collateral_in_auction(NATIVE), amount),
            r is Err ==> final(self).collateral_in_auction(NATIVE) == old(self).collateral_in_auction(NATIVE),
            r matches Err(e) ==> !(e matches DispatchError::Module(ModuleError::CdpTreasury(_))),
            r is Err ==> *final(assets) == *old(assets),
            old(self).moves_nothing() ==> final(self).moves_nothing() && *final(assets) == *old(assets),
    ;

    /// The collateral of `currency` in auctions.
    spec fn collateral_in_auction(&self, currency: CurrencyId) -> u128;

    /// The collateral of `currency` in auctions.
    fn get_total_collateral_in_auction(&self, currency: CurrencyId) -> (r: u128)
        ensures
            r == self.collateral_in_auction(currency),
    ;
}

/// A mock auction manager that counts the auctions and the collateral it is given.
pub struct MockAuctionManager {
    pub total_collateral_auction: u32,
    pub total_collateral_in_auction: u128,
    /// The auctions it was asked to start.
    pub started_auctions: Ghost<Seq<(u64, CurrencyId, u128, u128)>>,
}

/// `n`, saturated to `u32`.
pub open spec fn sat_count(n: nat) -> u32 {
    if n >= u32::MAX { u32::MAX } else { n as u32 }
}

impl MockAuctionManager {
    /// No auction yet.
    pub fn new() -> (r: Self)
        ensures
            r.total_collateral_auction == 0,
            r.total_collateral_in_auction == 0,
            r.started_auctions@.len() == 0,
            r.manager_wf(),
    {
        MockAuctionManager { total_collateral_auction: 0, total_collateral_in_auction: 0, started_auctions: Ghost(Seq::empty()) }
    }
}

impl AuctionManager for MockAuctionManager {
    /// The counter counts the auctions started (saturating).
    open spec fn manager_wf(&self) -> bool {
        self.total_collateral_auction == sat_count(self.started_auctions@.len())
    }

    open spec fn started(&self) -> Seq<(u64, CurrencyId, u128, u128)> {
        self.started_auctions@
    }

    open spec fn moves_nothing(&self) -> bool {
        true
    }

    open spec fn accepts_all(&self) -> bool {
        true
    }

    open spec fn collateral_in_auction(&self, currency: CurrencyId) -> u128 {
        self.total_collateral_in_auction
    }

    fn new_collateral_auction(
        &mut self,
        auctions: &mut auction::Pallet,
        assets: &mut Assets,
        treasury_account: u64,
        now: u64,
        refund_recipient: u64,
        currency: CurrencyId,
        amount: u128,
        target: u128,
    ) -> (r: Result<(), DispatchError>)
        ensures
            r == Ok::<(), DispatchError>(()),
            final(self).total_collateral_auction == (if old(self).total_collateral_auction == u32::MAX { u32::MAX }
                else { (old(self).total_collateral_auction + 1) as u32 }),
            final(self).total_collateral_in_auction == (if old(self).total_collateral_in_auction + amount > u128::MAX { u128::MAX }
                else { (old(self).total_collateral_in_auction + amount) as u128 }),
            *final(auctions) == *old(auctions),
            *final(assets) == *old(assets),
    {
        self.total_collateral_auction = self.total_collateral_auction.saturating_add(1);
        self.total_collateral_in_auction = self.total_collateral_in_auction.saturating_add(amount);
        self.started_auctions = Ghost(self.started_auctions@.push((refund_recipient, currency, amount, target)));
        Ok(())
    }

    fn get_total_collateral_in_auction(&self, currency: CurrencyId) -> (r: u128) {
        self.total_collateral_in_auction
    }
}

/// The number of auctions the mock manager was asked to start.
pub fn total_collateral_auction(m: &MockAuctionManager) -> (r: u32)
    ensures
        r == m.total_collateral_auction,
{
    m.total_collateral_auction
}

/// The collateral the mock manager was given.
pub fn total_collateral_in_auction(m: &MockAuctionManager) -> (r: u128)
    ensures
        r == m.total_collateral_in_auction,
{
    m.total_collateral_in_auction
}


/// Told of every change of a loan, before the position changes: the account, the signed
/// collateral adjustment and the collateral before it (the shares of loan incentives,
/// say).  A refusal stops the change.
pub trait LoanUpdateHandler {
    /// Whether the handler accepts every change.
    spec fn accepts_all(&self) -> bool;

    /// What the handler answers to the change of `who`'s collateral `collateral` by
    /// `collateral_adjustment`.
    spec fn handle_result(&self, who: u64, collateral_adjustment: i128, collateral: u128) -> Result<(), DispatchError>;

    /// Handle the change of `who`'s collateral `collateral` by `collateral_adjustment`.
    fn handle(&mut self, who: u64, collateral_adjustment: i128, collateral: u128) -> (r: Result<(), DispatchError>)
        ensures
            r == old(self).handle_result(who, collateral_adjustment, collateral),
            old(self).accepts_all() ==> r is Ok && final(self).accepts_all(),
    ;
}

/// A handler that accepts every change of a loan and keeps nothing.
#[derive(Clone, Copy, Debug, PartialEq, Eq, Structural)]
pub struct AcceptLoanUpdates;

impl LoanUpdateHandler for AcceptLoanUpdates {
    open spec fn accepts_all(&self) -> bool {
        true
    }

    open spec fn handle_result(&self, who: u64, collateral_adjustment: i128, collateral: u128) -> Result<(), DispatchError> {
        Ok(())
    }

    fn handle(&mut self, who: u64, collateral_adjustment: i128, collateral: u128) -> (r: Result<(), DispatchError>) {
        Ok(())
    }
}

/// What liquidating collateral through several strategies in turn answers, given what
/// each would answer in order: success as soon as one succeeds; otherwise the last
/// strategy's error, and `Other` when there is no strategy at all.
pub open spec fn spec_liquidate_in_turn(outcomes: Seq<Result<(), DispatchError>>) -> Result<(), DispatchError>
    decreases outcomes.len(),
{
    if outcomes.len() == 0 {
        Err(DispatchError::Other)
    } else if outcomes[0] is Ok || outcomes.len() == 1 {
        outcomes[0]
    } else {
        spec_liquidate_in_turn(outcomes.drop_first())
    }
}

/// Liquidate through the strategies in order, `outcomes` being what each answers: the
/// first success ends it, otherwise the last error is returned (`Other` for none).
pub fn liquidate_in_turn(outcomes: &Vec<Result<(), DispatchError>>) -> (r: Result<(), DispatchError>)
    ensures
        r == spec_liquidate_in_turn(outcomes@),
        r is Ok <==> exists|i: int| 0 <= i < outcomes@.len() && #[trigger] outcomes@[i] is Ok,
        r is Err && outcomes@.len() > 0 ==> r == outcomes@.last(),
        outcomes@.len() == 0 ==> r == Err::<(), DispatchError>(DispatchError::Other),
{
    let mut last: Result<(), DispatchError> = Err(DispatchError::Other);
    let mut i: usize = 0;
    assert(outcomes@.skip(0) =~= outcomes@);
    while i < outcomes.len()
        invariant
            i <= outcomes@.len(),
            forall|j: int| 0 <= j < i ==> #[trigger] outcomes@[j] is Err,
            i == 0 ==> last == Err::<(), DispatchError>(DispatchError::Other),
            i > 0 ==> last == outcomes@[i - 1],
            i < outcomes@.len() ==> spec_liquidate_in_turn(outcomes@) == spec_liquidate_in_turn(outcomes@.skip(i as int)),
            i == outcomes@.len() && i > 0 ==> spec_liquidate_in_turn(outcomes@) == last,
        decreases outcomes@.len() - i,
    {
        let o = outcomes[i];
        proof {
            let t = outcomes@.skip(i as int);
            assert(t[0] == o);
            assert(t.drop_first() =~= outcomes@.skip(i + 1));
        }
        match o {
            Ok(()) => {
                proof {
                    let t = outcomes@.skip(i as int);
                    assert(spec_liquidate_in_turn(t) == t[0]);
                }
                return o;
            },
            Err(_) => {},
        }
        last = o;
        i = i + 1;
    }
    last
}

/// Buys collateral offered in a liquidation.
pub trait LiquidationTarget {
    /// The liquidator's own invariant.
    spec fn liquidator_wf(&self) -> bool;

    /// Whether the liquidator buys nothing: every offer is answered `(0, 0)` and
    /// nothing moves.
    spec fn takes_nothing(&self) -> bool;

    /// Offer `collateral_to_sell` of `collateral_currency`, free on `who`, to cover
    /// `debit_to_cover`; the result is the collateral taken and the debit covered.
    /// A refusal changes no balance and no system debit.  A liquidation takes at most
    /// the collateral it reports from `who`, pays at most that much into the treasury
    /// account and adds at most the debit it reports to the system debit.
    fn liquidate(
        &mut self,
        assets: &mut Assets,
        treasury: &mut cdp_treasury::Pallet,
        who: u64,
        collateral_currency: CurrencyId,
        collateral_to_sell: u128,
        debit_to_cover: u128,
    ) -> (r: Result<(u128, u128), DispatchError>)
        requires
            old(self).liquidator_wf(),
            old(assets).wf(),
        ensures
            final(self).liquidator_wf(),
            final(assets).wf(),
            final(treasury).account_id == old(treasury).account_id,
            final(treasury).events@ == old(treasury).events@,
            r is Err ==> final(assets).same(*old(assets)) && final(treasury).debit_pool == old(treasury).debit_pool,
            old(self).takes_nothing() ==> r == Ok::<(u128, u128), DispatchError>((0, 0)) && *final(assets) == *old(assets)
                && *final(treasury) == *old(treasury) && final(self).takes_nothing(),
            r matches Ok((c, d)) ==> {
                &&& final(assets).free(collateral_currency, who) + c >= old(assets).free(collateral_currency, who)
                &&& final(assets).free(collateral_currency, old(treasury).account_id)
                    <= old(assets).free(collateral_currency, old(treasury).account_id) + c
                &&& final(treasury).debit_pool <= old(treasury).debit_pool + d
                &&& forall|w: u64| final(assets).held(collateral_currency, w) == old(assets).held(collateral_currency, w)
            },
    ;
}

/// A liquidation strategy that buys nothing: all collateral and debit are left over.
#[derive(Clone, Copy, Debug, PartialEq, Eq, Structural)]
pub struct MockLiquidationStrategy;

impl LiquidationTarget for MockLiquidationStrategy {
    open spec fn liquidator_wf(&self) -> bool {
        true
    }

    open spec fn takes_nothing(&self) -> bool {
        true
    }

    fn liquidate(
        &mut self,
        assets: &mut Assets,
        treasury: &mut cdp_treasury::Pallet,
        who: u64,
        collateral_currency: CurrencyId,
        collateral_to_sell: u128,
        debit_to_cover: u128,
    ) -> (r: Result<(u128, u128), DispatchError>)
        ensures
            r == Ok::<(u128, u128), DispatchError>((0, 0)),
            *final(assets) == *old(assets),
            *final(treasury) == *old(treasury),
    {
        Ok((0, 0))
    }
}


/// The relative price of a currency priced `base` in one priced `quote`: their
/// quotient, when both exist and it is defined.
pub open spec fn relative_price(base: Option<u128>, quote: Option<u128>) -> Option<u128> {
    match (base, quote) {
        (Some(b), Some(q)) => spec_fixed_div(b, q),
        _ => None,
    }
}

/// Prices of currencies (fixed-point).
pub trait PriceProvider {
    /// The price of `currency`, if known.
    spec fn price(&self, currency: CurrencyId) -> Option<u128>;

    /// The price of `currency_id`, if known.
    fn get_price(&self, currency_id: CurrencyId) -> (r: Option<u128>)
        ensures
            r == self.price(currency_id),
    ;

    /// The price of `base` in `quote`.
    fn get_relative_price(&self, base: CurrencyId, quote: CurrencyId) -> (r: Option<u128>)
        ensures
            r == relative_price(self.price(base), self.price(quote)),
    {
        match (self.get_price(base), self.get_price(quote)) {
            (Some(b), Some(q)) => fixed_checked_div(b, q),
            _ => None,
        }
    }
}

/// A price source that prices every currency at the smallest fixed-point step times a hundred.
#[derive(Clone, Copy, Debug, PartialEq, Eq, Structural)]
pub struct MockPriceProvider;

impl PriceProvider for MockPriceProvider {
    open spec fn price(&self, currency: CurrencyId) -> Option<u128> {
        Some(100u128)
    }

    fn get_price(&self, currency_id: CurrencyId) -> (r: Option<u128>) {
        Some(100)
    }
}

} // verus!
