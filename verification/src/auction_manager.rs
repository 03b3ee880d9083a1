//! Collateral auctions: sell collateral for stable coin to cover a target, first
//! forward (price rises, all collateral sold) then, once the bids cover the target,
//! in reverse (less collateral for the target).

use crate::assets::{op_ok, op_step, Assets, BalanceOp, CurrencyId, NATIVE, STABLE};
use crate::auction::{self, AuctionHandler, Change, OnNewBidResult};
use crate::fixed::{
    fixed_checked_from_rational, fixed_from_rational, fixed_saturating_add, fixed_saturating_mul,
    fixed_saturating_mul_int, spec_fixed_mul, spec_from_rational, spec_from_rational_nearest, spec_mul_int,
    spec_sat_add, spec_sat_sub, FIXED_ONE,
};
use crate::store::{has_key, lemma_entry_value, lemma_sum_bound, lemma_sum_push, lemma_sum_remove, lemma_sum_update, sum_values, Store};
use crate::traits::{AuctionManager, DispatchError, ModuleError};
use vstd::prelude::*;

verus! {

/// The largest bid amount whose whole value as a fixed-point price fits (`u128::MAX / 10^18`).
pub const MAX_WHOLE_PRICE_BID: u128 = 340_282_366_920_938_463u128;

/// A collateral auction.
#[derive(Clone, Copy, Debug, PartialEq, Eq, Structural)]
pub struct CollateralAuctionItem {
    /// Receives the collateral that is not sold.
    pub refund_recipient: u64,
    /// The collateral put up for sale.
    pub initial_amount: u128,
    /// The collateral currently to be sold.
    pub amount: u128,
    /// The stable coin to raise; zero means the auction is always forward.
    pub target: u128,
    /// The block the auction started.
    pub start_time: u64,
}

/// The price at which the bids reach the target: `target / initial_amount`, zero if
/// that is not representable.
pub open spec fn spec_target_price(item: CollateralAuctionItem) -> u128 {
    match spec_from_rational(item.target, item.initial_amount) {
        Some(p) => p,
        None => 0,
    }
}

/// The price per unit of collateral of a bid of `amount` (0 if not representable).
pub open spec fn spec_unit_price(item: CollateralAuctionItem, amount: u128) -> u128 {
    match spec_from_rational(amount, item.initial_amount) {
        Some(p) => p,
        None => 0,
    }
}

/// Whether a bid at `bid_price` puts the auction in its reverse stage.
pub open spec fn spec_in_reverse_stage(item: CollateralAuctionItem, bid_price: u128) -> bool {
    item.target != 0 && bid_price >= spec_target_price(item)
}

/// The stable coin paid for a bid at `bid_price`.
pub open spec fn spec_payment_amount(item: CollateralAuctionItem, bid_price: u128) -> u128 {
    if spec_in_reverse_stage(item, bid_price) {
        item.target
    } else {
        spec_mul_int(bid_price, item.amount)
    }
}

/// The price of a bid of `amount`: the whole amount for an always-forward auction,
/// otherwise per unit of the initial collateral.
pub open spec fn spec_bid_price(item: CollateralAuctionItem, amount: u128) -> u128 {
    if item.target == 0 {
        (amount * FIXED_ONE) as u128
    } else {
        spec_unit_price(item, amount)
    }
}

impl CollateralAuctionItem {
    /// No target means the auction is always forward.
    pub fn always_forward(&self) -> (r: bool)
        ensures
            r == (self.target == 0),
    {
        self.target == 0
    }

    /// Whether a bid at `bid_price` (per unit of collateral) is in the reverse stage.
    pub fn in_reverse_stage(&self, bid_price: u128) -> (r: bool)
        ensures
            r == spec_in_reverse_stage(*self, bid_price),
    {
        if self.always_forward() {
            return false;
        }
        let target_price = match fixed_checked_from_rational(self.target, self.initial_amount) {
            Some(p) => p,
            None => 0,
        };
        bid_price >= target_price
    }

    /// The stable coin to pay for a bid at `bid_price`.
    pub fn payment_amount(&self, bid_price: u128) -> (r: u128)
        ensures
            r == spec_payment_amount(*self, bid_price),
    {
        if self.always_forward() {
            fixed_saturating_mul_int(bid_price, self.amount)
        } else if self.in_reverse_stage(bid_price) {
            self.target
        } else {
            fixed_saturating_mul_int(bid_price, self.amount)
        }
    }
}

/// Errors of the auction manager.
#[derive(Clone, Copy, Debug, PartialEq, Eq, Structural)]
pub enum Error {
    AuctionNotExists,
    InReverseStage,
    MustAfterShutdown,
    InvalidBidPrice,
    InvalidAmount,
    InvalidCurrencyId,
}

/// Events of the auction manager.
#[derive(Clone, Copy, Debug, PartialEq, Eq, Structural)]
pub enum Event {
    NewCollateralAuction { auction_id: u64, collateral_type: CurrencyId, collateral_amount: u128, target_bid_price: u128 },
    CancelAuction { auction_id: u64 },
    CollateralAuctionDealt { auction_id: u64, collateral_type: CurrencyId, collateral_amount: u128, winner: u64, payment_amount: u128 },
    CollateralAuctionAborted { auction_id: u64, collateral_type: CurrencyId, collateral_amount: u128, target_stable_amount: u128, refund_recipient: u64 },
}

/// The constants of the auction manager.
#[derive(Clone, Copy, Debug, PartialEq, Eq, Structural)]
pub struct Config {
    /// The smallest rise of the unit price of a forward bid (fixed-point).
    pub minimum_increment_size: u128,
    /// Blocks from a bid to the end of the auction.
    pub auction_time_to_close: u64,
    /// After this many blocks the time to close is halved.
    pub auction_duration_soft_cap: u64,
}

/// The collateral auctions and their totals.
pub struct Pallet {
    pub collateral_auctions: Store<CollateralAuctionItem>,
    pub total_collateral_in_auction: u128,
    pub total_target_in_auction: u128,
    pub config: Config,
    pub events: Vec<Event>,
    /// The auctions started, in order: refund recipient, currency, amount and target.
    pub started_auctions: Ghost<Seq<(u64, CurrencyId, u128, u128)>>,
}

/// The error of the auction manager as a dispatch error.
pub open spec fn err(e: Error) -> DispatchError {
    DispatchError::Module(ModuleError::AuctionManager(e))
}

fn module_err(e: Error) -> (r: DispatchError)
    ensures
        r == err(e),
{
    DispatchError::Module(ModuleError::AuctionManager(e))
}

/// The time to close of an auction started at `start`, at block `now`.
pub open spec fn spec_time_to_close(config: Config, start: u64, now: u64) -> u64 {
    if now >= start + config.auction_duration_soft_cap {
        (config.auction_time_to_close / 2) as u64
    } else {
        config.auction_time_to_close
    }
}

/// The smallest unit price that a bid over `last_bid` must offer (a forward auction).
pub open spec fn spec_min_price(config: Config, item: CollateralAuctionItem, last_bid: Option<(u64, u128)>) -> u128 {
    match last_bid {
        Some(lb) => {
            let lp = spec_unit_price(item, lb.1);
            if spec_in_reverse_stage(item, lp) { lp } else { spec_sat_add(lp, config.minimum_increment_size) }
        },
        None => spec_fixed_mul(spec_target_price(item), (FIXED_ONE / 2) as u128),
    }
}

/// Whether a new bid of `amount` over `last_bid` offers enough.
pub open spec fn spec_bid_price_acceptable(config: Config, item: CollateralAuctionItem, amount: u128, last_bid: Option<(u64, u128)>) -> bool {
    item.target == 0 || spec_bid_price(item, amount) >= spec_min_price(config, item, last_bid)
}

/// The collateral sold when a bid of `amount` reaches the reverse stage.
pub open spec fn spec_reverse_amount(item: CollateralAuctionItem, amount: u128) -> u128 {
    let ratio = match spec_from_rational(item.target, amount) {
        Some(p) => p,
        None => 0,
    };
    spec_mul_int(ratio, item.initial_amount)
}

/// The balance operations of accepting a bid of `new_bid` over `last_bid` on `item`:
/// the payment is put on hold and minted to the treasury as surplus; the last bidder's
/// payment (at the unit price of its bid) is released and burnt from the treasury.
pub open spec fn spec_bid_ops(item: CollateralAuctionItem, treasury_account: u64, new_bid: (u64, u128),
    last_bid: Option<(u64, u128)>) -> (BalanceOp, BalanceOp, BalanceOp, BalanceOp)
{
    let after = spec_item_after_bid(item, new_bid.1);
    let payment = spec_payment_amount(item, spec_bid_price(item, new_bid.1));
    let hold = BalanceOp::Hold { currency: STABLE, who: new_bid.0, amount: payment };
    let mint = BalanceOp::Mint { currency: STABLE, who: treasury_account, amount: payment };
    match last_bid {
        Some(l) => {
            let last_payment = spec_payment_amount(after, spec_unit_price(after, l.1));
            (hold, mint, BalanceOp::Release { currency: STABLE, who: l.0, amount: last_payment },
                BalanceOp::Burn { currency: STABLE, who: treasury_account, amount: last_payment })
        },
        None => (hold, mint, BalanceOp::Nothing, BalanceOp::Nothing),
    }
}

/// The balance operations of settling `item` with `winner`: with a winner, its payment
/// is released, it gets the collateral sold and the refund recipient the rest; without,
/// the refund recipient gets all the collateral back.
pub open spec fn spec_settle_ops(item: CollateralAuctionItem, treasury_account: u64, winner: Option<(u64, u128)>)
    -> (BalanceOp, BalanceOp, BalanceOp)
{
    match winner {
        Some(w) => (
            BalanceOp::Release { currency: STABLE, who: w.0, amount: spec_payment_amount(item, spec_bid_price(item, w.1)) },
            BalanceOp::Transfer { currency: NATIVE, from: treasury_account, to: w.0, amount: item.amount },
            if item.initial_amount > item.amount {
                BalanceOp::Transfer { currency: NATIVE, from: treasury_account, to: item.refund_recipient,
                    amount: (item.initial_amount - item.amount) as u128 }
            } else {
                BalanceOp::Nothing
            },
        ),
        None => (
            BalanceOp::Transfer { currency: NATIVE, from: treasury_account, to: item.refund_recipient, amount: item.initial_amount },
            BalanceOp::Nothing,
            BalanceOp::Nothing,
        ),
    }
}

/// `b` is what three operations make of `a`, one after the other.
pub open spec fn steps3(a: Assets, b: Assets, ops: (BalanceOp, BalanceOp, BalanceOp)) -> bool {
    exists|a1: Assets, a2: Assets| op_step(a, a1, ops.0) && #[trigger] op_step(a1, a2, ops.1) && op_step(a2, b, ops.2)
}

/// Settling an auction with a winner: the whole initial collateral leaves the treasury
/// account, the winner gets the amount sold and the refund recipient the rest, and the
/// winner's payment on hold is released to it (when the treasury holds the collateral,
/// the three accounts differ and the balances can take what they get).
pub proof fn lemma_settle_returns_unsold_collateral(item: CollateralAuctionItem, treasury_account: u64,
    winner: (u64, u128), a: Assets, b: Assets)
    requires
        steps3(a, b, spec_settle_ops(item, treasury_account, Some(winner))),
        item.amount <= item.initial_amount,
        a.free(NATIVE, treasury_account) >= item.initial_amount,
        treasury_account != winner.0,
        treasury_account != item.refund_recipient,
        winner.0 != item.refund_recipient,
        a.free(NATIVE, winner.0) + item.amount <= u128::MAX,
        a.free(NATIVE, item.refund_recipient) + item.initial_amount - item.amount <= u128::MAX,
    ensures
        b.free(NATIVE, treasury_account) == a.free(NATIVE, treasury_account) - item.initial_amount,
        b.free(NATIVE, winner.0) == a.free(NATIVE, winner.0) + item.amount,
        b.free(NATIVE, item.refund_recipient) == a.free(NATIVE, item.refund_recipient) + (item.initial_amount - item.amount),
        ({
            let payment = spec_payment_amount(item, spec_bid_price(item, winner.1));
            a.held(STABLE, winner.0) >= payment && a.free(STABLE, winner.0) + payment <= u128::MAX
                ==> b.free(STABLE, winner.0) == a.free(STABLE, winner.0) + payment
                    && b.held(STABLE, winner.0) == a.held(STABLE, winner.0) - payment
        }),
{
    let ops = spec_settle_ops(item, treasury_account, Some(winner));
    let (a1, a2) = choose|a1: Assets, a2: Assets| op_step(a, a1, ops.0) && #[trigger] op_step(a1, a2, ops.1) && op_step(a2, b, ops.2);
    assert(a1.native == a.native);
    assert(a1.free(NATIVE, treasury_account) == a.free(NATIVE, treasury_account));
    assert(a1.free(NATIVE, winner.0) == a.free(NATIVE, winner.0));
    assert(a1.free(NATIVE, item.refund_recipient) == a.free(NATIVE, item.refund_recipient));
    assert(op_ok(a1, ops.1));
    assert(a2.free(NATIVE, treasury_account) == a.free(NATIVE, treasury_account) - item.amount);
    assert(a2.free(NATIVE, winner.0) == a.free(NATIVE, winner.0) + item.amount);
    assert(a2.free(NATIVE, item.refund_recipient) == a.free(NATIVE, item.refund_recipient));
    assert(a2.stable == a1.stable && b.stable == a2.stable);
    if item.amount < item.initial_amount {
        assert(op_ok(a2, ops.2));
    }
    let payment = spec_payment_amount(item, spec_bid_price(item, winner.1));
    if a.held(STABLE, winner.0) >= payment && a.free(STABLE, winner.0) + payment <= u128::MAX {
        assert(op_ok(a, ops.0));
        assert(a1.free(STABLE, winner.0) == a.free(STABLE, winner.0) + payment);
        assert(a1.held(STABLE, winner.0) == a.held(STABLE, winner.0) - payment);
    }
}

/// Settling an auction without a winner: the whole initial collateral goes from the
/// treasury account back to the refund recipient (when the treasury holds it and the
/// recipient, another account, can take it).
pub proof fn lemma_settle_without_winner_refunds_all(item: CollateralAuctionItem, treasury_account: u64,
    a: Assets, b: Assets)
    requires
        steps3(a, b, spec_settle_ops(item, treasury_account, None)),
        a.free(NATIVE, treasury_account) >= item.initial_amount,
        treasury_account != item.refund_recipient,
        a.free(NATIVE, item.refund_recipient) + item.initial_amount <= u128::MAX,
    ensures
        b.free(NATIVE, treasury_account) == a.free(NATIVE, treasury_account) - item.initial_amount,
        b.free(NATIVE, item.refund_recipient) == a.free(NATIVE, item.refund_recipient) + item.initial_amount,
{
    let ops = spec_settle_ops(item, treasury_account, None);
    let (a1, a2) = choose|a1: Assets, a2: Assets| op_step(a, a1, ops.0) && #[trigger] op_step(a1, a2, ops.1) && op_step(a2, b, ops.2);
    assert(op_ok(a, ops.0));
}

/// `b` is what four operations make of `a`, one after the other.
pub open spec fn steps4(a: Assets, b: Assets, ops: (BalanceOp, BalanceOp, BalanceOp, BalanceOp)) -> bool {
    exists|a1: Assets, a2: Assets, a3: Assets|
        op_step(a, a1, ops.0) && #[trigger] op_step(a1, a2, ops.1) && #[trigger] op_step(a2, a3, ops.2) && op_step(a3, b, ops.3)
}

/// The manager's answer to bid `new_bid` over `last_bid` on auction `id` at `now`, the
/// balances being `a`: accepted when the auction exists, the price is acceptable and
/// the bidder can put the payment on hold; the end then moves to the time to close.
pub open spec fn spec_on_new_bid(m: Pallet, a: Assets, now: u64, id: u64, new_bid: (u64, u128),
    last_bid: Option<(u64, u128)>) -> OnNewBidResult
{
    let reject = OnNewBidResult { accept_bid: false, auction_end_change: Change::NoChange };
    if !m.items().dom().contains(id) {
        reject
    } else {
        let item = m.items()[id];
        let payment = spec_payment_amount(item, spec_bid_price(item, new_bid.1));
        if spec_bid_price_acceptable(m.config, item, new_bid.1, last_bid)
            && a.free(STABLE, new_bid.0) >= payment
            && a.held(STABLE, new_bid.0) + payment <= u128::MAX {
            OnNewBidResult { accept_bid: true,
                auction_end_change: Change::NewValue(Some((now + spec_time_to_close(m.config, item.start_time, now)) as u64)) }
        } else {
            reject
        }
    }
}

/// In the forward stage of an auction with a target (the last bid's price per unit of
/// collateral below the target price), a new bid must raise the price per unit by at
/// least the minimum increment: one that raises it by less is rejected.
pub proof fn lemma_forward_bid_needs_minimum_increment(m: Pallet, a: Assets, now: u64, id: u64,
    new_bid: (u64, u128), last_bid: (u64, u128))
    requires
        m.items().dom().contains(id),
        m.items()[id].target != 0,
        !spec_in_reverse_stage(m.items()[id], spec_unit_price(m.items()[id], last_bid.1)),
        spec_unit_price(m.items()[id], new_bid.1)
            < spec_unit_price(m.items()[id], last_bid.1) + m.config.minimum_increment_size,
        spec_unit_price(m.items()[id], new_bid.1) < u128::MAX,
    ensures
        !spec_on_new_bid(m, a, now, id, new_bid, Some(last_bid)).accept_bid,
{
}

/// An accepted bid on an auction with a target offers at least the minimum price per
/// unit of collateral: half the target price for a first bid, the last bid's price plus
/// the minimum increment in the forward stage, the last bid's price in the reverse
/// stage; and the bidder holds the payment.
pub proof fn lemma_accepted_bid_meets_minimum(m: Pallet, a: Assets, now: u64, id: u64,
    new_bid: (u64, u128), last_bid: Option<(u64, u128)>)
    requires
        m.items().dom().contains(id),
        m.items()[id].target != 0,
        spec_on_new_bid(m, a, now, id, new_bid, last_bid).accept_bid,
    ensures
        ({
            let item = m.items()[id];
            let price = spec_unit_price(item, new_bid.1);
            &&& a.free(STABLE, new_bid.0) >= spec_payment_amount(item, price)
            &&& last_bid is None ==> price >= spec_target_price(item) / 2
            &&& last_bid matches Some(l) ==> ({
                let lp = spec_unit_price(item, l.1);
                &&& spec_in_reverse_stage(item, lp) ==> price >= lp
                &&& !spec_in_reverse_stage(item, lp) && lp + m.config.minimum_increment_size <= u128::MAX
                    ==> price >= lp + m.config.minimum_increment_size
            })
        }),
{
    let item = m.items()[id];
    let tp = spec_target_price(item) as int;
    let h = (FIXED_ONE / 2) as int;
    let o = FIXED_ONE as int;
    assert(tp * h / o == tp / 2) by (nonlinear_arith) requires h == 500_000_000_000_000_000int, o == 1_000_000_000_000_000_000int, tp >= 0;
}

/// In the reverse stage (the last bid's price per unit at or above the target price), a
/// new bid must not lower the price per unit: one that does is rejected.
pub proof fn lemma_reverse_bid_keeps_price(m: Pallet, a: Assets, now: u64, id: u64,
    new_bid: (u64, u128), last_bid: (u64, u128))
    requires
        m.items().dom().contains(id),
        m.items()[id].target != 0,
        spec_in_reverse_stage(m.items()[id], spec_unit_price(m.items()[id], last_bid.1)),
        spec_unit_price(m.items()[id], new_bid.1) < spec_unit_price(m.items()[id], last_bid.1),
    ensures
        !spec_on_new_bid(m, a, now, id, new_bid, Some(last_bid)).accept_bid,
{
}

/// The refund owed when cancelling `item` whose auction has `bid`: the bidder and the
/// payment of its bid at the unit price.
pub open spec fn spec_cancel_refund(item: CollateralAuctionItem, bid: Option<(u64, u128)>) -> Option<(u64, u128)> {
    match bid {
        Some(b) => Some((b.0, spec_payment_amount(item, spec_unit_price(item, b.1)))),
        None => None,
    }
}

/// Whether cancelling `item` (whose auction has `bid`) succeeds on balances `a`: not in
/// the reverse stage, the treasury can give back the collateral and the refund
/// recipient take it, and, with a bid, the treasury can burn the payment and the
/// bidder take back what it has on hold.
pub open spec fn spec_cancel_ok(item: CollateralAuctionItem, bid: Option<(u64, u128)>, a: Assets, treasury_account: u64) -> bool {
    &&& !(bid matches Some(b) && spec_in_reverse_stage(item, spec_unit_price(item, b.1)))
    &&& a.free(NATIVE, treasury_account) >= item.initial_amount
    &&& (item.refund_recipient == treasury_account || a.free(NATIVE, item.refund_recipient) + item.initial_amount <= u128::MAX)
    &&& spec_cancel_refund(item, bid) matches Some(rf) ==> ({
        let rel = if a.held(STABLE, rf.0) < rf.1 { a.held(STABLE, rf.0) } else { rf.1 };
        let free_after_burn = if rf.0 == treasury_account { a.free(STABLE, rf.0) - rf.1 } else { a.free(STABLE, rf.0) as int };
        &&& a.free(STABLE, treasury_account) >= rf.1
        &&& free_after_burn + rel <= u128::MAX
    })
}

/// The balance operations of cancelling `item`: the payment of the bid, if any, is
/// burnt from the treasury's surplus and released to the bidder, and the collateral
/// goes back to the refund recipient.
pub open spec fn spec_cancel_ops(item: CollateralAuctionItem, bid: Option<(u64, u128)>, treasury_account: u64)
    -> (BalanceOp, BalanceOp, BalanceOp)
{
    let back = BalanceOp::Transfer { currency: NATIVE, from: treasury_account, to: item.refund_recipient, amount: item.initial_amount };
    match spec_cancel_refund(item, bid) {
        Some(rf) => (BalanceOp::Burn { currency: STABLE, who: treasury_account, amount: rf.1 },
            BalanceOp::Release { currency: STABLE, who: rf.0, amount: rf.1 }, back),
        None => (BalanceOp::Nothing, BalanceOp::Nothing, back),
    }
}

/// Whether a bid of `amount` on auction `id` can be priced: a whole-amount price
/// (no target) must fit the fixed-point range; a price per unit always can.
pub open spec fn bid_in_range(m: Pallet, id: u64, amount: u128) -> bool {
    m.items().dom().contains(id) && m.items()[id].target == 0 ==> amount <= MAX_WHOLE_PRICE_BID
}

/// The item after accepting a bid of `amount`.
pub open spec fn spec_item_after_bid(item: CollateralAuctionItem, amount: u128) -> CollateralAuctionItem {
    if spec_in_reverse_stage(item, spec_bid_price(item, amount)) {
        CollateralAuctionItem { amount: spec_reverse_amount(item, amount), ..item }
    } else {
        item
    }
}

/// The collateral an auction started with, as a summand.
pub open spec fn initial_amount_of() -> spec_fn(CollateralAuctionItem) -> int {
    |i: CollateralAuctionItem| i.initial_amount as int
}

/// The stable coin an auction targets, as a summand.
pub open spec fn target_of() -> spec_fn(CollateralAuctionItem) -> int {
    |i: CollateralAuctionItem| i.target as int
}

impl Pallet {
    pub open spec fn wf(&self) -> bool {
        self.collateral_auctions.wf()
    }

    /// The totals in auction are the sums over the auctions of their initial collateral
    /// and of their targets.
    pub open spec fn totals_match(&self) -> bool {
        &&& self.total_collateral_in_auction == sum_values(self.collateral_auctions.entries@, initial_amount_of())
        &&& self.total_target_in_auction == sum_values(self.collateral_auctions.entries@, target_of())
    }

    pub open spec fn items(&self) -> Map<u64, CollateralAuctionItem> {
        self.collateral_auctions.view_map()
    }

    /// No auctions.
    pub fn new(config: Config) -> (r: Self)
        ensures
            r.wf(),
            r.items() == Map::<u64, CollateralAuctionItem>::empty(),
            r.total_collateral_in_auction == 0,
            r.total_target_in_auction == 0,
            r.config == config,
            r.events@.len() == 0,
            r.totals_match(),
    {
        Pallet {
            collateral_auctions: Store::new(),
            total_collateral_in_auction: 0,
            total_target_in_auction: 0,
            config,
            events: Vec::new(),
            started_auctions: Ghost(Seq::empty()),
        }
    }

    /// The auction `id`.
    pub fn collateral_auctions(&self, id: u64) -> (r: Option<CollateralAuctionItem>)
        requires
            self.wf(),
        ensures
            r == (if self.items().dom().contains(id) { Some(self.items()[id]) } else { None::<CollateralAuctionItem> }),
    {
        self.collateral_auctions.get(id)
    }

    /// The collateral in auction.
    pub fn total_collateral_in_auction(&self) -> (r: u128)
        ensures
            r == self.total_collateral_in_auction,
    {
        self.total_collateral_in_auction
    }

    /// The stable coin targeted by all auctions.
    pub fn total_target_in_auction(&self) -> (r: u128)
        ensures
            r == self.total_target_in_auction,
    {
        self.total_target_in_auction
    }

    /// The collateral of `currency` in auction (only the native currency is auctioned).
    pub fn get_total_collateral_in_auction(&self, currency: CurrencyId) -> (r: u128)
        ensures
            r == (if currency == NATIVE { self.total_collateral_in_auction } else { 0 }),
    {
        if currency == NATIVE {
            self.total_collateral_in_auction
        } else {
            0
        }
    }

    /// The stable coin targeted by all auctions.
    pub fn get_total_target_in_auction(&self) -> (r: u128)
        ensures
            r == self.total_target_in_auction,
    {
        self.total_target_in_auction
    }

    /// Blocks until an auction started at `auction_start_time` closes after a bid at
    /// `now`: the full time to close within the soft cap, half of it after.
    pub fn get_auction_time_to_close(&self, auction_start_time: u64, now: u64) -> (r: u64)
        requires
            auction_start_time + self.config.auction_duration_soft_cap <= u64::MAX,
        ensures
            r == spec_time_to_close(self.config, auction_start_time, now),
    {
        if now >= auction_start_time + self.config.auction_duration_soft_cap {
            self.config.auction_time_to_close / 2
        } else {
            self.config.auction_time_to_close
        }
    }

    /// Start an auction of `amount` native collateral for `target` stable coin: the
    /// collateral moves from `refund_recipient` to the treasury account.
    pub fn new_collateral_auction(
        &mut self,
        auctions: &mut auction::Pallet,
        assets: &mut Assets,
        treasury_account: u64,
        now: u64,
        refund_recipient: u64,
        currency_id: CurrencyId,
        amount: u128,
        target: u128,
    ) -> (r: Result<(), DispatchError>)
        requires
            old(self).wf(),
            old(auctions).wf(),
            old(assets).wf(),
        ensures
            final(self).wf(),
            final(auctions).wf(),
            final(assets).wf(),
            final(self).config == old(self).config,
            currency_id != NATIVE ==> r == Err::<(), DispatchError>(err(Error::InvalidCurrencyId)),
            r matches Err(e) ==> !(e matches DispatchError::Module(ModuleError::CdpTreasury(_))),
            r is Ok ==> final(self).started_auctions@
                == old(self).started_auctions@.push((refund_recipient, currency_id, amount, target)),
            r is Err ==> final(self).started_auctions@ == old(self).started_auctions@,
            currency_id == NATIVE && amount == 0 ==> r == Err::<(), DispatchError>(err(Error::InvalidAmount)),
            currency_id == NATIVE && amount != 0 && (old(self).total_collateral_in_auction + amount > u128::MAX
                || old(self).total_target_in_auction + target > u128::MAX) ==> r == Err::<(), DispatchError>(err(Error::InvalidAmount)),
            old(self).totals_match() && !old(self).items().dom().contains(old(auctions).auctions_index)
                ==> final(self).totals_match(),
            r is Ok <==> (currency_id == NATIVE && amount != 0
                && old(self).total_collateral_in_auction + amount <= u128::MAX
                && old(self).total_target_in_auction + target <= u128::MAX
                && old(auctions).auctions_index != u64::MAX
                && old(assets).free(NATIVE, refund_recipient) >= amount
                && (refund_recipient == treasury_account || old(assets).free(NATIVE, treasury_account) + amount <= u128::MAX)),
            r is Err ==> *final(auctions) == *old(auctions) && *final(assets) == *old(assets)
                && final(self).items() == old(self).items()
                && final(self).total_collateral_in_auction == old(self).total_collateral_in_auction
                && final(self).total_target_in_auction == old(self).total_target_in_auction
                && final(self).events@ == old(self).events@,
            r is Ok ==> ({
                let id = old(auctions).auctions_index;
                &&& final(auctions).auctions_index == id + 1
                &&& final(auctions).auctions_map() == old(auctions).auctions_map().insert(id, auction::AuctionInfo { bid: None, start: now, end: None })
                &&& final(self).items() == old(self).items().insert(id, CollateralAuctionItem {
                    refund_recipient, initial_amount: amount, amount, target, start_time: now })
                &&& final(self).total_collateral_in_auction == old(self).total_collateral_in_auction + amount
                &&& final(self).total_target_in_auction == old(self).total_target_in_auction + target
                &&& refund_recipient != treasury_account ==> final(assets).free(NATIVE, refund_recipient) == old(assets).free(NATIVE, refund_recipient) - amount
                    && final(assets).free(NATIVE, treasury_account) == old(assets).free(NATIVE, treasury_account) + amount
                &&& final(self).events@ == old(self).events@.push(Event::NewCollateralAuction {
                    auction_id: id, collateral_type: currency_id, collateral_amount: amount, target_bid_price: target })
                &&& op_step(*old(assets), *final(assets),
                    BalanceOp::Transfer { currency: NATIVE, from: refund_recipient, to: treasury_account, amount })
            }),
    {
        if currency_id != NATIVE {
            return Err(module_err(Error::InvalidCurrencyId));
        }
        if amount == 0 {
            return Err(module_err(Error::InvalidAmount));
        }
        let new_total_collateral = match self.total_collateral_in_auction.checked_add(amount) {
            Some(v) => v,
            None => return Err(module_err(Error::InvalidAmount)),
        };
        let new_total_target = match self.total_target_in_auction.checked_add(target) {
            Some(v) => v,
            None => return Err(module_err(Error::InvalidAmount)),
        };
        if auctions.auctions_index == u64::MAX {
            return Err(DispatchError::Auction(auction::Error::NoAvailableAuctionId));
        }
        match assets.transfer(currency_id, refund_recipient, treasury_account, amount) {
            Ok(()) => {},
            Err(e) => return Err(DispatchError::Token(e)),
        }
        let auction_id = match auctions.new_auction(now, None) {
            Ok(id) => id,
            Err(e) => return Err(DispatchError::Auction(e)),
        };
        let item = CollateralAuctionItem {
            refund_recipient,
            initial_amount: amount,
            amount,
            target,
            start_time: now,
        };
        let ghost s0 = self.collateral_auctions.entries@;
        self.collateral_auctions.insert(auction_id, item);
        proof {
            if old(self).totals_match() && !old(self).items().dom().contains(old(auctions).auctions_index) {
                assert(!has_key(s0, auction_id));
                lemma_sum_push(s0, initial_amount_of(), (auction_id, item));
                lemma_sum_push(s0, target_of(), (auction_id, item));
            }
        }
        self.total_collateral_in_auction = new_total_collateral;
        self.total_target_in_auction = new_total_target;
        self.events.push(Event::NewCollateralAuction {
            auction_id,
            collateral_type: currency_id,
            collateral_amount: amount,
            target_bid_price: target,
        });
        self.started_auctions = Ghost(self.started_auctions@.push((refund_recipient, currency_id, amount, target)));
        Ok(())
    }

    /// After an emergency shutdown, cancel a forward auction: the winning bidder gets
    /// the payment back, the treasury gives back the surplus, and the collateral goes
    /// back to the refund recipient.
    pub fn cancel_auction(
        &mut self,
        auctions: &mut auction::Pallet,
        assets: &mut Assets,
        treasury_account: u64,
        is_shutdown: bool,
        id: u64,
    ) -> (r: Result<(), DispatchError>)
        requires
            old(self).wf(),
            old(auctions).wf(),
            old(assets).wf(),
        ensures
            final(self).wf(),
            final(auctions).wf(),
            final(assets).wf(),
            final(self).config == old(self).config,
            old(self).totals_match() ==> final(self).totals_match(),
            !is_shutdown ==> r == Err::<(), DispatchError>(err(Error::MustAfterShutdown)),
            is_shutdown && (!old(auctions).auctions_map().dom().contains(id) || !old(self).items().dom().contains(id))
                ==> r == Err::<(), DispatchError>(err(Error::AuctionNotExists)),
            is_shutdown && old(auctions).auctions_map().dom().contains(id) && old(self).items().dom().contains(id) ==> ({
                let item = old(self).items()[id];
                let info = old(auctions).auctions_map()[id];
                &&& (info.bid matches Some(b) && spec_in_reverse_stage(item, spec_unit_price(item, b.1)))
                    ==> r == Err::<(), DispatchError>(err(Error::InReverseStage))
                &&& r is Ok <==> spec_cancel_ok(item, info.bid, *old(assets), treasury_account)
                &&& r is Ok ==> steps3(*old(assets), *final(assets), spec_cancel_ops(item, info.bid, treasury_account))
            }),
            r is Err ==> *final(auctions) == *old(auctions) && *final(assets) == *old(assets)
                && final(self).items() == old(self).items()
                && final(self).total_collateral_in_auction == old(self).total_collateral_in_auction
                && final(self).total_target_in_auction == old(self).total_target_in_auction
                && final(self).events@ == old(self).events@,
            r is Ok ==> ({
                let item = old(self).items()[id];
                &&& is_shutdown
                &&& final(self).items() == old(self).items().remove(id)
                &&& final(auctions).auctions_map() == old(auctions).auctions_map().remove(id)
                &&& final(self).total_collateral_in_auction == spec_sat_sub(old(self).total_collateral_in_auction, item.initial_amount)
                &&& final(self).total_target_in_auction == spec_sat_sub(old(self).total_target_in_auction, item.target)
                &&& final(self).events@ == old(self).events@.push(Event::CancelAuction { auction_id: id })
            }),
    {
        if !is_shutdown {
            return Err(module_err(Error::MustAfterShutdown));
        }
        let info = match auctions.auction_info(id) {
            Some(i) => i,
            None => return Err(module_err(Error::AuctionNotExists)),
        };
        let item = match self.collateral_auctions.get(id) {
            Some(i) => i,
            None => return Err(module_err(Error::AuctionNotExists)),
        };
        // Check every step before any balance moves, so that a failure changes nothing.
        let mut refund: Option<(u64, u128)> = None;
        if let Some((bidder, price)) = info.bid {
            let price_rate = match fixed_checked_from_rational(price, item.initial_amount) {
                Some(p) => p,
                None => 0,
            };
            if item.in_reverse_stage(price_rate) {
                return Err(module_err(Error::InReverseStage));
            }
            let payment_amount = item.payment_amount(price_rate);
            refund = Some((bidder, payment_amount));
        }
        // the collateral must be able to go back
        let treasury_native = assets.balance(NATIVE, treasury_account);
        if treasury_native < item.initial_amount {
            return Err(DispatchError::Token(crate::assets::TokenError::FundsUnavailable));
        }
        if item.refund_recipient != treasury_account {
            let rb = assets.balance(NATIVE, item.refund_recipient);
            if rb.checked_add(item.initial_amount).is_none() {
                return Err(DispatchError::Token(crate::assets::TokenError::Overflow));
            }
        }
        let ghost ops = spec_cancel_ops(item, info.bid, treasury_account);
        let ghost a0 = *assets;
        let ghost mut a1 = *assets;
        let ghost mut a2 = *assets;
        if let Some((bidder, payment_amount)) = refund {
            let treasury_stable = assets.balance(STABLE, treasury_account);
            if treasury_stable < payment_amount {
                return Err(DispatchError::Token(crate::assets::TokenError::FundsUnavailable));
            }
            let held = assets.balance_on_hold(STABLE, bidder);
            let rel = if held < payment_amount { held } else { payment_amount };
            let free = assets.balance(STABLE, bidder);
            let free_after_burn = if bidder == treasury_account { free - payment_amount } else { free };
            if free_after_burn.checked_add(rel).is_none() {
                return Err(module_err(Error::AuctionNotExists));
            }
            let b = assets.burn_from(STABLE, treasury_account, payment_amount);
            assert(b is Ok);
            proof { a1 = *assets; }
            let rl = assets.release(STABLE, bidder, payment_amount);
            assert(rl is Ok);
            proof { a2 = *assets; }
        }
        let t = assets.transfer(NATIVE, treasury_account, item.refund_recipient, item.initial_amount);
        assert(t is Ok);
        assert(op_step(a0, a1, ops.0) && op_step(a1, a2, ops.1) && op_step(a2, *assets, ops.2));
        self.total_collateral_in_auction = self.total_collateral_in_auction.saturating_sub(item.initial_amount);
        self.total_target_in_auction = self.total_target_in_auction.saturating_sub(item.target);
        let ghost s0 = self.collateral_auctions.entries@;
        self.collateral_auctions.remove(id);
        proof {
            Self::lemma_remove_keeps_totals(old(self).collateral_auctions.entries@, s0,
                self.collateral_auctions.entries@, id, item, old(self).total_collateral_in_auction,
                old(self).total_target_in_auction);
        }
        auctions.remove_auction(id);
        self.events.push(Event::CancelAuction { auction_id: id });
        Ok(())
    }

    /// Decide on a new bid of `new_bid` over `last_bid` on auction `id` at block `now`.
    /// An accepted bid holds the payment from the bidder, pays it to the treasury as
    /// surplus, gives the last bidder their payment back and moves the end of the auction.
    pub fn on_new_bid(
        &mut self,
        assets: &mut Assets,
        treasury_account: u64,
        now: u64,
        id: u64,
        new_bid: (u64, u128),
        last_bid: Option<(u64, u128)>,
    ) -> (r: OnNewBidResult)
        requires
            old(self).wf(),
            old(assets).wf(),
            bid_in_range(*old(self), id, new_bid.1),
            old(self).items().dom().contains(id) ==> ({
                let item = old(self).items()[id];
                item.start_time + old(self).config.auction_duration_soft_cap <= u64::MAX
                    && now + spec_time_to_close(old(self).config, item.start_time, now) <= u64::MAX
            }),
        ensures
            final(self).wf(),
            final(assets).wf(),
            r == spec_on_new_bid(*old(self), *old(assets), now, id, new_bid, last_bid),
            final(self).config == old(self).config,
            final(self).total_collateral_in_auction == old(self).total_collateral_in_auction,
            final(self).total_target_in_auction == old(self).total_target_in_auction,
            final(self).events@ == old(self).events@,
            old(self).totals_match() ==> final(self).totals_match(),
            !old(self).items().dom().contains(id) ==> !r.accept_bid,
            r.accept_bid ==> ({
                let item = old(self).items()[id];
                let price = spec_bid_price(item, new_bid.1);
                let payment = spec_payment_amount(item, price);
                &&& old(self).items().dom().contains(id)
                &&& spec_bid_price_acceptable(old(self).config, item, new_bid.1, last_bid)
                &&& old(assets).free(STABLE, new_bid.0) >= payment
                &&& final(self).items() == old(self).items().insert(id, spec_item_after_bid(item, new_bid.1))
                &&& r.auction_end_change == Change::NewValue(Some((now + spec_time_to_close(old(self).config, item.start_time, now)) as u64))
                &&& steps4(*old(assets), *final(assets), spec_bid_ops(item, treasury_account, new_bid, last_bid))
            }),
            !r.accept_bid ==> final(self).items() == old(self).items() && *final(assets) == *old(assets)
                && r.auction_end_change == Change::NoChange,
            old(self).items().dom().contains(id) ==> ({
                let item = old(self).items()[id];
                let price = spec_bid_price(item, new_bid.1);
                let payment = spec_payment_amount(item, price);
                (spec_bid_price_acceptable(old(self).config, item, new_bid.1, last_bid)
                    && old(assets).free(STABLE, new_bid.0) >= payment
                    && old(assets).held(STABLE, new_bid.0) + payment <= u128::MAX) ==> r.accept_bid
            }),
    {
        let reject = OnNewBidResult { accept_bid: false, auction_end_change: Change::NoChange };
        let mut item = match self.collateral_auctions.get(id) {
            Some(i) => i,
            None => return reject,
        };
        let ghost item0 = item;
        let (new_bidder, new_bid_amount) = new_bid;
        let new_bid_price = if item.always_forward() {
            fixed_from_rational(new_bid_amount, 1)
        } else {
            match fixed_checked_from_rational(new_bid_amount, item.initial_amount) {
                Some(p) => p,
                None => 0,
            }
        };
        proof {
            if item.target == 0 {
                assert((new_bid_amount as int) * (FIXED_ONE as int) <= u128::MAX) by (nonlinear_arith)
                    requires new_bid_amount <= MAX_WHOLE_PRICE_BID;
                let n = new_bid_amount as int;
                assert(n * FIXED_ONE % 1 == 0);
                assert(n * FIXED_ONE / 1 == n * FIXED_ONE);
            }
        }
        assert(new_bid_price == spec_bid_price(item0, new_bid_amount));
        if !item.always_forward() {
            let target_price = match fixed_checked_from_rational(item.target, item.initial_amount) {
                Some(p) => p,
                None => 0,
            };
            let min_price = match last_bid {
                Some((_, last_bid_amount)) => {
                    let last_price_per_unit = match fixed_checked_from_rational(last_bid_amount, item.initial_amount) {
                        Some(p) => p,
                        None => 0,
                    };
                    if item.in_reverse_stage(last_price_per_unit) {
                        last_price_per_unit
                    } else {
                        fixed_saturating_add(last_price_per_unit, self.config.minimum_increment_size)
                    }
                },
                None => {
                    proof {
                        assert(FIXED_ONE as int % 2 == 0);
                        assert(spec_from_rational_nearest(1, 2) == FIXED_ONE / 2);
                    }
                    let half = fixed_from_rational(1, 2);
                    fixed_saturating_mul(target_price, half)
                },
            };
            if new_bid_price < min_price {
                return reject;
            }
        }
        let payment_amount = item.payment_amount(new_bid_price);
        // the hold is checked first, so that a rejected bid changes nothing
        let free = assets.balance(STABLE, new_bidder);
        let held = assets.balance_on_hold(STABLE, new_bidder);
        if free < payment_amount || held.checked_add(payment_amount).is_none() {
            return reject;
        }
        if item.in_reverse_stage(new_bid_price) {
            let ratio = match fixed_checked_from_rational(item.target, new_bid_amount) {
                Some(p) => p,
                None => 0,
            };
            item.amount = fixed_saturating_mul_int(ratio, item.initial_amount);
            let ghost s0 = self.collateral_auctions.entries@;
            self.collateral_auctions.insert(id, item);
            proof {
                let s1 = self.collateral_auctions.entries@;
                assert(has_key(s0, id));
                let i = choose|i: int| 0 <= i < s0.len() && s0[i].0 == id && s1 == s0.update(i, (id, item));
                lemma_entry_value(s0, i);
                lemma_sum_update(s0, initial_amount_of(), i, (id, item));
                lemma_sum_update(s0, target_of(), i, (id, item));
            }
        }
        assert(item == spec_item_after_bid(item0, new_bid_amount));
        assert(self.items() == old(self).items().insert(id, item)) by {
            if !spec_in_reverse_stage(item0, new_bid_price) {
                assert(old(self).items().insert(id, item0) =~= old(self).items());
            }
        }
        let ghost ops = spec_bid_ops(item0, treasury_account, new_bid, last_bid);
        let ghost a0 = *assets;
        let h = assets.hold(STABLE, new_bidder, payment_amount);
        assert(h is Ok);
        let ghost a1 = *assets;
        // the payment becomes surplus of the treasury
        let _ = assets.mint_into(STABLE, treasury_account, payment_amount);
        let ghost a2 = *assets;
        // the last bidder gets their payment back
        if let Some((last_bidder, last_bid_amount)) = last_bid {
            let last_bid_price = match fixed_checked_from_rational(last_bid_amount, item.initial_amount) {
                Some(p) => p,
                None => 0,
            };
            let last_payment_amount = item.payment_amount(last_bid_price);
            let _ = assets.release(STABLE, last_bidder, last_payment_amount);
            let ghost a3 = *assets;
            let _ = assets.burn_from(STABLE, treasury_account, last_payment_amount);
            assert(op_step(a0, a1, ops.0) && op_step(a1, a2, ops.1) && op_step(a2, a3, ops.2) && op_step(a3, *assets, ops.3));
        } else {
            assert(op_step(a0, a1, ops.0) && op_step(a1, a2, ops.1) && op_step(a2, a2, ops.2) && op_step(a2, *assets, ops.3));
        }
        let time_to_close = self.get_auction_time_to_close(item.start_time, now);
        OnNewBidResult { accept_bid: true, auction_end_change: Change::NewValue(Some(now + time_to_close)) }
    }

    /// Settle an ended auction: with a winner, the held payment is released, the winner
    /// gets the collateral sold and the refund recipient the rest; without one, all the
    /// collateral goes back to the refund recipient.
    pub fn on_auction_ended(
        &mut self,
        assets: &mut Assets,
        treasury_account: u64,
        id: u64,
        winner: Option<(u64, u128)>,
    )
        requires
            old(self).wf(),
            old(assets).wf(),
            winner matches Some(w) ==> bid_in_range(*old(self), id, w.1),
        ensures
            final(self).wf(),
            final(assets).wf(),
            final(self).config == old(self).config,
            old(self).totals_match() ==> final(self).totals_match(),
            !old(self).items().dom().contains(id) ==> final(self).items() == old(self).items()
                && *final(assets) == *old(assets)
                && final(self).total_collateral_in_auction == old(self).total_collateral_in_auction
                && final(self).total_target_in_auction == old(self).total_target_in_auction
                && final(self).events@ == old(self).events@,
            old(self).items().dom().contains(id) ==> ({
                let item = old(self).items()[id];
                &&& final(self).items() == old(self).items().remove(id)
                &&& final(self).total_collateral_in_auction == spec_sat_sub(old(self).total_collateral_in_auction, item.initial_amount)
                &&& final(self).total_target_in_auction == spec_sat_sub(old(self).total_target_in_auction, item.target)
                &&& steps3(*old(assets), *final(assets), spec_settle_ops(item, treasury_account, winner))
                &&& final(self).events@ == old(self).events@.push(match winner {
                    Some(w) => Event::CollateralAuctionDealt {
                        auction_id: id,
                        collateral_type: NATIVE,
                        collateral_amount: item.amount,
                        winner: w.0,
                        payment_amount: spec_payment_amount(item, spec_bid_price(item, w.1)),
                    },
                    None => Event::CollateralAuctionAborted {
                        auction_id: id,
                        collateral_type: NATIVE,
                        collateral_amount: item.initial_amount,
                        target_stable_amount: item.target,
                        refund_recipient: item.refund_recipient,
                    },
                })
            }),
    {
        let item = match self.collateral_auctions.get(id) {
            Some(i) => i,
            None => return,
        };
        self.total_collateral_in_auction = self.total_collateral_in_auction.saturating_sub(item.initial_amount);
        self.total_target_in_auction = self.total_target_in_auction.saturating_sub(item.target);
        match winner {
            Some((w, amount)) => {
                let price = if item.always_forward() {
                    proof {
                        assert((amount as int) * (FIXED_ONE as int) <= u128::MAX) by (nonlinear_arith)
                            requires amount <= MAX_WHOLE_PRICE_BID;
                        let n = amount as int;
                        assert(n * FIXED_ONE % 1 == 0);
                        assert(n * FIXED_ONE / 1 == n * FIXED_ONE);
                    }
                    fixed_from_rational(amount, 1)
                } else {
                    match fixed_checked_from_rational(amount, item.initial_amount) {
                        Some(p) => p,
                        None => 0,
                    }
                };
                let payment_amount = item.payment_amount(price);
                let ghost ops = spec_settle_ops(item, treasury_account, winner);
                let ghost a0 = *assets;
                let _ = assets.release(STABLE, w, payment_amount);
                let ghost a1 = *assets;
                let _ = assets.transfer(NATIVE, treasury_account, w, item.amount);
                let ghost a2 = *assets;
                if item.initial_amount > item.amount {
                    let _ = assets.transfer(NATIVE, treasury_account, item.refund_recipient, item.initial_amount - item.amount);
                }
                assert(op_step(a0, a1, ops.0) && op_step(a1, a2, ops.1) && op_step(a2, *assets, ops.2));
                self.events.push(Event::CollateralAuctionDealt {
                    auction_id: id,
                    collateral_type: NATIVE,
                    collateral_amount: item.amount,
                    winner: w,
                    payment_amount,
                });
            },
            None => {
                let ghost ops = spec_settle_ops(item, treasury_account, winner);
                let ghost a0 = *assets;
                let _ = assets.transfer(NATIVE, treasury_account, item.refund_recipient, item.initial_amount);
                assert(op_step(a0, *assets, ops.0) && op_step(*assets, *assets, ops.1) && op_step(*assets, *assets, ops.2));
                self.events.push(Event::CollateralAuctionAborted {
                    auction_id: id,
                    collateral_type: NATIVE,
                    collateral_amount: item.initial_amount,
                    target_stable_amount: item.target,
                    refund_recipient: item.refund_recipient,
                });
            },
        }
        let ghost s0 = self.collateral_auctions.entries@;
        self.collateral_auctions.remove(id);
        proof {
            Self::lemma_remove_keeps_totals(old(self).collateral_auctions.entries@, s0,
                self.collateral_auctions.entries@, id, item, old(self).total_collateral_in_auction,
                old(self).total_target_in_auction);
        }
    }

    /// Removing auction `id` (holding `item`) from entries whose sums are the totals
    /// leaves entries whose sums are the totals less the item's amounts.
    proof fn lemma_remove_keeps_totals(
        s_old: Seq<(u64, CollateralAuctionItem)>,
        s0: Seq<(u64, CollateralAuctionItem)>,
        s1: Seq<(u64, CollateralAuctionItem)>,
        id: u64,
        item: CollateralAuctionItem,
        total_c: u128,
        total_t: u128,
    )
        requires
            s0 == s_old,
            crate::store::keys_distinct(s0),
            crate::store::entries_map(s0).dom().contains(id),
            crate::store::entries_map(s0)[id] == item,
            exists|i: int| 0 <= i < s0.len() && s0[i].0 == id && s1 == s0.remove(i),
        ensures
            total_c == sum_values(s_old, initial_amount_of()) && total_t == sum_values(s_old, target_of()) ==>
                spec_sat_sub(total_c, item.initial_amount) == sum_values(s1, initial_amount_of())
                && spec_sat_sub(total_t, item.target) == sum_values(s1, target_of()),
    {
        let i = choose|i: int| 0 <= i < s0.len() && s0[i].0 == id && s1 == s0.remove(i);
        lemma_entry_value(s0, i);
        assert forall|v: CollateralAuctionItem| #[trigger] initial_amount_of()(v) >= 0 by {}
        assert forall|v: CollateralAuctionItem| #[trigger] target_of()(v) >= 0 by {}
        lemma_sum_bound(s0, initial_amount_of(), i);
        lemma_sum_bound(s0, target_of(), i);
        lemma_sum_remove(s0, initial_amount_of(), i);
        lemma_sum_remove(s0, target_of(), i);
    }
}

/// The auction manager with the balances it moves and the treasury account: the
/// handler of the generic auction's bids and endings.
pub struct CollateralAuctionHandler {
    pub manager: Pallet,
    pub assets: Assets,
    pub treasury_account: u64,
}

impl AuctionManager for Pallet {
    open spec fn manager_wf(&self) -> bool {
        self.wf()
    }

    open spec fn moves_nothing(&self) -> bool {
        false
    }

    open spec fn accepts_all(&self) -> bool {
        false
    }

    open spec fn started(&self) -> Seq<(u64, CurrencyId, u128, u128)> {
        self.started_auctions@
    }

    open spec fn collateral_in_auction(&self, currency: CurrencyId) -> u128 {
        if currency == NATIVE { self.total_collateral_in_auction } else { 0 }
    }

    fn new_collateral_auction(
        &mut self,
        auctions: &mut auction::Pallet,
        assets: &mut Assets,
        treasury_account: u64,
        now: u64,
        refund_recipient: u64,
        currency: CurrencyId,
        amount: u128,
        target: u128,
    ) -> (r: Result<(), DispatchError>)
        ensures
            final(self).config == old(self).config,
            currency != NATIVE ==> r == Err::<(), DispatchError>(err(Error::InvalidCurrencyId)),
            currency == NATIVE && amount == 0 ==> r == Err::<(), DispatchError>(err(Error::InvalidAmount)),
            currency == NATIVE && amount != 0 && (old(self).total_collateral_in_auction + amount > u128::MAX
                || old(self).total_target_in_auction + target > u128::MAX) ==> r == Err::<(), DispatchError>(err(Error::InvalidAmount)),
            old(self).totals_match() && !old(self).items().dom().contains(old(auctions).auctions_index)
                ==> final(self).totals_match(),
            r is Ok <==> (currency == NATIVE && amount != 0
                && old(self).total_collateral_in_auction + amount <= u128::MAX
                && old(self).total_target_in_auction + target <= u128::MAX
                && old(auctions).auctions_index != u64::MAX
                && old(assets).free(NATIVE, refund_recipient) >= amount
                && (refund_recipient == treasury_account || old(assets).free(NATIVE, treasury_account) + amount <= u128::MAX)),
            r is Err ==> *final(auctions) == *old(auctions) && *final(assets) == *old(assets)
                && final(self).items() == old(self).items()
                && final(self).total_collateral_in_auction == old(self).total_collateral_in_auction
                && final(self).total_target_in_auction == old(self).total_target_in_auction
                && final(self).events@ == old(self).events@,
            r is Ok ==> ({
                let id = old(auctions).auctions_index;
                &&& final(auctions).auctions_index == id + 1
                &&& final(auctions).auctions_map() == old(auctions).auctions_map().insert(id, auction::AuctionInfo { bid: None, start: now, end: None })
                &&& final(self).items() == old(self).items().insert(id, CollateralAuctionItem {
                    refund_recipient, initial_amount: amount, amount, target, start_time: now })
                &&& final(self).total_collateral_in_auction == old(self).total_collateral_in_auction + amount
                &&& final(self).total_target_in_auction == old(self).total_target_in_auction + target
                &&& refund_recipient != treasury_account ==> final(assets).free(NATIVE, refund_recipient) == old(assets).free(NATIVE, refund_recipient) - amount
                    && final(assets).free(NATIVE, treasury_account) == old(assets).free(NATIVE, treasury_account) + amount
                &&& final(self).events@ == old(self).events@.push(Event::NewCollateralAuction {
                    auction_id: id, collateral_type: currency, collateral_amount: amount, target_bid_price: target })
                &&& op_step(*old(assets), *final(assets),
                    BalanceOp::Transfer { currency: NATIVE, from: refund_recipient, to: treasury_account, amount })
            }),
    {
        Pallet::new_collateral_auction(self, auctions, assets, treasury_account, now, refund_recipient, currency, amount, target)
    }

    fn get_total_collateral_in_auction(&self, currency: CurrencyId) -> (r: u128) {
        Pallet::get_total_collateral_in_auction(self, currency)
    }
}

impl CollateralAuctionHandler {
    pub open spec fn handler_wf(&self) -> bool {
        self.manager.wf() && self.assets.wf()
    }

    /// Whether `winner` of auction `id` can be settled: a whole-amount bid (no target)
    /// must fit the fixed-point range.
    pub fn winner_in_range(&self, id: u64, winner: Option<(u64, u128)>) -> (r: bool)
        requires
            self.handler_wf(),
        ensures
            r == self.winner_ok(id, winner),
    {
        match winner {
            None => true,
            Some(w) => match self.manager.collateral_auctions.get(id) {
                Some(item) => item.target != 0 || w.1 <= MAX_WHOLE_PRICE_BID,
                None => true,
            },
        }
    }
}

impl AuctionHandler for CollateralAuctionHandler {
    open spec fn ready(&self) -> bool {
        self.handler_wf()
    }

    open spec fn bid_result(&self, now: u64, id: u64, new_bid: (u64, u128), last_bid: Option<(u64, u128)>) -> OnNewBidResult {
        spec_on_new_bid(self.manager, self.assets, now, id, new_bid, last_bid)
    }

    open spec fn bid_ok(&self, now: u64, id: u64, new_bid: (u64, u128)) -> bool {
        &&& bid_in_range(self.manager, id, new_bid.1)
        &&& self.manager.items().dom().contains(id) ==> ({
            let item = self.manager.items()[id];
            item.start_time + self.manager.config.auction_duration_soft_cap <= u64::MAX
                && now + spec_time_to_close(self.manager.config, item.start_time, now) <= u64::MAX
        })
    }

    open spec fn winner_ok(&self, id: u64, winner: Option<(u64, u128)>) -> bool {
        winner matches Some(w) ==> bid_in_range(self.manager, id, w.1)
    }

    open spec fn bid_done(&self, next: Self, now: u64, id: u64, new_bid: (u64, u128), last_bid: Option<(u64, u128)>) -> bool {
        let r = self.bid_result(now, id, new_bid, last_bid);
        let item = self.manager.items()[id];
        &&& next.treasury_account == self.treasury_account
        &&& next.manager.config == self.manager.config
        &&& next.manager.total_collateral_in_auction == self.manager.total_collateral_in_auction
        &&& next.manager.total_target_in_auction == self.manager.total_target_in_auction
        &&& next.manager.events@ == self.manager.events@
        &&& r.accept_bid ==> next.manager.items() == self.manager.items().insert(id, spec_item_after_bid(item, new_bid.1))
            && steps4(self.assets, next.assets, spec_bid_ops(item, self.treasury_account, new_bid, last_bid))
        &&& !r.accept_bid ==> next.manager.items() == self.manager.items() && next.assets == self.assets
    }

    fn on_new_bid(&mut self, now: u64, id: u64, new_bid: (u64, u128), last_bid: Option<(u64, u128)>) -> (r: OnNewBidResult)
        ensures
            final(self).treasury_account == old(self).treasury_account,
            final(self).manager.config == old(self).manager.config,
            final(self).manager.total_collateral_in_auction == old(self).manager.total_collateral_in_auction,
            final(self).manager.total_target_in_auction == old(self).manager.total_target_in_auction,
            final(self).manager.events@ == old(self).manager.events@,
            old(self).manager.totals_match() ==> final(self).manager.totals_match(),
            !old(self).manager.items().dom().contains(id) ==> !r.accept_bid,
            r.accept_bid ==> ({
                let item = old(self).manager.items()[id];
                let price = spec_bid_price(item, new_bid.1);
                let payment = spec_payment_amount(item, price);
                &&& old(self).manager.items().dom().contains(id)
                &&& spec_bid_price_acceptable(old(self).manager.config, item, new_bid.1, last_bid)
                &&& old(self).assets.free(STABLE, new_bid.0) >= payment
                &&& final(self).manager.items() == old(self).manager.items().insert(id, spec_item_after_bid(item, new_bid.1))
                &&& r.auction_end_change == Change::NewValue(Some((now + spec_time_to_close(old(self).manager.config, item.start_time, now)) as u64))
                &&& steps4(old(self).assets, final(self).assets, spec_bid_ops(item, old(self).treasury_account, new_bid, last_bid))
            }),
            !r.accept_bid ==> final(self).manager.items() == old(self).manager.items() && final(self).assets == old(self).assets
                && r.auction_end_change == Change::NoChange,
            old(self).manager.items().dom().contains(id) ==> ({
                let item = old(self).manager.items()[id];
                let price = spec_bid_price(item, new_bid.1);
                let payment = spec_payment_amount(item, price);
                (spec_bid_price_acceptable(old(self).manager.config, item, new_bid.1, last_bid)
                    && old(self).assets.free(STABLE, new_bid.0) >= payment
                    && old(self).assets.held(STABLE, new_bid.0) + payment <= u128::MAX) ==> r.accept_bid
            }),
    {
        self.manager.on_new_bid(&mut self.assets, self.treasury_account, now, id, new_bid, last_bid)
    }

    fn on_auction_ended(&mut self, id: u64, winner: Option<(u64, u128)>)
        ensures
            final(self).treasury_account == old(self).treasury_account,
            final(self).manager.config == old(self).manager.config,
            old(self).manager.totals_match() ==> final(self).manager.totals_match(),
            !old(self).manager.items().dom().contains(id) ==> final(self).manager.items() == old(self).manager.items()
                && final(self).assets == old(self).assets
                && final(self).manager.total_collateral_in_auction == old(self).manager.total_collateral_in_auction
                && final(self).manager.total_target_in_auction == old(self).manager.total_target_in_auction
                && final(self).manager.events@ == old(self).manager.events@,
            old(self).manager.items().dom().contains(id) ==> ({
                let item = old(self).manager.items()[id];
                &&& final(self).manager.items() == old(self).manager.items().remove(id)
                &&& final(self).manager.total_collateral_in_auction == spec_sat_sub(old(self).manager.total_collateral_in_auction, item.initial_amount)
                &&& final(self).manager.total_target_in_auction == spec_sat_sub(old(self).manager.total_target_in_auction, item.target)
                &&& steps3(old(self).assets, final(self).assets, spec_settle_ops(item, old(self).treasury_account, winner))
                &&& final(self).manager.events@ == old(self).manager.events@.push(match winner {
                    Some(w) => Event::CollateralAuctionDealt {
                        auction_id: id,
                        collateral_type: NATIVE,
                        collateral_amount: item.amount,
                        winner: w.0,
                        payment_amount: spec_payment_amount(item, spec_bid_price(item, w.1)),
                    },
                    None => Event::CollateralAuctionAborted {
                        auction_id: id,
                        collateral_type: NATIVE,
                        collateral_amount: item.initial_amount,
                        target_stable_amount: item.target,
                        refund_recipient: item.refund_recipient,
                    },
                })
            }),
    {
        self.manager.on_auction_ended(&mut self.assets, self.treasury_account, id, winner)
    }
}

} // verus!
