//! Loans with stability fees: each position's debit is held in units that accrue
//! interest at the position's stability fee; the units of all positions are also
//! totalled per stability fee.

use crate::adjustment::{ArithmeticError, BalanceAdjustment};
use crate::assets::{Assets, NATIVE, STABLE};
use crate::cdp_treasury;
use crate::store::{Store, WideStore, wide_set, copy_vec, entries_map, has_key, keys_distinct, lemma_entry_value, lemma_sum_push, lemma_sum_remove, lemma_sum_update, sum_values};
use crate::assets::TokenError;
use crate::traits::{DispatchError, LiquidationTarget};
use vstd::prelude::*;

verus! {

/// The debit of a position: units and the stability fee they accrue at.
#[derive(Clone, Copy, Debug, PartialEq, Eq, Structural)]
pub struct Debit {
    pub units: u128,
    /// Fixed-point rate.
    pub stability_fee: u128,
}

/// A collateralized debit position.
#[derive(Clone, Copy, Debug, PartialEq, Eq, Structural)]
pub struct Position {
    pub collateral: u128,
    pub debit: Debit,
}

impl Position {
    /// The empty position.
    pub fn default_position() -> (r: Self)
        ensures
            r == spec_default_position(),
    {
        Position { collateral: 0, debit: Debit { units: 0, stability_fee: 0 } }
    }
}

/// The empty position.
pub open spec fn spec_default_position() -> Position {
    Position { collateral: 0, debit: Debit { units: 0, stability_fee: 0 } }
}

/// Events of the loans module.
#[derive(Clone, Copy, Debug, PartialEq, Eq, Structural)]
pub enum Event {
    PositionUpdated { owner: u64, collateral_adjustment: BalanceAdjustment, debit_value_adjustment: BalanceAdjustment },
    ConfiscateCollateralAndDebit { owner: u64, confiscated_collateral_amount: u128, deduct_debit_value: u128 },
    TransferLoan { from: u64, to: u64 },
}

/// Values debit units and checks positions and the debit cap.
pub trait RiskManager {
    /// The manager's own invariant.
    spec fn risk_wf(&self) -> bool;

    /// The value of `units` at `fee`.
    spec fn units_to_value(&self, units: u128, fee: u128) -> u128;

    /// The units of `value` at `fee`.
    spec fn value_to_units(&self, value: u128, fee: u128) -> u128;

    /// Whether a position passes the check.
    spec fn position_ok(&self, collateral: u128, units: u128, fee: u128, check_required_ratio: bool) -> bool;

    /// Whether the units per fee are within the debit cap.
    spec fn cap_ok(&self, totals: Seq<(u128, u128)>) -> bool;

    /// The value of `units` at `fee`.
    fn debit_units_to_value(&self, units: u128, fee: u128) -> (r: u128)
        requires
            self.risk_wf(),
        ensures
            r == self.units_to_value(units, fee),
    ;

    /// The units of `value` at `fee`.
    fn value_to_debit_units(&self, value: u128, fee: u128) -> (r: u128)
        requires
            self.risk_wf(),
        ensures
            r == self.value_to_units(value, fee),
    ;

    /// Check a position.
    fn check_position_valid(&self, collateral: u128, units: u128, fee: u128, check_required_ratio: bool) -> (r: Result<(), DispatchError>)
        requires
            self.risk_wf(),
        ensures
            r is Ok <==> self.position_ok(collateral, units, fee, check_required_ratio),
    ;

    /// Check the total debit against the cap.
    fn check_debit_cap(&self, totals: &WideStore<u128>) -> (r: Result<(), DispatchError>)
        requires
            self.risk_wf(),
            totals.wf(),
        ensures
            r is Ok <==> self.cap_ok(totals.entries@),
    ;
}

/// The units of the totals, summed.
pub open spec fn sum_units(s: Seq<(u128, u128)>) -> int
    decreases s.len(),
{
    if s.len() == 0 { 0 } else { sum_units(s.drop_last()) + s.last().1 }
}

/// A risk manager for tests: units are worth their number, every position passes,
/// and the debit is capped below 1000.
#[derive(Clone, Copy, Debug, PartialEq, Eq)]
pub struct MockRiskManager;

impl RiskManager for MockRiskManager {
    open spec fn risk_wf(&self) -> bool {
        true
    }

    open spec fn units_to_value(&self, units: u128, fee: u128) -> u128 {
        units
    }

    open spec fn value_to_units(&self, value: u128, fee: u128) -> u128 {
        value
    }

    open spec fn position_ok(&self, collateral: u128, units: u128, fee: u128, check_required_ratio: bool) -> bool {
        true
    }

    open spec fn cap_ok(&self, totals: Seq<(u128, u128)>) -> bool {
        sum_units(totals) < 1000
    }

    fn debit_units_to_value(&self, units: u128, fee: u128) -> (r: u128) {
        units
    }

    fn value_to_debit_units(&self, value: u128, fee: u128) -> (r: u128) {
        value
    }

    fn check_position_valid(&self, collateral: u128, units: u128, fee: u128, check_required_ratio: bool) -> (r: Result<(), DispatchError>) {
        Ok(())
    }

    fn check_debit_cap(&self, totals: &WideStore<u128>) -> (r: Result<(), DispatchError>) {
        let mut total: u128 = 0;
        let mut i: usize = 0;
        while i < totals.entries.len()
            invariant
                i <= totals.entries@.len(),
                total as int == (if sum_units(totals.entries@.take(i as int)) >= 1000 { 1000 } else { sum_units(totals.entries@.take(i as int)) }),
            decreases totals.entries@.len() - i,
        {
            proof {
                let s = totals.entries@;
                assert(s.take(i + 1).drop_last() =~= s.take(i as int));
                lemma_sum_units_nonneg(s.take(i as int));
            }
            let u = totals.entries[i].1;
            if u >= 1000 || total + u >= 1000 {
                total = 1000;
            } else {
                total = total + u;
            }
            i = i + 1;
        }
        assert(totals.entries@.take(totals.entries@.len() as int) =~= totals.entries@);
        if total >= 1000 {
            Err(DispatchError::Other)
        } else {
            Ok(())
        }
    }
}

/// The test risk manager values units exactly.
pub proof fn lemma_mock_valuation_exact()
    ensures
        exact_valuation(MockRiskManager),
{
}

/// Sums of units are never negative.
pub proof fn lemma_sum_units_nonneg(s: Seq<(u128, u128)>)
    ensures
        sum_units(s) >= 0,
    decreases s.len(),
{
    if s.len() > 0 {
        lemma_sum_units_nonneg(s.drop_last());
    }
}

/// The units at `fee` in the totals (zero when absent).
pub open spec fn total_at(m: Map<u128, u128>, fee: u128) -> u128 {
    if m.dom().contains(fee) { m[fee] } else { 0 }
}

/// The result of an update of position `p`: the new position and the writes to the
/// units per fee (first the old fee, then the new one), or the first bound crossed.
pub open spec fn spec_update_writes<R: RiskManager>(
    risk: R,
    p: Position,
    totals: Map<u128, u128>,
    c: BalanceAdjustment,
    d: BalanceAdjustment,
    new_fee: Option<u128>,
) -> Result<(Position, Option<(u128, u128)>, Option<(u128, u128)>), ArithmeticError> {
    match c.spec_apply_to(p.collateral) {
        Err(e) => Err(e),
        Ok(nc) => {
            let prev = risk.units_to_value(p.debit.units, p.debit.stability_fee);
            match d.spec_apply_to(prev) {
                Err(e) => Err(e),
                Ok(nv) => match new_fee {
                    Some(nf) => {
                        let fee = p.debit.stability_fee;
                        let nu = risk.value_to_units(nv, nf);
                        match BalanceAdjustment::Decrease(p.debit.units).spec_apply_to(total_at(totals, fee)) {
                            Err(e) => Err(e),
                            Ok(t1) => {
                                let m1 = totals.insert(fee, t1);
                                match BalanceAdjustment::Increase(nu).spec_apply_to(total_at(m1, nf)) {
                                    Err(e) => Err(e),
                                    Ok(t2) => Ok((
                                        Position { collateral: nc, debit: Debit { units: nu, stability_fee: nf } },
                                        Some((fee, t1)),
                                        Some((nf, t2)),
                                    )),
                                }
                            },
                        }
                    },
                    None => {
                        let fee = p.debit.stability_fee;
                        let nu = risk.value_to_units(nv, fee);
                        let adj = if d is Increase {
                            BalanceAdjustment::Increase(if nu > p.debit.units { (nu - p.debit.units) as u128 } else { 0 })
                        } else {
                            BalanceAdjustment::Decrease(if p.debit.units > nu { (p.debit.units - nu) as u128 } else { 0 })
                        };
                        let np = Position { collateral: nc, debit: Debit { units: nu, stability_fee: fee } };
                        if adj.spec_amount() == 0 {
                            Ok((np, None, None))
                        } else {
                            match adj.spec_apply_to(total_at(totals, fee)) {
                                Err(e) => Err(e),
                                Ok(t) => Ok((np, Some((fee, t)), None)),
                            }
                        }
                    },
                },
            }
        },
    }
}

/// With a risk manager whose valuation is exact (units and value convert back and forth
/// unchanged), increasing a position by some collateral and debit value and then
/// decreasing it by the same amounts gives the position back, and the units per fee too.
pub proof fn lemma_update_loan_undo<R: RiskManager>(risk: R, p: Position, totals: Map<u128, u128>, c: u128, d: u128)
    requires
        forall|u: u128, f: u128| #[trigger] risk.value_to_units(risk.units_to_value(u, f), f) == u,
        forall|v: u128, f: u128| #[trigger] risk.units_to_value(risk.value_to_units(v, f), f) == v,
        spec_update_loan(risk, p, totals, BalanceAdjustment::Increase(c), BalanceAdjustment::Increase(d), None) is Ok,
    ensures
        ({
            let (np, nt) = spec_update_loan(risk, p, totals, BalanceAdjustment::Increase(c),
                BalanceAdjustment::Increase(d), None)->Ok_0;
            let back = spec_update_loan(risk, np, nt, BalanceAdjustment::Decrease(c), BalanceAdjustment::Decrease(d), None);
            &&& back is Ok
            &&& back->Ok_0.0 == p
            &&& forall|fee: u128| total_at(back->Ok_0.1, fee) == total_at(totals, fee)
        }),
{
    let f = p.debit.stability_fee;
    let prev = risk.units_to_value(p.debit.units, f);
    let nv = (prev + d) as u128;
    let nu = risk.value_to_units(nv, f);
    assert(risk.units_to_value(nu, f) == nv);
    assert(risk.value_to_units(prev, f) == p.debit.units);
}

/// The units of position `p` at stability fee `fee` (none unless it accrues at `fee`).
pub open spec fn units_at(p: Position, fee: u128) -> int {
    if p.debit.stability_fee == fee { p.debit.units as int } else { 0 }
}

/// The units of a position at `fee`, as a summand.
pub open spec fn units_at_fee(fee: u128) -> spec_fn(Position) -> int {
    |p: Position| units_at(p, fee)
}

/// A valuation of units that is exact on whole units and monotone in value: what the
/// bookkeeping of units per fee relies on.
pub open spec fn exact_valuation<R: RiskManager>(risk: R) -> bool {
    &&& forall|u: u128, f: u128| #[trigger] risk.value_to_units(risk.units_to_value(u, f), f) == u
    &&& forall|v1: u128, v2: u128, f: u128| v1 <= v2 ==> #[trigger] risk.value_to_units(v1, f) <= #[trigger] risk.value_to_units(v2, f)
}

/// Replacing the entry of `who` (or adding it) by `np`, or removing it when `np` holds
/// nothing, changes the units at every fee by the change of that position.
pub proof fn lemma_positions_sum_after(s0: Seq<(u64, Position)>, s1: Seq<(u64, Position)>, who: u64, np: Position)
    requires
        keys_distinct(s0),
        np.collateral == 0 && np.debit.units == 0 ==> (
            (has_key(s0, who) ==> exists|i: int| 0 <= i < s0.len() && s0[i].0 == who && s1 == s0.remove(i))
            && (!has_key(s0, who) ==> s1 == s0)),
        !(np.collateral == 0 && np.debit.units == 0) ==> (
            (has_key(s0, who) ==> exists|i: int| 0 <= i < s0.len() && s0[i].0 == who && s1 == s0.update(i, (who, np)))
            && (!has_key(s0, who) ==> s1 == s0.push((who, np)))),
    ensures
        forall|fee: u128| #[trigger] sum_values(s1, units_at_fee(fee))
            == sum_values(s0, units_at_fee(fee)) - units_at(position_in(entries_map(s0), who), fee)
                + units_at(read_back(np), fee),
{
    let p = position_in(entries_map(s0), who);
    if has_key(s0, who) {
        if np.collateral == 0 && np.debit.units == 0 {
            let i = choose|i: int| 0 <= i < s0.len() && s0[i].0 == who && s1 == s0.remove(i);
            lemma_entry_value(s0, i);
            assert forall|fee: u128| #[trigger] sum_values(s1, units_at_fee(fee))
                == sum_values(s0, units_at_fee(fee)) - units_at(p, fee) + units_at(read_back(np), fee) by {
                lemma_sum_remove(s0, units_at_fee(fee), i);
            }
        } else {
            let i = choose|i: int| 0 <= i < s0.len() && s0[i].0 == who && s1 == s0.update(i, (who, np));
            lemma_entry_value(s0, i);
            assert forall|fee: u128| #[trigger] sum_values(s1, units_at_fee(fee))
                == sum_values(s0, units_at_fee(fee)) - units_at(p, fee) + units_at(read_back(np), fee) by {
                lemma_sum_update(s0, units_at_fee(fee), i, (who, np));
            }
        }
    } else {
        assert(!entries_map(s0).dom().contains(who));
        assert forall|fee: u128| #[trigger] sum_values(s1, units_at_fee(fee))
            == sum_values(s0, units_at_fee(fee)) - units_at(p, fee) + units_at(read_back(np), fee) by {
            if !(np.collateral == 0 && np.debit.units == 0) {
                lemma_sum_push(s0, units_at_fee(fee), (who, np));
            }
        }
    }
}

/// The units of `p` move with the adjustment `d` of its debit value at its own fee: more
/// value gives no fewer units, less value no more.
pub open spec fn units_follow<R: RiskManager>(risk: R, p: Position, d: BalanceAdjustment) -> bool {
    let f = p.debit.stability_fee;
    match d.spec_apply_to(risk.units_to_value(p.debit.units, f)) {
        Err(_) => true,
        Ok(nv) => {
            let nu = risk.value_to_units(nv, f);
            (d is Increase ==> nu >= p.debit.units) && (d is Decrease ==> nu <= p.debit.units)
        },
    }
}

/// The units per stability fee follow the positions: an update that moves the position
/// to a new fee, whatever the valuation, and one that keeps its fee, where the units move
/// with the adjustment (as they do for a valuation that is monotone and exact on whole
/// units), moves the total at every fee by exactly the change of the position's units
/// there.
pub proof fn lemma_update_loan_tracks_units<R: RiskManager>(
    risk: R,
    p: Position,
    totals: Map<u128, u128>,
    c: BalanceAdjustment,
    d: BalanceAdjustment,
    new_fee: Option<u128>,
)
    requires
        new_fee is None ==> exact_valuation(risk) || units_follow(risk, p, d),
        spec_update_loan(risk, p, totals, c, d, new_fee) is Ok,
    ensures
        ({
            let (np, nt) = spec_update_loan(risk, p, totals, c, d, new_fee)->Ok_0;
            forall|fee: u128| #[trigger] total_at(nt, fee) + units_at(p, fee) == total_at(totals, fee) + units_at(np, fee)
        }),
{
    let f = p.debit.stability_fee;
    let prev = risk.units_to_value(p.debit.units, f);
    let nv = d.spec_apply_to(prev)->Ok_0;
    if new_fee is None && !units_follow(risk, p, d) {
        assert(risk.value_to_units(prev, f) == p.debit.units);
        let nu = risk.value_to_units(nv, f);
        if d is Increase {
            assert(prev <= nv);
            assert(risk.value_to_units(prev, f) <= risk.value_to_units(nv, f));
        } else {
            assert(nv <= prev);
            assert(risk.value_to_units(nv, f) <= risk.value_to_units(prev, f));
        }
    }
}

/// Transferring a loan empties its source: decreasing a position by all its collateral
/// and all its debit value leaves nothing, so the position is removed (for a risk manager
/// that values no debit as no units).
pub proof fn lemma_transfer_empties_source<R: RiskManager>(risk: R, loans: Pallet, from: u64)
    requires
        forall|f: u128| #[trigger] risk.value_to_units(0, f) == 0,
        ({
            let pf = loans.position_of(from);
            spec_update_writes(risk, pf, loans.totals_map(), BalanceAdjustment::Decrease(pf.collateral),
                BalanceAdjustment::Decrease(risk.units_to_value(pf.debit.units, pf.debit.stability_fee)), None) is Ok
        }),
    ensures
        ({
            let pf = loans.position_of(from);
            let np = spec_update_writes(risk, pf, loans.totals_map(), BalanceAdjustment::Decrease(pf.collateral),
                BalanceAdjustment::Decrease(risk.units_to_value(pf.debit.units, pf.debit.stability_fee)), None)->Ok_0.0;
            &&& np.collateral == 0 && np.debit.units == 0
            &&& !loans.positions_after(from, np).dom().contains(from)
        }),
{
    let pf = loans.position_of(from);
    assert(risk.value_to_units(0, pf.debit.stability_fee) == 0);
}

/// The result of an update of position `p`: the new position and the new units per
/// fee, or the first bound crossed.
pub open spec fn spec_update_loan<R: RiskManager>(
    risk: R,
    p: Position,
    totals: Map<u128, u128>,
    c: BalanceAdjustment,
    d: BalanceAdjustment,
    new_fee: Option<u128>,
) -> Result<(Position, Map<u128, u128>), ArithmeticError> {
    match spec_update_writes(risk, p, totals, c, d, new_fee) {
        Err(e) => Err(e),
        Ok((np, w1, w2)) => Ok((np, apply_write(apply_write(totals, w1), w2))),
    }
}

/// The checks a confiscation of `collateral` and `debit_value` from `who` makes before
/// anything moves: the collateral is on hold, the loans and treasury accounts can take
/// it, the system debit can grow by the debit value and the position can shrink.
pub open spec fn spec_confiscation_checks<R: RiskManager>(risk: R, loans: Pallet, treasury: cdp_treasury::Pallet,
    assets: Assets, who: u64, collateral: u128, debit_value: u128) -> bool
{
    let m = loans.account_id;
    let t = treasury.account_id;
    &&& assets.held(NATIVE, who) >= collateral
    &&& assets.free(NATIVE, m) + collateral <= u128::MAX
    &&& (m == t || assets.free(NATIVE, t) + collateral <= u128::MAX)
    &&& treasury.debit_pool + debit_value <= u128::MAX
    &&& spec_confiscation(risk, loans, who, collateral, debit_value) is Ok
}

/// Positions, units per stability fee, consumer references and events.
pub struct Pallet {
    pub positions: Store<Position>,
    pub total_debit_by_stability_fee: WideStore<u128>,
    pub consumers: Store<u32>,
    /// The account that receives confiscated collateral before it is liquidated.
    pub account_id: u64,
    pub events: Vec<Event>,
}

impl Pallet {
    pub open spec fn wf(&self) -> bool {
        &&& self.positions.wf()
        &&& self.total_debit_by_stability_fee.wf()
        &&& self.consumers.wf()
    }

    pub open spec fn positions_map(&self) -> Map<u64, Position> {
        self.positions.view_map()
    }

    pub open spec fn totals_map(&self) -> Map<u128, u128> {
        self.total_debit_by_stability_fee.view_map()
    }

    /// The position of `who` (the default when none is stored).
    pub open spec fn position_of(&self, who: u64) -> Position {
        if self.positions_map().dom().contains(who) { self.positions_map()[who] } else { spec_default_position() }
    }

    pub open spec fn consumers_of(&self, who: u64) -> u32 {
        if self.consumers.view_map().dom().contains(who) { self.consumers.view_map()[who] } else { 0 }
    }

    /// Every total per stability fee is the sum of the units of the positions at it.
    pub open spec fn totals_track_positions(&self) -> bool {
        forall|fee: u128| #[trigger] total_at(self.totals_map(), fee) == sum_values(self.positions.entries@, units_at_fee(fee))
    }

    /// The positions after `who`'s becomes `np`: removed when it holds nothing.
    pub open spec fn positions_after(&self, who: u64, np: Position) -> Map<u64, Position> {
        if np.collateral == 0 && np.debit.units == 0 {
            self.positions_map().remove(who)
        } else {
            self.positions_map().insert(who, np)
        }
    }

    /// No positions.
    pub fn new(account_id: u64) -> (r: Self)
        ensures
            r.wf(),
            r.positions_map() == Map::<u64, Position>::empty(),
            r.totals_map() == Map::<u128, u128>::empty(),
            r.account_id == account_id,
            r.events@.len() == 0,
            forall|w: u64| r.consumers_of(w) == 0,
            r.totals_track_positions(),
    {
        Pallet {
            positions: Store::new(),
            total_debit_by_stability_fee: WideStore::new(),
            consumers: Store::new(),
            account_id,
            events: Vec::new(),
        }
    }

    /// The account of the module.
    pub fn account_id(&self) -> (r: u64)
        ensures
            r == self.account_id,
    {
        self.account_id
    }

    /// The position of `who`.
    pub fn positions(&self, who: u64) -> (r: Position)
        requires
            self.wf(),
        ensures
            r == self.position_of(who),
    {
        match self.positions.get(who) {
            Some(p) => p,
            None => Position::default_position(),
        }
    }

    /// Whether `who` has a stored position.
    pub fn contains_position(&self, who: u64) -> (r: bool)
        requires
            self.wf(),
        ensures
            r == self.positions_map().dom().contains(who),
    {
        self.positions.get(who).is_some()
    }

    /// The units at `fee`.
    pub fn total_debit_by_stability_fee(&self, fee: u128) -> (r: u128)
        requires
            self.wf(),
        ensures
            r == total_at(self.totals_map(), fee),
    {
        match self.total_debit_by_stability_fee.get(fee) {
            Some(t) => t,
            None => 0,
        }
    }

    /// The consumer references of `who`.
    pub fn consumers(&self, who: u64) -> (r: u32)
        requires
            self.wf(),
        ensures
            r == self.consumers_of(who),
    {
        match self.consumers.get(who) {
            Some(c) => c,
            None => 0,
        }
    }

    fn add_consumer(&mut self, who: u64, up: bool)
        requires
            old(self).consumers.wf(),
        ensures
            final(self).consumers.wf(),
            final(self).positions == old(self).positions,
            final(self).total_debit_by_stability_fee == old(self).total_debit_by_stability_fee,
            final(self).account_id == old(self).account_id,
            final(self).events == old(self).events,
            forall|w: u64| w != who ==> final(self).consumers_of(w) == old(self).consumers_of(w),
            final(self).consumers_of(who) == (if up {
                if old(self).consumers_of(who) == u32::MAX { u32::MAX as int } else { old(self).consumers_of(who) + 1 }
            } else {
                if old(self).consumers_of(who) == 0 { 0 } else { old(self).consumers_of(who) - 1 }
            }),
    {
        let c = match self.consumers.get(who) {
            Some(c) => c,
            None => 0,
        };
        let n = if up { c.saturating_add(1) } else { c.saturating_sub(1) };
        self.consumers.insert(who, n);
    }

    /// The new position of `who` and the writes to the totals per fee, without changing anything.
    pub fn compute_update_loan<R: RiskManager>(
        &self,
        risk: &R,
        who: u64,
        collateral_adjustment: BalanceAdjustment,
        debit_value_adjustment: BalanceAdjustment,
        maybe_new_stability_fee: Option<u128>,
    ) -> (r: Result<(Position, Option<(u128, u128)>, Option<(u128, u128)>), ArithmeticError>)
        requires
            risk.risk_wf(),
            self.wf(),
        ensures
            r == spec_update_writes(*risk, self.position_of(who), self.totals_map(),
                collateral_adjustment, debit_value_adjustment, maybe_new_stability_fee),
    {
        let p = self.positions(who);
        let nc = match collateral_adjustment.apply_to(p.collateral) {
            Ok(v) => v,
            Err(e) => return Err(e),
        };
        let prev = risk.debit_units_to_value(p.debit.units, p.debit.stability_fee);
        let nv = match debit_value_adjustment.apply_to(prev) {
            Ok(v) => v,
            Err(e) => return Err(e),
        };
        let fee = p.debit.stability_fee;
        let t_old = self.total_debit_by_stability_fee(fee);
        match maybe_new_stability_fee {
            Some(nf) => {
                let nu = risk.value_to_debit_units(nv, nf);
                let t1 = match BalanceAdjustment::decrease(p.debit.units).apply_to(t_old) {
                    Ok(v) => v,
                    Err(e) => return Err(e),
                };
                let t_nf = if nf == fee { t1 } else { self.total_debit_by_stability_fee(nf) };
                let t2 = match BalanceAdjustment::increase(nu).apply_to(t_nf) {
                    Ok(v) => v,
                    Err(e) => return Err(e),
                };
                Ok((Position { collateral: nc, debit: Debit { units: nu, stability_fee: nf } }, Some((fee, t1)), Some((nf, t2))))
            },
            None => {
                let nu = risk.value_to_debit_units(nv, fee);
                let adj = if debit_value_adjustment.is_increase() {
                    BalanceAdjustment::increase(nu.saturating_sub(p.debit.units))
                } else {
                    BalanceAdjustment::decrease(p.debit.units.saturating_sub(nu))
                };
                let np = Position { collateral: nc, debit: Debit { units: nu, stability_fee: fee } };
                if adj.is_zero() {
                    Ok((np, None, None))
                } else {
                    let t = match adj.apply_to(t_old) {
                        Ok(v) => v,
                        Err(e) => return Err(e),
                    };
                    Ok((np, Some((fee, t)), None))
                }
            },
        }
    }

    fn write_total(&mut self, w: Option<(u128, u128)>)
        requires
            old(self).wf(),
        ensures
            final(self).wf(),
            final(self).totals_map() == apply_write(old(self).totals_map(), w),
            final(self).total_debit_by_stability_fee.entries@ == write_entries(old(self).total_debit_by_stability_fee.entries@, w),
            final(self).positions == old(self).positions,
            final(self).consumers == old(self).consumers,
            final(self).account_id == old(self).account_id,
            final(self).events == old(self).events,
    {
        if let Some((f, t)) = w {
            self.total_debit_by_stability_fee.insert(f, t);
        }
    }

    /// Adjust the collateral and the debit value of `who`'s position.  With a new
    /// stability fee the debit is moved to it (its units re-valued); otherwise the units
    /// of the current fee change.  The totals per fee follow the units.  Opening a
    /// position adds a consumer reference, removing it drops one.
    pub fn update_loan<R: RiskManager>(
        &mut self,
        risk: &R,
        who: u64,
        collateral_adjustment: BalanceAdjustment,
        debit_value_adjustment: BalanceAdjustment,
        maybe_new_stability_fee: Option<u128>,
    ) -> (r: Result<(), DispatchError>)
        requires
            risk.risk_wf(),
            old(self).wf(),
        ensures
            final(self).wf(),
            final(self).account_id == old(self).account_id,
            ({
                let res = spec_update_loan(*risk, old(self).position_of(who), old(self).totals_map(),
                    collateral_adjustment, debit_value_adjustment, maybe_new_stability_fee);
                &&& r == (match res { Err(e) => Err::<(), DispatchError>(DispatchError::Arithmetic(e)), Ok(_) => Ok(()) })
                &&& res is Err ==> final(self).positions_map() == old(self).positions_map()
                    && final(self).totals_map() == old(self).totals_map()
                    && final(self).events@ == old(self).events@
                    && (forall|w: u64| final(self).consumers_of(w) == old(self).consumers_of(w))
                &&& res matches Ok((np, nt)) ==> loan_updated(*old(self), *final(self), who, np, nt)
                    && final(self).events@ == old(self).events@.push(Event::PositionUpdated {
                        owner: who, collateral_adjustment, debit_value_adjustment })
                &&& res is Err ==> final(self).total_debit_by_stability_fee == old(self).total_debit_by_stability_fee
            }),
            spec_update_writes(*risk, old(self).position_of(who), old(self).totals_map(), collateral_adjustment,
                debit_value_adjustment, maybe_new_stability_fee) matches Ok((np, w1, w2))
                ==> final(self).total_debit_by_stability_fee.entries@
                    == write_entries(write_entries(old(self).total_debit_by_stability_fee.entries@, w1), w2),
            (exact_valuation(*risk) || maybe_new_stability_fee is Some
                || units_follow(*risk, old(self).position_of(who), debit_value_adjustment))
                && old(self).totals_track_positions() ==> final(self).totals_track_positions(),
    {
        let (np, w1, w2) = match self.compute_update_loan(risk, who, collateral_adjustment, debit_value_adjustment, maybe_new_stability_fee) {
            Ok(v) => v,
            Err(e) => return Err(DispatchError::Arithmetic(e)),
        };
        let ghost m0 = self.positions_map();
        let ghost st0 = *self;
        if !self.contains_position(who) {
            self.add_consumer(who, true);
        }
        self.write_total(w1);
        self.write_total(w2);
        let ghost st1 = *self;
        assert(self.positions_map() == m0);
        let ghost e0 = self.positions.entries@;
        if np.collateral == 0 && np.debit.units == 0 {
            self.add_consumer(who, false);
            self.positions.remove(who);
        } else {
            self.positions.insert(who, np);
        }
        proof {
            lemma_positions_sum_after(e0, self.positions.entries@, who, np);
            if (exact_valuation(*risk) || maybe_new_stability_fee is Some
                || units_follow(*risk, old(self).position_of(who), debit_value_adjustment))
                && old(self).totals_track_positions() {
                lemma_update_loan_tracks_units(*risk, old(self).position_of(who), old(self).totals_map(),
                    collateral_adjustment, debit_value_adjustment, maybe_new_stability_fee);
                let p = old(self).position_of(who);
                let nt = spec_update_loan(*risk, p, old(self).totals_map(), collateral_adjustment,
                    debit_value_adjustment, maybe_new_stability_fee)->Ok_0.1;
                assert(e0 == old(self).positions.entries@);
                assert(position_in(entries_map(e0), who) == p);
                assert(self.totals_map() == nt);
                assert forall|fee: u128| #[trigger] total_at(self.totals_map(), fee)
                    == sum_values(self.positions.entries@, units_at_fee(fee)) by {
                    assert(total_at(old(self).totals_map(), fee) == sum_values(e0, units_at_fee(fee)));
                    assert(units_at(read_back(np), fee) == units_at(np, fee));
                    assert(total_at(nt, fee) + units_at(p, fee) == total_at(old(self).totals_map(), fee) + units_at(np, fee));
                }
            }
        }
        assert(self.positions_map() == old(self).positions_after(who, np));
        let ghost st2 = *self;
        self.events.push(Event::PositionUpdated { owner: who, collateral_adjustment, debit_value_adjustment });
        assert forall|w: u64| w != who implies #[trigger] self.consumers_of(w) == old(self).consumers_of(w) by {
            assert(self.consumers_of(w) == st2.consumers_of(w));
            assert(st2.consumers_of(w) == st1.consumers_of(w));
            assert(st1.consumers_of(w) == st0.consumers_of(w));
            assert(st0.consumers_of(w) == old(self).consumers_of(w));
        }
        Ok(())
    }
}

/// `new` is `old` after `who`'s position became `np` and the totals per fee `nt`: an
/// emptied position is removed, a consumer reference is added for a new position and
/// dropped for a removed one.
pub open spec fn loan_updated(old: Pallet, new: Pallet, who: u64, np: Position, nt: Map<u128, u128>) -> bool {
    &&& new.positions_map() == old.positions_after(who, np)
    &&& new.totals_map() == nt
    &&& forall|w: u64| w != who ==> new.consumers_of(w) == old.consumers_of(w)
    &&& new.consumers_of(who) == ({
        let c0 = old.consumers_of(who);
        let c1: int = if !old.positions_map().dom().contains(who) {
            if c0 == u32::MAX { c0 as int } else { c0 + 1 }
        } else {
            c0 as int
        };
        if np.collateral == 0 && np.debit.units == 0 { if c1 == 0 { 0 } else { c1 - 1 } } else { c1 }
    })
}

/// The entries of the totals after an optional write.
pub open spec fn write_entries(s: Seq<(u128, u128)>, w: Option<(u128, u128)>) -> Seq<(u128, u128)> {
    match w {
        Some((f, t)) => wide_set(s, f, t),
        None => s,
    }
}

/// The position read back after it became `np` (an emptied position reads as the default).
pub open spec fn read_back(np: Position) -> Position {
    if np.collateral == 0 && np.debit.units == 0 { spec_default_position() } else { np }
}

/// Whether `adjust_position` succeeds: the update is in bounds, the collateral can be
/// held or released, the debit cap holds for more debit and the stable coin can be
/// issued or burned, and the resulting position passes the risk check.
pub open spec fn adjust_ok<R: RiskManager>(
    risk: R,
    loans: Pallet,
    assets: Assets,
    who: u64,
    c: BalanceAdjustment,
    d: BalanceAdjustment,
    new_fee: Option<u128>,
) -> bool {
    adjust_ok_with(risk, loans, who, c, d, new_fee, assets.free(NATIVE, who) as int, assets.held(NATIVE, who) as int,
        assets.free(STABLE, who) as int, assets.stable.issuance as int)
}

/// `adjust_ok` for the balances of `who` given one by one: free and held collateral,
/// free stable coin, and the stable coin issued.
pub open spec fn adjust_ok_with<R: RiskManager>(
    risk: R,
    loans: Pallet,
    who: u64,
    c: BalanceAdjustment,
    d: BalanceAdjustment,
    new_fee: Option<u128>,
    free_n: int,
    held_n: int,
    free_s: int,
    issuance: int,
) -> bool {
    match spec_update_writes(risk, loans.position_of(who), loans.totals_map(), c, d, new_fee) {
        Err(_) => false,
        Ok((np, w1, w2)) => {
            &&& match c {
                BalanceAdjustment::Increase(a) => free_n >= a && held_n + a <= u128::MAX,
                BalanceAdjustment::Decrease(a) => held_n >= a && free_n + a <= u128::MAX,
            }
            &&& match d {
                BalanceAdjustment::Increase(a) => risk.cap_ok(write_entries(write_entries(loans.total_debit_by_stability_fee.entries@, w1), w2))
                    && issuance + a <= u128::MAX && free_s + a <= u128::MAX,
                BalanceAdjustment::Decrease(a) => free_s >= a,
            }
            &&& risk.position_ok(read_back(np).collateral, read_back(np).debit.units, read_back(np).debit.stability_fee, true)
        },
    }
}

/// The state of `loans` after `who`'s position became `np` with the totals per fee `nt`
/// (used to describe the middle of a transfer).
pub open spec fn position_after_write(loans: Pallet, who: u64, np: Position, w1: Option<(u128, u128)>, w2: Option<(u128, u128)>)
    -> (Map<u64, Position>, Map<u128, u128>) {
    (loans.positions_after(who, np), apply_write(apply_write(loans.totals_map(), w1), w2))
}

/// The position of `who` in a map of positions (the default when absent).
pub open spec fn position_in(m: Map<u64, Position>, who: u64) -> Position {
    if m.dom().contains(who) { m[who] } else { spec_default_position() }
}

/// The totals after an optional write.
pub open spec fn apply_write(m: Map<u128, u128>, w: Option<(u128, u128)>) -> Map<u128, u128> {
    match w {
        Some((f, t)) => m.insert(f, t),
        None => m,
    }
}


/// What is left of `amount` after `taken` (nothing when all was taken).
pub open spec fn left_over(amount: u128, taken: u128) -> u128 {
    if amount > taken { (amount - taken) as u128 } else { 0 }
}

/// The effect of a confiscation on the position of `who`.
pub open spec fn spec_confiscation<R: RiskManager>(risk: R, loans: Pallet, who: u64, collateral: u128, debit_value: u128)
    -> Result<(Position, Map<u128, u128>), ArithmeticError> {
    spec_update_loan(risk, loans.position_of(who), loans.totals_map(),
        BalanceAdjustment::Decrease(collateral), BalanceAdjustment::Decrease(debit_value), Option::<u128>::None)
}

/// The error of the rest of a confiscation, once the liquidation took `liquidated`
/// collateral and covered `covered` debit value, if any step fails.
pub open spec fn settle_error<R: RiskManager>(
    risk: R,
    loans: Pallet,
    treasury: cdp_treasury::Pallet,
    assets: Assets,
    who: u64,
    collateral: u128,
    debit_value: u128,
    liquidated: u128,
    covered: u128,
) -> Option<DispatchError> {
    let rc = left_over(collateral, liquidated);
    let rd = left_over(debit_value, covered);
    let m = loans.account_id;
    let t = treasury.account_id;
    if rc > 0 && assets.free(NATIVE, m) < rc {
        Some(DispatchError::Token(TokenError::FundsUnavailable))
    } else if rc > 0 && m != t && assets.free(NATIVE, t) + rc > u128::MAX {
        Some(DispatchError::Token(TokenError::Overflow))
    } else if rd > 0 && treasury.debit_pool + rd > u128::MAX {
        Some(DispatchError::Arithmetic(ArithmeticError::Overflow))
    } else {
        match spec_confiscation(risk, loans, who, collateral, debit_value) {
            Err(e) => Some(DispatchError::Arithmetic(e)),
            Ok(_) => None,
        }
    }
}

impl Pallet {
    /// The rest of a confiscation of `collateral` and `debit_value` from `who`, once the
    /// liquidation took `liquidated` collateral and covered `covered` debit value: the
    /// collateral left goes from the loans account to the treasury, the debit left
    /// becomes system debit, the position shrinks by both, and the event is recorded.
    /// All or nothing.
    pub fn settle_confiscation<R: RiskManager>(
        &mut self,
        risk: &R,
        treasury: &mut cdp_treasury::Pallet,
        assets: &mut Assets,
        who: u64,
        collateral: u128,
        debit_value: u128,
        liquidated: u128,
        covered: u128,
    ) -> (r: Result<(), DispatchError>)
        requires
            risk.risk_wf(),
            old(self).wf(),
            old(assets).wf(),
        ensures
            exact_valuation(*risk) && old(self).totals_track_positions() ==> final(self).totals_track_positions(),
            final(self).wf(),
            final(assets).wf(),
            final(self).account_id == old(self).account_id,
            final(treasury).account_id == old(treasury).account_id,
            final(treasury).events@ == old(treasury).events@,
            ({
                let err = settle_error(*risk, *old(self), *old(treasury), *old(assets), who, collateral, debit_value, liquidated, covered);
                let rc = left_over(collateral, liquidated);
                let rd = left_over(debit_value, covered);
                let m = old(self).account_id;
                let t = old(treasury).account_id;
                &&& r is Err <==> err is Some
                &&& err matches Some(e) ==> r == Err::<(), DispatchError>(e)
                    && final(self).positions_map() == old(self).positions_map()
                    && final(self).totals_map() == old(self).totals_map()
                    && final(self).events@ == old(self).events@
                    && (forall|w: u64| final(self).consumers_of(w) == old(self).consumers_of(w))
                    && *final(assets) == *old(assets)
                    && final(treasury).debit_pool == old(treasury).debit_pool
                &&& r is Ok ==> ({
                    let (np, nt) = spec_confiscation(*risk, *old(self), who, collateral, debit_value)->Ok_0;
                    &&& loan_updated(*old(self), *final(self), who, np, nt)
                    &&& final(self).events@ == old(self).events@
                        .push(Event::PositionUpdated {
                            owner: who,
                            collateral_adjustment: BalanceAdjustment::Decrease(collateral),
                            debit_value_adjustment: BalanceAdjustment::Decrease(debit_value) })
                        .push(Event::ConfiscateCollateralAndDebit {
                            owner: who, confiscated_collateral_amount: collateral, deduct_debit_value: debit_value })
                    &&& final(treasury).debit_pool == old(treasury).debit_pool + rd
                    &&& final(assets).stable == old(assets).stable
                    &&& m != t ==> final(assets).free(NATIVE, m) == old(assets).free(NATIVE, m) - rc
                        && final(assets).free(NATIVE, t) == old(assets).free(NATIVE, t) + rc
                    &&& forall|w: u64| w != m && w != t ==> final(assets).free(NATIVE, w) == old(assets).free(NATIVE, w)
                    &&& forall|w: u64| final(assets).held(NATIVE, w) == old(assets).held(NATIVE, w)
                })
            }),
    {
        let rc = if collateral > liquidated { collateral - liquidated } else { 0 };
        let rd = if debit_value > covered { debit_value - covered } else { 0 };
        let m = self.account_id;
        let t = treasury.account_id();
        if rc > 0 {
            if assets.balance(NATIVE, m) < rc {
                return Err(DispatchError::Token(TokenError::FundsUnavailable));
            }
            if m != t && assets.balance(NATIVE, t).checked_add(rc).is_none() {
                return Err(DispatchError::Token(TokenError::Overflow));
            }
        }
        if rd > 0 && treasury.debit_pool().checked_add(rd).is_none() {
            return Err(DispatchError::Arithmetic(ArithmeticError::Overflow));
        }
        match self.compute_update_loan(risk, who, BalanceAdjustment::decrease(collateral),
            BalanceAdjustment::decrease(debit_value), None) {
            Ok(_) => {},
            Err(e) => return Err(DispatchError::Arithmetic(e)),
        }
        if rc > 0 {
            let d = treasury.deposit_collateral(assets, m, rc);
            assert(d is Ok);
        }
        if rd > 0 {
            let o = treasury.on_system_debit(rd);
            assert(o is Ok);
        }
        let u = self.update_loan(risk, who, BalanceAdjustment::decrease(collateral),
            BalanceAdjustment::decrease(debit_value), None);
        assert(u is Ok);
        self.events.push(Event::ConfiscateCollateralAndDebit {
            owner: who,
            confiscated_collateral_amount: collateral,
            deduct_debit_value: debit_value,
        });
        Ok(())
    }
}


impl Pallet {
    /// Confiscate `collateral_confiscate` of `who`'s collateral and `debit_value_to_cover`
    /// of its debit value: the collateral moves from `who`'s hold to the loans account,
    /// `liquidator` is offered it, what it does not take goes to the treasury and the
    /// debit it does not cover becomes system debit; the position shrinks by both.
    /// Every step after the liquidation is checked before it, so a failure anywhere leaves
    /// the position, the balances and the system debit as they were.
    pub fn confiscate_collateral_and_debit<R: RiskManager, L: LiquidationTarget>(
        &mut self,
        risk: &R,
        liquidator: &mut L,
        treasury: &mut cdp_treasury::Pallet,
        assets: &mut Assets,
        who: u64,
        collateral_confiscate: u128,
        debit_value_to_cover: u128,
    ) -> (r: Result<(), DispatchError>)
        requires
            old(liquidator).liquidator_wf(),
            risk.risk_wf(),
            old(self).wf(),
            old(assets).wf(),
        ensures
            exact_valuation(*risk) && old(self).totals_track_positions() ==> final(self).totals_track_positions(),
            final(self).wf(),
            final(assets).wf(),
            final(self).account_id == old(self).account_id,
            final(treasury).account_id == old(treasury).account_id,
            final(treasury).events@ == old(treasury).events@,
            ({
                let m = old(self).account_id;
                let t = old(treasury).account_id;
                let upd = spec_confiscation(*risk, *old(self), who, collateral_confiscate, debit_value_to_cover);
                let checks = spec_confiscation_checks(*risk, *old(self), *old(treasury), *old(assets), who,
                    collateral_confiscate, debit_value_to_cover);
                &&& old(assets).held(NATIVE, who) < collateral_confiscate
                    ==> r == Err::<(), DispatchError>(DispatchError::Token(TokenError::Frozen))
                &&& old(assets).held(NATIVE, who) >= collateral_confiscate
                    && old(assets).free(NATIVE, m) + collateral_confiscate > u128::MAX
                    ==> r == Err::<(), DispatchError>(DispatchError::Token(TokenError::Overflow))
                &&& !checks ==> r is Err
                &&& r is Err ==> final(self).positions_map() == old(self).positions_map()
                    && final(self).totals_map() == old(self).totals_map()
                    && final(self).events@ == old(self).events@
                    && (forall|w: u64| final(self).consumers_of(w) == old(self).consumers_of(w))
                    && final(assets).same(*old(assets))
                    && final(treasury).debit_pool == old(treasury).debit_pool
                &&& r is Ok ==> checks
                    && loan_updated(*old(self), *final(self), who, upd->Ok_0.0, upd->Ok_0.1)
                    && final(self).events@ == old(self).events@
                        .push(Event::PositionUpdated {
                            owner: who,
                            collateral_adjustment: BalanceAdjustment::Decrease(collateral_confiscate),
                            debit_value_adjustment: BalanceAdjustment::Decrease(debit_value_to_cover) })
                        .push(Event::ConfiscateCollateralAndDebit {
                            owner: who,
                            confiscated_collateral_amount: collateral_confiscate,
                            deduct_debit_value: debit_value_to_cover })
                    && final(assets).held(NATIVE, who) == old(assets).held(NATIVE, who) - collateral_confiscate
                    && (forall|w: u64| w != who ==> final(assets).held(NATIVE, w) == old(assets).held(NATIVE, w))
                &&& checks && old(liquidator).takes_nothing() ==> r is Ok
                    && final(treasury).debit_pool == old(treasury).debit_pool + debit_value_to_cover
                    && (m != t ==> final(assets).free(NATIVE, t) == old(assets).free(NATIVE, t) + collateral_confiscate
                        && final(assets).free(NATIVE, m) == old(assets).free(NATIVE, m))
                    && (forall|w: u64| w != m && w != t ==> final(assets).free(NATIVE, w) == old(assets).free(NATIVE, w))
                    && final(assets).stable == old(assets).stable
            }),
    {
        let m = self.account_id;
        let t = treasury.account_id();
        if assets.balance_on_hold(NATIVE, who) < collateral_confiscate {
            return Err(DispatchError::Token(TokenError::Frozen));
        }
        if assets.balance(NATIVE, m).checked_add(collateral_confiscate).is_none() {
            return Err(DispatchError::Token(TokenError::Overflow));
        }
        if m != t && assets.balance(NATIVE, t).checked_add(collateral_confiscate).is_none() {
            return Err(DispatchError::Token(TokenError::Overflow));
        }
        if treasury.debit_pool().checked_add(debit_value_to_cover).is_none() {
            return Err(DispatchError::Arithmetic(ArithmeticError::Overflow));
        }
        match self.compute_update_loan(risk, who, BalanceAdjustment::decrease(collateral_confiscate),
            BalanceAdjustment::decrease(debit_value_to_cover), None) {
            Ok(_) => {},
            Err(e) => return Err(DispatchError::Arithmetic(e)),
        }
        let saved = assets.duplicate();
        let h = assets.transfer_on_hold(NATIVE, who, m, collateral_confiscate);
        assert(h is Ok);
        let ghost a1 = *assets;
        let ghost p1 = treasury.debit_pool;
        match liquidator.liquidate(assets, treasury, m, NATIVE, collateral_confiscate, debit_value_to_cover) {
            Err(e) => {
                *assets = saved;
                Err(e)
            },
            Ok((liquidated, covered)) => {
                assert(assets.free(NATIVE, m) + liquidated >= a1.free(NATIVE, m));
                assert(a1.free(NATIVE, t) == old(assets).free(NATIVE, t) || m == t);
                let s = self.settle_confiscation(risk, treasury, assets, who, collateral_confiscate,
                    debit_value_to_cover, liquidated, covered);
                assert(s is Ok);
                Ok(())
            },
        }
    }
}


impl Pallet {
    /// Adjust `who`'s position and move the balances: collateral put on hold (more) or
    /// released (less), stable coin issued within the debit cap (more debit) or burned
    /// (less); the resulting position must pass the risk check.  All or nothing.
    pub fn adjust_position<R: RiskManager>(
        &mut self,
        risk: &R,
        treasury: &mut cdp_treasury::Pallet,
        assets: &mut Assets,
        who: u64,
        collateral_adjustment: BalanceAdjustment,
        debit_value_adjustment: BalanceAdjustment,
        maybe_new_stability_fee: Option<u128>,
    ) -> (r: Result<(), DispatchError>)
        requires
            risk.risk_wf(),
            old(self).wf(),
            old(assets).wf(),
        ensures
            (exact_valuation(*risk) || maybe_new_stability_fee is Some
                || units_follow(*risk, old(self).position_of(who), debit_value_adjustment))
                && old(self).totals_track_positions() ==> final(self).totals_track_positions(),
            final(self).wf(),
            final(assets).wf(),
            final(self).account_id == old(self).account_id,
            final(treasury).debit_pool == old(treasury).debit_pool,
            final(treasury).account_id == old(treasury).account_id,
            final(treasury).events@ == old(treasury).events@,
            ({
                let res = spec_update_writes(*risk, old(self).position_of(who), old(self).totals_map(),
                    collateral_adjustment, debit_value_adjustment, maybe_new_stability_fee);
                &&& r is Ok <==> adjust_ok(*risk, *old(self), *old(assets), who,
                    collateral_adjustment, debit_value_adjustment, maybe_new_stability_fee)
                &&& res matches Err(e) ==> r == Err::<(), DispatchError>(DispatchError::Arithmetic(e))
                &&& r is Err ==> final(self).positions_map() == old(self).positions_map()
                    && final(self).totals_map() == old(self).totals_map()
                    && final(self).total_debit_by_stability_fee == old(self).total_debit_by_stability_fee
                    && final(self).events@ == old(self).events@
                    && (forall|w: u64| final(self).consumers_of(w) == old(self).consumers_of(w))
                    && *final(assets) == *old(assets)
                &&& r is Ok ==> ({
                    let (np, w1, w2) = res->Ok_0;
                    &&& loan_updated(*old(self), *final(self), who, np, apply_write(apply_write(old(self).totals_map(), w1), w2))
                    &&& final(self).total_debit_by_stability_fee.entries@
                        == write_entries(write_entries(old(self).total_debit_by_stability_fee.entries@, w1), w2)
                    &&& final(self).events@ == old(self).events@.push(Event::PositionUpdated {
                        owner: who, collateral_adjustment, debit_value_adjustment })
                    &&& final(assets).free(NATIVE, who) == (match collateral_adjustment {
                        BalanceAdjustment::Increase(a) => old(assets).free(NATIVE, who) - a,
                        BalanceAdjustment::Decrease(a) => old(assets).free(NATIVE, who) + a,
                    })
                    &&& final(assets).held(NATIVE, who) == (match collateral_adjustment {
                        BalanceAdjustment::Increase(a) => old(assets).held(NATIVE, who) + a,
                        BalanceAdjustment::Decrease(a) => old(assets).held(NATIVE, who) - a,
                    })
                    &&& final(assets).free(STABLE, who) == (match debit_value_adjustment {
                        BalanceAdjustment::Increase(a) => old(assets).free(STABLE, who) + a,
                        BalanceAdjustment::Decrease(a) => old(assets).free(STABLE, who) - a,
                    })
                    &&& forall|w: u64| w != who ==> final(assets).free(NATIVE, w) == old(assets).free(NATIVE, w)
                        && final(assets).held(NATIVE, w) == old(assets).held(NATIVE, w)
                        && final(assets).free(STABLE, w) == old(assets).free(STABLE, w)
                })
            }),
    {
        let (np, w1, w2) = match self.compute_update_loan(risk, who, collateral_adjustment,
            debit_value_adjustment, maybe_new_stability_fee) {
            Ok(v) => v,
            Err(e) => return Err(DispatchError::Arithmetic(e)),
        };
        let free_n = assets.balance(NATIVE, who);
        let held_n = assets.balance_on_hold(NATIVE, who);
        match collateral_adjustment {
            BalanceAdjustment::Increase(a) => {
                if free_n < a {
                    return Err(DispatchError::Token(TokenError::FundsUnavailable));
                }
                if held_n.checked_add(a).is_none() {
                    return Err(DispatchError::Token(TokenError::Overflow));
                }
            },
            BalanceAdjustment::Decrease(a) => {
                if held_n < a {
                    return Err(DispatchError::Token(TokenError::FundsUnavailable));
                }
                if free_n.checked_add(a).is_none() {
                    return Err(DispatchError::Token(TokenError::Overflow));
                }
            },
        }
        let free_s = assets.balance(STABLE, who);
        match debit_value_adjustment {
            BalanceAdjustment::Increase(a) => {
                let mut totals = self.total_debit_by_stability_fee.duplicate();
                if let Some((f, t)) = w1 {
                    totals.insert(f, t);
                }
                if let Some((f, t)) = w2 {
                    totals.insert(f, t);
                }
                match risk.check_debit_cap(&totals) {
                    Ok(()) => {},
                    Err(e) => return Err(e),
                }
                if assets.total_issuance(STABLE).checked_add(a).is_none() || free_s.checked_add(a).is_none() {
                    return Err(DispatchError::Token(TokenError::Overflow));
                }
            },
            BalanceAdjustment::Decrease(a) => {
                if free_s < a {
                    return Err(DispatchError::Token(TokenError::FundsUnavailable));
                }
            },
        }
        let fp = if np.collateral == 0 && np.debit.units == 0 { Position::default_position() } else { np };
        match risk.check_position_valid(fp.collateral, fp.debit.units, fp.debit.stability_fee, true) {
            Ok(()) => {},
            Err(e) => return Err(e),
        }
        let u = self.update_loan(risk, who, collateral_adjustment, debit_value_adjustment, maybe_new_stability_fee);
        assert(u is Ok);
        match collateral_adjustment {
            BalanceAdjustment::Increase(a) => {
                let h = assets.hold(NATIVE, who, a);
                assert(h is Ok);
            },
            BalanceAdjustment::Decrease(a) => {
                let h = assets.release(NATIVE, who, a);
                assert(h is Ok);
            },
        }
        match debit_value_adjustment {
            BalanceAdjustment::Increase(a) => {
                let i = treasury.issue_debit(assets, who, a, true);
                assert(i is Ok);
            },
            BalanceAdjustment::Decrease(a) => {
                let b = treasury.burn_debit(assets, who, a);
                assert(b is Ok);
            },
        }
        Ok(())
    }
}


impl Pallet {
    /// A copy of the state, entry for entry.
    pub fn duplicate(&self) -> (r: Self)
        ensures
            r.positions.entries@ == self.positions.entries@,
            r.total_debit_by_stability_fee.entries@ == self.total_debit_by_stability_fee.entries@,
            r.consumers.entries@ == self.consumers.entries@,
            r.account_id == self.account_id,
            r.events@ == self.events@,
    {
        Pallet {
            positions: self.positions.duplicate(),
            total_debit_by_stability_fee: self.total_debit_by_stability_fee.duplicate(),
            consumers: self.consumers.duplicate(),
            account_id: self.account_id,
            events: copy_vec(&self.events),
        }
    }

    /// Move the whole position of `from` (collateral and debit value) to `to`, when the
    /// position of `to` then passes the risk check.  All or nothing.
    pub fn transfer_loan<R: RiskManager>(&mut self, risk: &R, from: u64, to: u64) -> (r: Result<(), DispatchError>)
        requires
            risk.risk_wf(),
            old(self).wf(),
        ensures
            exact_valuation(*risk) && old(self).totals_track_positions() ==> final(self).totals_track_positions(),
            final(self).wf(),
            final(self).account_id == old(self).account_id,
            ({
                let pf = old(self).position_of(from);
                let v = risk.units_to_value(pf.debit.units, pf.debit.stability_fee);
                let r1 = spec_update_writes(*risk, pf, old(self).totals_map(),
                    BalanceAdjustment::Decrease(pf.collateral), BalanceAdjustment::Decrease(v), Option::<u128>::None);
                let (m1, t1) = position_after_write(*old(self), from, r1->Ok_0.0, r1->Ok_0.1, r1->Ok_0.2);
                let r2 = spec_update_writes(*risk, position_in(m1, to), t1,
                    BalanceAdjustment::Increase(pf.collateral), BalanceAdjustment::Increase(v), Option::<u128>::None);
                let fp = read_back(r2->Ok_0.0);
                let ok = r1 is Ok && r2 is Ok && risk.position_ok(fp.collateral, fp.debit.units, fp.debit.stability_fee, true);
                &&& r is Ok <==> ok
                &&& r1 matches Err(e) ==> r == Err::<(), DispatchError>(DispatchError::Arithmetic(e))
                &&& r1 is Ok ==> (r2 matches Err(e) ==> r == Err::<(), DispatchError>(DispatchError::Arithmetic(e)))
                &&& r is Err ==> final(self).positions_map() == old(self).positions_map()
                    && final(self).totals_map() == old(self).totals_map()
                    && final(self).events@ == old(self).events@
                    && (forall|w: u64| final(self).consumers_of(w) == old(self).consumers_of(w))
                &&& r is Ok ==> (exists|mid: Pallet|
                        loan_updated(*old(self), mid, from, r1->Ok_0.0, t1)
                        && #[trigger] loan_updated(mid, *final(self), to, r2->Ok_0.0,
                            apply_write(apply_write(t1, r2->Ok_0.1), r2->Ok_0.2)))
                    && final(self).events@ == old(self).events@
                        .push(Event::PositionUpdated {
                            owner: from,
                            collateral_adjustment: BalanceAdjustment::Decrease(pf.collateral),
                            debit_value_adjustment: BalanceAdjustment::Decrease(v) })
                        .push(Event::PositionUpdated {
                            owner: to,
                            collateral_adjustment: BalanceAdjustment::Increase(pf.collateral),
                            debit_value_adjustment: BalanceAdjustment::Increase(v) })
                        .push(Event::TransferLoan { from, to })
            }),
    {
        let pf = self.positions(from);
        let v = risk.debit_units_to_value(pf.debit.units, pf.debit.stability_fee);
        let saved = self.duplicate();
        match self.update_loan(risk, from, BalanceAdjustment::decrease(pf.collateral), BalanceAdjustment::decrease(v), None) {
            Ok(()) => {},
            Err(e) => return Err(e),
        }
        let ghost mid = *self;
        assert(mid.positions_map() == old(self).positions_after(from,
            spec_update_writes(*risk, pf, old(self).totals_map(), BalanceAdjustment::Decrease(pf.collateral),
                BalanceAdjustment::Decrease(v), Option::<u128>::None)->Ok_0.0));
        assert(mid.position_of(to) == position_in(mid.positions_map(), to));
        match self.update_loan(risk, to, BalanceAdjustment::increase(pf.collateral), BalanceAdjustment::increase(v), None) {
            Ok(()) => {},
            Err(e) => {
                *self = saved;
                return Err(e);
            },
        }
        let pt = self.positions(to);
        match risk.check_position_valid(pt.collateral, pt.debit.units, pt.debit.stability_fee, true) {
            Ok(()) => {},
            Err(e) => {
                *self = saved;
                return Err(e);
            },
        }
        self.events.push(Event::TransferLoan { from, to });
        proof {
            let r1 = spec_update_writes(*risk, pf, old(self).totals_map(),
                BalanceAdjustment::Decrease(pf.collateral), BalanceAdjustment::Decrease(v), Option::<u128>::None);
            let (m1, t1) = position_after_write(*old(self), from, r1->Ok_0.0, r1->Ok_0.1, r1->Ok_0.2);
            let r2 = spec_update_writes(*risk, position_in(m1, to), t1,
                BalanceAdjustment::Increase(pf.collateral), BalanceAdjustment::Increase(v), Option::<u128>::None);
            assert(loan_updated(*old(self), mid, from, r1->Ok_0.0, t1));
            assert(loan_updated(mid, *self, to, r2->Ok_0.0, apply_write(apply_write(t1, r2->Ok_0.1), r2->Ok_0.2)));
        }
        Ok(())
    }
}

} // verus!
