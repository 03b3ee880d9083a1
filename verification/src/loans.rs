//! Loans: the collateralized debit positions of accounts and their total.  A
//! position changes by signed amounts; the total always equals the sum of the
//! positions, and zero positions are not stored.

use crate::adjustment::ArithmeticError;
use crate::assets::{Assets, NATIVE, STABLE};
use crate::cdp_treasury;
use crate::store::{has_key, lemma_sum_bound, lemma_sum_push, lemma_sum_remove, lemma_sum_update, sum_values, Store};
use crate::traits::{DispatchError, LoanUpdateHandler, ModuleError, RiskManager};
use vstd::prelude::*;

verus! {

/// A signed change of a balance.
pub type Amount = i128;

/// A collateralized debit position.
#[derive(Clone, Copy, Debug, PartialEq, Eq, Structural)]
pub struct Position {
    /// The collateral locked.
    pub collateral: u128,
    /// The debit issued against it.
    pub debit: u128,
}

impl Position {
    /// The empty position.
    pub fn zero() -> (r: Self)
        ensures
            r == (Position { collateral: 0, debit: 0 }),
    {
        Position { collateral: 0, debit: 0 }
    }
}

/// Errors of the loans module.
#[derive(Clone, Copy, Debug, PartialEq, Eq, Structural)]
pub enum Error {
    /// A balance does not fit in an amount.
    AmountConvertFailed,
}

/// Events of the loans module.
#[derive(Clone, Copy, Debug, PartialEq, Eq, Structural)]
pub enum Event {
    PositionUpdated { owner: u64, collateral_adjustment: i128, debit_adjustment: i128 },
    ConfiscateCollateralAndDebit { owner: u64, confiscated_collateral_amount: u128, deduct_debit_amount: u128 },
    TransferLoan { from: u64, to: u64 },
}

/// The error of the loans module as a dispatch error.
pub open spec fn err(e: Error) -> DispatchError {
    DispatchError::Module(ModuleError::Loans(e))
}

/// `|a|`, saturated at `i128::MAX`.
pub open spec fn abs_amount(a: i128) -> u128 {
    if a == i128::MIN {
        i128::MAX as u128
    } else if a < 0 {
        (-a) as u128
    } else {
        a as u128
    }
}

/// A balance changed by a signed amount: increased when positive, otherwise decreased.
pub open spec fn spec_adjust(current: u128, adjustment: i128) -> Result<u128, ArithmeticError> {
    let b = abs_amount(adjustment);
    if adjustment > 0 {
        if current + b > u128::MAX { Err(ArithmeticError::Overflow) } else { Ok((current + b) as u128) }
    } else {
        if current < b { Err(ArithmeticError::Underflow) } else { Ok((current - b) as u128) }
    }
}

/// The collateral of a position, as an integer.
pub open spec fn collateral_of(p: Position) -> int {
    p.collateral as int
}

/// The debit of a position, as an integer.
pub open spec fn debit_of(p: Position) -> int {
    p.debit as int
}

/// The new position and the new total after an update, or the first bound crossed.
pub open spec fn spec_update(p: Position, total: Position, c: i128, d: i128) -> Result<(Position, Position), ArithmeticError> {
    match spec_adjust(p.collateral, c) {
        Err(e) => Err(e),
        Ok(nc) => match spec_adjust(p.debit, d) {
            Err(e) => Err(e),
            Ok(nd) => match spec_adjust(total.collateral, c) {
                Err(e) => Err(e),
                Ok(tc) => match spec_adjust(total.debit, d) {
                    Err(e) => Err(e),
                    Ok(td) => Ok((Position { collateral: nc, debit: nd }, Position { collateral: tc, debit: td })),
                },
            },
        },
    }
}

/// Change `current` by a signed amount.
pub fn adjust_balance(current: u128, adjustment: i128) -> (r: Result<u128, ArithmeticError>)
    ensures
        r == spec_adjust(current, adjustment),
{
    let b = match balance_try_from_amount_abs(adjustment) {
        Ok(v) => v,
        Err(_) => return Err(ArithmeticError::Overflow),
    };
    if adjustment > 0 {
        match current.checked_add(b) {
            Some(v) => Ok(v),
            None => Err(ArithmeticError::Overflow),
        }
    } else {
        match current.checked_sub(b) {
            Some(v) => Ok(v),
            None => Err(ArithmeticError::Underflow),
        }
    }
}

/// A balance as an amount; fails above `i128::MAX`.
pub fn amount_try_from_balance(b: u128) -> (r: Result<i128, DispatchError>)
    ensures
        b <= i128::MAX ==> r == Ok::<i128, DispatchError>(b as i128),
        b > i128::MAX ==> r == Err::<i128, DispatchError>(err(Error::AmountConvertFailed)),
{
    if b <= i128::MAX as u128 {
        Ok(b as i128)
    } else {
        Err(DispatchError::Module(ModuleError::Loans(Error::AmountConvertFailed)))
    }
}

/// The consumer references of an account after an update of its position: one more
/// when the position is opened (saturating), one fewer when it is closed (not below
/// zero).
pub open spec fn consumers_after(c: u32, opened: bool, closed: bool) -> u32 {
    let c1: u32 = if opened { if c == u32::MAX { u32::MAX } else { (c + 1) as u32 } } else { c };
    if closed { if c1 == 0 { 0 } else { (c1 - 1) as u32 } } else { c1 }
}

/// The absolute value of an amount as a balance (saturated at `i128::MAX`); every
/// such value fits a balance, so the conversion never fails.
pub fn balance_try_from_amount_abs(a: i128) -> (r: Result<u128, DispatchError>)
    ensures
        r == Ok::<u128, DispatchError>(abs_amount(a)),
{
    if a == i128::MIN {
        Ok(i128::MAX as u128)
    } else if a < 0 {
        Ok((-a) as u128)
    } else {
        Ok(a as u128)
    }
}

/// The negation of an amount, saturated at `i128::MAX`.
pub open spec fn neg_amount(a: i128) -> i128 {
    if a == i128::MIN { i128::MAX } else { (-a) as i128 }
}

/// The positions, their total, the accounts' consumer references and the events.
pub struct Pallet {
    pub positions: Store<Position>,
    pub total_positions: Position,
    pub consumers: Store<u32>,
    /// The account that holds the locked collateral.
    pub account_id: u64,
    pub events: Vec<Event>,
}

impl Pallet {
    /// The total is the sum of the positions, and no stored position is zero.
    pub open spec fn wf(&self) -> bool {
        &&& self.positions.wf()
        &&& self.consumers.wf()
        &&& self.total_positions.collateral == sum_values(self.positions.entries@, |p: Position| collateral_of(p))
        &&& self.total_positions.debit == sum_values(self.positions.entries@, |p: Position| debit_of(p))
        &&& forall|i: int| 0 <= i < self.positions.entries@.len() ==>
            !(#[trigger] self.positions.entries@[i].1.collateral == 0 && self.positions.entries@[i].1.debit == 0)
    }

    /// The positions as a map.
    pub open spec fn positions_map(&self) -> Map<u64, Position> {
        self.positions.view_map()
    }

    /// The position of `who` (zero when none is stored).
    pub open spec fn position_of(&self, who: u64) -> Position {
        if self.positions_map().dom().contains(who) { self.positions_map()[who] } else { Position { collateral: 0, debit: 0 } }
    }

    /// The consumer references of `who`.
    pub open spec fn consumers_of(&self, who: u64) -> u32 {
        if self.consumers.view_map().dom().contains(who) { self.consumers.view_map()[who] } else { 0 }
    }

    /// The positions after `who`'s position becomes `np` (removed when zero).
    pub open spec fn positions_after(&self, who: u64, np: Position) -> Map<u64, Position> {
        if np.collateral == 0 && np.debit == 0 {
            self.positions_map().remove(who)
        } else {
            self.positions_map().insert(who, np)
        }
    }

    /// No positions.
    pub fn new(account_id: u64) -> (r: Self)
        ensures
            r.wf(),
            r.positions_map() == Map::<u64, Position>::empty(),
            r.total_positions == (Position { collateral: 0, debit: 0 }),
            r.account_id == account_id,
            r.events@.len() == 0,
            forall|w: u64| r.consumers_of(w) == 0,
    {
        let r = Pallet {
            positions: Store::new(),
            total_positions: Position::zero(),
            consumers: Store::new(),
            account_id,
            events: Vec::new(),
        };
        r
    }

    /// The account that holds the collateral.
    pub fn account_id(&self) -> (r: u64)
        ensures
            r == self.account_id,
    {
        self.account_id
    }

    /// The position of `who`.
    pub fn positions(&self, who: u64) -> (r: Position)
        requires
            self.wf(),
        ensures
            r == self.position_of(who),
    {
        match self.positions.get(who) {
            Some(p) => p,
            None => Position::zero(),
        }
    }

    /// The total of all positions.
    pub fn total_positions(&self) -> (r: Position)
        ensures
            r == self.total_positions,
    {
        self.total_positions
    }

    /// The consumer references of `who`.
    pub fn consumers(&self, who: u64) -> (r: u32)
        requires
            self.wf(),
        ensures
            r == self.consumers_of(who),
    {
        match self.consumers.get(who) {
            Some(c) => c,
            None => 0,
        }
    }

    /// The new position of `who` and the new total after adjusting by `c` and `d`.
    pub fn compute_update(&self, who: u64, c: i128, d: i128) -> (r: Result<(Position, Position), ArithmeticError>)
        requires
            self.wf(),
        ensures
            r == spec_update(self.position_of(who), self.total_positions, c, d),
    {
        let p = self.positions(who);
        let nc = match adjust_balance(p.collateral, c) {
            Ok(v) => v,
            Err(e) => return Err(e),
        };
        let nd = match adjust_balance(p.debit, d) {
            Ok(v) => v,
            Err(e) => return Err(e),
        };
        let tc = match adjust_balance(self.total_positions.collateral, c) {
            Ok(v) => v,
            Err(e) => return Err(e),
        };
        let td = match adjust_balance(self.total_positions.debit, d) {
            Ok(v) => v,
            Err(e) => return Err(e),
        };
        Ok((Position { collateral: nc, debit: nd }, Position { collateral: tc, debit: td }))
    }

    fn add_consumer(&mut self, who: u64, up: bool)
        requires
            old(self).consumers.wf(),
        ensures
            final(self).consumers.wf(),
            final(self).positions == old(self).positions,
            final(self).total_positions == old(self).total_positions,
            final(self).account_id == old(self).account_id,
            final(self).events == old(self).events,
            forall|w: u64| w != who ==> final(self).consumers_of(w) == old(self).consumers_of(w),
            final(self).consumers_of(who) == (if up {
                if old(self).consumers_of(who) == u32::MAX { u32::MAX as int } else { old(self).consumers_of(who) + 1 }
            } else {
                if old(self).consumers_of(who) == 0 { 0 } else { old(self).consumers_of(who) - 1 }
            }),
    {
        let c = match self.consumers.get(who) {
            Some(c) => c,
            None => 0,
        };
        let n = if up { c.saturating_add(1) } else { c.saturating_sub(1) };
        self.consumers.insert(who, n);
    }

    /// Adjust the position of `who` and the total by `collateral_adjustment` and
    /// `debit_adjustment` (signed); a position that becomes zero is removed.  Opening a
    /// position adds a consumer reference to the account, removing one drops it.  The
    /// handler is told of the change first, and its refusal stops it.
    pub fn update_loan<H: LoanUpdateHandler>(&mut self, handler: &mut H, who: u64, collateral_adjustment: i128,
        debit_adjustment: i128) -> (r: Result<(), DispatchError>)
        requires
            old(self).wf(),
        ensures
            final(self).wf(),
            final(self).account_id == old(self).account_id,
            ({
                let p = old(self).position_of(who);
                let res = spec_update(p, old(self).total_positions, collateral_adjustment, debit_adjustment);
                let hr = old(handler).handle_result(who, collateral_adjustment, p.collateral);
                &&& res matches Err(e) ==> r == Err::<(), DispatchError>(DispatchError::Arithmetic(e))
                &&& res is Ok ==> r == hr
                &&& res is Ok && old(handler).accepts_all() ==> r is Ok
                &&& old(handler).accepts_all() ==> final(handler).accepts_all()
                &&& r is Err ==> final(self).positions_map() == old(self).positions_map()
                    && final(self).total_positions == old(self).total_positions
                    && final(self).events@ == old(self).events@
                &&& res matches Ok((np, nt)) ==> r is Err || (final(self).positions_map() == old(self).positions_after(who, np)
                    && final(self).total_positions == nt
                    && final(self).events@ == old(self).events@.push(Event::PositionUpdated {
                        owner: who, collateral_adjustment, debit_adjustment })
                    && (forall|w: u64| w != who ==> final(self).consumers_of(w) == old(self).consumers_of(w))
                    && final(self).consumers_of(who) == consumers_after(old(self).consumers_of(who),
                        p.collateral == 0 && p.debit == 0, np.collateral == 0 && np.debit == 0))
            }),
    {
        let (np, nt) = match self.compute_update(who, collateral_adjustment, debit_adjustment) {
            Ok(v) => v,
            Err(e) => return Err(DispatchError::Arithmetic(e)),
        };
        let p = self.positions(who);
        let handled = handler.handle(who, collateral_adjustment, p.collateral);
        if handled.is_err() {
            return handled;
        }
        let ghost s0 = self.positions.entries@;
        let ghost t0 = self.total_positions;
        let ghost fc = |q: Position| collateral_of(q);
        let ghost fd = |q: Position| debit_of(q);
        proof {
            if has_key(s0, who) {
                let i = choose|i: int| 0 <= i < s0.len() && s0[i].0 == who;
                assert(s0[i].1 == p);
                lemma_sum_bound(s0, fc, i);
                lemma_sum_bound(s0, fd, i);
            } else {
                assert(!self.positions_map().dom().contains(who));
            }
        }
        if p.collateral == 0 && p.debit == 0 {
            self.add_consumer(who, true);
        }
        if np.collateral == 0 && np.debit == 0 {
            self.add_consumer(who, false);
            self.positions.remove(who);
        } else {
            self.positions.insert(who, np);
        }
        self.total_positions = nt;
        proof {
            let s = self.positions.entries@;
            if has_key(s0, who) {
                let i = choose|i: int| 0 <= i < s0.len() && s0[i].0 == who;
                assert(s0[i].1 == p);
                if np.collateral == 0 && np.debit == 0 {
                    let j = choose|j: int| 0 <= j < s0.len() && s0[j].0 == who && s == s0.remove(j);
                    assert(j == i);
                    lemma_sum_remove(s0, fc, i);
                    lemma_sum_remove(s0, fd, i);
                    assert forall|k: int| 0 <= k < s.len() implies
                        !(#[trigger] s[k].1.collateral == 0 && s[k].1.debit == 0) by {
                        if k < i { assert(s[k] == s0[k]); } else { assert(s[k] == s0[k + 1]); }
                    }
                } else {
                    let j = choose|j: int| 0 <= j < s0.len() && s0[j].0 == who && s == s0.update(j, (who, np));
                    assert(j == i);
                    lemma_sum_update(s0, fc, i, (who, np));
                    lemma_sum_update(s0, fd, i, (who, np));
                    assert forall|k: int| 0 <= k < s.len() implies
                        !(#[trigger] s[k].1.collateral == 0 && s[k].1.debit == 0) by {
                        if k != i { assert(s[k] == s0[k]); }
                    }
                }
            } else {
                if np.collateral == 0 && np.debit == 0 {
                    assert(s == s0);
                } else {
                    assert(s == s0.push((who, np)));
                    lemma_sum_push(s0, fc, (who, np));
                    lemma_sum_push(s0, fd, (who, np));
                    assert forall|k: int| 0 <= k < s.len() implies
                        !(#[trigger] s[k].1.collateral == 0 && s[k].1.debit == 0) by {
                        if k < s0.len() { assert(s[k] == s0[k]); }
                    }
                }
            }
        }
        self.events.push(Event::PositionUpdated { owner: who, collateral_adjustment, debit_adjustment });
        handled
    }

    /// Move the whole loan of `from` to `to`, when the resulting position of `to` is valid
    /// (the handler is told of both changes).
    pub fn transfer_loan<R: RiskManager, H: LoanUpdateHandler>(&mut self, risk: &R, handler: &mut H, from: u64, to: u64)
        -> (r: Result<(), DispatchError>)
        requires
            old(self).wf(),
            from == to ==> old(self).position_of(from).collateral * 2 <= u128::MAX
                && old(self).position_of(from).debit * 2 <= u128::MAX,
        ensures
            final(self).wf(),
            final(self).account_id == old(self).account_id,
            ({
                let pf = old(self).position_of(from);
                let pt = old(self).position_of(to);
                let valid = risk.position_valid(NATIVE, (pt.collateral + pf.collateral) as u128, (pt.debit + pf.debit) as u128, true);
                &&& r is Ok ==> (valid && pf.collateral <= i128::MAX && pf.debit <= i128::MAX)
                &&& old(handler).accepts_all() ==> (r is Ok <==> (valid && pf.collateral <= i128::MAX && pf.debit <= i128::MAX))
                &&& valid && pf.collateral > i128::MAX ==> r == Err::<(), DispatchError>(err(Error::AmountConvertFailed))
                &&& r is Err && old(handler).accepts_all() ==> final(self).positions_map() == old(self).positions_map()
                    && final(self).total_positions == old(self).total_positions
                &&& r is Ok ==> final(self).total_positions == old(self).total_positions
                    && (from != to ==> final(self).positions_map() == ({
                        let np = Position { collateral: (pt.collateral + pf.collateral) as u128, debit: (pt.debit + pf.debit) as u128 };
                        if np.collateral == 0 && np.debit == 0 {
                            old(self).positions_map().remove(from).remove(to)
                        } else {
                            old(self).positions_map().remove(from).insert(to, np)
                        }
                    }))
                    && (from == to ==> final(self).positions_map() == old(self).positions_map())
                    && final(self).events@.last() == Event::TransferLoan { from, to }
            }),
    {
        let pf = self.positions(from);
        let pt = self.positions(to);
        let ghost s0 = self.positions.entries@;
        proof {
            let fc = |q: Position| collateral_of(q);
            let fd = |q: Position| debit_of(q);
            if from != to && has_key(s0, from) && has_key(s0, to) {
                let i = choose|i: int| 0 <= i < s0.len() && s0[i].0 == from;
                let j = choose|j: int| 0 <= j < s0.len() && s0[j].0 == to;
                assert(i != j);
                lemma_sum_two_bound(s0, fc, i, j);
                lemma_sum_two_bound(s0, fd, i, j);
            } else if has_key(s0, from) {
                let i = choose|i: int| 0 <= i < s0.len() && s0[i].0 == from;
                lemma_sum_bound(s0, fc, i);
                lemma_sum_bound(s0, fd, i);
            } else if has_key(s0, to) {
                let j = choose|j: int| 0 <= j < s0.len() && s0[j].0 == to;
                lemma_sum_bound(s0, fc, j);
                lemma_sum_bound(s0, fd, j);
            }
        }
        let new_to_collateral = pt.collateral + pf.collateral;
        let new_to_debit = pt.debit + pf.debit;
        match risk.check_position_valid(NATIVE, new_to_collateral, new_to_debit, true) {
            Ok(()) => {},
            Err(e) => return Err(e),
        }
        let c = match amount_try_from_balance(pf.collateral) {
            Ok(v) => v,
            Err(e) => return Err(e),
        };
        let d = match amount_try_from_balance(pf.debit) {
            Ok(v) => v,
            Err(e) => return Err(e),
        };
        let ghost m0 = self.positions_map();
        match self.update_loan(handler, from, -c, -d) {
            Ok(()) => {},
            Err(e) => return Err(e),
        }
        let ghost m1 = self.positions_map();
        assert(self.position_of(to) == (if from == to { Position { collateral: 0, debit: 0 } } else { pt }));
        let ghost p2 = self.position_of(to);
        proof {
            let fc = |q: Position| collateral_of(q);
            let fd = |q: Position| debit_of(q);
            let s1 = self.positions.entries@;
            if has_key(s1, to) {
                let j = choose|j: int| 0 <= j < s1.len() && s1[j].0 == to;
                lemma_sum_bound(s1, fc, j);
                lemma_sum_bound(s1, fd, j);
            }
        }
        match self.update_loan(handler, to, c, d) {
            Ok(()) => {},
            Err(e) => return Err(e),
        }
        proof {
            assert(m1 =~= m0.remove(from));
            if from == to {
                assert(self.positions_map() =~= m0);
            }
        }
        self.events.push(Event::TransferLoan { from, to });
        Ok(())
    }
}

impl Pallet {
    /// Take `collateral_confiscate` of the collateral and `debit_decrease` of the debit of
    /// `who`: the collateral goes from the loans account to the treasury, the value of the
    /// debit becomes system debit, and the position shrinks by both.  All or nothing.
    pub fn confiscate_collateral_and_debit<R: RiskManager, H: LoanUpdateHandler>(
        &mut self,
        risk: &R,
        handler: &mut H,
        treasury: &mut cdp_treasury::Pallet,
        assets: &mut Assets,
        who: u64,
        collateral_confiscate: u128,
        debit_decrease: u128,
    ) -> (r: Result<(), DispatchError>)
        requires
            old(self).wf(),
            old(assets).wf(),
        ensures
            final(self).wf(),
            final(assets).wf(),
            final(self).account_id == old(self).account_id,
            final(treasury).account_id == old(treasury).account_id,
            collateral_confiscate > i128::MAX ==> r == Err::<(), DispatchError>(err(Error::AmountConvertFailed)),
            collateral_confiscate <= i128::MAX && debit_decrease > i128::MAX ==> r == Err::<(), DispatchError>(err(Error::AmountConvertFailed)),
            ({
                let bad_debt = risk.debit_value(NATIVE, debit_decrease);
                let upd = spec_update(old(self).position_of(who), old(self).total_positions,
                    neg_amount(collateral_confiscate as i128), neg_amount(debit_decrease as i128));
                let ok = collateral_confiscate <= i128::MAX && debit_decrease <= i128::MAX
                    && old(assets).free(NATIVE, old(self).account_id) >= collateral_confiscate
                    && (old(self).account_id == old(treasury).account_id
                        || old(assets).free(NATIVE, old(treasury).account_id) + collateral_confiscate <= u128::MAX)
                    && old(treasury).debit_pool + bad_debt <= u128::MAX
                    && upd is Ok
                    && old(handler).handle_result(who, neg_amount(collateral_confiscate as i128),
                        old(self).position_of(who).collateral) is Ok;
                &&& r is Ok <==> ok
                &&& r is Err ==> final(self).positions_map() == old(self).positions_map()
                    && final(self).total_positions == old(self).total_positions
                    && final(self).events@ == old(self).events@
                    && *final(assets) == *old(assets)
                    && final(treasury).debit_pool == old(treasury).debit_pool
                &&& r is Ok ==> final(treasury).debit_pool == old(treasury).debit_pool + bad_debt
                    && final(self).positions_map() == old(self).positions_after(who, upd->Ok_0.0)
                    && final(self).total_positions == upd->Ok_0.1
                    && final(self).events@.last() == Event::ConfiscateCollateralAndDebit {
                        owner: who, confiscated_collateral_amount: collateral_confiscate, deduct_debit_amount: debit_decrease }
                    && (old(self).account_id != old(treasury).account_id ==>
                        final(assets).free(NATIVE, old(self).account_id) == old(assets).free(NATIVE, old(self).account_id) - collateral_confiscate
                        && final(assets).free(NATIVE, old(treasury).account_id) == old(assets).free(NATIVE, old(treasury).account_id) + collateral_confiscate)
            }),
    {
        let c = match amount_try_from_balance(collateral_confiscate) {
            Ok(v) => v,
            Err(e) => return Err(e),
        };
        let d = match amount_try_from_balance(debit_decrease) {
            Ok(v) => v,
            Err(e) => return Err(e),
        };
        let loans_account = self.account_id;
        let treasury_account = treasury.account_id();
        // every step is checked before anything changes
        let src = assets.balance(NATIVE, loans_account);
        if src < collateral_confiscate {
            return Err(DispatchError::Token(crate::assets::TokenError::FundsUnavailable));
        }
        if loans_account != treasury_account {
            let dst = assets.balance(NATIVE, treasury_account);
            if dst.checked_add(collateral_confiscate).is_none() {
                return Err(DispatchError::Token(crate::assets::TokenError::Overflow));
            }
        }
        let bad_debt_value = risk.get_debit_value(NATIVE, debit_decrease);
        if treasury.debit_pool().checked_add(bad_debt_value).is_none() {
            return Err(DispatchError::Arithmetic(ArithmeticError::Overflow));
        }
        let neg_c: i128 = if c == i128::MIN { i128::MAX } else { -c };
        let neg_d: i128 = if d == i128::MIN { i128::MAX } else { -d };
        match self.compute_update(who, neg_c, neg_d) {
            Ok(_) => {},
            Err(e) => return Err(DispatchError::Arithmetic(e)),
        }
        match self.update_loan(handler, who, neg_c, neg_d) {
            Ok(()) => {},
            Err(e) => return Err(e),
        }
        let t = treasury.deposit_collateral(assets, loans_account, collateral_confiscate);
        assert(t is Ok);
        let o = treasury.on_system_debit(bad_debt_value);
        assert(o is Ok);
        self.events.push(Event::ConfiscateCollateralAndDebit {
            owner: who,
            confiscated_collateral_amount: collateral_confiscate,
            deduct_debit_amount: debit_decrease,
        });
        Ok(())
    }

    /// Adjust the position of `who` and move the balances: collateral between `who` and
    /// the loans account, stable coin issued (for more debit, within the cap) or burned
    /// (for less); the resulting position must pass the risk check.  All or nothing.
    pub fn adjust_position<R: RiskManager, H: LoanUpdateHandler>(
        &mut self,
        risk: &R,
        handler: &mut H,
        treasury: &mut cdp_treasury::Pallet,
        assets: &mut Assets,
        who: u64,
        collateral_adjustment: i128,
        debit_adjustment: i128,
    ) -> (r: Result<(), DispatchError>)
        requires
            old(self).wf(),
            old(assets).wf(),
        ensures
            final(self).wf(),
            final(assets).wf(),
            final(self).account_id == old(self).account_id,
            final(treasury).debit_pool == old(treasury).debit_pool,
            ({
                let upd = spec_update(old(self).position_of(who), old(self).total_positions, collateral_adjustment, debit_adjustment);
                let acc = old(self).account_id;
                let cb = abs_amount(collateral_adjustment);
                let db = abs_amount(debit_adjustment);
                let value = risk.debit_value(NATIVE, db);
                let (from, to) = if collateral_adjustment > 0 { (who, acc) } else { (acc, who) };
                let moves = collateral_adjustment != 0;
                let transfer_ok = !moves || (old(assets).free(NATIVE, from) >= cb
                    && (from == to || old(assets).free(NATIVE, to) + cb <= u128::MAX));
                let debit_ok = if debit_adjustment > 0 {
                    risk.debit_cap_ok(NATIVE, upd->Ok_0.1.debit)
                        && old(assets).stable.issuance + value <= u128::MAX
                        && old(assets).free(STABLE, who) + value <= u128::MAX
                } else if debit_adjustment < 0 {
                    old(assets).free(STABLE, who) >= value
                } else {
                    true
                };
                let valid = risk.position_valid(NATIVE, upd->Ok_0.0.collateral, upd->Ok_0.0.debit,
                    collateral_adjustment < 0 || debit_adjustment > 0);
                let handled = old(handler).handle_result(who, collateral_adjustment, old(self).position_of(who).collateral);
                &&& upd matches Err(e) ==> r == Err::<(), DispatchError>(DispatchError::Arithmetic(e))
                &&& r is Ok <==> (upd is Ok && transfer_ok && debit_ok && valid && handled is Ok)
                &&& r is Err ==> final(self).positions_map() == old(self).positions_map()
                    && final(self).total_positions == old(self).total_positions
                    && final(self).events@ == old(self).events@
                    && *final(assets) == *old(assets)
                &&& r is Ok ==> final(self).positions_map() == old(self).positions_after(who, upd->Ok_0.0)
                    && final(self).total_positions == upd->Ok_0.1
                    && (moves && from != to ==> final(assets).free(NATIVE, from) == old(assets).free(NATIVE, from) - cb
                        && final(assets).free(NATIVE, to) == old(assets).free(NATIVE, to) + cb)
                    && (debit_adjustment > 0 ==> final(assets).free(STABLE, who) == old(assets).free(STABLE, who) + value)
                    && (debit_adjustment < 0 ==> final(assets).free(STABLE, who) == old(assets).free(STABLE, who) - value)
            }),
    {
        let (np, nt) = match self.compute_update(who, collateral_adjustment, debit_adjustment) {
            Ok(v) => v,
            Err(e) => return Err(DispatchError::Arithmetic(e)),
        };
        let acc = self.account_id;
        let cb = match balance_try_from_amount_abs(collateral_adjustment) {
            Ok(v) => v,
            Err(e) => return Err(e),
        };
        let db = match balance_try_from_amount_abs(debit_adjustment) {
            Ok(v) => v,
            Err(e) => return Err(e),
        };
        let (from, to) = if collateral_adjustment > 0 { (who, acc) } else { (acc, who) };
        if collateral_adjustment != 0 {
            let fb = assets.balance(NATIVE, from);
            if fb < cb {
                return Err(DispatchError::Token(crate::assets::TokenError::FundsUnavailable));
            }
            if from != to {
                let tb = assets.balance(NATIVE, to);
                if tb.checked_add(cb).is_none() {
                    return Err(DispatchError::Token(crate::assets::TokenError::Overflow));
                }
            }
        }
        let value = risk.get_debit_value(NATIVE, db);
        if debit_adjustment > 0 {
            match risk.check_debit_cap(NATIVE, nt.debit) {
                Ok(()) => {},
                Err(e) => return Err(e),
            }
            let issuance = assets.total_issuance(STABLE);
            let sb = assets.balance(STABLE, who);
            if issuance.checked_add(value).is_none() || sb.checked_add(value).is_none() {
                return Err(DispatchError::Token(crate::assets::TokenError::Overflow));
            }
        } else if debit_adjustment < 0 {
            let sb = assets.balance(STABLE, who);
            if sb < value {
                return Err(DispatchError::Token(crate::assets::TokenError::FundsUnavailable));
            }
        }
        match risk.check_position_valid(NATIVE, np.collateral, np.debit, collateral_adjustment < 0 || debit_adjustment > 0) {
            Ok(()) => {},
            Err(e) => return Err(e),
        }
        match self.update_loan(handler, who, collateral_adjustment, debit_adjustment) {
            Ok(()) => {},
            Err(e) => return Err(e),
        }
        if collateral_adjustment != 0 {
            let t = assets.transfer(NATIVE, from, to, cb);
            assert(t is Ok);
        }
        if debit_adjustment > 0 {
            let i = treasury.issue_debit(assets, who, value, true);
            assert(i is Ok);
        } else if debit_adjustment < 0 {
            let b = treasury.burn_debit(assets, who, value);
            assert(b is Ok);
        }
        Ok(())
    }
}

/// Two distinct entries together are at most the sum, for a non-negative `f`.
pub proof fn lemma_sum_two_bound<V>(s: Seq<(u64, V)>, f: spec_fn(V) -> int, i: int, j: int)
    requires
        0 <= i < s.len(),
        0 <= j < s.len(),
        i != j,
        forall|v: V| #[trigger] f(v) >= 0,
    ensures
        f(s[i].1) + f(s[j].1) <= sum_values(s, f),
    decreases s.len(),
{
    let n = s.len() - 1;
    if i == n {
        lemma_sum_bound(s.drop_last(), f, j);
    } else if j == n {
        lemma_sum_bound(s.drop_last(), f, i);
    } else {
        lemma_sum_two_bound(s.drop_last(), f, i, j);
        crate::store::lemma_sum_nonneg(s.drop_last(), f);
    }
}

} // verus!
