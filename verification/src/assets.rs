//! The fungible balances that the pallets move: for each currency, free and held
//! balances per account and the total issuance.

use crate::store::Store;
use vstd::prelude::*;

verus! {

/// An account.
pub type AccountId = u64;

/// A currency.
pub type CurrencyId = u32;

/// The native currency, used as collateral.
pub const NATIVE: CurrencyId = 0u32;

/// The stable currency issued against collateral.
pub const STABLE: CurrencyId = 1u32;

/// Why a balance operation failed.
#[derive(Clone, Copy, Debug, PartialEq, Eq, Structural)]
pub enum TokenError {
    /// The free (or held) balance is smaller than the amount.
    FundsUnavailable,
    /// A balance or the issuance would exceed `u128::MAX`.
    Overflow,
    /// The balance on hold is smaller than the amount.
    Frozen,
}

/// The balance of `who` in a map, zero when absent.
pub open spec fn bal(m: Map<u64, u128>, who: u64) -> u128 {
    if m.dom().contains(who) { m[who] } else { 0 }
}

/// The balances of one currency.
pub struct Ledger {
    pub free: Store<u128>,
    pub held: Store<u128>,
    pub issuance: u128,
}

impl Ledger {
    pub open spec fn wf(&self) -> bool {
        self.free.wf() && self.held.wf()
    }

    /// Free balance of an account.
    pub open spec fn free_of(&self, who: u64) -> u128 {
        bal(self.free.view_map(), who)
    }

    /// Held balance of an account.
    pub open spec fn held_of(&self, who: u64) -> u128 {
        bal(self.held.view_map(), who)
    }

    /// An empty ledger.
    pub fn new() -> (r: Self)
        ensures
            r.wf(),
            r.issuance == 0,
            forall|w: u64| r.free_of(w) == 0 && r.held_of(w) == 0,
    {
        Ledger { free: Store::new(), held: Store::new(), issuance: 0 }
    }

    /// Free balance of an account.
    pub fn balance(&self, who: u64) -> (r: u128)
        requires
            self.wf(),
        ensures
            r == self.free_of(who),
    {
        match self.free.get(who) {
            Some(b) => b,
            None => 0,
        }
    }

    /// Held balance of an account.
    pub fn balance_on_hold(&self, who: u64) -> (r: u128)
        requires
            self.wf(),
        ensures
            r == self.held_of(who),
    {
        match self.held.get(who) {
            Some(b) => b,
            None => 0,
        }
    }

    /// Set the free balance of `who` to `amount`; the issuance follows the change
    /// (saturating).
    pub fn make_free_balance_be(&mut self, who: u64, amount: u128)
        requires
            old(self).wf(),
        ensures
            final(self).wf(),
            final(self).free_of(who) == amount,
            forall|w: u64| w != who ==> final(self).free_of(w) == old(self).free_of(w),
            forall|w: u64| final(self).held_of(w) == old(self).held_of(w),
            final(self).issuance == issuance_after_set(old(self).issuance, old(self).free_of(who), amount),
    {
        let cur = self.balance(who);
        if amount >= cur {
            self.issuance = self.issuance.saturating_add(amount - cur);
        } else {
            self.issuance = self.issuance.saturating_sub(cur - amount);
        }
        self.free.insert(who, amount);
    }

    /// Create `amount` new units in the free balance of `who`.
    pub fn mint_into(&mut self, who: u64, amount: u128) -> (r: Result<(), TokenError>)
        requires
            old(self).wf(),
        ensures
            final(self).wf(),
            r is Err <==> (old(self).issuance + amount > u128::MAX || old(self).free_of(who) + amount > u128::MAX),
            r is Err ==> r == Err::<(), TokenError>(TokenError::Overflow) && *final(self) == *old(self),
            r is Ok ==> final(self).issuance == old(self).issuance + amount
                && final(self).free_of(who) == old(self).free_of(who) + amount
                && (forall|w: u64| w != who ==> final(self).free_of(w) == old(self).free_of(w))
                && (forall|w: u64| final(self).held_of(w) == old(self).held_of(w)),
    {
        let b = self.balance(who);
        match (self.issuance.checked_add(amount), b.checked_add(amount)) {
            (Some(i), Some(nb)) => {
                self.issuance = i;
                self.free.insert(who, nb);
                Ok(())
            },
            _ => Err(TokenError::Overflow),
        }
    }

    /// Destroy `amount` units of the free balance of `who` (exactly that amount).
    pub fn burn_from(&mut self, who: u64, amount: u128) -> (r: Result<(), TokenError>)
        requires
            old(self).wf(),
        ensures
            final(self).wf(),
            r is Err <==> old(self).free_of(who) < amount,
            r is Err ==> r == Err::<(), TokenError>(TokenError::FundsUnavailable) && *final(self) == *old(self),
            r is Ok ==> final(self).issuance == (if old(self).issuance < amount { 0 } else { old(self).issuance - amount })
                && final(self).free_of(who) == old(self).free_of(who) - amount
                && (forall|w: u64| w != who ==> final(self).free_of(w) == old(self).free_of(w))
                && (forall|w: u64| final(self).held_of(w) == old(self).held_of(w)),
    {
        let b = self.balance(who);
        if b < amount {
            return Err(TokenError::FundsUnavailable);
        }
        self.free.insert(who, b - amount);
        self.issuance = self.issuance.saturating_sub(amount);
        Ok(())
    }

    /// Move `amount` of free balance from `from` to `to`.
    pub fn transfer(&mut self, from: u64, to: u64, amount: u128) -> (r: Result<(), TokenError>)
        requires
            old(self).wf(),
        ensures
            final(self).wf(),
            r is Err <==> (old(self).free_of(from) < amount || (from != to && old(self).free_of(to) + amount > u128::MAX)),
            old(self).free_of(from) < amount ==> r == Err::<(), TokenError>(TokenError::FundsUnavailable),
            old(self).free_of(from) >= amount && r is Err ==> r == Err::<(), TokenError>(TokenError::Overflow),
            r is Err ==> *final(self) == *old(self),
            r is Ok ==> final(self).issuance == old(self).issuance
                && (from == to ==> forall|w: u64| final(self).free_of(w) == old(self).free_of(w))
                && (from != to ==> final(self).free_of(from) == old(self).free_of(from) - amount
                    && final(self).free_of(to) == old(self).free_of(to) + amount)
                && (forall|w: u64| w != from && w != to ==> final(self).free_of(w) == old(self).free_of(w))
                && (forall|w: u64| final(self).held_of(w) == old(self).held_of(w)),
    {
        let bf = self.balance(from);
        if bf < amount {
            return Err(TokenError::FundsUnavailable);
        }
        if from == to {
            return Ok(());
        }
        let bt = self.balance(to);
        match bt.checked_add(amount) {
            Some(nt) => {
                self.free.insert(from, bf - amount);
                self.free.insert(to, nt);
                Ok(())
            },
            None => Err(TokenError::Overflow),
        }
    }

    /// Move `amount` of the free balance of `who` on hold.
    pub fn hold(&mut self, who: u64, amount: u128) -> (r: Result<(), TokenError>)
        requires
            old(self).wf(),
        ensures
            final(self).wf(),
            r is Err <==> (old(self).free_of(who) < amount || old(self).held_of(who) + amount > u128::MAX),
            r is Err ==> *final(self) == *old(self),
            r is Ok ==> final(self).issuance == old(self).issuance
                && final(self).free_of(who) == old(self).free_of(who) - amount
                && final(self).held_of(who) == old(self).held_of(who) + amount
                && (forall|w: u64| w != who ==> final(self).free_of(w) == old(self).free_of(w) && final(self).held_of(w) == old(self).held_of(w)),
    {
        let bf = self.balance(who);
        let bh = self.balance_on_hold(who);
        if bf < amount {
            return Err(TokenError::FundsUnavailable);
        }
        match bh.checked_add(amount) {
            Some(nh) => {
                self.free.insert(who, bf - amount);
                self.held.insert(who, nh);
                Ok(())
            },
            None => Err(TokenError::Overflow),
        }
    }

    /// A copy of the ledger.
    pub fn duplicate(&self) -> (r: Self)
        ensures
            r.free.entries@ == self.free.entries@,
            r.held.entries@ == self.held.entries@,
            r.issuance == self.issuance,
            r.free.view_map() == self.free.view_map(),
            r.held.view_map() == self.held.view_map(),
    {
        Ledger { free: self.free.duplicate(), held: self.held.duplicate(), issuance: self.issuance }
    }

    /// Move `amount` held by `from` to the free balance of `to`.
    pub fn transfer_on_hold(&mut self, from: u64, to: u64, amount: u128) -> (r: Result<(), TokenError>)
        requires
            old(self).wf(),
        ensures
            final(self).wf(),
            r is Err <==> (old(self).held_of(from) < amount
                || old(self).free_of(to) + amount > u128::MAX),
            r is Err ==> *final(self) == *old(self),
            r is Ok ==> final(self).issuance == old(self).issuance
                && final(self).held_of(from) == old(self).held_of(from) - amount
                && final(self).free_of(to) == old(self).free_of(to) + amount
                && (forall|w: u64| w != from ==> final(self).held_of(w) == old(self).held_of(w))
                && (forall|w: u64| w != to ==> final(self).free_of(w) == old(self).free_of(w)),
    {
        let h = self.balance_on_hold(from);
        if h < amount {
            return Err(TokenError::Frozen);
        }
        let t = self.balance(to);
        match t.checked_add(amount) {
            Some(nt) => {
                self.held.insert(from, h - amount);
                self.free.insert(to, nt);
                Ok(())
            },
            None => Err(TokenError::Overflow),
        }
    }

    /// Release up to `amount` held by `who` back to its free balance; returns the amount
    /// released, which is all of `amount` unless less is held.
    pub fn release(&mut self, who: u64, amount: u128) -> (r: Result<u128, TokenError>)
        requires
            old(self).wf(),
        ensures
            final(self).wf(),
            ({
                let rel = if old(self).held_of(who) < amount { old(self).held_of(who) } else { amount };
                &&& r is Err <==> old(self).free_of(who) + rel > u128::MAX
                &&& r is Err ==> *final(self) == *old(self)
                &&& r matches Ok(x) ==> x == rel
                    && final(self).issuance == old(self).issuance
                    && final(self).free_of(who) == old(self).free_of(who) + rel
                    && final(self).held_of(who) == old(self).held_of(who) - rel
                    && (forall|w: u64| w != who ==> final(self).free_of(w) == old(self).free_of(w) && final(self).held_of(w) == old(self).held_of(w))
            }),
    {
        let bf = self.balance(who);
        let bh = self.balance_on_hold(who);
        let rel = if bh < amount { bh } else { amount };
        match bf.checked_add(rel) {
            Some(nf) => {
                self.free.insert(who, nf);
                self.held.insert(who, bh - rel);
                Ok(rel)
            },
            None => Err(TokenError::Overflow),
        }
    }
}

/// One operation on the balances, as the pallets perform it.
#[derive(Clone, Copy, Debug, PartialEq, Eq, Structural)]
pub enum BalanceOp {
    /// Move `amount` free from `from` to `to`.
    Transfer { currency: CurrencyId, from: u64, to: u64, amount: u128 },
    /// Put `amount` of the free balance of `who` on hold.
    Hold { currency: CurrencyId, who: u64, amount: u128 },
    /// Release up to `amount` held by `who`.
    Release { currency: CurrencyId, who: u64, amount: u128 },
    /// Create `amount` in the free balance of `who`.
    Mint { currency: CurrencyId, who: u64, amount: u128 },
    /// Destroy `amount` of the free balance of `who`.
    Burn { currency: CurrencyId, who: u64, amount: u128 },
    /// No operation.
    Nothing,
}

/// The currency an operation works in.
pub open spec fn op_currency(op: BalanceOp) -> CurrencyId {
    match op {
        BalanceOp::Transfer { currency, .. } => currency,
        BalanceOp::Hold { currency, .. } => currency,
        BalanceOp::Release { currency, .. } => currency,
        BalanceOp::Mint { currency, .. } => currency,
        BalanceOp::Burn { currency, .. } => currency,
        BalanceOp::Nothing => NATIVE,
    }
}

/// What a release of up to `amount` held by `who` frees.
pub open spec fn released(a: Assets, currency: CurrencyId, who: u64, amount: u128) -> u128 {
    if a.held(currency, who) < amount { a.held(currency, who) } else { amount }
}

/// Whether `op` succeeds on `a` (a failing operation changes nothing).
pub open spec fn op_ok(a: Assets, op: BalanceOp) -> bool {
    match op {
        BalanceOp::Transfer { currency, from, to, amount } =>
            a.free(currency, from) >= amount && (from == to || a.free(currency, to) + amount <= u128::MAX),
        BalanceOp::Hold { currency, who, amount } =>
            a.free(currency, who) >= amount && a.held(currency, who) + amount <= u128::MAX,
        BalanceOp::Release { currency, who, amount } =>
            a.free(currency, who) + released(a, currency, who, amount) <= u128::MAX,
        BalanceOp::Mint { currency, who, amount } =>
            a.ledger(currency).issuance + amount <= u128::MAX && a.free(currency, who) + amount <= u128::MAX,
        BalanceOp::Burn { currency, who, amount } => a.free(currency, who) >= amount,
        BalanceOp::Nothing => false,
    }
}

/// The free balance of `w` in the operation's currency after `op` succeeds on `a`.
pub open spec fn op_free(a: Assets, op: BalanceOp, w: u64) -> int {
    let c = op_currency(op);
    match op {
        BalanceOp::Transfer { from, to, amount, .. } =>
            if from == to { a.free(c, w) as int }
            else if w == from { a.free(c, w) - amount }
            else if w == to { a.free(c, w) + amount }
            else { a.free(c, w) as int },
        BalanceOp::Hold { who, amount, .. } => if w == who { a.free(c, w) - amount } else { a.free(c, w) as int },
        BalanceOp::Release { who, amount, .. } =>
            if w == who { a.free(c, w) + released(a, c, who, amount) } else { a.free(c, w) as int },
        BalanceOp::Mint { who, amount, .. } => if w == who { a.free(c, w) + amount } else { a.free(c, w) as int },
        BalanceOp::Burn { who, amount, .. } => if w == who { a.free(c, w) - amount } else { a.free(c, w) as int },
        BalanceOp::Nothing => a.free(c, w) as int,
    }
}

/// The held balance of `w` in the operation's currency after `op` succeeds on `a`.
pub open spec fn op_held(a: Assets, op: BalanceOp, w: u64) -> int {
    let c = op_currency(op);
    match op {
        BalanceOp::Hold { who, amount, .. } => if w == who { a.held(c, w) + amount } else { a.held(c, w) as int },
        BalanceOp::Release { who, amount, .. } =>
            if w == who { a.held(c, w) - released(a, c, who, amount) } else { a.held(c, w) as int },
        _ => a.held(c, w) as int,
    }
}

/// The issuance of the operation's currency after `op` succeeds on `a`.
pub open spec fn op_issuance(a: Assets, op: BalanceOp) -> int {
    let i = a.ledger(op_currency(op)).issuance;
    match op {
        BalanceOp::Mint { amount, .. } => i + amount,
        BalanceOp::Burn { amount, .. } => if i < amount { 0 } else { i - amount },
        _ => i as int,
    }
}

/// `b` is what `op` makes of `a`: unchanged when it fails; otherwise the balances and
/// the issuance of its currency change as it says, and the other currency not at all.
pub open spec fn op_step(a: Assets, b: Assets, op: BalanceOp) -> bool {
    if !op_ok(a, op) {
        b == a
    } else {
        let c = op_currency(op);
        &&& forall|w: u64| #[trigger] b.free(c, w) == op_free(a, op, w)
        &&& forall|w: u64| #[trigger] b.held(c, w) == op_held(a, op, w)
        &&& b.ledger(c).issuance == op_issuance(a, op)
        &&& c == NATIVE ==> b.stable == a.stable
        &&& c != NATIVE ==> b.native == a.native
    }
}

/// The issuance once a free balance of `before` is set to `after`: it follows the change,
/// saturating at the bounds of `u128`.
pub open spec fn issuance_after_set(issuance: u128, before: u128, after: u128) -> u128 {
    if after >= before {
        if issuance + (after - before) > u128::MAX { u128::MAX } else { (issuance + (after - before)) as u128 }
    } else {
        if issuance < before - after { 0 } else { (issuance - (before - after)) as u128 }
    }
}

/// Balances in the native and the stable currency.
pub struct Assets {
    pub native: Ledger,
    pub stable: Ledger,
}

impl Assets {
    pub open spec fn wf(&self) -> bool {
        self.native.wf() && self.stable.wf()
    }

    /// The ledger of a currency (the stable one for any id but `NATIVE`).
    pub open spec fn ledger(&self, currency: CurrencyId) -> Ledger {
        if currency == NATIVE { self.native } else { self.stable }
    }

    /// Free balance of `who` in `currency`.
    pub open spec fn free(&self, currency: CurrencyId, who: u64) -> u128 {
        self.ledger(currency).free_of(who)
    }

    /// Held balance of `who` in `currency`.
    pub open spec fn held(&self, currency: CurrencyId, who: u64) -> u128 {
        self.ledger(currency).held_of(who)
    }

    /// The same balances in both currencies.
    pub open spec fn same(&self, other: Assets) -> bool {
        &&& self.native.issuance == other.native.issuance
        &&& self.stable.issuance == other.stable.issuance
        &&& self.native.free.view_map() == other.native.free.view_map()
        &&& self.native.held.view_map() == other.native.held.view_map()
        &&& self.stable.free.view_map() == other.stable.free.view_map()
        &&& self.stable.held.view_map() == other.stable.held.view_map()
    }

    /// A copy of the balances.
    pub fn duplicate(&self) -> (r: Self)
        requires
            self.wf(),
        ensures
            r.wf(),
            r.same(*self),
    {
        let r = Assets { native: self.native.duplicate(), stable: self.stable.duplicate() };
        r
    }

    /// `Ledger::transfer_on_hold` in `currency`.
    pub fn transfer_on_hold(&mut self, currency: CurrencyId, from: u64, to: u64, amount: u128) -> (r: Result<(), TokenError>)
        requires
            old(self).wf(),
        ensures
            final(self).wf(),
            r is Err <==> (old(self).held(currency, from) < amount || old(self).free(currency, to) + amount > u128::MAX),
            r is Err ==> *final(self) == *old(self),
            r is Ok ==> final(self).held(currency, from) == old(self).held(currency, from) - amount
                && final(self).free(currency, to) == old(self).free(currency, to) + amount
                && (forall|w: u64| w != from ==> final(self).held(currency, w) == old(self).held(currency, w))
                && (forall|w: u64| w != to ==> final(self).free(currency, w) == old(self).free(currency, w)),
            currency == NATIVE ==> final(self).stable == old(self).stable,
            currency != NATIVE ==> final(self).native == old(self).native,
    {
        if currency == NATIVE {
            self.native.transfer_on_hold(from, to, amount)
        } else {
            self.stable.transfer_on_hold(from, to, amount)
        }
    }

    /// Whether `currency` is one of the two currencies.
    pub open spec fn known(currency: CurrencyId) -> bool {
        currency == NATIVE || currency == STABLE
    }

    /// Empty balances.
    pub fn new() -> (r: Self)
        ensures
            r.wf(),
            r.native.issuance == 0 && r.stable.issuance == 0,
            forall|c: CurrencyId, w: u64| r.free(c, w) == 0 && r.held(c, w) == 0,
    {
        Assets { native: Ledger::new(), stable: Ledger::new() }
    }

    /// Free balance of `who` in `currency`.
    pub fn balance(&self, currency: CurrencyId, who: u64) -> (r: u128)
        requires
            self.wf(),
        ensures
            r == self.free(currency, who),
    {
        if currency == NATIVE {
            self.native.balance(who)
        } else {
            self.stable.balance(who)
        }
    }

    /// Held balance of `who` in `currency`.
    pub fn balance_on_hold(&self, currency: CurrencyId, who: u64) -> (r: u128)
        requires
            self.wf(),
        ensures
            r == self.held(currency, who),
    {
        if currency == NATIVE {
            self.native.balance_on_hold(who)
        } else {
            self.stable.balance_on_hold(who)
        }
    }

    /// Total issuance of `currency`.
    pub fn total_issuance(&self, currency: CurrencyId) -> (r: u128)
        ensures
            r == self.ledger(currency).issuance,
    {
        if currency == NATIVE {
            self.native.issuance
        } else {
            self.stable.issuance
        }
    }

    /// `Ledger::transfer` in `currency`; the other currency is unchanged.
    pub fn transfer(&mut self, currency: CurrencyId, from: u64, to: u64, amount: u128) -> (r: Result<(), TokenError>)
        requires
            old(self).wf(),
        ensures
            op_step(*old(self), *final(self), BalanceOp::Transfer { currency, from, to, amount }),
            final(self).wf(),
            r is Err <==> (old(self).free(currency, from) < amount
                || (from != to && old(self).free(currency, to) + amount > u128::MAX)),
            old(self).free(currency, from) < amount ==> r == Err::<(), TokenError>(TokenError::FundsUnavailable),
            old(self).free(currency, from) >= amount && r is Err ==> r == Err::<(), TokenError>(TokenError::Overflow),
            r is Err ==> *final(self) == *old(self),
            r is Ok ==> final(self).ledger(currency).issuance == old(self).ledger(currency).issuance
                && (from != to ==> final(self).free(currency, from) == old(self).free(currency, from) - amount
                    && final(self).free(currency, to) == old(self).free(currency, to) + amount)
                && (forall|w: u64| w != from && w != to ==> final(self).free(currency, w) == old(self).free(currency, w))
                && (forall|w: u64| final(self).free(currency, w) == old(self).free(currency, w) || w == from || w == to)
                && (from == to ==> forall|w: u64| final(self).free(currency, w) == old(self).free(currency, w))
                && (forall|w: u64| final(self).held(currency, w) == old(self).held(currency, w)),
            currency == NATIVE ==> final(self).stable == old(self).stable,
            currency != NATIVE ==> final(self).native == old(self).native,
    {
        if currency == NATIVE {
            self.native.transfer(from, to, amount)
        } else {
            self.stable.transfer(from, to, amount)
        }
    }

    /// `Ledger::make_free_balance_be` in `currency`; the other currency is unchanged.
    pub fn make_free_balance_be(&mut self, currency: CurrencyId, who: u64, amount: u128)
        requires
            old(self).wf(),
        ensures
            final(self).wf(),
            final(self).free(currency, who) == amount,
            forall|w: u64| w != who ==> final(self).free(currency, w) == old(self).free(currency, w),
            forall|w: u64| final(self).held(currency, w) == old(self).held(currency, w),
            final(self).ledger(currency).issuance
                == issuance_after_set(old(self).ledger(currency).issuance, old(self).free(currency, who), amount),
            currency == NATIVE ==> final(self).stable == old(self).stable,
            currency != NATIVE ==> final(self).native == old(self).native,
    {
        if currency == NATIVE {
            self.native.make_free_balance_be(who, amount)
        } else {
            self.stable.make_free_balance_be(who, amount)
        }
    }

    /// `Ledger::mint_into` in `currency`.
    pub fn mint_into(&mut self, currency: CurrencyId, who: u64, amount: u128) -> (r: Result<(), TokenError>)
        requires
            old(self).wf(),
        ensures
            op_step(*old(self), *final(self), BalanceOp::Mint { currency, who, amount }),
            final(self).wf(),
            r is Err <==> (old(self).ledger(currency).issuance + amount > u128::MAX
                || old(self).free(currency, who) + amount > u128::MAX),
            r is Err ==> *final(self) == *old(self),
            r is Ok ==> final(self).ledger(currency).issuance == old(self).ledger(currency).issuance + amount
                && final(self).free(currency, who) == old(self).free(currency, who) + amount
                && (forall|w: u64| w != who ==> final(self).free(currency, w) == old(self).free(currency, w))
                && (forall|w: u64| final(self).held(currency, w) == old(self).held(currency, w)),
            currency == NATIVE ==> final(self).stable == old(self).stable,
            currency != NATIVE ==> final(self).native == old(self).native,
    {
        if currency == NATIVE {
            self.native.mint_into(who, amount)
        } else {
            self.stable.mint_into(who, amount)
        }
    }

    /// `Ledger::burn_from` in `currency`.
    pub fn burn_from(&mut self, currency: CurrencyId, who: u64, amount: u128) -> (r: Result<(), TokenError>)
        requires
            old(self).wf(),
        ensures
            op_step(*old(self), *final(self), BalanceOp::Burn { currency, who, amount }),
            final(self).wf(),
            r is Err <==> old(self).free(currency, who) < amount,
            r is Err ==> *final(self) == *old(self),
            r is Ok ==> final(self).free(currency, who) == old(self).free(currency, who) - amount
                && (forall|w: u64| w != who ==> final(self).free(currency, w) == old(self).free(currency, w))
                && (forall|w: u64| final(self).held(currency, w) == old(self).held(currency, w)),
            currency == NATIVE ==> final(self).stable == old(self).stable,
            currency != NATIVE ==> final(self).native == old(self).native,
    {
        if currency == NATIVE {
            self.native.burn_from(who, amount)
        } else {
            self.stable.burn_from(who, amount)
        }
    }

    /// `Ledger::hold` in `currency`.
    pub fn hold(&mut self, currency: CurrencyId, who: u64, amount: u128) -> (r: Result<(), TokenError>)
        requires
            old(self).wf(),
        ensures
            op_step(*old(self), *final(self), BalanceOp::Hold { currency, who, amount }),
            final(self).wf(),
            r is Err <==> (old(self).free(currency, who) < amount || old(self).held(currency, who) + amount > u128::MAX),
            r is Err ==> *final(self) == *old(self),
            r is Ok ==> final(self).free(currency, who) == old(self).free(currency, who) - amount
                && final(self).held(currency, who) == old(self).held(currency, who) + amount
                && (forall|w: u64| w != who ==> final(self).free(currency, w) == old(self).free(currency, w)
                    && final(self).held(currency, w) == old(self).held(currency, w)),
            currency == NATIVE ==> final(self).stable == old(self).stable,
            currency != NATIVE ==> final(self).native == old(self).native,
    {
        if currency == NATIVE {
            self.native.hold(who, amount)
        } else {
            self.stable.hold(who, amount)
        }
    }

    /// `Ledger::release` in `currency`.
    pub fn release(&mut self, currency: CurrencyId, who: u64, amount: u128) -> (r: Result<u128, TokenError>)
        requires
            old(self).wf(),
        ensures
            op_step(*old(self), *final(self), BalanceOp::Release { currency, who, amount }),
            final(self).wf(),
            ({
                let h = old(self).held(currency, who);
                let rel = if h < amount { h } else { amount };
                &&& r is Err <==> old(self).free(currency, who) + rel > u128::MAX
                &&& r is Err ==> *final(self) == *old(self)
                &&& r matches Ok(x) ==> x == rel
                    && final(self).free(currency, who) == old(self).free(currency, who) + rel
                    && final(self).held(currency, who) == h - rel
                    && (forall|w: u64| w != who ==> final(self).free(currency, w) == old(self).free(currency, w)
                        && final(self).held(currency, w) == old(self).held(currency, w))
            }),
            currency == NATIVE ==> final(self).stable == old(self).stable,
            currency != NATIVE ==> final(self).native == old(self).native,
    {
        if currency == NATIVE {
            self.native.release(who, amount)
        } else {
            self.stable.release(who, amount)
        }
    }
}

} // verus!
