//! Balance adjustments: a change of a balance whose direction is explicit.

use vstd::prelude::*;

verus! {

/// The arithmetic error of an adjustment that does not fit in the balance type.
#[derive(Clone, Copy, Debug, PartialEq, Eq, Structural)]
pub enum ArithmeticError {
    /// The result would be below zero.
    Underflow,
    /// The result would exceed the largest balance.
    Overflow,
}

/// A change of a balance: increase or decrease by an amount.
#[derive(Clone, Copy, Debug, PartialEq, Eq, Structural)]
pub enum BalanceAdjustment {
    /// Increase the balance by this amount.
    Increase(u128),
    /// Decrease the balance by this amount.
    Decrease(u128),
}

impl BalanceAdjustment {
    /// The absolute amount of the adjustment.
    pub open spec fn spec_amount(self) -> u128 {
        match self {
            BalanceAdjustment::Increase(a) => a,
            BalanceAdjustment::Decrease(a) => a,
        }
    }

    /// The balance after applying the adjustment, as an integer (possibly out of range).
    pub open spec fn applied(self, current: int) -> int {
        match self {
            BalanceAdjustment::Increase(a) => current + a,
            BalanceAdjustment::Decrease(a) => current - a,
        }
    }

    /// The result of `apply_to`: the new balance, or which bound it crosses.
    pub open spec fn spec_apply_to(self, current: u128) -> Result<u128, ArithmeticError> {
        let v = self.applied(current as int);
        if v > u128::MAX {
            Err(ArithmeticError::Overflow)
        } else if v < 0 {
            Err(ArithmeticError::Underflow)
        } else {
            Ok(v as u128)
        }
    }

    /// Create a new increase adjustment.
    pub fn increase(amount: u128) -> (r: Self)
        ensures
            r == BalanceAdjustment::Increase(amount),
    {
        BalanceAdjustment::Increase(amount)
    }

    /// Create a new decrease adjustment.
    pub fn decrease(amount: u128) -> (r: Self)
        ensures
            r == BalanceAdjustment::Decrease(amount),
    {
        BalanceAdjustment::Decrease(amount)
    }

    /// The absolute amount of this adjustment.
    pub fn amount(&self) -> (r: u128)
        ensures
            r == self.spec_amount(),
    {
        match self {
            BalanceAdjustment::Increase(a) => *a,
            BalanceAdjustment::Decrease(a) => *a,
        }
    }

    /// Whether this is an increase.
    pub fn is_increase(&self) -> (r: bool)
        ensures
            r == (*self is Increase),
    {
        match self {
            BalanceAdjustment::Increase(_) => true,
            BalanceAdjustment::Decrease(_) => false,
        }
    }

    /// Whether this is a decrease.
    pub fn is_decrease(&self) -> (r: bool)
        ensures
            r == (*self is Decrease),
    {
        match self {
            BalanceAdjustment::Increase(_) => false,
            BalanceAdjustment::Decrease(_) => true,
        }
    }

    /// Apply this adjustment to a balance: the new balance, `Overflow` when it would
    /// exceed `u128::MAX`, `Underflow` when it would be negative.
    pub fn apply_to(&self, current: u128) -> (r: Result<u128, ArithmeticError>)
        ensures
            r == self.spec_apply_to(current),
    {
        match self {
            BalanceAdjustment::Increase(a) => match current.checked_add(*a) {
                Some(v) => Ok(v),
                None => Err(ArithmeticError::Overflow),
            },
            BalanceAdjustment::Decrease(a) => match current.checked_sub(*a) {
                Some(v) => Ok(v),
                None => Err(ArithmeticError::Underflow),
            },
        }
    }

    /// Apply this adjustment, saturating at zero and at `u128::MAX`.
    pub fn saturating_apply_to(&self, current: u128) -> (r: u128)
        ensures
            r == (if self.applied(current as int) > u128::MAX {
                u128::MAX as int
            } else if self.applied(current as int) < 0 {
                0
            } else {
                self.applied(current as int)
            }),
    {
        match self {
            BalanceAdjustment::Increase(a) => current.saturating_add(*a),
            BalanceAdjustment::Decrease(a) => current.saturating_sub(*a),
        }
    }

    /// Whether the amount of this adjustment is zero.
    pub fn is_zero(&self) -> (r: bool)
        ensures
            r == (self.spec_amount() == 0),
    {
        match self {
            BalanceAdjustment::Increase(a) => *a == 0,
            BalanceAdjustment::Decrease(a) => *a == 0,
        }
    }
}

/// Applying an adjustment and then its opposite gives back the balance.
pub proof fn lemma_adjustment_inverse(current: u128, amount: u128)
    ensures
        BalanceAdjustment::Increase(amount).spec_apply_to(current) matches Ok(v) ==>
            BalanceAdjustment::Decrease(amount).spec_apply_to(v) == Ok::<u128, ArithmeticError>(current),
        BalanceAdjustment::Decrease(amount).spec_apply_to(current) matches Ok(v) ==>
            BalanceAdjustment::Increase(amount).spec_apply_to(v) == Ok::<u128, ArithmeticError>(current),
{
}

} // verus!
