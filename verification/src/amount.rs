//! Money as an exact fixed-point number.

use vstd::prelude::*;

verus! {

/// How many units make one whole: an amount has four decimal places.
pub const UNITS_PER_WHOLE: i64 = 10_000;

/// Whether `value`, counted in units, can be held by an [`Amount`].
///
/// The range is symmetric about zero, so that every amount has a negation.
pub open spec fn representable(value: int) -> bool {
    -(i64::MAX as int) <= value <= i64::MAX as int
}

/// A signed decimal amount of money, held as a whole number of units of
/// one ten-thousandth.
#[derive(Clone, Copy, Debug, PartialEq, Eq, Structural)]
pub struct Amount {
    units: i64,
}

impl View for Amount {
    type V = int;

    /// The amount in units.
    closed spec fn view(&self) -> int {
        self.units as int
    }
}

impl Amount {
    /// Holds of every amount that executable code can have in hand.
    #[verifier::type_invariant]
    pub open spec fn in_range(self) -> bool {
        representable(self@)
    }

    /// The amount of nothing.
    pub fn zero() -> (result: Amount)
        ensures
            result@ == 0,
    {
        Amount { units: 0 }
    }

    /// The amount of `units` ten-thousandths, or `None` for the one value of
    /// `i64` that has no negation.
    pub fn from_units(units: i64) -> (result: Option<Amount>)
        ensures
            result.is_some() == representable(units as int),
            result matches Some(amount) ==> amount@ == units,
    {
        if units == i64::MIN {
            None
        } else {
            Some(Amount { units })
        }
    }

    /// The amount of `whole` whole units of currency.
    pub fn from_whole(whole: i32) -> (result: Amount)
        ensures
            result@ == whole * UNITS_PER_WHOLE,
    {
        let wide: i64 = whole as i64;
        Amount { units: wide * UNITS_PER_WHOLE }
    }

    /// The amount in units.
    pub fn units(self) -> (result: i64)
        ensures
            result == self@,
            representable(self@),
    {
        proof {
            use_type_invariant(&self);
        }
        self.units
    }

    /// The amount with the opposite sign.
    pub fn negated(self) -> (result: Amount)
        ensures
            result@ == -self@,
    {
        proof {
            use_type_invariant(&self);
        }
        Amount { units: -self.units }
    }

    /// Whether this amount is no more than `other`.
    pub fn at_most(self, other: Amount) -> (result: bool)
        ensures
            result == (self@ <= other@),
    {
        self.units <= other.units
    }

    /// The sum of two amounts, where an amount can hold it.
    pub fn checked_add(self, other: Amount) -> (result: Option<Amount>)
        ensures
            result.is_some() == representable(self@ + other@),
            result matches Some(sum) ==> sum@ == self@ + other@,
    {
        match self.units.checked_add(other.units) {
            Some(units) => Amount::from_units(units),
            None => None,
        }
    }

    /// The difference of two amounts, where an amount can hold it.
    pub fn checked_sub(self, other: Amount) -> (result: Option<Amount>)
        ensures
            result.is_some() == representable(self@ - other@),
            result matches Some(difference) ==> difference@ == self@ - other@,
    {
        match self.units.checked_sub(other.units) {
            Some(units) => Amount::from_units(units),
            None => None,
        }
    }
}

/// The number of units in an optional amount.
pub open spec fn units_of(amount: Option<Amount>) -> Option<int> {
    match amount {
        Some(amount) => Some(amount@),
        None => None,
    }
}

/// Two amounts are the same value exactly when they count the same units.
pub proof fn lemma_amount_determined_by_units(a: Amount, b: Amount)
    ensures
        (a@ == b@) == (a == b),
{
}

} // verus!
