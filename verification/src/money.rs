//! An exact fixed-point money type.
//!
//! A [`Money`] value is a signed count of ten-thousandths of one currency
//! unit, so it carries four fractional decimal digits exactly; addition,
//! subtraction and comparison are exact integer arithmetic and never drift.

use vstd::prelude::*;

verus! {

/// An exact amount of money: a signed count of ten-thousandths of one
/// currency unit (four fractional decimal digits of precision).
///
/// Its view is that count as an unbounded integer.
#[derive(Debug, Clone, Copy, PartialEq, Eq, Structural)]
pub struct Money {
    units: i64,
}

impl View for Money {
    type V = int;

    closed spec fn view(&self) -> int {
        self.units as int
    }
}

/// Every money value fits the fixed-point range: its view is the view of
/// some signed 64-bit count of ten-thousandths.
pub broadcast proof fn lemma_money_fits(m: Money)
    ensures
        i64::MIN <= #[trigger] m@ <= i64::MAX,
{
}

impl Money {
    /// The amount worth `units` ten-thousandths of one currency unit.
    pub fn from_units(units: i64) -> (m: Money)
        ensures
            m@ == units,
    {
        Money { units }
    }

    /// No money at all.
    pub fn zero() -> (m: Money)
        ensures
            m@ == 0,
    {
        Money { units: 0 }
    }

    /// The amount as a count of ten-thousandths of one currency unit.
    pub fn units(self) -> (u: i64)
        ensures
            u == self@,
    {
        self.units
    }

    /// Exact sum of two amounts.
    pub fn plus(self, other: Money) -> (m: Money)
        requires
            i64::MIN <= self@ + other@ <= i64::MAX,
        ensures
            m@ == self@ + other@,
    {
        Money { units: self.units + other.units }
    }

    /// Exact difference of two amounts.
    pub fn minus(self, other: Money) -> (m: Money)
        requires
            i64::MIN <= self@ - other@ <= i64::MAX,
        ensures
            m@ == self@ - other@,
    {
        Money { units: self.units - other.units }
    }

    /// Exact sum, or `None` if it does not fit.
    pub fn checked_plus(self, other: Money) -> (r: Option<Money>)
        ensures
            match r {
                Some(m) => i64::MIN <= self@ + other@ <= i64::MAX && m@ == self@ + other@,
                None => !(i64::MIN <= self@ + other@ <= i64::MAX),
            },
    {
        if other.units >= 0 {
            if self.units <= i64::MAX - other.units {
                Some(Money { units: self.units + other.units })
            } else {
                None
            }
        } else {
            if self.units >= i64::MIN - other.units {
                Some(Money { units: self.units + other.units })
            } else {
                None
            }
        }
    }

    /// Exact difference, or `None` if it does not fit.
    pub fn checked_minus(self, other: Money) -> (r: Option<Money>)
        ensures
            match r {
                Some(m) => i64::MIN <= self@ - other@ <= i64::MAX && m@ == self@ - other@,
                None => !(i64::MIN <= self@ - other@ <= i64::MAX),
            },
    {
        if other.units <= 0 {
            if self.units <= i64::MAX + other.units {
                Some(Money { units: self.units - other.units })
            } else {
                None
            }
        } else {
            if self.units >= i64::MIN + other.units {
                Some(Money { units: self.units - other.units })
            } else {
                None
            }
        }
    }

    /// Exact decimal comparison: is this amount strictly below `other`?
    pub fn less_than(self, other: Money) -> (b: bool)
        ensures
            b == (self@ < other@),
    {
        self.units < other.units
    }

    /// Is this amount strictly below zero?
    pub fn is_negative(self) -> (b: bool)
        ensures
            b == (self@ < 0),
    {
        self.units < 0
    }
}

} // verus!
