//! Quantities on the way in: a distance, a speed or a fuel rate in whole
//! thousandths of its unit.

use vstd::prelude::*;

verus! {

/// Largest magnitude of a quantity, in thousandths: ten to the power 16,
/// that is ten million million units. Within it every product that the
/// calculation forms fits the exact arithmetic.
pub const QUANTITY_LIMIT: i64 = 10_000_000_000_000_000;

/// A distance, a speed or a fuel rate in whole thousandths of its unit, of
/// either sign and within `QUANTITY_LIMIT`.
#[derive(Clone, Copy, Debug)]
pub struct Quantity {
    thousandths: i64,
}

impl View for Quantity {
    type V = int;

    closed spec fn view(&self) -> int {
        self.thousandths as int
    }
}

impl Quantity {
    #[verifier::type_invariant]
    spec fn in_range(self) -> bool {
        Quantity::fits(self.thousandths as int)
    }

    /// The thousandths that a `Quantity` can hold.
    pub open spec fn fits(thousandths: int) -> bool {
        -QUANTITY_LIMIT <= thousandths <= QUANTITY_LIMIT
    }

    /// The quantity of so many thousandths, or `None` beyond
    /// `QUANTITY_LIMIT`.
    pub fn new(thousandths: i64) -> (q: Option<Quantity>)
        ensures
            q is Some <==> Quantity::fits(thousandths as int),
            q matches Some(quantity) ==> quantity@ == thousandths,
    {
        if -QUANTITY_LIMIT <= thousandths && thousandths <= QUANTITY_LIMIT {
            Some(Quantity { thousandths })
        } else {
            None
        }
    }

    /// The quantity in thousandths.
    pub fn thousandths(&self) -> (t: i64)
        ensures
            t == self@,
            Quantity::fits(t as int),
    {
        proof {
            use_type_invariant(self);
        }
        self.thousandths
    }
}

} // verus!
