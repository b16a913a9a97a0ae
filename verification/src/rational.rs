//! Exact quantities.
//!
//! Every time, distance and fuel amount of a voyage is a quotient of two
//! integers. `Rational` is that quotient as a mathematical object, `Ratio` is
//! the value the executable code hands around, and the two rounding functions
//! say how a quotient becomes a whole number of minutes or of hundredths.

use vstd::prelude::*;
use vstd::arithmetic::div_mod::*;

verus! {

/// The rational number `numer / denom`.
pub struct Rational {
    pub numer: int,
    pub denom: int,
}

impl Rational {
    /// A quotient is a number when its denominator is positive.
    pub open spec fn wf(self) -> bool {
        self.denom > 0
    }

    /// `self` and `other` are the same number.
    pub open spec fn same(self, other: Rational) -> bool {
        self.numer * other.denom == other.numer * self.denom
    }

    /// `self <= other` as numbers.
    pub open spec fn le(self, other: Rational) -> bool {
        self.numer * other.denom <= other.numer * self.denom
    }

    /// `self < other` as numbers.
    pub open spec fn lt(self, other: Rational) -> bool {
        self.numer * other.denom < other.numer * self.denom
    }

    /// The sum of two quotients.
    pub open spec fn plus(self, other: Rational) -> Rational {
        Rational {
            numer: self.numer * other.denom + other.numer * self.denom,
            denom: self.denom * other.denom,
        }
    }

    /// The difference of two quotients.
    pub open spec fn minus(self, other: Rational) -> Rational {
        Rational {
            numer: self.numer * other.denom - other.numer * self.denom,
            denom: self.denom * other.denom,
        }
    }

    /// The product of two quotients.
    pub open spec fn times(self, other: Rational) -> Rational {
        Rational { numer: self.numer * other.numer, denom: self.denom * other.denom }
    }

    /// `self / other`; a number whenever `other` is not zero.
    pub open spec fn over(self, other: Rational) -> Rational {
        if other.numer < 0 {
            Rational { numer: -(self.numer * other.denom), denom: -(self.denom * other.numer) }
        } else {
            Rational { numer: self.numer * other.denom, denom: self.denom * other.numer }
        }
    }

    /// The whole number `n`.
    pub open spec fn whole(n: int) -> Rational {
        Rational { numer: n, denom: 1 }
    }
}

/// The integer nearest to `n / d`, a tie going to the larger one
/// (`n >= 0`, `d > 0`).
pub open spec fn round_half_up(n: int, d: int) -> int {
    n / d + if 2 * (n % d) >= d {
        1int
    } else {
        0int
    }
}

/// The integer nearest to `n / d`, a tie going to the even one
/// (`n >= 0`, `d > 0`).
pub open spec fn round_half_even(n: int, d: int) -> int {
    let q = n / d;
    let r = n % d;
    if 2 * r > d || (2 * r == d && q % 2 == 1) {
        q + 1
    } else {
        q
    }
}

/// `round_half_up(n, d)` lies within half a unit of `n / d`, and on the
/// upper side of an exact tie.
pub proof fn lemma_round_half_up_nearest(n: int, d: int)
    requires
        0 <= n,
        0 < d,
    ensures
        0 <= round_half_up(n, d),
        2 * (round_half_up(n, d) * d) - d <= 2 * n < 2 * (round_half_up(n, d) * d) + d,
{
    let q = n / d;
    let r = n % d;
    lemma_fundamental_div_mod(n, d);
    lemma_mod_bound(n, d);
    lemma_div_pos_is_pos(n, d);
    assert(n == q * d + r) by (nonlinear_arith)
        requires
            n == d * q + r,
    ;
    assert((q + 1) * d == q * d + d) by (nonlinear_arith);
}

/// Only one integer lies within half a unit of `n / d` on the upper side of
/// ties: it is `round_half_up(n, d)`.
pub proof fn lemma_round_half_up_unique(n: int, d: int, q: int)
    requires
        0 <= n,
        0 < d,
        2 * (q * d) - d <= 2 * n < 2 * (q * d) + d,
    ensures
        q == round_half_up(n, d),
{
    let p = round_half_up(n, d);
    lemma_round_half_up_nearest(n, d);
    assert(q == p) by (nonlinear_arith)
        requires
            0 < d,
            2 * (q * d) - d <= 2 * n < 2 * (q * d) + d,
            2 * (p * d) - d <= 2 * n < 2 * (p * d) + d,
    ;
}

/// `round_half_even(n, d)` lies within half a unit of `n / d`, and is even
/// on an exact tie.
pub proof fn lemma_round_half_even_nearest(n: int, d: int)
    requires
        0 <= n,
        0 < d,
    ensures
        0 <= round_half_even(n, d),
        2 * (round_half_even(n, d) * d) - d <= 2 * n <= 2 * (round_half_even(n, d) * d) + d,
        2 * n == 2 * (round_half_even(n, d) * d) - d || 2 * n == 2 * (round_half_even(n, d) * d)
            + d ==> round_half_even(n, d) % 2 == 0,
{
    let q = n / d;
    let r = n % d;
    lemma_fundamental_div_mod(n, d);
    lemma_mod_bound(n, d);
    lemma_div_pos_is_pos(n, d);
    assert(n == q * d + r) by (nonlinear_arith)
        requires
            n == d * q + r,
    ;
    assert((q + 1) * d == q * d + d) by (nonlinear_arith);
}

/// Only one integer lies within half a unit of `n / d` and is even on a tie:
/// it is `round_half_even(n, d)`.
pub proof fn lemma_round_half_even_unique(n: int, d: int, q: int)
    requires
        0 <= n,
        0 < d,
        2 * (q * d) - d <= 2 * n <= 2 * (q * d) + d,
        2 * n == 2 * (q * d) - d || 2 * n == 2 * (q * d) + d ==> q % 2 == 0,
    ensures
        q == round_half_even(n, d),
{
    let p = round_half_even(n, d);
    lemma_round_half_even_nearest(n, d);
    assert(p - 1 <= q <= p + 1) by (nonlinear_arith)
        requires
            0 < d,
            2 * (q * d) - d <= 2 * n <= 2 * (q * d) + d,
            2 * (p * d) - d <= 2 * n <= 2 * (p * d) + d,
    ;
    if q == p + 1 {
        assert(2 * n == 2 * (p * d) + d && 2 * n == 2 * (q * d) - d) by (nonlinear_arith)
            requires
                0 < d,
                q == p + 1,
                2 * (q * d) - d <= 2 * n,
                2 * n <= 2 * (p * d) + d,
        ;
    } else if q == p - 1 {
        assert(2 * n == 2 * (p * d) - d && 2 * n == 2 * (q * d) + d) by (nonlinear_arith)
            requires
                0 < d,
                q == p - 1,
                2 * (p * d) - d <= 2 * n,
                2 * n <= 2 * (q * d) + d,
        ;
    }
}

/// Rounding looks at the number, not at how it is written: two quotients
/// that are the same number round to the same integer, ties upward.
pub proof fn lemma_round_half_up_same(a: Rational, b: Rational)
    requires
        a.wf(),
        b.wf(),
        0 <= a.numer,
        a.same(b),
    ensures
        0 <= b.numer,
        round_half_up(a.numer, a.denom) == round_half_up(b.numer, b.denom),
{
    let q = round_half_up(a.numer, a.denom);
    lemma_round_half_up_nearest(a.numer, a.denom);
    let (an, ad, bn, bd) = (a.numer, a.denom, b.numer, b.denom);
    assert(0 <= bn) by (nonlinear_arith)
        requires
            0 < ad,
            0 < bd,
            0 <= an,
            an * bd == bn * ad,
    ;
    assert(2 * (q * bd) - bd <= 2 * bn < 2 * (q * bd) + bd) by (nonlinear_arith)
        requires
            0 < ad,
            0 < bd,
            an * bd == bn * ad,
            2 * (q * ad) - ad <= 2 * an < 2 * (q * ad) + ad,
    ;
    lemma_round_half_up_unique(bn, bd, q);
}

/// Two quotients that are the same number round to the same integer, ties
/// to even.
pub proof fn lemma_round_half_even_same(a: Rational, b: Rational)
    requires
        a.wf(),
        b.wf(),
        0 <= a.numer,
        a.same(b),
    ensures
        0 <= b.numer,
        round_half_even(a.numer, a.denom) == round_half_even(b.numer, b.denom),
{
    let q = round_half_even(a.numer, a.denom);
    lemma_round_half_even_nearest(a.numer, a.denom);
    let (an, ad, bn, bd) = (a.numer, a.denom, b.numer, b.denom);
    assert(0 <= bn) by (nonlinear_arith)
        requires
            0 < ad,
            0 < bd,
            0 <= an,
            an * bd == bn * ad,
    ;
    assert(2 * (q * bd) - bd <= 2 * bn <= 2 * (q * bd) + bd) by (nonlinear_arith)
        requires
            0 < ad,
            0 < bd,
            an * bd == bn * ad,
            2 * (q * ad) - ad <= 2 * an <= 2 * (q * ad) + ad,
    ;
    assert(2 * bn == 2 * (q * bd) - bd ==> 2 * an == 2 * (q * ad) - ad) by (nonlinear_arith)
        requires
            0 < ad,
            0 < bd,
            an * bd == bn * ad,
    ;
    assert(2 * bn == 2 * (q * bd) + bd ==> 2 * an == 2 * (q * ad) + ad) by (nonlinear_arith)
        requires
            0 < ad,
            0 < bd,
            an * bd == bn * ad,
    ;
    lemma_round_half_even_unique(bn, bd, q);
}

/// Largest magnitude that a `Ratio` holds in its numerator or denominator:
/// ten to the power 36, which leaves room to scale by a hundred.
pub const RATIO_LIMIT: i128 = 1_000_000_000_000_000_000_000_000_000_000_000_000;

/// An exact quantity `numer / denom` with a positive denominator.
#[derive(Clone, Copy, Debug)]
pub struct Ratio {
    numer: i128,
    denom: i128,
}

impl View for Ratio {
    type V = Rational;

    closed spec fn view(&self) -> Rational {
        Rational { numer: self.numer as int, denom: self.denom as int }
    }
}

impl Ratio {
    #[verifier::type_invariant]
    spec fn in_range(self) -> bool {
        Ratio::fits(self.numer as int, self.denom as int)
    }

    /// The pairs that a `Ratio` can hold.
    pub open spec fn fits(numer: int, denom: int) -> bool {
        &&& 0 < denom <= RATIO_LIMIT
        &&& -RATIO_LIMIT <= numer <= RATIO_LIMIT
    }

    /// The quantity `numer / denom`, or `None` when the denominator is not
    /// positive or either part is beyond `RATIO_LIMIT`.
    pub fn new(numer: i128, denom: i128) -> (r: Option<Ratio>)
        ensures
            r is Some <==> Ratio::fits(numer as int, denom as int),
            r matches Some(q) ==> q@ == (Rational { numer: numer as int, denom: denom as int }),
    {
        if 0 < denom && denom <= RATIO_LIMIT && -RATIO_LIMIT <= numer && numer <= RATIO_LIMIT {
            Some(Ratio { numer, denom })
        } else {
            None
        }
    }

    /// The quantity `numer / denom`, for a pair that fits.
    pub fn of(numer: i128, denom: i128) -> (r: Ratio)
        requires
            Ratio::fits(numer as int, denom as int),
        ensures
            r@ == (Rational { numer: numer as int, denom: denom as int }),
    {
        Ratio { numer, denom }
    }

    /// The whole number zero.
    pub fn zero() -> (r: Ratio)
        ensures
            r@ == Rational::whole(0),
    {
        Ratio { numer: 0, denom: 1 }
    }

    /// The whole number one.
    pub fn one() -> (r: Ratio)
        ensures
            r@ == Rational::whole(1),
    {
        Ratio { numer: 1, denom: 1 }
    }

    /// The numerator.
    pub fn numer(&self) -> (n: i128)
        ensures
            n == self@.numer,
            -RATIO_LIMIT <= n <= RATIO_LIMIT,
    {
        proof {
            use_type_invariant(self);
        }
        self.numer
    }

    /// The denominator, which is positive.
    pub fn denom(&self) -> (d: i128)
        ensures
            d == self@.denom,
            0 < d <= RATIO_LIMIT,
    {
        proof {
            use_type_invariant(self);
        }
        self.denom
    }
}

/// Where the remainder of `n / d` is at least half of `d`, the quotient is
/// smaller than `n`, so that adding one to it stays within `n`.
proof fn lemma_quotient_below_dividend(n: int, d: int)
    requires
        0 <= n,
        0 < d,
        2 * (n % d) >= d,
    ensures
        n / d < n,
{
    lemma_fundamental_div_mod(n, d);
    lemma_mod_bound(n, d);
    lemma_div_pos_is_pos(n, d);
    let q = n / d;
    let r = n % d;
    assert(q < n) by (nonlinear_arith)
        requires
            n == d * q + r,
            0 <= q,
            0 < d,
            2 * r >= d,
    ;
}

/// `n / d` rounded to the nearest integer, a tie going up.
pub fn div_round_half_up(n: u128, d: u128) -> (q: u128)
    requires
        d > 0,
    ensures
        q == round_half_up(n as int, d as int),
{
    let whole = n / d;
    let rest = n % d;
    if rest >= d - rest {
        proof {
            lemma_quotient_below_dividend(n as int, d as int);
        }
        whole + 1
    } else {
        whole
    }
}

/// `n / d` rounded to the nearest integer, a tie going to the even one.
pub fn div_round_half_even(n: u128, d: u128) -> (q: u128)
    requires
        d > 0,
    ensures
        q == round_half_even(n as int, d as int),
{
    let whole = n / d;
    let rest = n % d;
    if rest > d - rest || (rest == d - rest && whole % 2 == 1) {
        proof {
            lemma_quotient_below_dividend(n as int, d as int);
        }
        whole + 1
    } else {
        whole
    }
}

} // verus!
