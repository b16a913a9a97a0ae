//! Durations: a quantity in hours becomes whole minutes, and whole minutes
//! become words.

use crate::numerals::{format_nat, nat_text};
use crate::rational::{
    div_round_half_up, lemma_round_half_up_nearest, lemma_round_half_up_same, round_half_up,
    Ratio, Rational,
};
use vstd::prelude::*;
use vstd::string::*;

verus! {

/// The whole minutes in `hours`: sixty times the quantity, rounded to the
/// nearest minute with a half minute going up. A negative duration counts
/// as zero.
pub open spec fn whole_minutes(hours: Rational) -> nat {
    if hours.numer <= 0 {
        0
    } else {
        round_half_up(60 * hours.numer, hours.denom) as nat
    }
}

/// `minutes` in words: the hours, and the minutes past the hour where there
/// are any.
pub open spec fn duration_text(minutes: nat) -> Seq<char> {
    if minutes % 60 > 0 {
        nat_text(minutes / 60) + " uur en "@ + nat_text(minutes % 60) + " minuten"@
    } else {
        nat_text(minutes / 60) + " uur"@
    }
}

/// The whole minutes in a duration of `hours`.
pub fn rounded_minutes(hours: &Ratio) -> (minutes: u128)
    ensures
        minutes == whole_minutes(hours@),
        minutes <= 60 * crate::rational::RATIO_LIMIT,
{
    let numer = hours.numer();
    let denom = hours.denom();
    if numer <= 0 {
        return 0;
    }
    proof {
        lemma_round_half_up_nearest(60 * numer as int, denom as int);
        lemma_rounded_below(60 * numer as int, denom as int);
    }
    div_round_half_up(60 * (numer as u128), denom as u128)
}

/// A quotient of a positive numerator rounds to no more than the numerator.
proof fn lemma_rounded_below(n: int, d: int)
    requires
        0 < n,
        0 < d,
    ensures
        0 <= round_half_up(n, d) <= n,
{
    let q = round_half_up(n, d);
    lemma_round_half_up_nearest(n, d);
    assert(q <= n) by (nonlinear_arith)
        requires
            0 < n,
            0 < d,
            2 * (q * d) - d <= 2 * n,
    ;
}

/// A duration of `hours` in words, to the nearest minute: one hour reads
/// "1 uur", an hour and a half reads "1 uur en 30 minuten". Minutes that
/// round up to sixty carry into the hour.
pub fn format_time(hours: &Ratio) -> (s: String)
    ensures
        s@ == duration_text(whole_minutes(hours@)),
{
    let total = rounded_minutes(hours);
    let h = total / 60;
    let m = total % 60;
    let mut s = format_nat(h);
    if m > 0 {
        s.append(" uur en ");
        s.append(format_nat(m).as_str());
        s.append(" minuten");
    } else {
        s.append(" uur");
    }
    s
}

/// The whole minutes of a duration depend on the number alone, not on how
/// the quotient is written.
pub proof fn lemma_whole_minutes_same(a: Rational, b: Rational)
    requires
        a.wf(),
        b.wf(),
        a.same(b),
    ensures
        whole_minutes(a) == whole_minutes(b),
{
    let (an, ad, bn, bd) = (a.numer, a.denom, b.numer, b.denom);
    assert((an <= 0 <==> bn <= 0) && (60 * an) * bd == (60 * bn) * ad) by (nonlinear_arith)
        requires
            ad > 0,
            bd > 0,
            an * bd == bn * ad,
    ;
    if an > 0 {
        lemma_round_half_up_same(
            Rational { numer: 60 * an, denom: ad },
            Rational { numer: 60 * bn, denom: bd },
        );
    }
}

} // verus!
