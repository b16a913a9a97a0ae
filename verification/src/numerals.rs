//! Numbers as decimal text.
//!
//! The narrative of a voyage shows whole numbers, amounts with two decimals
//! and limits in thousandths. Each kind has a spec function that says which
//! characters make up the text, and an executable function that builds it.

use crate::rational::{
    div_round_half_even, lemma_round_half_even_same, round_half_even, Ratio, Rational,
};
use vstd::prelude::*;

verus! {

/// The character of the decimal digit `d`, for `0 <= d <= 9`.
pub open spec fn digit_char(d: int) -> char {
    (d + 48) as char
}

/// The decimal numeral of `n`, without leading zeros.
pub open spec fn nat_text(n: nat) -> Seq<char>
    decreases n,
{
    if n < 10 {
        seq![digit_char(n as int)]
    } else {
        nat_text(n / 10).push(digit_char((n % 10) as int))
    }
}

/// The two digits of `n`, with a leading zero below ten (`n < 100`).
pub open spec fn two_digit_text(n: nat) -> Seq<char> {
    seq![digit_char((n / 10) as int), digit_char((n % 10) as int)]
}

/// `c` hundredths written in units: 1234 reads "12.34", 5 reads "0.05".
pub open spec fn hundredths_text(c: nat) -> Seq<char> {
    nat_text(c / 100) + seq!['.'] + two_digit_text(c % 100)
}

/// The amount `q` with two decimals: rounded to the nearest hundredth, a tie
/// going to the even one, and with a minus sign whenever `q` is below zero.
pub open spec fn amount_text(q: Rational) -> Seq<char> {
    if q.numer < 0 {
        seq!['-'] + hundredths_text(round_half_even(100 * (-q.numer), q.denom) as nat)
    } else {
        hundredths_text(round_half_even(100 * q.numer, q.denom) as nat)
    }
}

/// The digits behind the decimal point of `frac` thousandths, without
/// trailing zeros (`0 < frac < 1000`): 500 reads "5", 50 reads "05", 125
/// reads "125".
pub open spec fn fraction_text(frac: nat) -> Seq<char> {
    if frac % 100 == 0 {
        seq![digit_char((frac / 100) as int)]
    } else if frac % 10 == 0 {
        seq![digit_char((frac / 100) as int), digit_char((frac / 10 % 10) as int)]
    } else {
        seq![
            digit_char((frac / 100) as int),
            digit_char((frac / 10 % 10) as int),
            digit_char((frac % 10) as int),
        ]
    }
}

/// `v` thousandths written in units with as few decimals as it takes:
/// 100000 reads "100", 12500 reads "12.5", -1 reads "-0.001".
pub open spec fn thousandths_text(v: int) -> Seq<char> {
    let mag = if v < 0 {
        -v
    } else {
        v
    };
    let sign = if v < 0 {
        seq!['-']
    } else {
        Seq::<char>::empty()
    };
    if mag % 1000 == 0 {
        sign + nat_text((mag / 1000) as nat)
    } else {
        sign + nat_text((mag / 1000) as nat) + seq!['.'] + fraction_text((mag % 1000) as nat)
    }
}

/// The one-character text of the digit `d`.
fn digit_str(d: u8) -> (s: &'static str)
    requires
        d < 10,
    ensures
        s@ == seq![digit_char(d as int)],
{
    proof {
        reveal_strlit("0");
        reveal_strlit("1");
        reveal_strlit("2");
        reveal_strlit("3");
        reveal_strlit("4");
        reveal_strlit("5");
        reveal_strlit("6");
        reveal_strlit("7");
        reveal_strlit("8");
        reveal_strlit("9");
    }
    let s = match d {
        0 => "0",
        1 => "1",
        2 => "2",
        3 => "3",
        4 => "4",
        5 => "5",
        6 => "6",
        7 => "7",
        8 => "8",
        _ => "9",
    };
    assert(s@ =~= seq![digit_char(d as int)]);
    s
}

/// Appends the decimal numeral of `n` to `out`.
fn append_nat(out: &mut String, n: u128)
    ensures
        final(out)@ == old(out)@ + nat_text(n as nat),
    decreases n,
{
    if n >= 10 {
        append_nat(out, n / 10);
    }
    out.append(digit_str((n % 10) as u8));
    assert(final(out)@ =~= old(out)@ + nat_text(n as nat));
}

/// Appends the two digits of `n` to `out`.
fn append_two_digits(out: &mut String, n: u8)
    requires
        n < 100,
    ensures
        final(out)@ == old(out)@ + two_digit_text(n as nat),
{
    out.append(digit_str(n / 10));
    out.append(digit_str(n % 10));
    assert(final(out)@ =~= old(out)@ + two_digit_text(n as nat));
}

/// The decimal numeral of `n`.
pub fn format_nat(n: u128) -> (s: String)
    ensures
        s@ == nat_text(n as nat),
{
    let mut s = String::new();
    append_nat(&mut s, n);
    assert(s@ =~= nat_text(n as nat));
    s
}

/// The two digits of `n`, for `n` below a hundred.
pub fn format_two_digits(n: u8) -> (s: String)
    requires
        n < 100,
    ensures
        s@ == two_digit_text(n as nat),
{
    let mut s = String::new();
    append_two_digits(&mut s, n);
    assert(s@ =~= two_digit_text(n as nat));
    s
}

/// The amount with two decimals, as `amount_text` spells it.
pub fn format_amount(amount: &Ratio) -> (s: String)
    ensures
        s@ == amount_text(amount@),
{
    let numer = amount.numer();
    let denom = amount.denom();
    let mut s = String::new();
    let mag: u128 = if numer < 0 {
        s.append("-");
        (-numer) as u128
    } else {
        numer as u128
    };
    proof {
        reveal_strlit("-");
        reveal_strlit(".");
    }
    let cents = div_round_half_even(100 * mag, denom as u128);
    append_nat(&mut s, cents / 100);
    s.append(".");
    append_two_digits(&mut s, (cents % 100) as u8);
    assert(s@ =~= amount_text(amount@));
    s
}

/// `v` thousandths in units, as `thousandths_text` spells it.
pub fn format_thousandths(v: i64) -> (s: String)
    ensures
        s@ == thousandths_text(v as int),
{
    let mut s = String::new();
    let wide: i128 = v as i128;
    let mag: u128 = if wide < 0 {
        s.append("-");
        (-wide) as u128
    } else {
        wide as u128
    };
    proof {
        reveal_strlit("-");
        reveal_strlit(".");
    }
    append_nat(&mut s, mag / 1000);
    let frac = mag % 1000;
    if frac != 0 {
        s.append(".");
        s.append(digit_str((frac / 100) as u8));
        if frac % 100 != 0 {
            s.append(digit_str((frac / 10 % 10) as u8));
            if frac % 10 != 0 {
                s.append(digit_str((frac % 10) as u8));
            }
        }
    }
    assert(s@ =~= thousandths_text(v as int));
    s
}

/// The text of an amount depends on the number alone, not on how the
/// quotient is written.
pub proof fn lemma_amount_text_same(a: Rational, b: Rational)
    requires
        a.wf(),
        b.wf(),
        a.same(b),
    ensures
        amount_text(a) == amount_text(b),
{
    let (an, ad, bn, bd) = (a.numer, a.denom, b.numer, b.denom);
    assert((an < 0 <==> bn < 0) && (100 * an) * bd == (100 * bn) * ad && (100 * (-an)) * bd == (100
        * (-bn)) * ad) by (nonlinear_arith)
        requires
            ad > 0,
            bd > 0,
            an * bd == bn * ad,
    ;
    if an < 0 {
        lemma_round_half_even_same(
            Rational { numer: 100 * (-an), denom: ad },
            Rational { numer: 100 * (-bn), denom: bd },
        );
    } else {
        lemma_round_half_even_same(
            Rational { numer: 100 * an, denom: ad },
            Rational { numer: 100 * bn, denom: bd },
        );
    }
}

} // verus!
