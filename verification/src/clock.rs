//! Times of day: reading `HH:MM`, writing `HH:MM`, and telling whether an
//! arrival falls on the next day.

use crate::numerals::{digit_char, format_two_digits, two_digit_text};
use vstd::prelude::*;
use vstd::string::*;

verus! {

/// Minutes in a day.
pub const MINUTES_PER_DAY: u32 = 1440;

/// `c` is one of the ten decimal digits.
pub open spec fn is_digit(c: char) -> bool {
    '0' <= c <= '9'
}

/// Every character of `s` is a decimal digit.
pub open spec fn all_digits(s: Seq<char>) -> bool {
    forall|i: int| 0 <= i < s.len() ==> is_digit(#[trigger] s[i])
}

/// The number that the digits of `s` spell, leading zeros allowed.
pub open spec fn digits_value(s: Seq<char>) -> nat
    decreases s.len(),
{
    if s.len() == 0 {
        0
    } else {
        digits_value(s.drop_last()) * 10 + (s.last() as nat - 48) as nat
    }
}

/// What is left of `s` once one leading plus sign is taken away.
pub open spec fn unsigned_part(s: Seq<char>) -> Seq<char> {
    if s.len() > 0 && s[0] == '+' {
        s.subrange(1, s.len() as int)
    } else {
        s
    }
}

/// The number that `s` spells: an optional plus sign, then one digit or
/// more and nothing else. Any other text spells no number.
pub open spec fn number_of(s: Seq<char>) -> Option<nat> {
    let digits = unsigned_part(s);
    if digits.len() > 0 && all_digits(digits) {
        Some(digits_value(digits))
    } else {
        None
    }
}

/// The first colon of `s` stands at index `i`.
pub open spec fn is_first_colon(s: Seq<char>, i: int) -> bool {
    &&& 0 <= i < s.len()
    &&& s[i] == ':'
    &&& forall|j: int| 0 <= j < i ==> #[trigger] s[j] != ':'
}

/// The minute of the day that `s` names, from 0 to 1439. `s` names one when
/// it is a number below 24, a colon, and a number below 60.
pub open spec fn time_of_day(s: Seq<char>) -> Option<nat> {
    if exists|i: int| is_first_colon(s, i) {
        let i = choose|i: int| is_first_colon(s, i);
        match (number_of(s.subrange(0, i)), number_of(s.subrange(i + 1, s.len() as int))) {
            (Some(h), Some(m)) => if h < 24 && m < 60 {
                Some(h * 60 + m)
            } else {
                None
            },
            _ => None,
        }
    } else {
        None
    }
}

/// The clock reading `HH:MM` of the minute `t`, counted from midnight and
/// wrapped into one day, backward for a negative `t`.
pub open spec fn clock_text(t: int) -> Seq<char> {
    two_digit_text(((t % 1440) / 60) as nat) + seq![':'] + two_digit_text(((t % 1440) % 60) as nat)
}

/// The characters that the ASCII bytes `bytes` stand for.
pub open spec fn ascii_text(bytes: Seq<u8>) -> Seq<char> {
    Seq::new(bytes.len(), |i: int| bytes[i] as char)
}

/// A string has at most one first colon.
proof fn lemma_first_colon_unique(s: Seq<char>, i: int, j: int)
    requires
        is_first_colon(s, i),
        is_first_colon(s, j),
    ensures
        i == j,
{
    if i < j {
        assert(s[i] != ':');
    } else if j < i {
        assert(s[j] != ':');
    }
}

/// A text that holds something besides digits, after its optional plus sign,
/// spells no number.
proof fn lemma_stray_char_is_no_number(s: Seq<char>, k: int)
    requires
        0 <= k < s.len(),
        !is_digit(s[k]),
        s[k] != '+',
    ensures
        number_of(s) is None,
{
    let digits = unsigned_part(s);
    if s[0] == '+' {
        assert(digits[k - 1] == s[k]);
    } else {
        assert(digits[k] == s[k]);
    }
}

/// A text with a character that is neither a digit, a plus sign nor a colon
/// names no time of day.
pub proof fn lemma_stray_char_is_no_time(s: Seq<char>, k: int)
    requires
        0 <= k < s.len(),
        !is_digit(s[k]),
        s[k] != '+',
        s[k] != ':',
    ensures
        time_of_day(s) is None,
{
    if exists|i: int| is_first_colon(s, i) {
        let i = choose|i: int| is_first_colon(s, i);
        let head = s.subrange(0, i);
        let tail = s.subrange(i + 1, s.len() as int);
        if k < i {
            assert(head[k] == s[k]);
            lemma_stray_char_is_no_number(head, k);
        } else {
            assert(tail[k - i - 1] == s[k]);
            lemma_stray_char_is_no_number(tail, k - i - 1);
        }
    }
}

/// The value of a run of digits is at least the value of each of its
/// prefixes.
proof fn lemma_digits_value_grows(s: Seq<char>, k: int)
    requires
        0 <= k <= s.len(),
        all_digits(s),
    ensures
        digits_value(s.subrange(0, k)) <= digits_value(s),
    decreases s.len(),
{
    if k == s.len() {
        assert(s.subrange(0, k) =~= s);
    } else {
        let front = s.drop_last();
        assert(all_digits(front)) by {
            assert forall|i: int| 0 <= i < front.len() implies is_digit(#[trigger] front[i]) by {
                assert(front[i] == s[i]);
            }
        }
        lemma_digits_value_grows(front, k);
        assert(front.subrange(0, k) =~= s.subrange(0, k));
        assert(is_digit(s[s.len() - 1]));
    }
}

/// Reads the digits `bytes[from..to]` as a number below `limit`. `None`
/// stands for every other case: no digits, a stray character, or a value
/// that reaches `limit`.
fn read_number_below(bytes: &[u8], from: usize, to: usize, limit: u32) -> (r: Option<u32>)
    requires
        from <= to <= bytes@.len(),
        0 < limit <= 1000,
    ensures
        match r {
            Some(v) => v < limit && number_of(ascii_text(bytes@).subrange(from as int, to as int))
                == Some(v as nat),
            None => match number_of(ascii_text(bytes@).subrange(from as int, to as int)) {
                Some(v) => v >= limit,
                None => true,
            },
        },
{
    let ghost part = ascii_text(bytes@).subrange(from as int, to as int);
    let ghost digits = unsigned_part(part);
    let mut start = from;
    if from < to && bytes[from] == 43 {
        start = from + 1;
    }
    assert(part.len() > 0 ==> part[0] == bytes@[from as int] as char);
    assert(digits =~= ascii_text(bytes@).subrange(start as int, to as int));
    if start == to {
        return None;
    }
    let mut value: u32 = 0;
    let mut i = start;
    while i < to
        invariant
            start <= i <= to <= bytes@.len(),
            0 < limit <= 1000,
            digits == ascii_text(bytes@).subrange(start as int, to as int),
            digits == unsigned_part(part),
            part == ascii_text(bytes@).subrange(from as int, to as int),
            all_digits(digits.subrange(0, i - start)),
            value == digits_value(digits.subrange(0, i - start)),
            value < limit,
        decreases to - i,
    {
        let b = bytes[i];
        assert(digits[i - start] == b as char);
        if b < 48 || b > 57 {
            return None;
        }
        let next = value * 10 + (b - 48) as u32;
        proof {
            let before = digits.subrange(0, i - start);
            let prefix = digits.subrange(0, i + 1 - start);
            assert(prefix.drop_last() =~= before);
            assert(prefix.last() == b as char);
            assert forall|k: int| 0 <= k < prefix.len() implies is_digit(#[trigger] prefix[k]) by {
                if k < before.len() {
                    assert(before[k] == prefix[k]);
                }
            }
            if next >= limit && all_digits(digits) {
                lemma_digits_value_grows(digits, i + 1 - start);
            }
        }
        if next >= limit {
            return None;
        }
        value = next;
        i = i + 1;
    }
    assert(digits.subrange(0, to - start) =~= digits);
    Some(value)
}

/// Reads a time of day written as `HH:MM`: a number below 24, a colon and a
/// number below 60, each an optional plus sign and then digits only. The
/// result is the minute of the day, and `None` for any other text.
pub fn parse_time(time_str: &str) -> (r: Option<u32>)
    ensures
        match r {
            Some(v) => time_of_day(time_str@) == Some(v as nat),
            None => time_of_day(time_str@) is None,
        },
{
    let ghost s = time_str@;
    if !time_str.is_ascii() {
        proof {
            let k = choose|k: int| 0 <= k < s.len() && !('\0' <= #[trigger] s[k] <= '\u{7f}');
            lemma_stray_char_is_no_time(s, k);
        }
        return None;
    }
    let bytes = time_str.as_bytes();
    proof {
        is_ascii_spec_bytes(time_str);
        assert(ascii_text(bytes@) =~= s);
    }
    let n = bytes.len();
    let mut colon: usize = 0;
    while colon < n && bytes[colon] != 58
        invariant
            colon <= n,
            n == bytes@.len(),
            forall|j: int| 0 <= j < colon ==> #[trigger] bytes@[j] != 58,
        decreases n - colon,
    {
        colon = colon + 1;
    }
    if colon == n {
        proof {
            assert forall|i: int| !is_first_colon(s, i) by {
                if 0 <= i < s.len() {
                    assert(s[i] == bytes@[i] as char);
                }
            }
        }
        return None;
    }
    proof {
        assert forall|j: int| 0 <= j < colon implies #[trigger] s[j] != ':' by {
            assert(s[j] == bytes@[j] as char);
        }
        assert(s[colon as int] == bytes@[colon as int] as char);
        assert(is_first_colon(s, colon as int));
        let chosen = choose|i: int| is_first_colon(s, i);
        lemma_first_colon_unique(s, chosen, colon as int);
    }
    let hours = read_number_below(bytes, 0, colon, 24);
    let minutes = read_number_below(bytes, colon + 1, n, 60);
    match (hours, minutes) {
        (Some(h), Some(m)) => Some(h * 60 + m),
        _ => None,
    }
}

/// The minute of the day on which `total_minutes` falls: the remainder by
/// 1440 that is never negative.
pub fn minute_of_day(total_minutes: i64) -> (m: u32)
    ensures
        m == total_minutes as int % 1440,
        m < MINUTES_PER_DAY,
{
    let wrapped = total_minutes % 1440;
    if wrapped < 0 {
        (wrapped + 1440) as u32
    } else {
        wrapped as u32
    }
}

/// Writes the minute `total_minutes`, counted from midnight, as a clock
/// reading `HH:MM`. Minutes beyond one day, or before midnight, wrap round:
/// 1440 reads "00:00" and -30 reads "23:30".
pub fn format_clock(total_minutes: i64) -> (s: String)
    ensures
        s@ == clock_text(total_minutes as int),
{
    let minute = minute_of_day(total_minutes);
    let mut s = format_two_digits((minute / 60) as u8);
    proof {
        reveal_strlit(":");
    }
    s.append(":");
    s.append(format_two_digits((minute % 60) as u8).as_str());
    assert(s@ =~= clock_text(total_minutes as int));
    s
}

/// Whether the arrival is to be read as falling on the next day: both texts
/// name a time of day and the arrival is strictly earlier than the start.
/// A text that names no time gives `false`.
pub fn needs_next_day(start_time: &str, arrival_time: &str) -> (b: bool)
    ensures
        b == match (time_of_day(start_time@), time_of_day(arrival_time@)) {
            (Some(start), Some(arrival)) => arrival < start,
            _ => false,
        },
{
    let start = match parse_time(start_time) {
        Some(m) => m,
        None => {
            return false;
        },
    };
    let arrival = match parse_time(arrival_time) {
        Some(m) => m,
        None => {
            return false;
        },
    };
    arrival < start
}

/// A clock reading names the minute it was written for: reading
/// `clock_text(t)` gives `t` wrapped into one day.
pub proof fn lemma_clock_text_reads_back(t: int)
    ensures
        time_of_day(clock_text(t)) == Some((t % 1440) as nat),
{
    let s = clock_text(t);
    let w = t % 1440;
    let h = w / 60;
    let m = w % 60;
    let head = s.subrange(0, 2);
    let tail = s.subrange(3, 5);
    assert(s.len() == 5);
    assert(s[0] == digit_char(h / 10));
    assert(s[1] == digit_char(h % 10));
    assert(s[2] == ':');
    assert(s[3] == digit_char(m / 10));
    assert(s[4] == digit_char(m % 10));
    assert(is_first_colon(s, 2));
    let chosen = choose|i: int| is_first_colon(s, i);
    lemma_first_colon_unique(s, chosen, 2);
    lemma_two_digits_value(head, h);
    lemma_two_digits_value(tail, m);
}

/// Two digit characters spell the number they were taken from.
proof fn lemma_two_digits_value(s: Seq<char>, n: int)
    requires
        0 <= n < 100,
        s.len() == 2,
        s[0] == digit_char(n / 10),
        s[1] == digit_char(n % 10),
    ensures
        number_of(s) == Some(n as nat),
{
    reveal_with_fuel(digits_value, 3);
    assert(unsigned_part(s) == s);
    assert(s.drop_last().drop_last().len() == 0);
    assert(s.drop_last().last() == s[0]);
}

} // verus!
