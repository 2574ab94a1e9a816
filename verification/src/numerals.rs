//! Decimal numerals: reading them as `str::parse` does, writing them as
//! `Display` does.

use vstd::prelude::*;
use crate::text::{is_white_space, string_of_range, trim, trim_end, trim_start};

verus! {

/// `c` is one of '0'..='9'.
pub open spec fn is_digit(c: char) -> bool {
    '0' <= c <= '9'
}

/// Every character of `d` is a decimal digit.
pub open spec fn all_digits(d: Seq<char>) -> bool {
    forall|i: int| 0 <= i < d.len() ==> is_digit(#[trigger] d[i])
}

/// The number that the decimal digits `d` spell.
pub open spec fn digits_value(d: Seq<char>) -> int
    decreases d.len(),
{
    if d.len() == 0 {
        0
    } else {
        10 * digits_value(d.drop_last()) + (d.last() as int - '0' as int)
    }
}

/// What `str::parse::<i32>` gives for `s`: an optional '+' or '-', then one
/// or more ASCII digits, whose value lies in the range of `i32`; `None`
/// for anything else.
pub open spec fn parse_i32_of(s: Seq<char>) -> Option<int> {
    let signed = s.len() > 0 && (s[0] == '-' || s[0] == '+');
    let d = if signed {
        s.skip(1)
    } else {
        s
    };
    let v = if s.len() > 0 && s[0] == '-' {
        -digits_value(d)
    } else {
        digits_value(d)
    };
    if d.len() > 0 && all_digits(d) && i32::MIN <= v <= i32::MAX {
        Some(v)
    } else {
        None
    }
}

/// Digits spell no negative number.
pub proof fn lemma_digits_value_nonneg(d: Seq<char>)
    requires
        all_digits(d),
    ensures
        digits_value(d) >= 0,
    decreases d.len(),
{
    if d.len() > 0 {
        assert(is_digit(d[d.len() - 1]));
        lemma_digits_value_nonneg(d.drop_last());
    }
}

/// A prefix of a run of digits spells no more than the whole run.
pub proof fn lemma_digits_value_grows(d: Seq<char>, k: int)
    requires
        all_digits(d),
        0 <= k <= d.len(),
    ensures
        digits_value(d.take(k)) <= digits_value(d),
    decreases d.len() - k,
{
    if k < d.len() {
        let t = d.take(k + 1);
        assert(t.drop_last() =~= d.take(k));
        assert(is_digit(t[k]));
        lemma_digits_value_nonneg(d.take(k));
        lemma_digits_value_grows(d, k + 1);
    } else {
        assert(d.take(k) =~= d);
    }
}

/// Reads `cs[lo..hi]` as `str::parse::<i32>` does.
pub fn parse_i32_range(cs: &[char], lo: usize, hi: usize) -> (r: Option<i32>)
    requires
        lo <= hi <= cs@.len(),
    ensures
        r matches Some(v) ==> parse_i32_of(cs@.subrange(lo as int, hi as int)) == Some(v as int),
        r is None ==> parse_i32_of(cs@.subrange(lo as int, hi as int)) is None,
{
    let ghost s = cs@.subrange(lo as int, hi as int);
    let neg = lo < hi && cs[lo] == '-';
    let start = if lo < hi && (cs[lo] == '-' || cs[lo] == '+') {
        lo + 1
    } else {
        lo
    };
    assert(cs@.subrange(start as int, hi as int) =~= (if start > lo {
        s.skip(1)
    } else {
        s
    }));
    match read_count(cs, start, hi) {
        Some(v) => {
            let value: i64 = if neg {
                -(v as i64)
            } else {
                v as i64
            };
            if value < -2147483648 || value > 2147483647 {
                None
            } else {
                Some(value as i32)
            }
        },
        None => None,
    }
}

/// The character of the decimal digit `d` (0 <= d < 10).
pub open spec fn digit_char(d: int) -> char {
    ((48 + d) as u8) as char
}

/// `n` written in decimal, without leading zeros, as `Display` writes it.
pub open spec fn decimal(n: nat) -> Seq<char>
    decreases n,
{
    if n < 10 {
        seq![digit_char(n as int)]
    } else {
        decimal(n / 10).push(digit_char((n % 10) as int))
    }
}

fn push_decimal(out: &mut Vec<char>, n: u64)
    ensures
        final(out)@ == old(out)@ + decimal(n as nat),
    decreases n,
{
    if n >= 10 {
        push_decimal(out, n / 10);
    }
    let d = (n % 10) as u8;
    out.push((48u8 + d) as char);
    proof {
        if n < 10 {
            assert(decimal(n as nat) =~= seq![digit_char(n as int)]);
        }
    }
}

/// `n` written in decimal.
pub fn decimal_string(n: u64) -> (r: String)
    ensures
        r@ == decimal(n as nat),
{
    let mut cs: Vec<char> = Vec::new();
    push_decimal(&mut cs, n);
    assert(cs@ =~= decimal(n as nat));
    string_of_range(cs.as_slice(), 0, cs.len())
}

/// The number that the text `d` counts: one or more decimal digits.
pub open spec fn count_of(d: Seq<char>) -> Option<int> {
    if d.len() > 0 && all_digits(d) {
        Some(digits_value(d))
    } else {
        None
    }
}

/// The count that `cs[lo..hi]` spells, where it is at most `u32::MAX`.
pub fn read_count(cs: &[char], lo: usize, hi: usize) -> (r: Option<u64>)
    requires
        lo <= hi <= cs@.len(),
    ensures
        r matches Some(v) ==> count_of(cs@.subrange(lo as int, hi as int)) == Some(v as int) && v
            <= u32::MAX,
        r is None ==> match count_of(cs@.subrange(lo as int, hi as int)) {
            Some(v) => v > u32::MAX,
            None => true,
        },
{
    let ghost d = cs@.subrange(lo as int, hi as int);
    if lo == hi {
        return None;
    }
    let mut i = lo;
    while i < hi
        invariant
            lo <= i <= hi <= cs@.len(),
            d == cs@.subrange(lo as int, hi as int),
            forall|j: int| lo <= j < i ==> is_digit(#[trigger] cs@[j]),
        decreases hi - i,
    {
        if !('0' <= cs[i] && cs[i] <= '9') {
            assert(d[i - lo] == cs@[i as int]);
            return None;
        }
        i += 1;
    }
    assert(all_digits(d)) by {
        assert forall|j: int| 0 <= j < d.len() implies is_digit(#[trigger] d[j]) by {
            assert(d[j] == cs@[lo + j]);
        }
    }
    let mut acc: u64 = 0;
    let mut k = lo;
    while k < hi
        invariant
            lo <= k <= hi <= cs@.len(),
            d == cs@.subrange(lo as int, hi as int),
            all_digits(d),
            acc <= u32::MAX,
            acc == digits_value(d.take(k - lo)),
        decreases hi - k,
    {
        let ghost t = d.take(k - lo + 1);
        assert(t.drop_last() =~= d.take(k - lo));
        assert(t.last() == cs@[k as int]);
        assert(is_digit(d[k - lo]));
        let digit = (cs[k] as u32 - '0' as u32) as u64;
        acc = acc * 10 + digit;
        if acc > 0xFFFF_FFFF {
            proof {
                lemma_digits_value_grows(d, k - lo + 1);
            }
            return None;
        }
        k += 1;
    }
    assert(d.take(d.len() as int) =~= d);
    Some(acc)
}

/// A decimal numeral is a nonempty run of digits that spells its number.
pub proof fn lemma_decimal_digits(n: nat)
    ensures
        decimal(n).len() >= 1,
        all_digits(decimal(n)),
        digits_value(decimal(n)) == n,
    decreases n,
{
    if n < 10 {
        assert(digit_char(n as int) as int == 48 + n);
        assert(decimal(n).drop_last() =~= Seq::<char>::empty());
        assert(digits_value(Seq::<char>::empty()) == 0);
        assert(decimal(n).last() == digit_char(n as int));
    } else {
        lemma_decimal_digits(n / 10);
        let d = decimal(n);
        assert(d.drop_last() =~= decimal(n / 10));
        assert(digit_char((n % 10) as int) as int == 48 + n % 10);
        assert(d.last() == digit_char((n % 10) as int));
        assert(10 * (n / 10) + n % 10 == n);
        assert forall|i: int| 0 <= i < d.len() implies is_digit(#[trigger] d[i]) by {
            if i < d.len() - 1 {
                assert(d[i] == decimal(n / 10)[i]);
            }
        }
    }
}

/// A nonempty run of digits has no surrounding white space and no ':'.
pub proof fn lemma_digits_trimmed(d: Seq<char>)
    requires
        d.len() >= 1,
        all_digits(d),
    ensures
        trim(d) == d,
        !d.contains(':'),
{
    assert(is_digit(d[0]));
    assert(is_digit(d[d.len() - 1]));
    assert(!is_white_space(d[0]));
    assert(!is_white_space(d.last()));
    assert(trim_start(d) == d);
    assert(trim_end(d) == d);
    if d.contains(':') {
        let k = choose|k: int| 0 <= k < d.len() && d[k] == ':';
        assert(is_digit(d[k]));
    }
}

} // verus!
