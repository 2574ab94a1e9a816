//! Target durations of a song, as given on the command line.

use vstd::prelude::*;
use crate::numerals::{
    all_digits, count_of, decimal, digit_char, digits_value, is_digit, lemma_decimal_digits, lemma_digits_trimmed, read_count,
};
use crate::text::{
    ascii_lower, chars_of, find_in_range, is_white_space, lower, range_ends_with, trim, trim_end, trim_range,
    trim_start,
};

verus! {

/// A target duration in seconds, as given on the command line: "5m" or
/// "3min" (minutes), "2:30" (minutes and two-digit seconds, under 60), or
/// "300" (seconds), surrounding white space aside. `None` for any other
/// text, and for a duration beyond `u32::MAX` seconds.
pub open spec fn duration_secs_of(s: Seq<char>) -> Option<int> {
    let t = trim(s);
    let total = if "min"@.is_suffix_of(t) {
        match count_of(t.take(t.len() - 3)) {
            Some(n) => Some(n * 60),
            None => None,
        }
    } else if "m"@.is_suffix_of(t) {
        match count_of(t.take(t.len() - 1)) {
            Some(n) => Some(n * 60),
            None => None,
        }
    } else if t.contains(':') {
        let k = t.index_of_first(':').unwrap();
        match (count_of(t.take(k)), count_of(t.skip(k + 1))) {
            (Some(m), Some(sec)) => if t.skip(k + 1).len() == 2 && sec < 60 {
                Some(m * 60 + sec)
            } else {
                None
            },
            _ => None,
        }
    } else {
        count_of(t)
    };
    match total {
        Some(v) => if v <= u32::MAX {
            Some(v)
        } else {
            None
        },
        None => None,
    }
}

/// Reads a target duration in seconds (see `duration_secs_of`).
pub fn parse_duration_secs(s: &str) -> (r: Option<u32>)
    ensures
        r matches Some(v) ==> duration_secs_of(s@) == Some(v as int),
        r is None ==> duration_secs_of(s@) is None,
{
    let cs = chars_of(s);
    let (a, b) = trim_range(cs.as_slice(), 0, cs.len());
    assert(cs@.subrange(0, cs@.len() as int) =~= cs@);
    let ghost t = cs@.subrange(a as int, b as int);
    let min = vec!['m', 'i', 'n'];
    let m = vec!['m'];
    assert(min@ =~= "min"@) by {
        reveal_strlit("min");
    }
    assert(m@ =~= "m"@) by {
        reveal_strlit("m");
    }
    let total: Option<u64> = if range_ends_with(cs.as_slice(), a, b, min.as_slice()) {
        assert(cs@.subrange(a as int, b - 3) =~= t.take(t.len() - 3));
        match read_count(cs.as_slice(), a, b - 3) {
            Some(n) => Some(n * 60),
            None => None,
        }
    } else if range_ends_with(cs.as_slice(), a, b, m.as_slice()) {
        assert(cs@.subrange(a as int, b - 1) =~= t.take(t.len() - 1));
        match read_count(cs.as_slice(), a, b - 1) {
            Some(n) => Some(n * 60),
            None => None,
        }
    } else {
        match find_in_range(cs.as_slice(), a, b, ':') {
            Some(k) => {
                proof {
                    t.index_of_first_ensures(':');
                    assert(t.contains(':'));
                    assert(cs@.subrange(a as int, a + k) =~= t.take(k as int));
                    assert(cs@.subrange(a + k + 1, b as int) =~= t.skip(k + 1));
                }
                match (read_count(cs.as_slice(), a, a + k), read_count(cs.as_slice(), a + k + 1, b)) {
                    (Some(mins), Some(sec)) => if b - (a + k + 1) == 2 && sec < 60 {
                        Some(mins * 60 + sec)
                    } else {
                        None
                    },
                    _ => None,
                }
            },
            None => {
                proof {
                    t.index_of_first_ensures(':');
                }
                read_count(cs.as_slice(), a, b)
            },
        }
    };
    match total {
        Some(v) => if v <= 0xFFFF_FFFF {
            Some(v as u32)
        } else {
            None
        },
        None => None,
    }
}

/// Law: a number of seconds written in decimal reads back as itself.
pub proof fn law_duration_reads_seconds(n: nat)
    requires
        n <= u32::MAX,
    ensures
        duration_secs_of(decimal(n)) == Some(n as int),
{
    reveal_strlit("min");
    reveal_strlit("m");
    lemma_decimal_digits(n);
    let d = decimal(n);
    lemma_digits_trimmed(d);
    assert(is_digit(d.last()));
    assert(!"min"@.is_suffix_of(d)) by {
        if "min"@.is_suffix_of(d) {
            assert(d[d.len() - 1] == "min"@[2]);
        }
    }
    assert(!"m"@.is_suffix_of(d)) by {
        if "m"@.is_suffix_of(d) {
            assert(d[d.len() - 1] == "m"@[0]);
        }
    }
}

/// Law: a number of minutes written in decimal and followed by "m" or
/// "min" reads back as that many minutes, in seconds.
pub proof fn law_duration_reads_minutes(n: nat)
    requires
        n * 60 <= u32::MAX,
    ensures
        duration_secs_of(decimal(n) + "m"@) == Some((n * 60) as int),
        duration_secs_of(decimal(n) + "min"@) == Some((n * 60) as int),
{
    reveal_strlit("min");
    reveal_strlit("m");
    lemma_decimal_digits(n);
    let d = decimal(n);
    let tm = d + "m"@;
    let tmin = d + "min"@;
    assert(!is_white_space(tm[0]) && !is_white_space(tm.last())) by {
        assert(tm[0] == d[0]);
        assert(is_digit(d[0]));
    }
    assert(trim_start(tm) == tm);
    assert(trim_end(tm) == tm);
    assert(!is_white_space(tmin[0]) && !is_white_space(tmin.last())) by {
        assert(tmin[0] == d[0]);
        assert(is_digit(d[0]));
    }
    assert(trim_start(tmin) == tmin);
    assert(trim_end(tmin) == tmin);
    assert(!"min"@.is_suffix_of(tm)) by {
        if "min"@.is_suffix_of(tm) {
            assert(tm[tm.len() - 1] == "min"@[2]);
        }
    }
    assert(tm.take(tm.len() - 1) =~= d);
    assert(tmin.take(tmin.len() - 3) =~= d);
    assert("min"@.is_suffix_of(tmin)) by {
        assert("min"@ =~= tmin.subrange(tmin.len() - 3, tmin.len() as int));
    }
    assert("m"@.is_suffix_of(tm)) by {
        assert("m"@ =~= tm.subrange(tm.len() - 1, tm.len() as int));
    }
}

/// Law: minutes and two-digit seconds, written "m:ss", read as that many
/// minutes and seconds, in seconds ("2:30" is 150, "1:45" is 105); seconds
/// of 60 or more do not read.
pub proof fn law_duration_reads_clock(m: nat, s: nat)
    requires
        s < 100,
        m * 60 + s <= u32::MAX,
    ensures
        s < 60 ==> duration_secs_of(
            decimal(m) + seq![':', digit_char((s / 10) as int), digit_char((s % 10) as int)],
        ) == Some((m * 60 + s) as int),
        s >= 60 ==> duration_secs_of(
            decimal(m) + seq![':', digit_char((s / 10) as int), digit_char((s % 10) as int)],
        ) is None,
{
    reveal_strlit("min");
    reveal_strlit("m");
    lemma_decimal_digits(m);
    let d = decimal(m);
    lemma_digits_trimmed(d);
    let hi = digit_char((s / 10) as int);
    let lo = digit_char((s % 10) as int);
    assert(hi as int == 48 + s / 10);
    assert(lo as int == 48 + s % 10);
    let two = seq![hi, lo];
    let t = d + seq![':', hi, lo];
    assert(t[0] == d[0]);
    assert(is_digit(d[0]));
    assert(t.last() == lo);
    assert(!is_white_space(t[0]) && !is_white_space(t.last()));
    assert(trim_start(t) == t);
    assert(trim_end(t) == t);
    assert(trim(t) == t);
    assert(!"min"@.is_suffix_of(t)) by {
        if "min"@.is_suffix_of(t) {
            assert(t[t.len() - 1] == "min"@[2]);
        }
    }
    assert(!"m"@.is_suffix_of(t)) by {
        if "m"@.is_suffix_of(t) {
            assert(t[t.len() - 1] == "m"@[0]);
        }
    }
    let k = d.len() as int;
    assert(t[k] == ':');
    assert(t.contains(':'));
    t.index_of_first_ensures(':');
    assert(t.index_of_first(':') == Some(k)) by {
        let j = t.index_of_first(':').unwrap();
        if j < k {
            assert(t[j] == d[j]);
            assert(d.contains(':'));
        }
    }
    assert(t.take(k) =~= d);
    assert(t.skip(k + 1) =~= two);
    assert(all_digits(two)) by {
        assert forall|i: int| 0 <= i < two.len() implies is_digit(#[trigger] two[i]) by {}
    }
    assert(two.drop_last() =~= seq![hi]);
    assert(seq![hi].drop_last() =~= Seq::<char>::empty());
    assert(digits_value(Seq::<char>::empty()) == 0);
    assert(digits_value(seq![hi]) == s / 10);
    assert(digits_value(two) == 10 * (s / 10) + s % 10);
    assert(count_of(two) == Some(s as int));
    assert(count_of(d) == Some(m as int));
}

// ── A duration written in the prompt ─────────────────────────────────────────

/// Where the run of digits that starts at `i` ends.
pub open spec fn digits_end(p: Seq<char>, i: int) -> int
    decreases p.len() - i,
{
    if 0 <= i < p.len() && is_digit(p[i]) {
        digits_end(p, i + 1)
    } else {
        i
    }
}

/// Where the run of spaces that starts at `i` ends.
pub open spec fn spaces_end(p: Seq<char>, i: int) -> int
    decreases p.len() - i,
{
    if 0 <= i < p.len() && p[i] == ' ' {
        spaces_end(p, i + 1)
    } else {
        i
    }
}

/// The three letters at `k`, in lower case, are `a`, `b`, `c`.
pub open spec fn word_at(p: Seq<char>, k: int, a: char, b: char, c: char) -> bool {
    0 <= k && k + 3 <= p.len() && ascii_lower(p[k]) == a && ascii_lower(p[k + 1]) == b
        && ascii_lower(p[k + 2]) == c
}

/// The seconds in one unit of the word at `k`: 60 for a word beginning
/// "min" (min, mins, minute, minutes), 1 for one beginning "sec" (sec,
/// secs, second, seconds), in either letter case.
pub open spec fn unit_at(p: Seq<char>, k: int) -> Option<int> {
    if word_at(p, k, 'm', 'i', 'n') {
        Some(60)
    } else if word_at(p, k, 's', 'e', 'c') {
        Some(1)
    } else {
        None
    }
}

/// The duration written at `i`: a whole run of digits starting there,
/// optional spaces, then a unit word; `None` where there is none, or where
/// it exceeds `u32::MAX` seconds.
pub open spec fn duration_at(p: Seq<char>, i: int) -> Option<int> {
    if 0 <= i < p.len() && is_digit(p[i]) && (i == 0 || !is_digit(p[i - 1])) {
        let j = digits_end(p, i);
        match unit_at(p, spaces_end(p, j)) {
            Some(unit) => {
                let v = digits_value(p.subrange(i, j)) * unit;
                if v <= u32::MAX {
                    Some(v)
                } else {
                    None
                }
            },
            None => None,
        }
    } else {
        None
    }
}

/// The first duration written in `p` at or after `i`.
pub open spec fn first_duration_from(p: Seq<char>, i: int) -> Option<int>
    decreases p.len() - i,
{
    if i < 0 || i >= p.len() {
        None
    } else {
        match duration_at(p, i) {
            Some(v) => Some(v),
            None => first_duration_from(p, i + 1),
        }
    }
}

/// The target length, in seconds, that a prompt such as "3 minutes of dark
/// ambient drone" states: its first number followed by a minute or second
/// word.
pub open spec fn prompt_duration_of(p: Seq<char>) -> Option<int> {
    first_duration_from(p, 0)
}

proof fn lemma_digits_end_at(p: Seq<char>, i: int, j: int)
    requires
        0 <= i <= j <= p.len(),
        forall|k: int| i <= k < j ==> is_digit(#[trigger] p[k]),
        j == p.len() || !is_digit(p[j]),
    ensures
        digits_end(p, i) == j,
    decreases j - i,
{
    if i < j {
        lemma_digits_end_at(p, i + 1, j);
    }
}

proof fn lemma_spaces_end_at(p: Seq<char>, i: int, j: int)
    requires
        0 <= i <= j <= p.len(),
        forall|k: int| i <= k < j ==> #[trigger] p[k] == ' ',
        j == p.len() || p[j] != ' ',
    ensures
        spaces_end(p, i) == j,
    decreases j - i,
{
    if i < j {
        lemma_spaces_end_at(p, i + 1, j);
    }
}

fn is_word_at(p: &[char], k: usize, a: char, b: char, c: char) -> (r: bool)
    requires
        k <= p@.len(),
    ensures
        r == word_at(p@, k as int, a, b, c),
{
    p.len() - k >= 3 && lower(p[k]) == a && lower(p[k + 1]) == b && lower(p[k + 2]) == c
}

/// The duration written at `i` (see `duration_at`).
fn duration_at_exec(p: &[char], i: usize) -> (r: Option<u32>)
    requires
        i < p@.len(),
    ensures
        r matches Some(v) ==> duration_at(p@, i as int) == Some(v as int),
        r is None ==> duration_at(p@, i as int) is None,
{
    if !('0' <= p[i] && p[i] <= '9') || (i > 0 && '0' <= p[i - 1] && p[i - 1] <= '9') {
        return None;
    }
    let mut j = i;
    while j < p.len() && '0' <= p[j] && p[j] <= '9'
        invariant
            i <= j <= p@.len(),
            forall|k: int| i <= k < j ==> is_digit(#[trigger] p@[k]),
        decreases p@.len() - j,
    {
        j += 1;
    }
    proof {
        lemma_digits_end_at(p@, i as int, j as int);
    }
    let mut k = j;
    while k < p.len() && p[k] == ' '
        invariant
            j <= k <= p@.len(),
            forall|m: int| j <= m < k ==> #[trigger] p@[m] == ' ',
        decreases p@.len() - k,
    {
        k += 1;
    }
    proof {
        lemma_spaces_end_at(p@, j as int, k as int);
    }
    let unit: u64 = if is_word_at(p, k, 'm', 'i', 'n') {
        60
    } else if is_word_at(p, k, 's', 'e', 'c') {
        1
    } else {
        return None;
    };
    match read_count(p, i, j) {
        Some(n) => {
            let v = n * unit;
            if v <= 0xFFFF_FFFF {
                Some(v as u32)
            } else {
                None
            }
        },
        None => None,
    }
}

/// Reads the target length that a prompt states (see `prompt_duration_of`).
pub fn extract_duration_from_prompt(prompt: &str) -> (r: Option<u32>)
    ensures
        r matches Some(v) ==> prompt_duration_of(prompt@) == Some(v as int),
        r is None ==> prompt_duration_of(prompt@) is None,
{
    let p = chars_of(prompt);
    let mut i: usize = 0;
    while i < p.len()
        invariant
            i <= p@.len(),
            p@ == prompt@,
            first_duration_from(p@, 0) == first_duration_from(p@, i as int),
        decreases p@.len() - i,
    {
        match duration_at_exec(p.as_slice(), i) {
            Some(v) => return Some(v),
            None => {},
        }
        i += 1;
    }
    None
}

/// Law: a prompt that opens with a number of minutes, written in decimal
/// and followed by " minutes", states that many minutes, in seconds.
pub proof fn law_prompt_minutes(n: nat, rest: Seq<char>)
    requires
        n * 60 <= u32::MAX,
    ensures
        prompt_duration_of(decimal(n) + " minutes"@ + rest) == Some((n * 60) as int),
{
    reveal_strlit(" minutes");
    lemma_decimal_digits(n);
    let d = decimal(n);
    let p = d + " minutes"@ + rest;
    assert forall|k: int| 0 <= k < d.len() implies is_digit(#[trigger] p[k]) by {
        assert(p[k] == d[k]);
    }
    let e = d.len() as int;
    assert(p[e] == ' ');
    lemma_digits_end_at(p, 0, e);
    assert(p[e + 1] == 'm');
    lemma_spaces_end_at(p, e, e + 1);
    assert(p[e + 2] == 'i');
    assert(p[e + 3] == 'n');
    assert(p.subrange(0, d.len() as int) =~= d);
    assert(is_digit(d[0]));
}

} // verus!
