//! Character-level text handling: Unicode white space, trimming, searching
//! and prefix/suffix tests over ranges of a character vector.

use vstd::prelude::*;

verus! {

/// Unicode's White_Space property, the set that `char::is_whitespace` tests.
pub open spec fn is_white_space(c: char) -> bool {
    let n = c as u32;
    ||| 9 <= n <= 13
    ||| n == 32
    ||| n == 0x85
    ||| n == 0xA0
    ||| n == 0x1680
    ||| 0x2000 <= n <= 0x200A
    ||| n == 0x2028
    ||| n == 0x2029
    ||| n == 0x202F
    ||| n == 0x205F
    ||| n == 0x3000
}

/// Whether `c` is white space, as `char::is_whitespace` answers.
pub fn white_space(c: char) -> (r: bool)
    ensures
        r == is_white_space(c),
{
    let n = c as u32;
    (9 <= n && n <= 13) || n == 32 || n == 0x85 || n == 0xA0 || n == 0x1680 || (0x2000 <= n
        && n <= 0x200A) || n == 0x2028 || n == 0x2029 || n == 0x202F || n == 0x205F || n
        == 0x3000
}

/// `s` without its leading white space.
pub open spec fn trim_start(s: Seq<char>) -> Seq<char>
    decreases s.len(),
{
    if s.len() > 0 && is_white_space(s[0]) {
        trim_start(s.drop_first())
    } else {
        s
    }
}

/// `s` without its trailing white space.
pub open spec fn trim_end(s: Seq<char>) -> Seq<char>
    decreases s.len(),
{
    if s.len() > 0 && is_white_space(s.last()) {
        trim_end(s.drop_last())
    } else {
        s
    }
}

/// `s` without leading and trailing white space, as `str::trim` gives it.
pub open spec fn trim(s: Seq<char>) -> Seq<char> {
    trim_end(trim_start(s))
}

/// Where the leading white space of `s` ends, `trim_start` cuts.
pub proof fn lemma_trim_start_at(s: Seq<char>, k: int)
    requires
        0 <= k <= s.len(),
        forall|j: int| 0 <= j < k ==> is_white_space(#[trigger] s[j]),
        k == s.len() || !is_white_space(s[k]),
    ensures
        trim_start(s) == s.skip(k),
    decreases k,
{
    if k == 0 {
        assert(s.skip(0) =~= s);
    } else {
        let t = s.drop_first();
        assert forall|j: int| 0 <= j < k - 1 implies is_white_space(#[trigger] t[j]) by {
            assert(t[j] == s[j + 1]);
        }
        if k < s.len() {
            assert(t[k - 1] == s[k]);
        }
        lemma_trim_start_at(t, k - 1);
        assert(t.skip(k - 1) =~= s.skip(k));
    }
}

/// Where the trailing white space of `s` begins, `trim_end` cuts.
pub proof fn lemma_trim_end_at(s: Seq<char>, k: int)
    requires
        0 <= k <= s.len(),
        forall|j: int| k <= j < s.len() ==> is_white_space(#[trigger] s[j]),
        k == 0 || !is_white_space(s[k - 1]),
    ensures
        trim_end(s) == s.take(k),
    decreases s.len() - k,
{
    if k == s.len() {
        assert(s.take(k) =~= s);
    } else {
        let t = s.drop_last();
        assert(is_white_space(s[s.len() - 1]));
        assert forall|j: int| k <= j < t.len() implies is_white_space(#[trigger] t[j]) by {
            assert(t[j] == s[j]);
        }
        if k > 0 {
            assert(t[k - 1] == s[k - 1]);
        }
        lemma_trim_end_at(t, k);
        assert(t.take(k) =~= s.take(k));
    }
}

/// The characters of a string, in order.
pub fn chars_of(s: &str) -> (r: Vec<char>)
    ensures
        r@ == s@,
{
    let mut r: Vec<char> = Vec::new();
    for c in it: s.chars()
        invariant
            r@ == it.seq().take(it.index() as int),
            it.seq() == s@,
    {
        r.push(c);
    }
    r
}

/// The string made of the characters `cs[lo..hi]`.
pub fn string_of_range(cs: &[char], lo: usize, hi: usize) -> (r: String)
    requires
        lo <= hi <= cs@.len(),
    ensures
        r@ == cs@.subrange(lo as int, hi as int),
{
    string_from_chars(vstd::slice::slice_subrange(cs, lo, hi))
}

/// std's `FromIterator<char>` for `String`: the string holds exactly the
/// given characters, in order.
#[verifier::external_body]
fn string_from_chars(cs: &[char]) -> (r: String)
    ensures
        r@ == cs@,
{
    cs.iter().collect()
}

/// The bounds of `cs[lo..hi]` with its surrounding white space removed.
pub fn trim_range(cs: &[char], lo: usize, hi: usize) -> (r: (usize, usize))
    requires
        lo <= hi <= cs@.len(),
    ensures
        lo <= r.0 <= r.1 <= hi,
        cs@.subrange(r.0 as int, r.1 as int) == trim(cs@.subrange(lo as int, hi as int)),
{
    let mut a = lo;
    while a < hi && white_space(cs[a])
        invariant
            lo <= a <= hi,
            hi <= cs@.len(),
            forall|j: int| lo <= j < a ==> is_white_space(#[trigger] cs@[j]),
        decreases hi - a,
    {
        a += 1;
    }
    let mut b = hi;
    while b > a && white_space(cs[b - 1])
        invariant
            lo <= a <= b <= hi,
            hi <= cs@.len(),
            forall|j: int| b <= j < hi ==> is_white_space(#[trigger] cs@[j]),
        decreases b,
    {
        b -= 1;
    }
    proof {
        let sub = cs@.subrange(lo as int, hi as int);
        assert forall|j: int| 0 <= j < a - lo implies is_white_space(#[trigger] sub[j]) by {
            assert(sub[j] == cs@[lo + j]);
        }
        if a < hi {
            assert(sub[a - lo] == cs@[a as int]);
        }
        lemma_trim_start_at(sub, a - lo);
        let t = cs@.subrange(a as int, hi as int);
        assert(sub.skip(a - lo) =~= t);
        assert forall|j: int| b - a <= j < t.len() implies is_white_space(#[trigger] t[j]) by {
            assert(t[j] == cs@[a + j]);
        }
        if b > a {
            assert(t[b - a - 1] == cs@[b - 1]);
        }
        lemma_trim_end_at(t, b - a);
        assert(t.take(b - a) =~= cs@.subrange(a as int, b as int));
    }
    (a, b)
}

/// Whether `p` begins the range `cs[lo..hi]`.
pub fn range_starts_with(cs: &[char], lo: usize, hi: usize, p: &[char]) -> (r: bool)
    requires
        lo <= hi <= cs@.len(),
    ensures
        r == p@.is_prefix_of(cs@.subrange(lo as int, hi as int)),
{
    if hi - lo < p.len() {
        return false;
    }
    let mut i: usize = 0;
    while i < p.len()
        invariant
            lo <= hi <= cs@.len(),
            p@.len() <= hi - lo,
            i <= p@.len(),
            forall|j: int| 0 <= j < i ==> p@[j] == cs@[lo + j],
        decreases p@.len() - i,
    {
        if p[i] != cs[lo + i] {
            proof {
                let sub = cs@.subrange(lo as int, hi as int);
                assert(sub.subrange(0, p@.len() as int)[i as int] == cs@[lo + i]);
            }
            return false;
        }
        i += 1;
    }
    proof {
        let sub = cs@.subrange(lo as int, hi as int);
        assert(p@ =~= sub.subrange(0, p@.len() as int));
    }
    true
}

/// Whether `p` ends the range `cs[lo..hi]`.
pub fn range_ends_with(cs: &[char], lo: usize, hi: usize, p: &[char]) -> (r: bool)
    requires
        lo <= hi <= cs@.len(),
    ensures
        r == p@.is_suffix_of(cs@.subrange(lo as int, hi as int)),
{
    if hi - lo < p.len() {
        return false;
    }
    let start = hi - p.len();
    let mut i: usize = 0;
    while i < p.len()
        invariant
            lo <= start <= hi <= cs@.len(),
            start + p@.len() == hi,
            i <= p@.len(),
            forall|j: int| 0 <= j < i ==> p@[j] == cs@[start + j],
        decreases p@.len() - i,
    {
        if p[i] != cs[start + i] {
            proof {
                let sub = cs@.subrange(lo as int, hi as int);
                assert(sub.subrange(sub.len() - p@.len(), sub.len() as int)[i as int] == cs@[start
                    + i]);
            }
            return false;
        }
        i += 1;
    }
    proof {
        let sub = cs@.subrange(lo as int, hi as int);
        assert(p@ =~= sub.subrange(sub.len() - p@.len(), sub.len() as int));
    }
    true
}

/// The offset, within `cs[lo..hi]`, of the first `c` there.
pub fn find_in_range(cs: &[char], lo: usize, hi: usize, c: char) -> (r: Option<usize>)
    requires
        lo <= hi <= cs@.len(),
    ensures
        r matches Some(k) ==> cs@.subrange(lo as int, hi as int).index_of_first(c) == Some(
            k as int,
        ),
        r is None ==> cs@.subrange(lo as int, hi as int).index_of_first(c) is None,
{
    let ghost sub = cs@.subrange(lo as int, hi as int);
    let mut i = lo;
    while i < hi
        invariant
            lo <= i <= hi <= cs@.len(),
            sub == cs@.subrange(lo as int, hi as int),
            forall|j: int| lo <= j < i ==> cs@[j] != c,
        decreases hi - i,
    {
        if cs[i] == c {
            proof {
                let k = i - lo;
                assert(sub[k] == c);
                sub.index_of_first_ensures(c);
                let f = sub.index_of_first(c).unwrap();
                if f < k {
                    assert(sub[f] == cs@[lo + f]);
                }
            }
            return Some(i - lo);
        }
        i += 1;
    }
    proof {
                sub.index_of_first_ensures(c);
        if sub.contains(c) {
            let f = choose|f: int| 0 <= f < sub.len() && sub[f] == c;
            assert(sub[f] == cs@[lo + f]);
        }
    }
    None
}

/// The offset, within `cs[lo..hi]`, of the last `c` there.
pub fn rfind_in_range(cs: &[char], lo: usize, hi: usize, c: char) -> (r: Option<usize>)
    requires
        lo <= hi <= cs@.len(),
    ensures
        r matches Some(k) ==> cs@.subrange(lo as int, hi as int).index_of_last(c) == Some(
            k as int,
        ),
        r is None ==> cs@.subrange(lo as int, hi as int).index_of_last(c) is None,
{
    let ghost sub = cs@.subrange(lo as int, hi as int);
    let mut i = hi;
    while i > lo
        invariant
            lo <= i <= hi <= cs@.len(),
            sub == cs@.subrange(lo as int, hi as int),
            forall|j: int| i <= j < hi ==> cs@[j] != c,
        decreases i,
    {
        if cs[i - 1] == c {
            proof {
                let k = i - 1 - lo;
                assert(sub[k] == c);
                sub.index_of_last_ensures(c);
                let f = sub.index_of_last(c).unwrap();
                if f > k {
                    assert(sub[f] == cs@[lo + f]);
                }
            }
            return Some(i - 1 - lo);
        }
        i -= 1;
    }
    proof {
                sub.index_of_last_ensures(c);
        if sub.contains(c) {
            let f = choose|f: int| 0 <= f < sub.len() && sub[f] == c;
            assert(sub[f] == cs@[lo + f]);
        }
    }
    None
}

/// Whether two strings hold the same characters.
pub fn same_text(a: &str, b: &str) -> (r: bool)
    ensures
        r == (a@ == b@),
{
    let x = chars_of(a);
    let y = chars_of(b);
    if x.len() != y.len() {
        return false;
    }
    let mut i: usize = 0;
    while i < x.len()
        invariant
            x@ == a@,
            y@ == b@,
            x@.len() == y@.len(),
            i <= x@.len(),
            forall|j: int| 0 <= j < i ==> x@[j] == y@[j],
        decreases x@.len() - i,
    {
        if x[i] != y[i] {
            assert(x@[i as int] != y@[i as int]);
            return false;
        }
        i += 1;
    }
    assert(x@ =~= y@);
    true
}

/// Whether `a` ends with `b`, as `str::ends_with` answers.
pub fn text_ends_with(a: &str, b: &str) -> (r: bool)
    ensures
        r == b@.is_suffix_of(a@),
{
    let x = chars_of(a);
    let y = chars_of(b);
    assert(x@.subrange(0, x@.len() as int) =~= x@);
    range_ends_with(x.as_slice(), 0, x.len(), y.as_slice())
}

/// The string holding `a` then `b`.
pub fn join2(a: &str, b: &str) -> (r: String)
    ensures
        r@ == a@ + b@,
{
    let mut r = String::from_str(a);
    r.append(b);
    r
}

/// `c` in lower case, where it is an ASCII letter.
pub open spec fn ascii_lower(c: char) -> char {
    if 'A' <= c <= 'Z' {
        ((c as u32) + 32) as char
    } else {
        c
    }
}

/// `c` in lower case, where it is an ASCII letter.
pub fn lower(c: char) -> (r: char)
    ensures
        r == ascii_lower(c),
{
    if 'A' <= c && c <= 'Z' {
        ((c as u32) + 32) as u8 as char
    } else {
        c
    }
}

/// Every character of `s` is ASCII.
pub open spec fn all_ascii(s: Seq<char>) -> bool {
    forall|i: int| 0 <= i < s.len() ==> (#[trigger] s[i] as u32) < 128
}

/// `s` with its ASCII letters in lower case.
pub open spec fn ascii_lowercase(s: Seq<char>) -> Seq<char> {
    s.map_values(|c: char| ascii_lower(c))
}

} // verus!
