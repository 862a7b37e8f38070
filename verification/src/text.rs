//! Text helpers over the characters of a string: Unicode white space, trimming,
//! and comparisons with fixed words.
use vstd::prelude::*;
use vstd::string::StrSliceExecFns;

verus! {

/// A character with the Unicode `White_Space` property.
pub open spec fn is_white_space(c: char) -> bool {
    let v = c as u32;
    ||| 9 <= v <= 13
    ||| v == 32
    ||| v == 0x85
    ||| v == 0xA0
    ||| v == 0x1680
    ||| 0x2000 <= v <= 0x200A
    ||| v == 0x2028
    ||| v == 0x2029
    ||| v == 0x202F
    ||| v == 0x205F
    ||| v == 0x3000
}

/// Whether `c` is white space.
pub fn white_space(c: char) -> (b: bool)
    ensures
        b == is_white_space(c),
{
    let v = c as u32;
    (9 <= v && v <= 13) || v == 32 || v == 0x85 || v == 0xA0 || v == 0x1680 || (0x2000 <= v && v <= 0x200A)
        || v == 0x2028 || v == 0x2029 || v == 0x202F || v == 0x205F || v == 0x3000
}

/// The index of the first character at or after `i` that is not white space.
pub open spec fn lead_end(s: Seq<char>, i: int) -> int
    decreases s.len() - i,
{
    if i < s.len() && is_white_space(s[i]) {
        lead_end(s, i + 1)
    } else {
        i
    }
}

/// The index just after the last character before `j` that is not white space.
pub open spec fn trail_start(s: Seq<char>, j: int) -> int
    decreases j,
{
    if j > 0 && is_white_space(s[j - 1]) {
        trail_start(s, j - 1)
    } else {
        j
    }
}

/// `s` without its leading and trailing white space.
pub open spec fn trimmed(s: Seq<char>) -> Seq<char> {
    if lead_end(s, 0) >= s.len() {
        Seq::empty()
    } else {
        s.subrange(lead_end(s, 0), trail_start(s, s.len() as int))
    }
}

proof fn lemma_lead_end(s: Seq<char>, i: int)
    requires
        0 <= i <= s.len(),
    ensures
        i <= lead_end(s, i) <= s.len(),
        forall|k: int| i <= k < lead_end(s, i) ==> is_white_space(#[trigger] s[k]),
        lead_end(s, i) < s.len() ==> !is_white_space(s[lead_end(s, i)]),
    decreases s.len() - i,
{
    if i < s.len() && is_white_space(s[i]) {
        lemma_lead_end(s, i + 1);
    }
}

proof fn lemma_trail_start(s: Seq<char>, j: int)
    requires
        0 <= j <= s.len(),
    ensures
        0 <= trail_start(s, j) <= j,
        forall|k: int| trail_start(s, j) <= k < j ==> is_white_space(#[trigger] s[k]),
        trail_start(s, j) > 0 ==> !is_white_space(s[trail_start(s, j) - 1]),
    decreases j,
{
    if j > 0 && is_white_space(s[j - 1]) {
        lemma_trail_start(s, j - 1);
    }
}

/// The character bounds `a .. b` of `s` without leading and trailing white space.
pub fn trim_bounds(s: &str) -> (r: (usize, usize))
    ensures
        r.0 <= r.1 <= s@.len(),
        s@.subrange(r.0 as int, r.1 as int) == trimmed(s@),
{
    let n = s.unicode_len();
    let mut a: usize = 0;
    while a < n && white_space(s.get_char(a))
        invariant
            n == s@.len(),
            a <= n,
            lead_end(s@, 0) == lead_end(s@, a as int),
        decreases n - a,
    {
        a = a + 1;
    }
    if a >= n {
        assert(s@.subrange(n as int, n as int) =~= trimmed(s@));
        return (n, n);
    }
    let mut b: usize = n;
    while b > 0 && white_space(s.get_char(b - 1))
        invariant
            n == s@.len(),
            b <= n,
            trail_start(s@, n as int) == trail_start(s@, b as int),
        decreases b,
    {
        b = b - 1;
    }
    proof {
        lemma_lead_end(s@, 0);
        lemma_trail_start(s@, n as int);
        assert(a < b) by {
            if b <= a {
                assert(is_white_space(s@[a as int]));
            }
        }
    }
    (a, b)
}

/// `s` without leading and trailing white space, as `str::trim` gives it.
pub fn trim(s: &str) -> (t: &str)
    ensures
        t@ == trimmed(s@),
{
    let (a, b) = trim_bounds(s);
    s.substring_char(a, b)
}

/// Whether `s` spells exactly `w`.
pub fn str_eq(s: &str, w: &str) -> (eq: bool)
    ensures
        eq == (s@ == w@),
{
    let n = s.unicode_len();
    let m = w.unicode_len();
    if n != m {
        return false;
    }
    let mut k: usize = 0;
    while k < n
        invariant
            n == s@.len(),
            m == w@.len(),
            n == m,
            k <= n,
            forall|j: int| 0 <= j < k ==> s@[j] == w@[j],
        decreases n - k,
    {
        if s.get_char(k) != w.get_char(k) {
            return false;
        }
        k = k + 1;
    }
    assert(s@ =~= w@);
    true
}

/// Whether `s` begins with `p`.
pub fn starts_with(s: &str, p: &str) -> (b: bool)
    ensures
        b == (p@.len() <= s@.len() && s@.subrange(0, p@.len() as int) == p@),
{
    let n = s.unicode_len();
    let m = p.unicode_len();
    if m > n {
        return false;
    }
    let mut k: usize = 0;
    while k < m
        invariant
            n == s@.len(),
            m == p@.len(),
            m <= n,
            k <= m,
            forall|j: int| 0 <= j < k ==> s@[j] == p@[j],
        decreases m - k,
    {
        if s.get_char(k) != p.get_char(k) {
            assert(s@.subrange(0, m as int)[k as int] != p@[k as int]);
            return false;
        }
        k = k + 1;
    }
    assert(s@.subrange(0, m as int) =~= p@);
    true
}

/// Whether `s` contains the character `c`.
pub fn contains_char(s: &str, c: char) -> (b: bool)
    ensures
        b == s@.contains(c),
{
    let n = s.unicode_len();
    let mut k: usize = 0;
    while k < n
        invariant
            n == s@.len(),
            k <= n,
            forall|j: int| 0 <= j < k ==> s@[j] != c,
        decreases n - k,
    {
        if s.get_char(k) == c {
            assert(s@[k as int] == c);
            return true;
        }
        k = k + 1;
    }
    false
}

/// The character bounds `a .. b` of `s` without leading and trailing white space.
pub fn chars_trim_bounds(s: &[char]) -> (r: (usize, usize))
    ensures
        r.0 <= r.1 <= s@.len(),
        s@.subrange(r.0 as int, r.1 as int) == trimmed(s@),
{
    let n = s.len();
    let mut a: usize = 0;
    while a < n && white_space(s[a])
        invariant
            n == s@.len(),
            a <= n,
            lead_end(s@, 0) == lead_end(s@, a as int),
        decreases n - a,
    {
        a = a + 1;
    }
    if a >= n {
        assert(s@.subrange(n as int, n as int) =~= trimmed(s@));
        return (n, n);
    }
    let mut b: usize = n;
    while b > 0 && white_space(s[b - 1])
        invariant
            n == s@.len(),
            b <= n,
            trail_start(s@, n as int) == trail_start(s@, b as int),
        decreases b,
    {
        b = b - 1;
    }
    proof {
        lemma_lead_end(s@, 0);
        lemma_trail_start(s@, n as int);
        assert(a < b) by {
            if b <= a {
                assert(is_white_space(s@[a as int]));
            }
        }
    }
    (a, b)
}

/// Whether the characters `a .. b` of `s` spell exactly `w`.
pub fn chars_eq(s: &[char], a: usize, b: usize, w: &str) -> (eq: bool)
    requires
        a <= b <= s@.len(),
    ensures
        eq == (s@.subrange(a as int, b as int) == w@),
{
    let m = w.unicode_len();
    if b - a != m {
        return false;
    }
    let mut k: usize = 0;
    while k < m
        invariant
            a <= b <= s@.len(),
            m == w@.len(),
            b - a == m,
            k <= m,
            forall|j: int| 0 <= j < k ==> s@[a + j] == w@[j],
        decreases m - k,
    {
        if s[a + k] != w.get_char(k) {
            assert(s@.subrange(a as int, b as int)[k as int] != w@[k as int]);
            return false;
        }
        k = k + 1;
    }
    assert(s@.subrange(a as int, b as int) =~= w@);
    true
}

/// A non-empty trimmed text is the part of `s` between its leading and its
/// trailing white space.
pub proof fn lemma_trimmed_is_part(s: Seq<char>)
    ensures
        trimmed(s).len() > 0 ==> 0 <= lead_end(s, 0) <= trail_start(s, s.len() as int) <= s.len(),
{
    lemma_lead_end(s, 0);
    lemma_trail_start(s, s.len() as int);
    if lead_end(s, 0) < s.len() && trail_start(s, s.len() as int) < lead_end(s, 0) {
        let a = lead_end(s, 0);
        assert(!is_white_space(s[a]));
    }
}

} // verus!
