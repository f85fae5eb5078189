//! Character-level string operations with exact contracts.
use vstd::prelude::*;
use vstd::string::*;

verus! {

/// `suffix` is a final segment of `s`.
pub open spec fn has_suffix(s: Seq<char>, suffix: Seq<char>) -> bool {
    suffix.len() <= s.len() && s.subrange(s.len() - suffix.len(), s.len() as int) == suffix
}

/// `prefix` is an initial segment of `s`.
pub open spec fn has_prefix(s: Seq<char>, prefix: Seq<char>) -> bool {
    prefix.len() <= s.len() && s.subrange(0, prefix.len() as int) == prefix
}

/// Whether `s` and `t` hold the same characters from positions `a` and `b` on, for `n` characters.
fn same_run(s: &str, a: usize, t: &str, b: usize, n: usize) -> (r: bool)
    requires
        a + n <= s@.len() <= usize::MAX,
        b + n <= t@.len() <= usize::MAX,
    ensures
        r == (s@.subrange(a as int, a + n) == t@.subrange(b as int, b + n)),
{
    let mut i: usize = 0;
    while i < n
        invariant
            i <= n,
            a + n <= s@.len() <= usize::MAX,
            b + n <= t@.len() <= usize::MAX,
            s@.subrange(a as int, a + i) == t@.subrange(b as int, b + i),
        decreases n - i,
    {
        if s.get_char(a + i) != t.get_char(b + i) {
            assert(s@.subrange(a as int, a + n)[i as int] != t@.subrange(b as int, b + n)[i as int]);
            return false;
        }
        assert(s@.subrange(a as int, a + i + 1) =~= s@.subrange(a as int, a + i).push(s@[a + i]));
        assert(t@.subrange(b as int, b + i + 1) =~= t@.subrange(b as int, b + i).push(t@[b + i]));
        i = i + 1;
    }
    true
}

/// Character-wise equality of two strings.
pub fn str_eq(s: &str, t: &str) -> (r: bool)
    ensures
        r == (s@ == t@),
{
    let n = s.unicode_len();
    let m = t.unicode_len();
    if n != m {
        return false;
    }
    let r = same_run(s, 0, t, 0, n);
    assert(s@.subrange(0, n as int) =~= s@);
    assert(t@.subrange(0, n as int) =~= t@);
    r
}

/// Whether `s` ends with `suffix`.
pub fn ends_with(s: &str, suffix: &str) -> (r: bool)
    ensures
        r == has_suffix(s@, suffix@),
{
    let n = s.unicode_len();
    let m = suffix.unicode_len();
    if m > n {
        return false;
    }
    let r = same_run(s, n - m, suffix, 0, m);
    assert(suffix@.subrange(0, m as int) =~= suffix@);
    r
}

/// Whether `s` starts with `prefix`.
pub fn starts_with(s: &str, prefix: &str) -> (r: bool)
    ensures
        r == has_prefix(s@, prefix@),
{
    let n = s.unicode_len();
    let m = prefix.unicode_len();
    if m > n {
        return false;
    }
    let r = same_run(s, 0, prefix, 0, m);
    assert(prefix@.subrange(0, m as int) =~= prefix@);
    r
}

} // verus!
