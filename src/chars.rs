//! Comparing texts character by character.
use vstd::prelude::*;

verus! {

/// Whether `needle` occurs in `hay`.
pub open spec fn contains_text(hay: Seq<char>, needle: Seq<char>) -> bool {
    exists|i: int|
        0 <= i && i + needle.len() <= hay.len() && #[trigger] hay.subrange(i, i + needle.len())
            == needle
}

/// Whether `s`, of `n` characters, holds `lit` at position `at`.
pub fn holds_at(s: &str, n: usize, at: usize, lit: &str) -> (r: bool)
    requires
        n == s@.len(),
    ensures
        r == (at + lit@.len() <= n && s@.subrange(at as int, at + lit@.len()) == lit@),
{
    let ghost pat = lit@;
    let m = lit.unicode_len();
    if at > n || m > n - at {
        return false;
    }
    let mut k: usize = 0;
    while k < m
        invariant
            m == pat.len(),
            pat == lit@,
            at + m <= n,
            n == s@.len(),
            k <= m,
            s@.subrange(at as int, at + k) == pat.take(k as int),
        decreases m - k,
    {
        if s.get_char(at + k) != lit.get_char(k) {
            assert(s@.subrange(at as int, at + m)[k as int] != pat[k as int]);
            return false;
        }
        k = k + 1;
        assert(s@.subrange(at as int, at + k) =~= pat.take(k as int));
    }
    assert(pat.take(m as int) =~= pat);
    true
}

/// Whether two texts are equal.
pub fn same_text(a: &str, b: &str) -> (r: bool)
    ensures
        r == (a@ == b@),
{
    let n = a.unicode_len();
    if n != b.unicode_len() {
        return false;
    }
    let r = holds_at(a, n, 0, b);
    proof {
        assert(a@.subrange(0, n as int) =~= a@);
    }
    r
}

/// Whether `needle` occurs in `hay`.
pub fn contains(hay: &str, needle: &str) -> (r: bool)
    ensures
        r == contains_text(hay@, needle@),
{
    let n = hay.unicode_len();
    let m = needle.unicode_len();
    if m > n {
        proof {
            assert forall|i: int|
                0 <= i && i + m <= n implies #[trigger] hay@.subrange(i, i + m) != needle@ by {}
        }
        return false;
    }
    let last = n - m;
    let mut at: usize = 0;
    loop
        invariant
            m <= n,
            n == hay@.len(),
            m == needle@.len(),
            last == n - m,
            at <= last,
            forall|i: int| 0 <= i < at ==> #[trigger] hay@.subrange(i, i + m) != needle@,
        decreases last - at,
    {
        if holds_at(hay, n, at, needle) {
            return true;
        }
        if at == last {
            return false;
        }
        at = at + 1;
    }
}

} // verus!
