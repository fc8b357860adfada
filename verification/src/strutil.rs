//! Verified helpers over `&str` and `String`: prefix, suffix and equality
//! tests, stated over the character sequences the strings denote.

use vstd::prelude::*;

verus! {

/// `p` is a prefix of `s`.
pub open spec fn starts_with(s: Seq<char>, p: Seq<char>) -> bool {
    p.len() <= s.len() && (forall|i: int| 0 <= i < p.len() ==> s[i] == p[i])
}

/// `p` is a suffix of `s`.
pub open spec fn ends_with(s: Seq<char>, p: Seq<char>) -> bool {
    p.len() <= s.len() && (forall|i: int| 0 <= i < p.len() ==> s[s.len() - p.len() + i] == p[i])
}

/// Whether `s` begins with the characters of `p`.
pub fn str_starts_with(s: &str, p: &str) -> (r: bool)
    ensures
        r == starts_with(s@, p@),
{
    let n: usize = p.unicode_len();
    let m: usize = s.unicode_len();
    if m < n {
        return false;
    }
    let mut i: usize = 0;
    while i < n
        invariant
            i <= n,
            n == p@.len(),
            m == s@.len(),
            n <= m,
            forall|j: int| 0 <= j < i ==> s@[j] == p@[j],
        decreases n - i,
    {
        if s.get_char(i) != p.get_char(i) {
            return false;
        }
        i += 1;
    }
    true
}

/// Whether `s` ends with the characters of `p`.
pub fn str_ends_with(s: &str, p: &str) -> (r: bool)
    ensures
        r == ends_with(s@, p@),
{
    let n: usize = p.unicode_len();
    let m: usize = s.unicode_len();
    if m < n {
        return false;
    }
    let off: usize = m - n;
    let mut i: usize = 0;
    while i < n
        invariant
            i <= n,
            n == p@.len(),
            m == s@.len(),
            n <= m,
            off == m - n,
            forall|j: int| 0 <= j < i ==> s@[off + j] == p@[j],
        decreases n - i,
    {
        if s.get_char(off + i) != p.get_char(i) {
            return false;
        }
        i += 1;
    }
    true
}

/// Whether `s` and `p` hold the same characters.
pub fn str_eq(s: &str, p: &str) -> (r: bool)
    ensures
        r == (s@ == p@),
{
    let n: usize = p.unicode_len();
    let m: usize = s.unicode_len();
    if m != n {
        return false;
    }
    let mut i: usize = 0;
    while i < n
        invariant
            i <= n,
            n == p@.len(),
            m == s@.len(),
            n == m,
            forall|j: int| 0 <= j < i ==> s@[j] == p@[j],
        decreases n - i,
    {
        if s.get_char(i) != p.get_char(i) {
            return false;
        }
        i += 1;
    }
    proof {
        assert(s@ =~= p@);
    }
    true
}

/// The concatenation of two string slices as an owned `String`.
pub fn concat2(a: &str, b: &str) -> (r: String)
    ensures
        r@ == a@ + b@,
{
    let mut out = a.to_owned();
    out.append(b);
    out
}

/// The concatenation of three string slices as an owned `String`.
pub fn concat3(a: &str, b: &str, c: &str) -> (r: String)
    ensures
        r@ == a@ + b@ + c@,
{
    let mut out = a.to_owned();
    out.append(b);
    out.append(c);
    out
}

} // verus!
