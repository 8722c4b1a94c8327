//! Character-level tests on strings.

use vstd::prelude::*;
use vstd::string::StrSliceExecFns;

verus! {

/// Relies on std's `FromIterator<char>` for `String`: the string holds the
/// characters in order.
#[verifier::external_body]
pub(crate) fn string_from_chars(chars: &Vec<char>) -> (r: String)
    ensures
        r@ == chars@,
{
    chars.iter().collect()
}

pub open spec fn starts_with(s: Seq<char>, prefix: Seq<char>) -> bool {
    prefix.len() <= s.len() && s.subrange(0, prefix.len() as int) == prefix
}

pub open spec fn ends_with(s: Seq<char>, suffix: Seq<char>) -> bool {
    suffix.len() <= s.len() && s.subrange(s.len() - suffix.len(), s.len() as int) == suffix
}

/// Whether `s` begins with `prefix`, character for character.
pub fn str_starts_with(s: &str, prefix: &str) -> (r: bool)
    ensures
        r == starts_with(s@, prefix@),
{
    let n = s.unicode_len();
    let m = prefix.unicode_len();
    if m > n {
        return false;
    }
    let mut i: usize = 0;
    while i < m
        invariant
            m <= n,
            n == s@.len(),
            m == prefix@.len(),
            i <= m,
            forall|j: int| 0 <= j < i ==> s@[j] == prefix@[j],
        decreases m - i,
    {
        if s.get_char(i) != prefix.get_char(i) {
            assert(s@.subrange(0, m as int)[i as int] != prefix@[i as int]);
            return false;
        }
        i = i + 1;
    }
    assert(s@.subrange(0, m as int) =~= prefix@);
    true
}

/// Whether `s` ends with `suffix`, character for character.
pub fn str_ends_with(s: &str, suffix: &str) -> (r: bool)
    ensures
        r == ends_with(s@, suffix@),
{
    let n = s.unicode_len();
    let m = suffix.unicode_len();
    if m > n {
        return false;
    }
    let start = n - m;
    let mut i: usize = 0;
    while i < m
        invariant
            m <= n,
            start == n - m,
            n == s@.len(),
            m == suffix@.len(),
            i <= m,
            forall|j: int| 0 <= j < i ==> s@[start + j] == suffix@[j],
        decreases m - i,
    {
        if s.get_char(start + i) != suffix.get_char(i) {
            assert(s@.subrange(start as int, n as int)[i as int] != suffix@[i as int]);
            return false;
        }
        i = i + 1;
    }
    assert(s@.subrange(start as int, n as int) =~= suffix@);
    true
}

/// Whether `a` and `b` hold the same characters.
pub fn str_equal(a: &str, b: &str) -> (r: bool)
    ensures
        r == (a@ == b@),
{
    if a.unicode_len() != b.unicode_len() {
        return false;
    }
    let r = str_starts_with(a, b);
    proof {
        if r {
            assert(a@.subrange(0, a@.len() as int) =~= a@);
        } else {
            assert(a@.subrange(0, b@.len() as int) =~= a@);
        }
    }
    r
}

} // verus!
