//! Small verified helpers over strings.

use vstd::prelude::*;

verus! {

/// Relies on String::push: appends exactly the given character.
#[verifier::external_body]
pub fn push_char(s: &mut String, c: char)
    ensures
        final(s)@ == old(s)@.push(c),
{
    s.push(c);
}

/// Character-wise equality of two string slices.
pub fn str_eq(a: &str, b: &str) -> (r: bool)
    ensures
        r == (a@ == b@),
{
    let x = a.to_owned();
    let y = b.to_owned();
    x == y
}

/// Whether `pattern` occurs contiguously inside `text`.
pub open spec fn spec_contains(text: Seq<char>, pattern: Seq<char>) -> bool {
    exists|i: int|
        #![trigger text.subrange(i, i + pattern.len())]
        0 <= i <= text.len() - pattern.len() && text.subrange(i, i + pattern.len()) == pattern
}

/// Whether `pattern` occurs in `text` starting at position `i`.
fn match_at(text: &str, pattern: &str, i: usize, n: usize, m: usize) -> (r: bool)
    requires
        n == text@.len(),
        m == pattern@.len(),
        i + m <= n,
    ensures
        r == (text@.subrange(i as int, i + pattern@.len()) == pattern@),
{
    let mut j: usize = 0;
    while j < m
        invariant
            n == text@.len(),
            m == pattern@.len(),
            i + m <= n,
            j <= m,
            forall|q: int| 0 <= q < j ==> text@[i + q] == pattern@[q],
        decreases m - j,
    {
        if text.get_char(i + j) != pattern.get_char(j) {
            proof {
                assert(text@.subrange(i as int, i + pattern@.len())[j as int] == text@[i + j]);
            }
            return false;
        }
        j = j + 1;
    }
    proof {
        assert(text@.subrange(i as int, i + pattern@.len()) =~= pattern@);
    }
    true
}

/// Substring search: whether `pattern` occurs contiguously inside `text`.
pub fn contains_str(text: &str, pattern: &str) -> (r: bool)
    ensures
        r == spec_contains(text@, pattern@),
{
    let n = text.unicode_len();
    let m = pattern.unicode_len();
    if m > n {
        assert(!spec_contains(text@, pattern@));
        return false;
    }
    if m == 0 {
        proof {
            assert(text@.subrange(0, 0 + pattern@.len() as int) =~= pattern@);
            assert(spec_contains(text@, pattern@));
        }
        return true;
    }
    let mut i: usize = 0;
    while i <= n - m
        invariant
            m <= n == text@.len(),
            m == pattern@.len(),
            0 < m,
            i <= n - m + 1,
            forall|q: int|
                #![trigger text@.subrange(q, q + pattern@.len())]
                0 <= q < i ==> text@.subrange(q, q + pattern@.len()) != pattern@,
        decreases n - m + 1 - i,
    {
        if match_at(text, pattern, i, n, m) {
            proof {
                assert(text@.subrange(i as int, i + pattern@.len()) == pattern@);
            }
            return true;
        }
        i = i + 1;
    }
    proof {
        assert(forall|q: int|
            #![trigger text@.subrange(q, q + pattern@.len())]
            0 <= q <= text@.len() - pattern@.len() ==> text@.subrange(q, q + pattern@.len())
                != pattern@);
    }
    false
}

} // verus!
