//! Character-level text primitives.
//!
//! Keyword detection is substring containment over the characters of the
//! text, after the whole text has been lowercased once. The lowercasing
//! itself is delegated to the standard library; everything that decides
//! whether a keyword occurs is verified here.

use vstd::prelude::*;
use vstd::string::*;

verus! {

/// `pat` occurs in `text` starting at position `i`.
pub open spec fn matches_at(text: Seq<char>, pat: Seq<char>, i: int) -> bool {
    &&& 0 <= i
    &&& i + pat.len() <= text.len()
    &&& text.subrange(i, i + pat.len()) == pat
}

/// `pat` occurs somewhere in `text` as a contiguous run of characters.
pub open spec fn contains_seq(text: Seq<char>, pat: Seq<char>) -> bool {
    exists|i: int| matches_at(text, pat, i)
}

/// What `str::to_lowercase` returns for a given sequence of characters.
pub uninterp spec fn lower_of(s: Seq<char>) -> Seq<char>;

/// Relies on `str::to_lowercase`: the result is a function of the input's
/// characters alone, and an empty input gives an empty result.
#[verifier::external_body]
pub(crate) fn lowercase(s: &str) -> (r: String)
    ensures
        r@ == lower_of(s@),
        s@.len() == 0 ==> r@.len() == 0,
{
    s.to_lowercase()
}

/// Copy the characters of `s` into a vector, so that later scans can index
/// them in constant time.
pub(crate) fn chars_vec(s: &str) -> (v: Vec<char>)
    ensures
        v@ == s@,
{
    let n: usize = s.unicode_len();
    let mut v: Vec<char> = Vec::new();
    let mut i: usize = 0;
    while i < n
        invariant
            n == s@.len(),
            i <= n,
            v@ == s@.take(i as int),
        decreases n - i,
    {
        let c = s.get_char(i);
        v.push(c);
        proof {
            assert(s@.take(i as int).push(s@[i as int]) =~= s@.take(i as int + 1));
        }
        i += 1;
    }
    proof {
        assert(s@.take(n as int) =~= s@);
    }
    v
}

/// Whether the character `c` occurs anywhere in `s`.
pub(crate) fn contains_char(s: &str, c: char) -> (b: bool)
    ensures
        b == s@.contains(c),
{
    let n: usize = s.unicode_len();
    let mut i: usize = 0;
    while i < n
        invariant
            n == s@.len(),
            i <= n,
            forall|k: int| 0 <= k < i ==> s@[k] != c,
        decreases n - i,
    {
        if s.get_char(i) == c {
            return true;
        }
        i += 1;
    }
    false
}

/// Whether `pat` matches the characters of `text` starting at position `i`.
fn match_at(text: &Vec<char>, pat: &str, m: usize, i: usize) -> (b: bool)
    requires
        m == pat@.len(),
        i + m <= text.len(),
    ensures
        b == matches_at(text@, pat@, i as int),
{
    let mut j: usize = 0;
    while j < m
        invariant
            m == pat@.len(),
            i + m <= text.len(),
            j <= m,
            forall|k: int| 0 <= k < j ==> text@[i + k] == pat@[k],
        decreases m - j,
    {
        if text[i + j] != pat.get_char(j) {
            proof {
                if matches_at(text@, pat@, i as int) {
                    assert(text@.subrange(i as int, i + pat@.len())[j as int] == text@[i + j]);
                    assert(text@.subrange(i as int, i + pat@.len())[j as int] == pat@[j as int]);
                }
            }
            return false;
        }
        j += 1;
    }
    proof {
        assert(text@.subrange(i as int, i + pat@.len()) =~= pat@);
    }
    true
}

/// Whether the string `pat` occurs as a contiguous run of characters in
/// `text`.
pub(crate) fn contains_str(text: &Vec<char>, pat: &str) -> (b: bool)
    ensures
        b == contains_seq(text@, pat@),
{
    let n: usize = text.len();
    let m: usize = pat.unicode_len();
    if m > n {
        proof {
            assert forall|k: int| !matches_at(text@, pat@, k) by {}
        }
        return false;
    }
    if m == 0 {
        proof {
            assert(text@.subrange(0, 0) =~= pat@);
            assert(matches_at(text@, pat@, 0));
        }
        return true;
    }
    let bound: usize = n - m + 1;
    let mut i: usize = 0;
    while i < bound
        invariant
            n == text.len(),
            n == text@.len(),
            m == pat@.len(),
            0 < m <= n,
            bound == n - m + 1,
            forall|k: int| 0 <= k < i ==> !matches_at(text@, pat@, k),
        decreases bound - i,
    {
        if match_at(text, pat, m, i) {
            return true;
        }
        i += 1;
    }
    proof {
        assert forall|k: int| !matches_at(text@, pat@, k) by {
            if 0 <= k < bound {
            }
        }
    }
    false
}

} // verus!
