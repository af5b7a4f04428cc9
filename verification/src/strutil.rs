//! Verified character-level helpers over `&str`: prefix tests, prefix
//! stripping, first-occurrence search, and substring matching.

use vstd::prelude::*;
use vstd::string::StrSliceExecFns;
use vstd::string::StringExecFns;

verus! {

/// Whether `pre` is a prefix of `s`.
pub open spec fn spec_has_prefix(s: Seq<char>, pre: Seq<char>) -> bool {
    pre.len() <= s.len() && s.subrange(0, pre.len() as int) == pre
}

/// Index of the first occurrence of `c` in `s`; `s.len()` where `c` does not
/// occur.
pub open spec fn spec_first_index_of(s: Seq<char>, c: char) -> int
    decreases s.len(),
{
    if s.len() == 0 {
        0
    } else if s[0] == c {
        0
    } else {
        1 + spec_first_index_of(s.skip(1), c)
    }
}

/// `spec_first_index_of` is in range, lands on `c`, and nothing before it is
/// `c`.
pub proof fn lemma_first_index_of(s: Seq<char>, c: char)
    ensures
        0 <= spec_first_index_of(s, c) <= s.len(),
        spec_first_index_of(s, c) < s.len() ==> s[spec_first_index_of(s, c)] == c,
        forall|k: int| 0 <= k < spec_first_index_of(s, c) ==> s[k] != c,
    decreases s.len(),
{
    if s.len() > 0 && s[0] != c {
        lemma_first_index_of(s.skip(1), c);
        assert forall|k: int| 0 <= k < spec_first_index_of(s, c) implies s[k] != c by {
            if k > 0 {
                assert(s.skip(1)[k - 1] == s[k]);
            }
        }
        if spec_first_index_of(s, c) < s.len() {
            assert(s.skip(1)[spec_first_index_of(s, c) - 1] == s[spec_first_index_of(s, c)]);
        }
    }
}

/// Whether `pat` occurs in `s` starting at index `i`.
pub open spec fn spec_contains_at(s: Seq<char>, pat: Seq<char>, i: int) -> bool {
    0 <= i && i + pat.len() <= s.len() && s.subrange(i, i + pat.len() as int) == pat
}

/// Whether `pat` occurs anywhere in `s`.
pub open spec fn spec_contains(s: Seq<char>, pat: Seq<char>) -> bool {
    exists|i: int| spec_contains_at(s, pat, i)
}

/// Whether `pre` is a prefix of `s`.
pub fn has_prefix(s: &str, pre: &str) -> (r: bool)
    ensures
        r == spec_has_prefix(s@, pre@),
{
    let n = pre.unicode_len();
    let m = s.unicode_len();
    if n > m {
        return false;
    }
    let mut i: usize = 0;
    while i < n
        invariant
            0 <= i <= n,
            n == pre@.len(),
            n <= m,
            m == s@.len(),
            forall|k: int| 0 <= k < i ==> s@[k] == pre@[k],
        decreases n - i,
    {
        if s.get_char(i) != pre.get_char(i) {
            assert(!spec_has_prefix(s@, pre@)) by {
                assert(s@.subrange(0, n as int)[i as int] == s@[i as int]);
            }
            return false;
        }
        i += 1;
    }
    assert(s@.subrange(0, n as int) =~= pre@);
    true
}

/// A fresh copy of `s` with its prefix `pre` removed.
pub fn strip_prefix_owned(s: &str, pre: &str) -> (r: String)
    requires
        spec_has_prefix(s@, pre@),
    ensures
        r@ == s@.skip(pre@.len() as int),
{
    let n = pre.unicode_len();
    let m = s.unicode_len();
    let sub = s.substring_char(n, m);
    assert(s@.subrange(n as int, m as int) =~= s@.skip(n as int));
    sub.to_owned()
}

/// Index of the first occurrence of `c` in `s`, where there is one.
pub fn find_char(s: &str, c: char) -> (r: Option<usize>)
    ensures
        ({
            let fi = spec_first_index_of(s@, c);
            if fi < s@.len() {
                r == Some(fi as usize)
            } else {
                r is None
            }
        }),
{
    proof {
        lemma_first_index_of(s@, c);
    }
    let m = s.unicode_len();
    let mut i: usize = 0;
    while i < m
        invariant
            0 <= i <= m,
            m == s@.len(),
            forall|k: int| 0 <= k < i ==> s@[k] != c,
        decreases m - i,
    {
        if s.get_char(i) == c {
            assert(spec_first_index_of(s@, c) == i) by {
                lemma_first_index_of(s@, c);
            }
            return Some(i);
        }
        i += 1;
    }
    proof {
        lemma_first_index_of(s@, c);
    }
    None
}

/// Whether `pat` occurs in `s` starting at `i`.
pub(crate) fn match_at(s: &str, pat: &str, i: usize) -> (r: bool)
    requires
        i + pat@.len() <= s@.len(),
    ensures
        r == spec_contains_at(s@, pat@, i as int),
{
    let n = pat.unicode_len();
    let m = s.unicode_len();
    let mut k: usize = 0;
    while k < n
        invariant
            0 <= k <= n,
            n == pat@.len(),
            m == s@.len(),
            i + n <= m,
            forall|j: int| 0 <= j < k ==> s@[i + j] == pat@[j],
        decreases n - k,
    {
        if s.get_char(i + k) != pat.get_char(k) {
            assert(!spec_contains_at(s@, pat@, i as int)) by {
                assert(s@.subrange(i as int, i + n as int)[k as int] == s@[i + k]);
            }
            return false;
        }
        k += 1;
    }
    assert(s@.subrange(i as int, i + n as int) =~= pat@);
    true
}

/// Whether `pat` occurs anywhere in `s`.
pub fn contains_pat(s: &str, pat: &str) -> (r: bool)
    ensures
        r == spec_contains(s@, pat@),
{
    let n = pat.unicode_len();
    let m = s.unicode_len();
    if n > m {
        assert(!spec_contains(s@, pat@)) by {
            assert(forall|i: int| !spec_contains_at(s@, pat@, i));
        }
        return false;
    }
    if n == 0 {
        assert(spec_contains(s@, pat@)) by {
            assert(s@.subrange(0, 0) =~= pat@);
            assert(spec_contains_at(s@, pat@, 0));
        }
        return true;
    }
    let mut i: usize = 0;
    while i <= m - n
        invariant
            0 <= i <= m - n + 1,
            n == pat@.len(),
            m == s@.len(),
            0 < n <= m,
            forall|k: int| 0 <= k < i ==> !spec_contains_at(s@, pat@, k),
        decreases m - n - i + 1,
    {
        if match_at(s, pat, i) {
            assert(spec_contains(s@, pat@));
            return true;
        }
        i += 1;
    }
    assert(!spec_contains(s@, pat@)) by {
        assert(forall|k: int| k > m - n ==> !spec_contains_at(s@, pat@, k));
    }
    false
}

/// `s` with every occurrence of `pat` replaced by `to`, scanning left to
/// right and never rescanning replaced text.
pub open spec fn spec_replace_all(s: Seq<char>, pat: Seq<char>, to: Seq<char>) -> Seq<char>
    decreases s.len(),
    when pat.len() > 0
{
    if s.len() < pat.len() {
        s
    } else if s.subrange(0, pat.len() as int) == pat {
        to + spec_replace_all(s.skip(pat.len() as int), pat, to)
    } else {
        seq![s[0]] + spec_replace_all(s.skip(1), pat, to)
    }
}

/// A fresh string: `s` with every occurrence of `pat` replaced by `to`.
pub(crate) fn replace_all(s: &str, pat: &str, to: &str) -> (r: String)
    requires
        pat@.len() > 0,
    ensures
        r@ == spec_replace_all(s@, pat@, to@),
{
    let n = pat.unicode_len();
    let m = s.unicode_len();
    let mut out = String::new();
    let mut i: usize = 0;
    proof {
        assert(s@.skip(0) =~= s@);
        assert(out@ + spec_replace_all(s@, pat@, to@) =~= spec_replace_all(s@, pat@, to@));
    }
    while i < m
        invariant
            0 <= i <= m,
            n == pat@.len(),
            m == s@.len(),
            n > 0,
            spec_replace_all(s@, pat@, to@) == out@ + spec_replace_all(
                s@.skip(i as int),
                pat@,
                to@,
            ),
        decreases m - i,
    {
        let ghost suffix = s@.skip(i as int);
        if n <= m - i && match_at(s, pat, i) {
            proof {
                assert(suffix.subrange(0, n as int) =~= s@.subrange(i as int, i + n as int));
                assert(suffix.skip(n as int) =~= s@.skip(i + n));
            }
            out.append(to);
            i += n;
        } else {
            proof {
                if i + n <= m {
                    assert(suffix.subrange(0, n as int) =~= s@.subrange(i as int, i + n as int));
                } else {
                    assert(suffix.len() < n);
                }
                assert(suffix.skip(1) =~= s@.skip(i + 1));
                assert(seq![suffix[0]] =~= s@.subrange(i as int, i + 1));
            }
            let piece = s.substring_char(i, i + 1);
            out.append(piece);
            i += 1;
        }
    }
    assert(s@.skip(m as int) =~= Seq::<char>::empty());
    assert(out@ + Seq::<char>::empty() =~= out@);
    out
}

} // verus!
