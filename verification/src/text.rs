//! Exact, case-sensitive substring containment over text, together with the
//! small string utilities the rest of the crate builds on: equality and
//! suffix tests, all specified over `Seq<char>` views.

use vstd::prelude::*;

verus! {

/// The needle occurs in the haystack starting at character position `i`.
pub open spec fn matches_at(hay: Seq<char>, needle: Seq<char>, i: int) -> bool {
    0 <= i && i + needle.len() <= hay.len() && hay.subrange(i, i + needle.len() as int)
        == needle
}

/// Exact substring containment: some character position of `hay` starts an
/// occurrence of `needle`. The empty needle is contained in every text.
pub open spec fn contains_term(hay: Seq<char>, needle: Seq<char>) -> bool {
    exists|i: int| matches_at(hay, needle, i)
}

/// `suffix` is the final segment of `s`.
pub open spec fn has_suffix(s: Seq<char>, suffix: Seq<char>) -> bool {
    s.len() >= suffix.len() && s.subrange(s.len() - suffix.len(), s.len() as int) == suffix
}

/// The empty needle is a substring of every text.
pub proof fn lemma_empty_needle(hay: Seq<char>, needle: Seq<char>)
    requires
        needle.len() == 0,
    ensures
        contains_term(hay, needle),
{
    assert(hay.subrange(0, 0) =~= needle);
    assert(matches_at(hay, needle, 0));
}

/// Character-for-character string equality, decided without assuming
/// anything about the standard library's comparison.
pub fn str_eq(a: &str, b: &str) -> (r: bool)
    ensures
        r == (a@ == b@),
{
    let n = a.unicode_len();
    if n != b.unicode_len() {
        return false;
    }
    let mut i: usize = 0;
    while i < n
        invariant
            n == a@.len(),
            n == b@.len(),
            i <= n,
            forall|k: int| 0 <= k < i ==> a@[k] == b@[k],
        decreases n - i,
    {
        if a.get_char(i) != b.get_char(i) {
            return false;
        }
        i = i + 1;
    }
    proof {
        assert(a@ =~= b@);
    }
    true
}

/// Whether `s` ends with `suffix`, by direct character comparison.
pub fn str_has_suffix(s: &str, suffix: &str) -> (r: bool)
    ensures
        r == has_suffix(s@, suffix@),
{
    let n = s.unicode_len();
    let m = suffix.unicode_len();
    if m > n {
        return false;
    }
    let start: usize = n - m;
    let mut j: usize = 0;
    while j < m
        invariant
            n == s@.len(),
            m == suffix@.len(),
            m <= n,
            start == n - m,
            j <= m,
            forall|k: int| 0 <= k < j ==> s@[start + k] == suffix@[k],
        decreases m - j,
    {
        if s.get_char(start + j) != suffix.get_char(j) {
            proof {
                if has_suffix(s@, suffix@) {
                    assert(s@.subrange(n - m, n as int)[j as int] == suffix@[j as int]);
                }
            }
            return false;
        }
        j = j + 1;
    }
    proof {
        assert(s@.subrange(n - m, n as int) =~= suffix@);
    }
    true
}

/// The Term Filter: exact, case-sensitive substring containment, with no
/// normalization of line endings or whitespace, and no special case for an
/// empty term beyond the universal substring rule.
pub fn str_contains_term(hay: &str, term: &str) -> (r: bool)
    ensures
        r == contains_term(hay@, term@),
{
    let n = hay.unicode_len();
    let m = term.unicode_len();
    if m > n {
        proof {
            assert forall|i: int| !matches_at(hay@, term@, i) by {
                if matches_at(hay@, term@, i) {
                    assert(i + term@.len() <= hay@.len());
                }
            }
        }
        return false;
    }
    let mut i: usize = 0;
    while i <= n - m
        invariant
            n == hay@.len(),
            m == term@.len(),
            m <= n,
            i <= n - m + 1,
            forall|k: int| 0 <= k < i ==> !matches_at(hay@, term@, k),
        decreases n - m + 1 - i,
    {
        let mut j: usize = 0;
        let mut ok = true;
        while j < m && ok
            invariant
                n == hay@.len(),
                m == term@.len(),
                m <= n,
                i <= n - m,
                j <= m,
                ok ==> forall|t: int| 0 <= t < j ==> hay@[i + t] == term@[t],
                !ok ==> !matches_at(hay@, term@, i as int),
                !ok ==> 0 < m,
            decreases m - j + (if ok { 1int } else { 0int }),
        {
            if hay.get_char(i + j) != term.get_char(j) {
                proof {
                    if matches_at(hay@, term@, i as int) {
                        assert(hay@.subrange(i as int, i + m as int)[j as int]
                            == term@[j as int]);
                    }
                }
                ok = false;
            } else {
                j = j + 1;
            }
        }
        if ok {
            proof {
                assert(hay@.subrange(i as int, i + m as int) =~= term@);
                assert(matches_at(hay@, term@, i as int));
            }
            return true;
        }
        i = i + 1;
    }
    proof {
        assert forall|k: int| !matches_at(hay@, term@, k) by {
            if matches_at(hay@, term@, k) {
                assert(0 <= k && k + m <= n);
                assert(k < i);
            }
        }
    }
    false
}

} // verus!
