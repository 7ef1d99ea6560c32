//! The match predicate: literal substring containment, case-sensitive or not.
//!
//! Case-insensitive matching lowercases both sides first, as the line scanner
//! promises. Lowercasing itself is delegated to the standard library and named
//! by the uninterpreted function [`lower_of`].

use vstd::prelude::*;

verus! {

/// The pattern `p` occurs in `s` starting at position `i`.
pub open spec fn match_at(s: Seq<char>, p: Seq<char>, i: int) -> bool {
    0 <= i && i + p.len() <= s.len() && s.subrange(i, i + p.len() as int) == p
}

/// The pattern `p` occurs somewhere in `s`.
pub open spec fn has_substr(s: Seq<char>, p: Seq<char>) -> bool {
    exists|i: int| match_at(s, p, i)
}

/// What the standard library's `str::to_lowercase` returns; the result
/// depends on the characters of the argument alone.
pub uninterp spec fn lower_of(s: Seq<char>) -> Seq<char>;

/// Relies on `str::to_lowercase`: the Unicode lowercase of the string,
/// a function of its characters alone; an empty string stays empty.
#[verifier::external_body]
pub fn to_lower(s: &str) -> (r: String)
    ensures
        r@ == lower_of(s@),
        s@.len() == 0 ==> r@.len() == 0,
{
    s.to_lowercase()
}

/// Whether `line` matches `pattern`, per the scanner's match predicate:
/// literal containment when case-sensitive, containment of the lowercased
/// pattern in the lowercased line otherwise.
pub open spec fn spec_line_matches(line: Seq<char>, pattern: Seq<char>, case_sensitive: bool) -> bool {
    if case_sensitive {
        has_substr(line, pattern)
    } else {
        has_substr(lower_of(line), lower_of(pattern))
    }
}

/// Finds the first occurrence of `pattern` in `line`, as a character index.
pub fn find_substr(line: &str, pattern: &str) -> (r: Option<usize>)
    ensures
        match r {
            Some(i) => match_at(line@, pattern@, i as int) && (forall|j: int|
                0 <= j < i ==> !match_at(line@, pattern@, j)),
            None => !has_substr(line@, pattern@),
        },
{
    let n = line.unicode_len();
    let m = pattern.unicode_len();
    if m > n {
        proof {
            assert forall|i: int| !match_at(line@, pattern@, i) by {}
        }
        return None;
    }
    let mut i: usize = 0;
    while i <= n - m
        invariant
            n == line@.len(),
            m == pattern@.len(),
            m <= n,
            i <= n - m + 1,
            forall|j: int| 0 <= j < i ==> !match_at(line@, pattern@, j),
        decreases n - m + 1 - i,
    {
        let mut j: usize = 0;
        let mut mismatch = false;
        while !mismatch && j < m
            invariant
                n == line@.len(),
                m == pattern@.len(),
                m <= n,
                i <= n - m,
                j <= m,
                forall|k: int| 0 <= k < j ==> line@[i + k] == pattern@[k],
                mismatch ==> j < m && line@[i as int + j as int] != pattern@[j as int],
            decreases m - j + (if mismatch { 0int } else { 1int }),
        {
            if line.get_char(i + j) != pattern.get_char(j) {
                mismatch = true;
            } else {
                j = j + 1;
            }
        }
        if !mismatch {
            proof {
                assert(line@.subrange(i as int, i + pattern@.len() as int) =~= pattern@);
            }
            return Some(i);
        }
        proof {
            assert(!match_at(line@, pattern@, i as int)) by {
                if line@.subrange(i as int, i + pattern@.len() as int) == pattern@ {
                    assert(line@.subrange(i as int, i + pattern@.len() as int)[j as int]
                        == pattern@[j as int]);
                }
            }
        }
        i = i + 1;
    }
    proof {
        assert forall|j: int| !match_at(line@, pattern@, j) by {
            if 0 <= j < i {
            } else if j + pattern@.len() <= line@.len() && j >= 0 {
                assert(j >= i);
            }
        }
    }
    None
}

/// Whether `pattern` occurs in `line`.
pub fn contains_pattern(line: &str, pattern: &str) -> (r: bool)
    ensures
        r == has_substr(line@, pattern@),
{
    match find_substr(line, pattern) {
        Some(_) => true,
        None => false,
    }
}

/// A case-insensitive occurrence of `p` in `s` at position `i`: the
/// lowercase of the `p.len()` characters starting there equals the lowercase
/// of `p`.
pub open spec fn ci_match_at(s: Seq<char>, p: Seq<char>, i: int) -> bool {
    0 <= i && i + p.len() <= s.len() && lower_of(s.subrange(i, i + p.len() as int)) == lower_of(p)
}

/// `p` occurs case-insensitively somewhere in `s`.
pub open spec fn has_ci_match(s: Seq<char>, p: Seq<char>) -> bool {
    exists|i: int| ci_match_at(s, p, i)
}

/// Finds the first case-insensitive occurrence of `pattern` in `line`, as a
/// character index.
pub fn find_ci_match(line: &str, pattern: &str) -> (r: Option<usize>)
    ensures
        match r {
            Some(i) => ci_match_at(line@, pattern@, i as int) && (forall|j: int|
                0 <= j < i ==> !ci_match_at(line@, pattern@, j)),
            None => !has_ci_match(line@, pattern@),
        },
{
    let n = line.unicode_len();
    let m = pattern.unicode_len();
    if m > n {
        proof {
            assert forall|i: int| !ci_match_at(line@, pattern@, i) by {}
        }
        return None;
    }
    if m == 0 {
        proof {
            assert(line@.subrange(0, 0) =~= pattern@);
            assert(ci_match_at(line@, pattern@, 0));
        }
        return Some(0);
    }
    let lowered_pattern = to_lower(pattern);
    let mut i: usize = 0;
    while i <= n - m
        invariant
            n == line@.len(),
            m == pattern@.len(),
            1 <= m <= n,
            i <= n - m + 1,
            lowered_pattern@ == lower_of(pattern@),
            forall|j: int| 0 <= j < i ==> !ci_match_at(line@, pattern@, j),
        decreases n - m + 1 - i,
    {
        let sub = line.substring_char(i, i + m);
        let lowered_sub = to_lower(sub);
        if lowered_sub == lowered_pattern {
            return Some(i);
        }
        i = i + 1;
    }
    proof {
        assert forall|j: int| !ci_match_at(line@, pattern@, j) by {
            if 0 <= j < i {
            } else if j + pattern@.len() <= line@.len() && j >= 0 {
                assert(j >= i);
            }
        }
    }
    None
}

/// Returns true if the given line contains the pattern, respecting case
/// sensitivity: a literal check when `case_sensitive` is set, and a check on
/// the lowercased line and pattern otherwise.
pub fn line_matches(line: &str, pattern: &str, case_sensitive: bool) -> (r: bool)
    ensures
        r == spec_line_matches(line@, pattern@, case_sensitive),
{
    if case_sensitive {
        contains_pattern(line, pattern)
    } else {
        let lower_line = to_lower(line);
        let lower_pattern = to_lower(pattern);
        contains_pattern(lower_line.as_str(), lower_pattern.as_str())
    }
}

} // verus!
