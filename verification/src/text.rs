//! Character-sequence primitives: substring occurrence and separator splits.
//!
//! The remote control plane reports errors as text, and image references are
//! `registry/.../repository:tag` paths; both are classified by the character
//! patterns defined here.

use vstd::prelude::*;
use vstd::string::StrSliceExecFns;

verus! {

/// `pat` occurs in `text` starting at position `i`.
pub open spec fn match_at(text: Seq<char>, pat: Seq<char>, i: int) -> bool {
    0 <= i && i + pat.len() <= text.len() && text.subrange(i, i + pat.len() as int) == pat
}

/// `pat` occurs somewhere in `text`.
pub open spec fn has_substring(text: Seq<char>, pat: Seq<char>) -> bool {
    exists|i: int| match_at(text, pat, i)
}

/// `c` occurs somewhere in `s`.
pub open spec fn has_char(s: Seq<char>, c: char) -> bool {
    exists|i: int| 0 <= i < s.len() && s[i] == c
}

/// The characters after the last occurrence of `c` in `s`; all of `s` when
/// `c` does not occur.
pub open spec fn suffix_after_last(s: Seq<char>, c: char) -> Seq<char>
    decreases s.len(),
{
    if s.len() == 0 {
        s
    } else if s.last() == c {
        Seq::empty()
    } else {
        suffix_after_last(s.drop_last(), c).push(s.last())
    }
}

/// The characters before the first occurrence of `c` in `s`; all of `s` when
/// `c` does not occur.
pub open spec fn prefix_before_first(s: Seq<char>, c: char) -> Seq<char>
    decreases s.len(),
{
    if s.len() == 0 {
        s
    } else if s[0] == c {
        Seq::empty()
    } else {
        seq![s[0]] + prefix_before_first(s.drop_first(), c)
    }
}

/// The characters after the first occurrence of `c` in `s`; empty when `c`
/// does not occur.
pub open spec fn suffix_after_first(s: Seq<char>, c: char) -> Seq<char>
    decreases s.len(),
{
    if s.len() == 0 {
        s
    } else if s[0] == c {
        s.drop_first()
    } else {
        suffix_after_first(s.drop_first(), c)
    }
}

/// When the last occurrence of `c` stands at `i`, the suffix after it is the
/// subrange behind `i`.
pub proof fn lemma_suffix_after_last_at(s: Seq<char>, c: char, i: int)
    requires
        0 <= i < s.len(),
        s[i] == c,
        forall|j: int| i < j < s.len() ==> s[j] != c,
    ensures
        suffix_after_last(s, c) == s.subrange(i + 1, s.len() as int),
    decreases s.len(),
{
    if i == s.len() - 1 {
        assert(s.subrange(i + 1, s.len() as int) =~= Seq::<char>::empty());
    } else {
        lemma_suffix_after_last_at(s.drop_last(), c, i);
        assert(s.subrange(i + 1, s.len() as int) =~= s.drop_last().subrange(
            i + 1,
            s.len() - 1,
        ).push(s.last()));
    }
}

/// When `c` does not occur in `s`, the suffix after its last occurrence is
/// all of `s`.
pub proof fn lemma_suffix_after_last_none(s: Seq<char>, c: char)
    requires
        forall|j: int| 0 <= j < s.len() ==> s[j] != c,
    ensures
        suffix_after_last(s, c) == s,
    decreases s.len(),
{
    if s.len() > 0 {
        lemma_suffix_after_last_none(s.drop_last(), c);
        assert(s.drop_last().push(s.last()) =~= s);
    }
}

/// When the first occurrence of `c` stands at `i`, the prefix before it is
/// the subrange ahead of `i`.
pub proof fn lemma_prefix_before_first_at(s: Seq<char>, c: char, i: int)
    requires
        0 <= i < s.len(),
        s[i] == c,
        forall|j: int| 0 <= j < i ==> s[j] != c,
    ensures
        prefix_before_first(s, c) == s.subrange(0, i),
    decreases i,
{
    if i == 0 {
        assert(s.subrange(0, 0) =~= Seq::<char>::empty());
    } else {
        lemma_prefix_before_first_at(s.drop_first(), c, i - 1);
        assert(s.subrange(0, i) =~= seq![s[0]] + s.drop_first().subrange(0, i - 1));
    }
}

/// When `c` does not occur in `s`, the prefix before its first occurrence is
/// all of `s`.
pub proof fn lemma_prefix_before_first_none(s: Seq<char>, c: char)
    requires
        forall|j: int| 0 <= j < s.len() ==> s[j] != c,
    ensures
        prefix_before_first(s, c) == s,
    decreases s.len(),
{
    if s.len() > 0 {
        lemma_prefix_before_first_none(s.drop_first(), c);
        assert(seq![s[0]] + s.drop_first() =~= s);
    }
}

/// When the first occurrence of `c` stands at `i`, the suffix after it is the
/// subrange behind `i`.
pub proof fn lemma_suffix_after_first_at(s: Seq<char>, c: char, i: int)
    requires
        0 <= i < s.len(),
        s[i] == c,
        forall|j: int| 0 <= j < i ==> s[j] != c,
    ensures
        suffix_after_first(s, c) == s.subrange(i + 1, s.len() as int),
    decreases i,
{
    if i == 0 {
        assert(s.drop_first() =~= s.subrange(1, s.len() as int));
    } else {
        lemma_suffix_after_first_at(s.drop_first(), c, i - 1);
        assert(s.drop_first().subrange(i, s.len() - 1) =~= s.subrange(i + 1, s.len() as int));
    }
}

/// Substring search over the characters of two string slices.
pub fn contains_substring(text: &str, pat: &str) -> (r: bool)
    ensures
        r == has_substring(text@, pat@),
{
    let n = text.unicode_len();
    let m = pat.unicode_len();
    if m > n {
        assert(forall|i: int| !match_at(text@, pat@, i));
        return false;
    }
    if m == 0 {
        assert(text@.subrange(0, 0) =~= pat@);
        assert(match_at(text@, pat@, 0));
        return true;
    }
    let mut i: usize = 0;
    loop
        invariant
            1 <= m <= n,
            n == text@.len(),
            m == pat@.len(),
            i <= n - m + 1,
            forall|k: int| 0 <= k < i ==> !match_at(text@, pat@, k),
        decreases n - m + 1 - i,
    {
        if i > n - m {
            assert forall|k: int| !match_at(text@, pat@, k) by {
                if k >= i {
                    assert(k + pat@.len() > text@.len());
                }
            }
            return false;
        }
        let mut j: usize = 0;
        let mut mismatch = false;
        while j < m
            invariant
                m <= n,
                n == text@.len(),
                m == pat@.len(),
                i + m <= n,
                j <= m,
                !mismatch ==> forall|l: int| 0 <= l < j ==> text@[i + l] == pat@[l],
                mismatch ==> !match_at(text@, pat@, i as int),
            decreases m - j,
        {
            if text.get_char(i + j) != pat.get_char(j) {
                proof {
                    if match_at(text@, pat@, i as int) {
                        assert(text@.subrange(i as int, i + m)[j as int] == pat@[j as int]);
                    }
                }
                mismatch = true;
                j = m;
            } else {
                j = j + 1;
            }
        }
        if !mismatch {
            assert(text@.subrange(i as int, i + m) =~= pat@);
            assert(match_at(text@, pat@, i as int));
            return true;
        }
        i = i + 1;
    }
}

} // verus!
