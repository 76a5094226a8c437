use vstd::prelude::*;
use crate::models::{Blog, BlogM};

verus! {

/// `t` occurs in `s` as a contiguous, case-sensitive run of characters.
/// The empty sequence occurs in everything.
pub open spec fn is_substring(t: Seq<char>, s: Seq<char>) -> bool {
    exists|k: int| 0 <= k <= s.len() - t.len() && #[trigger] s.subrange(k, k + t.len()) == t
}

/// Whether `t` occurs in any of the searchable fields of a post: title,
/// content, category, or one of its tags.
pub open spec fn matches_term(b: BlogM, t: Seq<char>) -> bool {
    ||| is_substring(t, b.title)
    ||| is_substring(t, b.content)
    ||| is_substring(t, b.category)
    ||| exists|i: int| 0 <= i < b.tags.len() && is_substring(t, b.tags[i])
}

/// Compares `t` against the characters of `s` starting at position `k`.
fn match_at(s: &str, t: &str, k: usize, tlen: usize) -> (r: bool)
    requires
        tlen == t@.len(),
        k + tlen <= s@.len(),
        s@.len() <= usize::MAX,
    ensures
        r == (s@.subrange(k as int, k + tlen) == t@),
{
    let mut j: usize = 0;
    while j < tlen
        invariant
            0 <= j <= tlen,
            tlen == t@.len(),
            k + tlen <= s@.len(),
            s@.len() <= usize::MAX,
            forall|m: int| 0 <= m < j ==> s@[k + m] == t@[m],
        decreases tlen - j,
    {
        if s.get_char(k + j) != t.get_char(j) {
            proof {
                assert(s@.subrange(k as int, k + tlen)[j as int] == s@[k + j]);
            }
            return false;
        }
        j += 1;
    }
    proof {
        assert(s@.subrange(k as int, k + tlen) =~= t@);
    }
    true
}

/// Case-sensitive substring test: returns whether `t` occurs in `s`.
pub fn contains_substr(s: &str, t: &str) -> (r: bool)
    ensures
        r == is_substring(t@, s@),
{
    let slen = s.unicode_len();
    let tlen = t.unicode_len();
    if tlen > slen {
        return false;
    }
    if tlen == 0 {
        proof {
            assert(s@.subrange(0, 0 + t@.len() as int) =~= t@);
            assert(is_substring(t@, s@));
        }
        return true;
    }
    let mut k: usize = 0;
    while k <= slen - tlen
        invariant
            slen == s@.len(),
            tlen == t@.len(),
            0 < tlen <= slen,
            0 <= k <= slen - tlen + 1,
            forall|k2: int| 0 <= k2 < k ==> #[trigger] s@.subrange(k2, k2 + tlen) != t@,
        decreases slen + 1 - tlen - k,
    {
        if match_at(s, t, k, tlen) {
            return true;
        }
        k += 1;
    }
    false
}

/// Whether `term` occurs in the post's title, content, category or any tag.
pub fn blog_matches_term(b: &Blog, term: &str) -> (r: bool)
    ensures
        r == matches_term(b@, term@),
{
    if contains_substr(b.title.as_str(), term) {
        return true;
    }
    if contains_substr(b.content.as_str(), term) {
        return true;
    }
    if contains_substr(b.category.as_str(), term) {
        return true;
    }
    let mut i: usize = 0;
    while i < b.tags.len()
        invariant
            forall|j: int| 0 <= j < i ==> !is_substring(term@, b@.tags[j]),
        decreases b.tags@.len() - i,
    {
        if contains_substr(b.tags[i].as_str(), term) {
            proof {
                assert(b@.tags[i as int] == b.tags@[i as int]@);
            }
            return true;
        }
        i += 1;
    }
    false
}

} // verus!
