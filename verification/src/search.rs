//! The pattern matcher: a first-occurrence byte search over a region.

use vstd::prelude::*;

verus! {

/// `needle` occurs in `haystack` starting exactly at index `i`.
pub open spec fn is_match_at(haystack: Seq<u8>, needle: Seq<u8>, i: int) -> bool {
    &&& 0 <= i
    &&& i + needle.len() <= haystack.len()
    &&& forall|j: int| 0 <= j < needle.len() ==> haystack[i + j] == needle[j]
}

/// `needle` occurs somewhere in `haystack` as a contiguous subsequence.
pub open spec fn occurs(haystack: Seq<u8>, needle: Seq<u8>) -> bool {
    exists|i: int| is_match_at(haystack, needle, i)
}

/// `i` is the lowest index at which `needle` occurs in `haystack`.
pub open spec fn is_first_match(haystack: Seq<u8>, needle: Seq<u8>, i: int) -> bool {
    &&& is_match_at(haystack, needle, i)
    &&& forall|j: int| 0 <= j < i ==> !is_match_at(haystack, needle, j)
}

/// The lowest index can only be one index: two first matches are the same.
pub proof fn lemma_first_match_unique(haystack: Seq<u8>, needle: Seq<u8>, i: int, j: int)
    requires
        is_first_match(haystack, needle, i),
        is_first_match(haystack, needle, j),
    ensures
        i == j,
{
}

/// Wherever some match exists, a first (lowest-index) match exists.
pub proof fn lemma_first_match_exists(haystack: Seq<u8>, needle: Seq<u8>, i: int)
    requires
        is_match_at(haystack, needle, i),
    ensures
        exists|k: int| is_first_match(haystack, needle, k),
    decreases i,
{
    if forall|j: int| 0 <= j < i ==> !is_match_at(haystack, needle, j) {
        assert(is_first_match(haystack, needle, i));
    } else {
        let j = choose|j: int| 0 <= j < i && is_match_at(haystack, needle, j);
        lemma_first_match_exists(haystack, needle, j);
    }
}

/// Compares `needle` against the bytes of `haystack` starting at `i`.
fn matches_at(haystack: &[u8], needle: &[u8], i: usize) -> (r: bool)
    requires
        i + needle@.len() <= haystack@.len(),
    ensures
        r == is_match_at(haystack@, needle@, i as int),
{
    let n = needle.len();
    let h = haystack.len();
    let mut j: usize = 0;
    while j < n
        invariant
            n == needle@.len(),
            h == haystack@.len(),
            i + n <= h,
            0 <= j <= n,
            forall|k: int| 0 <= k < j ==> haystack@[i + k] == needle@[k],
        decreases n - j,
    {
        if haystack[i + j] != needle[j] {
            return false;
        }
        j += 1;
    }
    true
}

/// Scans every starting position of `haystack` in increasing order and
/// returns the lowest index at which `needle` occurs byte-for-byte, or
/// `None` when `needle` occurs nowhere in `haystack`.
pub fn find(haystack: &[u8], needle: &[u8]) -> (r: Option<usize>)
    requires
        needle@.len() > 0,
    ensures
        r matches Some(i) ==> is_first_match(haystack@, needle@, i as int),
        r is None ==> !occurs(haystack@, needle@),
        occurs(haystack@, needle@) ==> r is Some,
{
    if needle.len() > haystack.len() {
        assert(forall|i: int| !is_match_at(haystack@, needle@, i));
        return None;
    }
    let last = haystack.len() - needle.len();
    let mut i: usize = 0;
    while i <= last
        invariant
            needle@.len() > 0,
            needle@.len() <= haystack@.len(),
            last == haystack@.len() - needle@.len(),
            last < haystack@.len() <= usize::MAX,
            0 <= i <= last + 1,
            forall|j: int| 0 <= j < i ==> !is_match_at(haystack@, needle@, j),
        decreases last + 1 - i,
    {
        if matches_at(haystack, needle, i) {
            return Some(i);
        }
        i += 1;
    }
    assert(forall|j: int| j > last ==> !is_match_at(haystack@, needle@, j));
    None
}

} // verus!
