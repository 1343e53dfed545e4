//! First-occurrence search of one sequence inside another, the primitive
//! behind every file-name filter in this crate.

use vstd::prelude::*;
use vstd::string::StrSliceExecFns;

verus! {

/// `needle` occurs in `hay` starting at position `i`.
pub open spec fn occurs_at<T>(hay: Seq<T>, needle: Seq<T>, i: int) -> bool {
    0 <= i && i + needle.len() <= hay.len() && hay.subrange(i, i + needle.len()) == needle
}

/// The least position at or after `i` where `needle` occurs in `hay`, if
/// any.
pub open spec fn first_occurrence_from<T>(hay: Seq<T>, needle: Seq<T>, i: int) -> Option<int>
    decreases hay.len() - i + 1,
{
    if i + needle.len() > hay.len() {
        None
    } else if occurs_at(hay, needle, i) {
        Some(i)
    } else {
        first_occurrence_from(hay, needle, i + 1)
    }
}

/// What a found occurrence means: it is at or after the start, it is a real
/// occurrence, and no position between the start and it is one.
pub proof fn lemma_first_occurrence_some<T>(hay: Seq<T>, needle: Seq<T>, i: int, j: int)
    requires
        first_occurrence_from(hay, needle, i) == Some(j),
    ensures
        i <= j,
        occurs_at(hay, needle, j),
        forall|m: int| i <= m < j ==> !occurs_at(hay, needle, m),
    decreases hay.len() - i + 1,
{
    if i + needle.len() > hay.len() {
    } else if occurs_at(hay, needle, i) {
    } else {
        lemma_first_occurrence_some(hay, needle, i + 1, j);
    }
}

/// An occurrence in a suffix is the same occurrence in the whole sequence,
/// shifted by where the suffix starts.
pub proof fn lemma_occurs_at_skip<T>(hay: Seq<T>, needle: Seq<T>, a: int, j: int)
    requires
        0 <= a <= hay.len(),
        0 <= j,
    ensures
        occurs_at(hay.skip(a), needle, j) == occurs_at(hay, needle, a + j),
{
    if j + needle.len() <= hay.skip(a).len() {
        assert(hay.skip(a).subrange(j, j + needle.len()) =~= hay.subrange(
            a + j,
            a + j + needle.len(),
        ));
    }
}

/// Searching a suffix finds the same first occurrence as searching the
/// whole sequence from the suffix's start, shifted by where it starts.
pub proof fn lemma_first_occurrence_skip<T>(hay: Seq<T>, needle: Seq<T>, a: int, j: int)
    requires
        0 <= a <= hay.len(),
        0 <= j,
    ensures
        first_occurrence_from(hay.skip(a), needle, j) == (match first_occurrence_from(
            hay,
            needle,
            a + j,
        ) {
            Some(x) => Some(x - a),
            None => None::<int>,
        }),
    decreases hay.len() - a - j,
{
    lemma_occurs_at_skip(hay, needle, a, j);
    if j + needle.len() > hay.skip(a).len() {
    } else if needle.len() == 0 {
        assert(hay.skip(a).subrange(j, j + needle.len()) =~= needle);
    } else if occurs_at(hay.skip(a), needle, j) {
    } else {
        lemma_first_occurrence_skip(hay, needle, a, j + 1);
    }
}

/// Whether `needle` occurs at position `i` of `hay`, byte for byte.
pub fn bytes_match_at(hay: &[u8], i: usize, needle: &[u8]) -> (r: bool)
    requires
        i + needle@.len() <= hay@.len(),
    ensures
        r == occurs_at(hay@, needle@, i as int),
{
    let hlen = hay.len();
    let nlen = needle.len();
    let mut j: usize = 0;
    while j < nlen
        invariant
            0 <= j <= nlen,
            hlen == hay@.len(),
            nlen == needle@.len(),
            i + nlen <= hay@.len(),
            forall|m: int| 0 <= m < j ==> hay@[i + m] == needle@[m],
        decreases nlen - j,
    {
        if hay[i + j] != needle[j] {
            assert(!occurs_at(hay@, needle@, i as int)) by {
                if occurs_at(hay@, needle@, i as int) {
                    assert(hay@.subrange(i as int, i + needle@.len())[j as int] == needle@[
                        j as int
                    ]);
                }
            }
            return false;
        }
        j = j + 1;
    }
    assert(hay@.subrange(i as int, i + needle@.len()) =~= needle@);
    true
}

/// The least position at or after `from` where `needle` occurs in `hay`.
pub fn find_first_bytes(hay: &[u8], from: usize, needle: &[u8]) -> (r: Option<usize>)
    requires
        from <= hay@.len(),
    ensures
        r matches Some(j) ==> first_occurrence_from(hay@, needle@, from as int) == Some(
            j as int,
        ) && from <= j && j + needle@.len() <= hay@.len(),
        r is None ==> first_occurrence_from(hay@, needle@, from as int) is None,
{
    let hlen = hay.len();
    let nlen = needle.len();
    if nlen == 0 {
        assert(occurs_at(hay@, needle@, from as int)) by {
            assert(hay@.subrange(from as int, from as int) =~= needle@);
        }
        return Some(from);
    }
    if nlen > hlen || from > hlen - nlen {
        assert(first_occurrence_from(hay@, needle@, from as int) is None);
        return None;
    }
    let mut i: usize = from;
    while i <= hlen - nlen
        invariant
            from <= i <= hlen - nlen + 1,
            1 <= nlen <= hlen,
            hlen == hay@.len(),
            nlen == needle@.len(),
            first_occurrence_from(hay@, needle@, from as int) == first_occurrence_from(
                hay@,
                needle@,
                i as int,
            ),
        decreases hlen - i,
    {
        if bytes_match_at(hay, i, needle) {
            assert(first_occurrence_from(hay@, needle@, i as int) == Some(i as int));
            return Some(i);
        }
        assert(first_occurrence_from(hay@, needle@, i as int) == first_occurrence_from(
            hay@,
            needle@,
            i + 1,
        ));
        i = i + 1;
    }
    assert(first_occurrence_from(hay@, needle@, i as int) is None);
    None
}

/// Whether `needle` occurs at position `i` of `hay`, character for
/// character.
fn chars_match_at(hay: &str, hlen: usize, i: usize, needle: &str, nlen: usize) -> (r: bool)
    requires
        hlen == hay@.len(),
        nlen == needle@.len(),
        i + nlen <= hlen,
    ensures
        r == occurs_at(hay@, needle@, i as int),
{
    let mut j: usize = 0;
    while j < nlen
        invariant
            0 <= j <= nlen,
            hlen == hay@.len(),
            nlen == needle@.len(),
            i + nlen <= hlen,
            forall|m: int| 0 <= m < j ==> hay@[i + m] == needle@[m],
        decreases nlen - j,
    {
        if hay.get_char(i + j) != needle.get_char(j) {
            assert(!occurs_at(hay@, needle@, i as int)) by {
                if occurs_at(hay@, needle@, i as int) {
                    assert(hay@.subrange(i as int, i + needle@.len())[j as int] == needle@[
                        j as int
                    ]);
                }
            }
            return false;
        }
        j = j + 1;
    }
    assert(hay@.subrange(i as int, i + needle@.len()) =~= needle@);
    true
}

/// The least position at or after `from` where `needle` occurs in `hay`,
/// counting in characters.
pub fn find_first_chars(hay: &str, from: usize, needle: &str) -> (r: Option<usize>)
    requires
        from <= hay@.len(),
    ensures
        r matches Some(j) ==> first_occurrence_from(hay@, needle@, from as int) == Some(
            j as int,
        ) && from <= j && j + needle@.len() <= hay@.len(),
        r is None ==> first_occurrence_from(hay@, needle@, from as int) is None,
{
    let hlen = hay.unicode_len();
    let nlen = needle.unicode_len();
    if nlen == 0 {
        assert(occurs_at(hay@, needle@, from as int)) by {
            assert(hay@.subrange(from as int, from as int) =~= needle@);
        }
        return Some(from);
    }
    if nlen > hlen || from > hlen - nlen {
        assert(first_occurrence_from(hay@, needle@, from as int) is None);
        return None;
    }
    let mut i: usize = from;
    while i <= hlen - nlen
        invariant
            from <= i <= hlen - nlen + 1,
            1 <= nlen <= hlen,
            hlen == hay@.len(),
            nlen == needle@.len(),
            first_occurrence_from(hay@, needle@, from as int) == first_occurrence_from(
                hay@,
                needle@,
                i as int,
            ),
        decreases hlen - i,
    {
        if chars_match_at(hay, hlen, i, needle, nlen) {
            assert(first_occurrence_from(hay@, needle@, i as int) == Some(i as int));
            return Some(i);
        }
        assert(first_occurrence_from(hay@, needle@, i as int) == first_occurrence_from(
            hay@,
            needle@,
            i + 1,
        ));
        i = i + 1;
    }
    assert(first_occurrence_from(hay@, needle@, i as int) is None);
    None
}

} // verus!
