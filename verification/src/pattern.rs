//! File-name filters: glob-like patterns matched against file names.
//!
//! A pattern is fixed byte runs separated by `*`.  Matching is greedy and
//! runs left to right: each fixed run after a `*` is located at its first
//! occurrence in what is left of the name; a fixed run not preceded by `*`
//! must sit exactly where matching stands; a trailing `*` swallows the rest,
//! otherwise the name must be fully consumed.

use vstd::prelude::*;
use vstd::slice::slice_subrange;
use vstd::string::StrSliceExecFns;
use crate::search::first_occurrence_from;
use crate::search::occurs_at;
use crate::search::lemma_first_occurrence_some;
use crate::search::lemma_first_occurrence_skip;
use crate::search::bytes_match_at;
use crate::search::find_first_bytes;
use crate::search::find_first_chars;

verus! {

/// Length of the leading run of pattern bytes before the first `*`.
pub open spec fn fixed_run(pat: Seq<u8>) -> int
    decreases pat.len(),
{
    if pat.len() == 0 || pat[0] == 42u8 {
        0
    } else {
        1 + fixed_run(pat.drop_first())
    }
}

/// The leading fixed run is never longer than the pattern, and is non-empty
/// exactly when the pattern starts with something other than `*`.
pub proof fn lemma_fixed_run_bounds(pat: Seq<u8>)
    ensures
        0 <= fixed_run(pat) <= pat.len(),
        pat.len() > 0 && pat[0] != 42u8 ==> 1 <= fixed_run(pat),
    decreases pat.len(),
{
    if pat.len() == 0 || pat[0] == 42u8 {
    } else {
        lemma_fixed_run_bounds(pat.drop_first());
    }
}

/// The leading fixed run is the bytes up to the first `*` (or the whole
/// pattern if there is none).
proof fn lemma_fixed_run_value(pat: Seq<u8>, k: int)
    requires
        0 <= k <= pat.len(),
        forall|i: int| 0 <= i < k ==> pat[i] != 42u8,
        k < pat.len() ==> pat[k] == 42u8,
    ensures
        fixed_run(pat) == k,
    decreases pat.len(),
{
    if pat.len() == 0 {
    } else if pat[0] == 42u8 {
    } else {
        let sub = pat.drop_first();
        assert forall|i: int| 0 <= i < k - 1 implies sub[i] != 42u8 by {
            assert(sub[i] == pat[i + 1]);
        }
        lemma_fixed_run_value(sub, k - 1);
    }
}

/// The greedy glob semantics.  `strip_any` says whether a `*` stands open
/// to the left of what remains of the pattern.
pub open spec fn glob_match(name: Seq<u8>, pat: Seq<u8>, strip_any: bool) -> bool
    decreases pat.len(),
    via glob_match_decreases
{
    if pat.len() == 0 {
        strip_any || name.len() == 0
    } else if pat[0] == 42u8 {
        glob_match(name, pat.skip(1), true)
    } else {
        let k = fixed_run(pat);
        let fixed = pat.take(k);
        if strip_any {
            match first_occurrence_from(name, fixed, 0) {
                Some(i) => glob_match(name.skip(i + k), pat.skip(k), false),
                None => false,
            }
        } else {
            name.len() >= k && name.take(k) == fixed && glob_match(
                name.skip(k),
                pat.skip(k),
                false,
            )
        }
    }
}

#[via_fn]
proof fn glob_match_decreases(name: Seq<u8>, pat: Seq<u8>, strip_any: bool) {
    if pat.len() > 0 && pat[0] != 42u8 {
        lemma_fixed_run_bounds(pat);
    }
}

/// Whether the glob `pattern` matches all of `file_name`.
pub fn matches_single_pattern(file_name: &[u8], pattern: &[u8]) -> (r: bool)
    ensures
        r == glob_match(file_name@, pattern@, false),
{
    let r = glob_match_from(file_name, 0, pattern, 0, false);
    proof {
        assert(file_name@.skip(0) =~= file_name@);
        assert(pattern@.skip(0) =~= pattern@);
    }
    r
}

/// The matcher proper, on the suffixes of `name` and `pat` that start at
/// `ni` and `pi`.
fn glob_match_from(name: &[u8], ni: usize, pat: &[u8], pi: usize, strip_any: bool) -> (r: bool)
    requires
        ni <= name@.len(),
        pi <= pat@.len(),
    ensures
        r == glob_match(name@.skip(ni as int), pat@.skip(pi as int), strip_any),
    decreases pat@.len() - pi,
{
    let nlen = name.len();
    let plen = pat.len();
    let ghost sname = name@.skip(ni as int);
    let ghost spat = pat@.skip(pi as int);
    if pi == plen {
        assert(sname.len() == 0 <==> ni == nlen);
        return strip_any || ni == nlen;
    }
    assert(spat[0] == pat@[pi as int]);
    if pat[pi] == 42u8 {
        let r = glob_match_from(name, ni, pat, pi + 1, true);
        proof {
            assert(spat.skip(1) =~= pat@.skip(pi + 1));
        }
        return r;
    }
    let mut end: usize = pi + 1;
    while end < plen && pat[end] != 42u8
        invariant
            pi < end <= plen,
            plen == pat@.len(),
            pat@[pi as int] != 42u8,
            forall|m: int| pi <= m < end ==> pat@[m] != 42u8,
        decreases plen - end,
    {
        end = end + 1;
    }
    let k = end - pi;
    proof {
        assert forall|m: int| 0 <= m < k implies spat[m] != 42u8 by {
            assert(spat[m] == pat@[pi + m]);
        }
        if (k as int) < spat.len() {
            assert(spat[k as int] == pat@[end as int]);
        }
        lemma_fixed_run_value(spat, k as int);
    }
    let fixed_sl = slice_subrange(pat, pi, end);
    let ghost fixed = spat.take(k as int);
    proof {
        assert(fixed_sl@ =~= fixed);
    }
    if strip_any {
        match find_first_bytes(name, ni, fixed_sl) {
            Some(i) => {
                proof {
                    lemma_first_occurrence_skip(name@, fixed, ni as int, 0);
                    assert(first_occurrence_from(sname, fixed, 0) == Some(i - ni));
                }
                let r = glob_match_from(name, i + k, pat, end, false);
                proof {
                    assert(name@.skip(i + k) =~= sname.skip(i - ni + k));
                    assert(pat@.skip(end as int) =~= spat.skip(k as int));
                }
                return r;
            },
            None => {
                proof {
                    lemma_first_occurrence_skip(name@, fixed, ni as int, 0);
                    assert(first_occurrence_from(sname, fixed, 0) is None);
                }
                return false;
            },
        }
    } else {
        if nlen - ni < k {
            assert(sname.len() < k);
            return false;
        }
        let pref_ok = bytes_match_at(name, ni, fixed_sl);
        if !pref_ok {
            proof {
                assert(sname.take(k as int) =~= name@.subrange(ni as int, ni + k));
                if sname.take(k as int) == fixed {
                    assert(occurs_at(name@, fixed, ni as int));
                }
            }
            return false;
        }
        let r = glob_match_from(name, ni + k, pat, end, false);
        proof {
            assert(sname.take(k as int) =~= name@.subrange(ni as int, ni + k));
            assert(sname.take(k as int) == fixed);
            assert(name@.skip(ni + k) =~= sname.skip(k as int));
            assert(pat@.skip(end as int) =~= spat.skip(k as int));
        }
        return r;
    }
}

/// The least position at or after `from` holding byte `b`.
fn find_byte(hay: &[u8], from: usize, b: u8) -> (r: Option<usize>)
    requires
        from <= hay@.len(),
    ensures
        r matches Some(j) ==> from <= j < hay@.len() && first_occurrence_from(
            hay@,
            seq![b],
            from as int,
        ) == Some(j as int),
        r is None ==> first_occurrence_from(hay@, seq![b], from as int) is None,
{
    let hlen = hay.len();
    let mut i: usize = from;
    while i < hlen
        invariant
            from <= i <= hlen,
            hlen == hay@.len(),
            first_occurrence_from(hay@, seq![b], from as int) == first_occurrence_from(
                hay@,
                seq![b],
                i as int,
            ),
        decreases hlen - i,
    {
        if hay[i] == b {
            proof {
                assert(hay@.subrange(i as int, i + 1) =~= seq![b]);
            }
            return Some(i);
        }
        proof {
            assert(!occurs_at(hay@, seq![b], i as int)) by {
                if occurs_at(hay@, seq![b], i as int) {
                    assert(hay@.subrange(i as int, i + 1)[0] == b);
                }
            }
        }
        i = i + 1;
    }
    None
}

/// The greatest position holding byte `b`, if any.
pub open spec fn last_index_of(s: Seq<u8>, b: u8) -> Option<int>
    decreases s.len(),
{
    if s.len() == 0 {
        None
    } else if s.last() == b {
        Some(s.len() - 1)
    } else {
        last_index_of(s.drop_last(), b)
    }
}

/// The greatest position holding byte `b`, if any.
fn find_last_byte(hay: &[u8], b: u8) -> (r: Option<usize>)
    ensures
        r matches Some(j) ==> j < hay@.len() && last_index_of(hay@, b) == Some(j as int),
        r is None ==> last_index_of(hay@, b) is None,
{
    let hlen = hay.len();
    proof {
        assert(hay@.take(hlen as int) =~= hay@);
    }
    let mut i: usize = hlen;
    while i > 0
        invariant
            0 <= i <= hlen,
            hlen == hay@.len(),
            last_index_of(hay@, b) == last_index_of(hay@.take(i as int), b),
        decreases i,
    {
        i = i - 1;
        if hay[i] == b {
            proof {
                assert(hay@.take(i + 1).last() == hay@[i as int]);
            }
            return Some(i);
        }
        proof {
            assert(hay@.take(i + 1).last() == hay@[i as int]);
            assert(hay@.take(i + 1).drop_last() =~= hay@.take(i as int));
        }
    }
    None
}

/// Whether any of the space-separated pieces of `pat`, read as a glob,
/// matches all of `name`.
pub open spec fn any_piece_matches(name: Seq<u8>, pat: Seq<u8>) -> bool
    decreases pat.len(),
    via any_piece_matches_decreases
{
    match first_occurrence_from(pat, seq![32u8], 0) {
        None => glob_match(name, pat, false),
        Some(i) => glob_match(name, pat.take(i), false) || any_piece_matches(
            name,
            pat.skip(i + 1),
        ),
    }
}

#[via_fn]
proof fn any_piece_matches_decreases(name: Seq<u8>, pat: Seq<u8>) {
    match first_occurrence_from(pat, seq![32u8], 0) {
        Some(i) => {
            lemma_first_occurrence_some(pat, seq![32u8], 0, i);
        },
        None => {},
    }
}

/// A file filter: either a space-separated list of glob patterns, or a MIME
/// type whose registered extensions count.
#[derive(Debug)]
pub enum FileFilter {
    Name { description: String, pattern: Vec<u8> },
    MimeType(String),
}

/// What [`matches_filter`] decides for a name and a filter.
pub open spec fn filter_matches(name: Seq<u8>, filter: FileFilter) -> bool {
    match filter {
        FileFilter::Name { description, pattern } => any_piece_matches(name, pattern@),
        FileFilter::MimeType(m) => mime_type_matches(name, m@),
    }
}

/// Whether `file_name` passes `filter`.
pub fn matches_filter(file_name: &[u8], filter: &FileFilter) -> (r: bool)
    ensures
        r == filter_matches(file_name@, *filter),
{
    match filter {
        FileFilter::Name { description: _, pattern } => {
            proof {
                assert(filter->pattern == *pattern);
            }
            let pat = pattern.as_slice();
            let plen = pat.len();
            proof {
                assert(pat@.skip(0) =~= pat@);
            }
            let mut pos: usize = 0;
            loop
                invariant
                    0 <= pos <= plen,
                    plen == pat@.len(),
                    pat@ == pattern@,
                    filter_matches(file_name@, *filter) == any_piece_matches(
                        file_name@,
                        pat@.skip(pos as int),
                    ),
                decreases plen - pos,
            {
                let ghost rest = pat@.skip(pos as int);
                match find_byte(pat, pos, 32u8) {
                    None => {
                        proof {
                            lemma_first_occurrence_skip(pat@, seq![32u8], pos as int, 0);
                            assert(first_occurrence_from(rest, seq![32u8], 0) is None);
                        }
                        let piece = slice_subrange(pat, pos, plen);
                        proof {
                            assert(piece@ =~= rest);
                        }
                        return matches_single_pattern(file_name, piece);
                    },
                    Some(i) => {
                        proof {
                            lemma_first_occurrence_skip(pat@, seq![32u8], pos as int, 0);
                            assert(first_occurrence_from(rest, seq![32u8], 0) == Some(
                                i - pos,
                            ));
                        }
                        let piece = slice_subrange(pat, pos, i);
                        proof {
                            assert(piece@ =~= rest.take(i - pos));
                        }
                        if matches_single_pattern(file_name, piece) {
                            return true;
                        }
                        proof {
                            assert(pat@.skip(i + 1) =~= rest.skip(i - pos + 1));
                        }
                        pos = i + 1;
                    },
                }
            }
        },
        FileFilter::MimeType(m) => matches_mime_type(file_name, m.as_str()),
    }
}

/// The file extensions registered for the MIME type `{top}/{sub}`, as the
/// lookup table of the `mime_guess` crate has them; nothing for unknown
/// types.  A fixed function of the two names alone.
pub uninterp spec fn mime_extensions(top: Seq<char>, sub: Seq<char>) -> Option<Seq<Seq<u8>>>;

/// Relies on `mime_guess::get_extensions`: the extensions registered for
/// `{top}/{sub}` in its compiled-in table, `None` for unknown types.  A `*`
/// top level selects all extensions, a `*` sub level all of the top level.
#[verifier::external_body]
fn lookup_mime_extensions(top: &str, sub: &str) -> (r: Option<Vec<Vec<u8>>>)
    ensures
        r is Some <==> mime_extensions(top@, sub@) is Some,
        r matches Some(v) ==> mime_extensions(top@, sub@) == Some(v.deep_view()),
{
    mime_guess::get_extensions(top, sub).map(
        |exts| exts.iter().map(|e| e.as_bytes().to_vec()).collect(),
    )
}

/// Whether `name` carries an extension registered for the MIME type `mime`:
/// `mime` splits at its first `/`, the extension is what follows the last
/// `.` of the name, and it must be listed for that type.
pub open spec fn mime_type_matches(name: Seq<u8>, mime: Seq<char>) -> bool {
    match first_occurrence_from(mime, seq!['/'], 0) {
        None => false,
        Some(i) => match mime_extensions(mime.take(i), mime.skip(i + 1)) {
            None => false,
            Some(exts) => match last_index_of(name, 46u8) {
                None => false,
                Some(d) => exists|e: int|
                    0 <= e < exts.len() && exts[e] == name.skip(d + 1),
            },
        },
    }
}

/// Byte-for-byte equality of two byte slices.
pub fn bytes_eq(a: &[u8], b: &[u8]) -> (r: bool)
    ensures
        r == (a@ == b@),
{
    let alen = a.len();
    let blen = b.len();
    if alen != blen {
        assert(a@ != b@);
        return false;
    }
    let mut i: usize = 0;
    while i < alen
        invariant
            0 <= i <= alen,
            alen == a@.len(),
            alen == b@.len(),
            forall|j: int| 0 <= j < i ==> a@[j] == b@[j],
        decreases alen - i,
    {
        if a[i] != b[i] {
            return false;
        }
        i = i + 1;
    }
    assert(a@ =~= b@);
    true
}

/// Whether `file_name` has an extension registered for the MIME type
/// `mime_type`.
pub fn matches_mime_type(file_name: &[u8], mime_type: &str) -> (r: bool)
    ensures
        r == mime_type_matches(file_name@, mime_type@),
{
    proof {
        reveal_strlit("/");
        assert("/"@ =~= seq!['/']);
    }
    let mlen = mime_type.unicode_len();
    match find_first_chars(mime_type, 0, "/") {
        None => false,
        Some(i) => {
            let top = mime_type.substring_char(0, i);
            let sub = mime_type.substring_char(i + 1, mlen);
            proof {
                assert(top@ =~= mime_type@.take(i as int));
                assert(sub@ =~= mime_type@.skip(i + 1));
            }
            match lookup_mime_extensions(top, sub) {
                None => false,
                Some(exts) => {
                    match find_last_byte(file_name, 46u8) {
                        None => false,
                        Some(d) => {
                            let nlen = file_name.len();
                            let ext = slice_subrange(file_name, d + 1, nlen);
                            proof {
                                assert(ext@ =~= file_name@.skip(d + 1));
                            }
                            let elen = exts.len();
                            let mut e: usize = 0;
                            proof {
                                assert(exts.deep_view().len() == exts@.len());
                                assert(first_occurrence_from(mime_type@, seq!['/'], 0) == Some(
                                    i as int,
                                ));
                                assert(mime_extensions(
                                    mime_type@.take(i as int),
                                    mime_type@.skip(i + 1),
                                ) == Some(exts.deep_view()));
                                assert(last_index_of(file_name@, 46u8) == Some(d as int));
                            }
                            while e < elen
                                invariant
                                    0 <= e <= elen,
                                    elen == exts@.len(),
                                    elen == exts.deep_view().len(),
                                    ext@ == file_name@.skip(d + 1),
                                    first_occurrence_from(mime_type@, seq!['/'], 0) == Some(
                                        i as int,
                                    ),
                                    mime_extensions(
                                        mime_type@.take(i as int),
                                        mime_type@.skip(i + 1),
                                    ) == Some(exts.deep_view()),
                                    last_index_of(file_name@, 46u8) == Some(d as int),
                                    forall|j: int|
                                        0 <= j < e ==> exts.deep_view()[j] != ext@,
                                decreases elen - e,
                            {
                                proof {
                                    assert(exts.deep_view()[e as int] == exts@[e as int]@);
                                }
                                if bytes_eq(ext, exts[e].as_slice()) {
                                    proof {
                                        let w = e as int;
                                        let es = mime_extensions(
                                            mime_type@.take(i as int),
                                            mime_type@.skip(i + 1),
                                        )->0;
                                        assert(es == exts.deep_view());
                                        assert(0 <= w < es.len() && es[w] == file_name@.skip(
                                            d + 1,
                                        ));
                                        assert(mime_type_matches(file_name@, mime_type@));
                                    }
                                    return true;
                                }
                                e = e + 1;
                            }
                            assert(forall|j: int|
                                0 <= j < exts.deep_view().len() ==> exts.deep_view()[j]
                                    != ext@);
                            assert(!mime_type_matches(file_name@, mime_type@));
                            false
                        },
                    }
                },
            }
        },
    }
}

/// Whether the pieces all occur in the haystack, in order and without
/// overlap: each is looked up at its first occurrence in what is left after
/// the previous one.
pub open spec fn contains_in_order(hay: Seq<char>, needles: Seq<Seq<char>>) -> bool
    decreases needles.len(),
{
    if needles.len() == 0 {
        true
    } else {
        match first_occurrence_from(hay, needles[0], 0) {
            None => false,
            Some(i) => contains_in_order(hay.skip(i + needles[0].len()), needles.drop_first()),
        }
    }
}

/// Whether every piece of `needles` occurs in `haystack`, in the given
/// order, each found after the end of the piece before it.
pub fn contains_all_in_order(haystack: &str, needles: &[String]) -> (r: bool)
    ensures
        r == contains_in_order(
            haystack@,
            needles@.map_values(|n: String| n@),
        ),
{
    let ghost mapped = needles@.map_values(|n: String| n@);
    proof {
        assert(haystack@.skip(0) =~= haystack@);
        assert(mapped.skip(0) =~= mapped);
    }
    let hlen = haystack.unicode_len();
    let count = needles.len();
    let mut pos: usize = 0;
    let mut t: usize = 0;
    while t < count
        invariant
            0 <= t <= count,
            0 <= pos <= hlen,
            hlen == haystack@.len(),
            count == needles@.len(),
            mapped == needles@.map_values(|n: String| n@),
            contains_in_order(haystack@, mapped) == contains_in_order(
                haystack@.skip(pos as int),
                mapped.skip(t as int),
            ),
        decreases count - t,
    {
        let ghost rest_hay = haystack@.skip(pos as int);
        let ghost rest_needles = mapped.skip(t as int);
        let needle = slice_index_str(needles, t);
        proof {
            assert(rest_needles[0] == needle@);
        }
        match find_first_chars(haystack, pos, needle) {
            None => {
                proof {
                    lemma_first_occurrence_skip(haystack@, needle@, pos as int, 0);
                    assert(first_occurrence_from(rest_hay, needle@, 0) is None);
                }
                return false;
            },
            Some(i) => {
                let nl = needle.unicode_len();
                proof {
                    lemma_first_occurrence_skip(haystack@, needle@, pos as int, 0);
                    assert(first_occurrence_from(rest_hay, needle@, 0) == Some(i - pos));
                    assert(haystack@.skip(i + nl) =~= rest_hay.skip(i - pos + nl));
                    assert(mapped.skip(t + 1) =~= rest_needles.drop_first());
                }
                pos = i + nl;
                t = t + 1;
            },
        }
    }
    proof {
        assert(mapped.skip(t as int).len() == 0);
    }
    true
}

/// The string at position `i` of a slice of strings.
fn slice_index_str(items: &[String], i: usize) -> (r: &str)
    requires
        i < items@.len(),
    ensures
        r@ == items@[i as int]@,
{
    items[i].as_str()
}

} // verus!
