//! Parsed file-name filters of the form `*.txt;*md`: variants separated by
//! `;`, each variant split at `*` into pieces that must occur in the file
//! name in order.

use vstd::prelude::*;
use vstd::string::StrSliceExecFns;
use crate::search::occurs_at;
use crate::search::first_occurrence_from;
use crate::search::lemma_first_occurrence_some;
use crate::search::lemma_first_occurrence_skip;
use crate::pattern::contains_in_order;
use crate::pattern::contains_all_in_order;

verus! {

/// `s` split at every occurrence of `sep`; splitting never loses text, and
/// an empty `s` still yields one (empty) part.
pub open spec fn split_on(s: Seq<char>, sep: char) -> Seq<Seq<char>>
    decreases s.len(),
    via split_on_decreases
{
    match first_occurrence_from(s, seq![sep], 0) {
        None => seq![s],
        Some(i) => seq![s.take(i)] + split_on(s.skip(i + 1), sep),
    }
}

#[via_fn]
proof fn split_on_decreases(s: Seq<char>, sep: char) {
    match first_occurrence_from(s, seq![sep], 0) {
        Some(i) => {
            lemma_first_occurrence_some(s, seq![sep], 0, i);
        },
        None => {},
    }
}

/// The mathematical form of a parsed filter: for each `;`-variant, its
/// `*`-separated pieces.
pub open spec fn parse_filter_spec(filter: Seq<char>) -> Seq<Seq<Seq<char>>> {
    split_on(filter, ';').map_values(|v: Seq<char>| split_on(v, '*'))
}

/// The least position at or after `from` holding character `c`.
fn find_char(hay: &str, from: usize, c: char) -> (r: Option<usize>)
    requires
        from <= hay@.len(),
    ensures
        r matches Some(j) ==> from <= j < hay@.len() && first_occurrence_from(
            hay@,
            seq![c],
            from as int,
        ) == Some(j as int),
        r is None ==> first_occurrence_from(hay@, seq![c], from as int) is None,
{
    let hlen = hay.unicode_len();
    let mut i: usize = from;
    while i < hlen
        invariant
            from <= i <= hlen,
            hlen == hay@.len(),
            first_occurrence_from(hay@, seq![c], from as int) == first_occurrence_from(
                hay@,
                seq![c],
                i as int,
            ),
        decreases hlen - i,
    {
        if hay.get_char(i) == c {
            proof {
                assert(hay@.subrange(i as int, i + 1) =~= seq![c]);
            }
            return Some(i);
        }
        proof {
            assert(!occurs_at(hay@, seq![c], i as int)) by {
                if occurs_at(hay@, seq![c], i as int) {
                    assert(hay@.subrange(i as int, i + 1)[0] == c);
                }
            }
        }
        i = i + 1;
    }
    None
}

/// Split `s` at every `sep` into owned pieces.
fn split_str(s: &str, sep: char) -> (r: Vec<String>)
    ensures
        r@.map_values(|p: String| p@) == split_on(s@, sep),
{
    let slen = s.unicode_len();
    let mut out: Vec<String> = Vec::new();
    let mut pos: usize = 0;
    proof {
        assert(s@.skip(0) =~= s@);
        assert(out@.map_values(|p: String| p@) =~= Seq::<Seq<char>>::empty());
    }
    loop
        invariant
            0 <= pos <= slen,
            slen == s@.len(),
            split_on(s@, sep) =~= out@.map_values(|p: String| p@) + split_on(
                s@.skip(pos as int),
                sep,
            ),
        decreases slen - pos,
    {
        let ghost rest = s@.skip(pos as int);
        let ghost mapped = out@.map_values(|p: String| p@);
        match find_char(s, pos, sep) {
            None => {
                proof {
                    lemma_first_occurrence_skip(s@, seq![sep], pos as int, 0);
                    assert(first_occurrence_from(rest, seq![sep], 0) is None);
                }
                let piece = s.substring_char(pos, slen).to_owned();
                proof {
                    assert(piece@ =~= rest);
                }
                out.push(piece);
                proof {
                    assert(out@.map_values(|p: String| p@) =~= mapped + seq![rest]);
                    assert(split_on(s@, sep) =~= out@.map_values(|p: String| p@));
                }
                return out;
            },
            Some(i) => {
                proof {
                    lemma_first_occurrence_skip(s@, seq![sep], pos as int, 0);
                    assert(first_occurrence_from(rest, seq![sep], 0) == Some(i - pos));
                }
                let piece = s.substring_char(pos, i).to_owned();
                proof {
                    assert(piece@ =~= rest.take(i - pos));
                }
                out.push(piece);
                proof {
                    assert(s@.skip(i + 1) =~= rest.skip(i - pos + 1));
                    assert(out@.map_values(|p: String| p@) =~= mapped + seq![rest.take(i - pos)]);
                    assert(mapped + seq![rest.take(i - pos)] + split_on(s@.skip(i + 1), sep)
                        =~= mapped + (seq![rest.take(i - pos)] + split_on(
                        rest.skip(i - pos + 1),
                        sep,
                    )));
                }
                pos = i + 1;
            },
        }
    }
}

/// A parsed file-name filter.
#[derive(Debug)]
pub struct NameFilter {
    variants: Vec<Vec<String>>,
}

impl View for NameFilter {
    type V = Seq<Seq<Seq<char>>>;

    closed spec fn view(&self) -> Seq<Seq<Seq<char>>> {
        self.variants@.map_values(|vv: Vec<String>| vv@.map_values(|s: String| s@))
    }
}

/// Parse a filter: split at `;` into variants, each variant at `*` into its
/// pieces.
pub fn parse_filter(filter: &str) -> (r: NameFilter)
    ensures
        r@ == parse_filter_spec(filter@),
{
    let raw = split_str(filter, ';');
    let count = raw.len();
    let mut variants: Vec<Vec<String>> = Vec::new();
    let mut v: usize = 0;
    while v < count
        invariant
            0 <= v <= count,
            count == raw@.len(),
            variants@.len() == v,
            raw@.map_values(|p: String| p@) == split_on(filter@, ';'),
            forall|j: int|
                0 <= j < v ==> (#[trigger] variants@[j])@.map_values(|s: String| s@) == split_on(
                    raw@[j]@,
                    '*',
                ),
        decreases count - v,
    {
        let pieces = split_str(raw[v].as_str(), '*');
        variants.push(pieces);
        v = v + 1;
    }
    let r = NameFilter { variants };
    proof {
        assert(r@ =~= parse_filter_spec(filter@));
    }
    r
}

impl NameFilter {
    /// Whether some variant of the filter matches `name`: all of its pieces
    /// occur in `name`, in order.
    pub fn matches_name(&self, name: &str) -> (r: bool)
        ensures
            r == exists|v: int|
                0 <= v < self@.len() && contains_in_order(name@, #[trigger] self@[v]),
    {
        let count = self.variants.len();
        let mut v: usize = 0;
        while v < count
            invariant
                0 <= v <= count,
                count == self.variants@.len(),
                count == self@.len(),
                forall|j: int| 0 <= j < v ==> !contains_in_order(name@, #[trigger] self@[j]),
            decreases count - v,
        {
            proof {
                assert(self@[v as int] == self.variants@[v as int]@.map_values(
                    |s: String| s@,
                ));
            }
            if contains_all_in_order(name, self.variants[v].as_slice()) {
                proof {
                    assert(contains_in_order(name@, self@[v as int]));
                }
                return true;
            }
            v = v + 1;
        }
        false
    }
}

} // verus!
