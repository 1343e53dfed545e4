//! Association lists of string keys, the mathematical model shared by the
//! settings table and the timer's variable table.

use vstd::prelude::*;

verus! {

/// The value stored under `k`, if any; the first entry for a key counts.
pub open spec fn assoc_get<V>(s: Seq<(Seq<char>, V)>, k: Seq<char>) -> Option<V>
    decreases s.len(),
{
    if s.len() == 0 {
        None
    } else if s[0].0 == k {
        Some(s[0].1)
    } else {
        assoc_get(s.drop_first(), k)
    }
}

/// `s` with `k` set to `v`: the first entry for `k` is replaced in place, or
/// the pair is appended if `k` is absent.
pub open spec fn assoc_set<V>(s: Seq<(Seq<char>, V)>, k: Seq<char>, v: V) -> Seq<(Seq<char>, V)>
    decreases s.len(),
{
    if s.len() == 0 {
        seq![(k, v)]
    } else if s[0].0 == k {
        seq![(k, v)] + s.drop_first()
    } else {
        seq![s[0]] + assoc_set(s.drop_first(), k, v)
    }
}

/// Setting a key stores exactly that value under it.
pub proof fn lemma_assoc_get_set_same<V>(s: Seq<(Seq<char>, V)>, k: Seq<char>, v: V)
    ensures
        assoc_get(assoc_set(s, k, v), k) == Some(v),
    decreases s.len(),
{
    if s.len() == 0 {
        assert(assoc_set(s, k, v)[0] == (k, v));
    } else if s[0].0 == k {
        assert(assoc_set(s, k, v)[0] == (k, v));
    } else {
        lemma_assoc_get_set_same(s.drop_first(), k, v);
        assert(assoc_set(s, k, v)[0] == s[0]);
        assert(assoc_set(s, k, v).drop_first() =~= assoc_set(s.drop_first(), k, v));
    }
}

/// Setting a key leaves every other key's value untouched.
pub proof fn lemma_assoc_get_set_other<V>(s: Seq<(Seq<char>, V)>, k: Seq<char>, v: V, k2: Seq<
    char,
>)
    requires
        k2 != k,
    ensures
        assoc_get(assoc_set(s, k, v), k2) == assoc_get(s, k2),
    decreases s.len(),
{
    if s.len() == 0 {
        let t = assoc_set(s, k, v);
        assert(t[0] == (k, v));
        assert(t.drop_first() =~= Seq::<(Seq<char>, V)>::empty());
        assert(assoc_get(t.drop_first(), k2) is None);
    } else if s[0].0 == k {
        assert(assoc_set(s, k, v)[0] == (k, v));
        assert(assoc_set(s, k, v).drop_first() =~= s.drop_first());
    } else {
        lemma_assoc_get_set_other(s.drop_first(), k, v, k2);
        assert(assoc_set(s, k, v)[0] == s[0]);
        assert(assoc_set(s, k, v).drop_first() =~= assoc_set(s.drop_first(), k, v));
    }
}

/// If `s[j]` is the first entry for `k`, lookup returns its value.
pub proof fn lemma_assoc_get_at<V>(s: Seq<(Seq<char>, V)>, k: Seq<char>, j: int)
    requires
        0 <= j < s.len(),
        s[j].0 == k,
        forall|i: int| 0 <= i < j ==> s[i].0 != k,
    ensures
        assoc_get(s, k) == Some(s[j].1),
    decreases j,
{
    if j > 0 {
        lemma_assoc_get_at(s.drop_first(), k, j - 1);
    }
}

/// If no entry is for `k`, lookup returns nothing.
pub proof fn lemma_assoc_get_absent<V>(s: Seq<(Seq<char>, V)>, k: Seq<char>)
    requires
        forall|i: int| 0 <= i < s.len() ==> s[i].0 != k,
    ensures
        assoc_get(s, k) is None,
    decreases s.len(),
{
    if s.len() > 0 {
        lemma_assoc_get_absent(s.drop_first(), k);
    }
}

/// If `s[j]` is the first entry for `k`, setting `k` updates that slot.
pub proof fn lemma_assoc_set_at<V>(s: Seq<(Seq<char>, V)>, k: Seq<char>, v: V, j: int)
    requires
        0 <= j < s.len(),
        s[j].0 == k,
        forall|i: int| 0 <= i < j ==> s[i].0 != k,
    ensures
        assoc_set(s, k, v) == s.update(j, (k, v)),
    decreases j,
{
    if j == 0 {
        assert(assoc_set(s, k, v) =~= s.update(0, (k, v)));
    } else {
        lemma_assoc_set_at(s.drop_first(), k, v, j - 1);
        assert(s.drop_first().update(j - 1, (k, v)) =~= s.update(j, (k, v)).drop_first());
        assert(assoc_set(s, k, v) =~= s.update(j, (k, v)));
    }
}

/// If no entry is for `k`, setting `k` appends a new entry.
pub proof fn lemma_assoc_set_absent<V>(s: Seq<(Seq<char>, V)>, k: Seq<char>, v: V)
    requires
        forall|i: int| 0 <= i < s.len() ==> s[i].0 != k,
    ensures
        assoc_set(s, k, v) == s.push((k, v)),
    decreases s.len(),
{
    if s.len() == 0 {
        assert(assoc_set(s, k, v) =~= s.push((k, v)));
    } else {
        lemma_assoc_set_absent(s.drop_first(), k, v);
        assert(s.drop_first().push((k, v)) =~= s.push((k, v)).drop_first());
        assert(assoc_set(s, k, v) =~= s.push((k, v)));
    }
}

} // verus!
